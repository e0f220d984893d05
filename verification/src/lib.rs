//! A retained-mode 3D scene and rendering core.
//!
//! The library owns GPU-adjacent resources (buffers, images, samplers,
//! textures, shader programs, materials, meshes, cameras) in generational
//! arenas, organises scene nodes in a parent/child graph with world-transform
//! propagation, deduplicates compiled shader programs by material identity,
//! and drives a frame traversal that resolves materials and emits draw
//! commands. A baker imports an interchange scene description (buffers,
//! typed accessors, materials, meshes, node hierarchy, scene roots) into the
//! same store, inferring buffer usage from cross-references.
//!
//! The graphics device itself (buffer upload, shader compilation, draw
//! submission) is a collaborator outside this crate: the library records
//! every device call in a [`device::Device`] log that a host replays, and
//! takes the results of shader compilation back as plain values.

pub mod arena;
pub mod baker;
pub mod device;
pub mod error;
pub mod framebuffer;
pub mod gl;
pub mod mat4;
pub mod material;
pub mod mesh;
pub mod pass;
pub mod renderer;
pub mod scene;
pub mod shader;
pub mod store;
pub mod texture;
