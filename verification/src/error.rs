//! Error taxonomy of the rendering core.

use vstd::prelude::*;

verus! {

/// A failure while resolving resources or dispatching a draw.
#[derive(Clone, Copy, Debug, PartialEq, Eq, Structural)]
pub enum RenderError {
    /// A handle's generation no longer matches its slot: the resource was
    /// removed, and the reference is dangling.
    StaleHandle,
    /// A material's shader tag has no installed program in the cache.
    MissingShader,
}

/// A failure while baking an interchange scene description. The import is
/// fail-fast and whole: the first unsupported feature or bad reference
/// aborts it with no partial result.
#[derive(Clone, Copy, Debug, PartialEq, Eq, Structural)]
pub enum BakeError {
    /// A sparse accessor; only accessors backed by a buffer view are
    /// supported.
    UnsupportedSparseAccessor,
    /// A node carrying a raw matrix transform; only decomposed transforms
    /// are supported.
    UnsupportedMatrixTransform,
    /// An index into the document's own tables that does not resolve.
    BadReference,
}

impl RenderError {
    /// A short description of the failure.
    pub fn describe(&self) -> (r: String)
        ensures
            *self is StaleHandle ==> r@ == "stale handle"@,
            *self is MissingShader ==> r@ == "missing shader for material tag"@,
    {
        match self {
            RenderError::StaleHandle => String::from_str("stale handle"),
            RenderError::MissingShader => String::from_str("missing shader for material tag"),
        }
    }
}

impl BakeError {
    /// A short description of the failure.
    pub fn describe(&self) -> (r: String)
        ensures
            *self is UnsupportedSparseAccessor ==> r@ == "unsupported feature: sparse accessor"@,
            *self is UnsupportedMatrixTransform ==> r@
                == "unsupported feature: matrix node transform"@,
            *self is BadReference ==> r@ == "bad cross-reference in scene description"@,
    {
        match self {
            BakeError::UnsupportedSparseAccessor => String::from_str(
                "unsupported feature: sparse accessor",
            ),
            BakeError::UnsupportedMatrixTransform => String::from_str(
                "unsupported feature: matrix node transform",
            ),
            BakeError::BadReference => String::from_str("bad cross-reference in scene description"),
        }
    }
}

} // verus!
