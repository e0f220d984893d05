//! Render passes: one clear + draw + optional render-target redirection
//! step of a frame. Passes run in list order, each restoring the default
//! framebuffer after its work when it named a target.

use vstd::prelude::*;

use crate::arena::Handle;
use crate::device::DeviceCall;
use crate::error::RenderError;
use crate::renderer::{lemma_prefix_extend, lemma_prefix_refl, lemma_prefix_trans, Renderer};

verus! {

/// An 8-bit-per-channel color with alpha.
#[derive(Clone, Copy, Debug, PartialEq, Eq, Structural)]
pub struct Color4 {
    pub r: u8,
    pub g: u8,
    pub b: u8,
    pub a: u8,
}

/// What a pass does between its clear and the restore of the default
/// target.
#[derive(Clone, Copy, Debug, PartialEq, Eq, Structural)]
pub enum PassAction {
    /// Clear only.
    Idle,
    /// Render the scene from a subtree root under a camera.
    RenderScene { root: Handle, camera: Handle },
}

/// One render pass: clear flags and color, an optional render target, and
/// the action to run.
#[derive(Clone, Copy, Debug, PartialEq, Eq, Structural)]
pub struct Pass {
    pub background_color: Color4,
    pub clean_color: bool,
    pub clean_depth: bool,
    pub render_target_handle: Option<Handle>,
    pub action: PassAction,
}

impl Pass {
    /// The default pass: clear color and depth to opaque white, no render
    /// target, no action.
    pub fn new() -> (r: Pass)
        ensures
            r == spec_default_pass(),
    {
        Pass {
            background_color: Color4 { r: 255, g: 255, b: 255, a: 255 },
            clean_color: true,
            clean_depth: true,
            render_target_handle: None,
            action: PassAction::Idle,
        }
    }

    pub fn set_background_color(self, background_color: Color4) -> (r: Self)
        ensures
            r == (Pass { background_color, ..self }),
    {
        Pass { background_color, ..self }
    }

    pub fn set_clean_color(self, clean_color: bool) -> (r: Self)
        ensures
            r == (Pass { clean_color, ..self }),
    {
        Pass { clean_color, ..self }
    }

    pub fn set_clean_depth(self, clean_depth: bool) -> (r: Self)
        ensures
            r == (Pass { clean_depth, ..self }),
    {
        Pass { clean_depth, ..self }
    }

    pub fn set_render_target_handle(self, render_target_handle: Option<Handle>) -> (r: Self)
        ensures
            r == (Pass { render_target_handle, ..self }),
    {
        Pass { render_target_handle, ..self }
    }

    /// Sets what the pass runs between clear and restore.
    pub fn set_action(self, action: PassAction) -> (r: Self)
        ensures
            r == (Pass { action, ..self }),
    {
        Pass { action, ..self }
    }

    /// Runs the pass: redirects to its render target when one is named,
    /// clears, runs its action, and restores the default framebuffer.
    /// Fails with `StaleHandle` (recording nothing) when the named target
    /// or its framebuffer no longer resolves; otherwise the device log
    /// grows by exactly the target bind (when named), the clear calls, the
    /// action's calls, and the restore — and a failing action aborts the
    /// pass with its error, after the restore.
    #[verifier::rlimit(100)]
    pub fn render(&self, renderer: &mut Renderer) -> (r: Result<(), RenderError>)
        requires
            old(renderer).wf(),
        ensures
            final(renderer).wf(),
            final(renderer).buffers == old(renderer).buffers,
            final(renderer).images == old(renderer).images,
            final(renderer).accessors == old(renderer).accessors,
            final(renderer).materials == old(renderer).materials,
            final(renderer).samplers == old(renderer).samplers,
            final(renderer).textures == old(renderer).textures,
            final(renderer).meshes == old(renderer).meshes,
            final(renderer).cameras == old(renderer).cameras,
            final(renderer).framebuffers == old(renderer).framebuffers,
            final(renderer).targets == old(renderer).targets,
            final(renderer).scene == old(renderer).scene,
            final(renderer).shaders == old(renderer).shaders,
            !spec_pass_target_ok(*self, *old(renderer)) ==> r == Err::<(), RenderError>(
                RenderError::StaleHandle,
            ) && final(renderer).device == old(renderer).device,
            spec_pass_target_ok(*self, *old(renderer)) ==> ({
                let outcome = spec_pass_outcome(*self, *old(renderer));
                let prelude = spec_pass_prelude(*self, *old(renderer));
                let action = spec_pass_action_calls(
                    *self,
                    *old(renderer),
                    old(renderer).device.attrib_count(),
                );
                &&& (r is Ok <==> outcome is None)
                &&& (outcome is Some ==> r == Err::<(), RenderError>(outcome->0))
                &&& (outcome is None ==> final(renderer).device.calls() == old(
                    renderer,
                ).device.calls() + prelude + action.0 + spec_pass_restore(*self)
                    && final(renderer).device.attrib_count() == action.1)
                &&& (outcome is Some ==> (old(renderer).device.calls()
                    + prelude).is_prefix_of(final(renderer).device.calls()) && (
                self.render_target_handle is Some ==> final(renderer).device.calls().last()
                    == DeviceCall::BindFramebuffer { framebuffer: None }))
            }),
    {
        let ghost base = renderer.device.calls();
        if let Some(render_target_handle) = self.render_target_handle {
            let target = match renderer.targets.get(render_target_handle) {
                Some(t) => *t,
                None => {
                    return Err(RenderError::StaleHandle);
                },
            };
            let fb = match renderer.framebuffers.get(target.fb) {
                Some(f) => *f,
                None => {
                    return Err(RenderError::StaleHandle);
                },
            };
            renderer.device.bind_framebuffer(Some(fb));
        }
        let bg = self.background_color;
        renderer.device.clear_color(bg.r, bg.g, bg.b, bg.a);
        renderer.device.clear(self.clean_color, self.clean_depth);
        let ghost prelude = spec_pass_prelude(*self, *old(renderer));
        proof {
            assert(renderer.device.calls() =~= base + prelude);
        }
        let ghost state_at_action = *renderer;
        let outcome = match self.action {
            PassAction::Idle => Ok(()),
            PassAction::RenderScene { root, camera } => renderer.render_scene(root, camera),
        };
        proof {
            // The prelude touched only the device, so the action saw the
            // caller's stores and scene.
            assert(state_at_action.scene == old(renderer).scene);
            assert(state_at_action.cameras == old(renderer).cameras);
            assert(state_at_action.meshes == old(renderer).meshes);
            assert(state_at_action.shaders == old(renderer).shaders);
            assert(state_at_action.materials == old(renderer).materials);
            assert(state_at_action.accessors == old(renderer).accessors);
            assert(state_at_action.buffers == old(renderer).buffers);
            assert(state_at_action.textures == old(renderer).textures);
            assert(state_at_action.images == old(renderer).images);
            assert(state_at_action.samplers == old(renderer).samplers);
            assert(state_at_action.device.attrib_count() == old(
                renderer,
            ).device.attrib_count());
            let outcome_spec = spec_pass_outcome(*self, *old(renderer));
            match self.action {
                PassAction::Idle => {
                    assert(outcome_spec is None);
                },
                PassAction::RenderScene { root, camera } => {
                    let items_mid = crate::scene::spec_collect_visible(
                        state_at_action.scene@,
                        state_at_action.scene.slot_count(),
                        seq![root],
                        Set::empty(),
                    );
                    let items_entry = crate::scene::spec_collect_visible(
                        old(renderer).scene@,
                        old(renderer).scene.slot_count(),
                        seq![root],
                        Set::empty(),
                    );
                    assert(items_mid == items_entry);
                    let o_mid = crate::renderer::spec_items_outcome(
                        items_mid,
                        state_at_action.scene@,
                        state_at_action.meshes@,
                        state_at_action.shaders.entries(),
                        state_at_action.materials@,
                        state_at_action.accessors@,
                        state_at_action.buffers@,
                        state_at_action.textures@,
                        state_at_action.images@,
                        state_at_action.samplers@,
                    );
                    let o_entry = crate::renderer::spec_items_outcome(
                        items_entry,
                        old(renderer).scene@,
                        old(renderer).meshes@,
                        old(renderer).shaders.entries(),
                        old(renderer).materials@,
                        old(renderer).accessors@,
                        old(renderer).buffers@,
                        old(renderer).textures@,
                        old(renderer).images@,
                        old(renderer).samplers@,
                    );
                    assert(o_mid == o_entry);
                    if old(renderer).cameras@.contains_key(camera) {
                        assert(outcome_spec == o_entry);
                        assert(outcome is Ok <==> o_mid is None);
                        assert(o_mid is Some ==> outcome == Err::<(), RenderError>(o_mid->0));
                    } else {
                        assert(outcome == Err::<(), RenderError>(RenderError::StaleHandle));
                        assert(outcome_spec == Some(RenderError::StaleHandle));
                    }
                },
            }
            assert(outcome is Ok <==> outcome_spec is None);
            assert(outcome_spec is Some ==> outcome == Err::<(), RenderError>(outcome_spec->0));
            let mid = base + prelude;
            let after_action = renderer.device.calls();
            if outcome is Ok {
                let action = spec_pass_action_calls(
                    *self,
                    *old(renderer),
                    old(renderer).device.attrib_count(),
                );
                assert(after_action =~= mid + action.0);
            } else {
                lemma_prefix_refl(mid);
                assert(after_action =~= mid + after_action.skip(mid.len() as int));
                lemma_prefix_extend(mid, after_action.skip(mid.len() as int));
            }
        }
        let ghost pre_restore = renderer.device.calls();
        if self.render_target_handle.is_some() {
            renderer.device.bind_framebuffer(None);
        }
        proof {
            let mid = base + prelude;
            let done = renderer.device.calls();
            assert(done =~= pre_restore + done.skip(pre_restore.len() as int));
            lemma_prefix_extend(pre_restore, done.skip(pre_restore.len() as int));
            if outcome is Ok {
                let action = spec_pass_action_calls(
                    *self,
                    *old(renderer),
                    old(renderer).device.attrib_count(),
                );
                assert(done =~= base + prelude + action.0 + spec_pass_restore(*self));
            } else {
                lemma_prefix_trans(mid, pre_restore, done);
            }
        }
        outcome
    }
}

pub open spec fn spec_default_pass() -> Pass {
    Pass {
        background_color: Color4 { r: 255u8, g: 255u8, b: 255u8, a: 255u8 },
        clean_color: true,
        clean_depth: true,
        render_target_handle: None,
        action: PassAction::Idle,
    }
}

/// Whether a pass's named render target (if any) and its framebuffer still
/// resolve.
pub open spec fn spec_pass_target_ok(p: Pass, r: Renderer) -> bool {
    match p.render_target_handle {
        Some(th) => r.targets@.contains_key(th) && r.framebuffers@.contains_key(
            r.targets@[th].fb,
        ),
        None => true,
    }
}

/// The calls a pass records before its action: the named target's
/// framebuffer bind (when any), then the clear color and the clear.
pub open spec fn spec_pass_prelude(p: Pass, r: Renderer) -> Seq<DeviceCall> {
    (match p.render_target_handle {
        Some(th) => seq![
            DeviceCall::BindFramebuffer {
                framebuffer: Some(r.framebuffers@[r.targets@[th].fb]),
            },
        ],
        None => Seq::empty(),
    }) + seq![
        DeviceCall::ClearColor {
            r: p.background_color.r,
            g: p.background_color.g,
            b: p.background_color.b,
            a: p.background_color.a,
        },
        DeviceCall::Clear { color: p.clean_color, depth: p.clean_depth },
    ]
}

/// The call restoring the default framebuffer, recorded exactly when the
/// pass named a target.
pub open spec fn spec_pass_restore(p: Pass) -> Seq<DeviceCall> {
    match p.render_target_handle {
        Some(_) => seq![DeviceCall::BindFramebuffer { framebuffer: None }],
        None => Seq::empty(),
    }
}

/// The first failure the pass's action would hit, against the renderer
/// state the pass starts from; `None` when it runs through.
pub open spec fn spec_pass_outcome(p: Pass, r: Renderer) -> Option<RenderError> {
    match p.action {
        PassAction::Idle => None,
        PassAction::RenderScene { root, camera } => if !r.cameras@.contains_key(camera) {
            Some(RenderError::StaleHandle)
        } else {
            crate::renderer::spec_items_outcome(
                crate::scene::spec_collect_visible(
                    r.scene@,
                    r.scene.slot_count(),
                    seq![root],
                    Set::empty(),
                ),
                r.scene@,
                r.meshes@,
                r.shaders.entries(),
                r.materials@,
                r.accessors@,
                r.buffers@,
                r.textures@,
                r.images@,
                r.samplers@,
            )
        },
    }
}

/// The calls the pass's action records (and the enabled-attribute count it
/// leaves), when its outcome is `None`.
pub open spec fn spec_pass_action_calls(p: Pass, r: Renderer, attrib_in: u32) -> (
    Seq<DeviceCall>,
    u32,
) {
    match p.action {
        PassAction::Idle => (Seq::empty(), attrib_in),
        PassAction::RenderScene { root, camera } => crate::renderer::spec_items_render(
            crate::scene::spec_collect_visible(
                r.scene@,
                r.scene.slot_count(),
                seq![root],
                Set::empty(),
            ),
            r.scene@,
            r.meshes@,
            r.cameras@[camera],
            r.shaders.entries(),
            r.materials@,
            r.accessors@,
            r.buffers@,
            r.textures@,
            r.images@,
            r.samplers@,
            attrib_in,
        ),
    }
}

} // verus!
