//! The dispatch orchestrator: one compute shader invocation end to end.
//!
//! Given the loaded shader, the build graph's answers, the caller's uniform
//! bundle and the acquired output texture, it resolves the bundle, appends
//! the implicit `outputTex` holder, flattens into a flat uniform map, runs
//! the binder against the shader's reflection, and lays out the GPU command
//! sequence to record: a discard barrier on the output image, the pipeline
//! bind, the descriptor bind with its dynamic offsets, and a dispatch whose
//! work-group count covers the output size, rounded up.

use vstd::prelude::*;

use crate::binder::BindError;
use crate::binder::BindOutput;
use crate::binder::BindState;
use crate::binder::BindWarning;
use crate::binder::DescriptorWrite;
use crate::binder::UniformArena;
use crate::binder::bind_sets;
use crate::binder::init_bind_state;
use crate::binder::update_descriptor_sets;
use crate::flatten::flat_events;
use crate::flatten::flatten_uniforms;
use crate::flatten::PlumberEvent;
use crate::group_count;
use crate::reflect::ReflectionInfo;
use crate::reflect::reflection_wf;
use crate::resolve::AssetStore;
use crate::resolve::AssetValueView;
use crate::resolve::ResolveError;
use crate::resolve::resolve_holder_views;
use crate::resolve::resolve_holders;
use crate::spec_group_count;
use crate::uniform_map::build_flat_uniform_map;
use crate::uniform_map::map_of_flat_events;
use crate::uniforms::ResolvedHolderView;
use crate::uniforms::ResolvedShaderUniformHolder;
use crate::uniforms::ResolvedShaderUniformValue;
use crate::uniforms::ResolvedValueView;
use crate::uniforms::ShaderUniformHolder;
use crate::uniforms::Texture;
use crate::uniforms::TextureKey;
use crate::uniforms::lemma_view_of_resolved_holders_push;
use crate::uniforms::view_of_holders;
use crate::uniforms::view_of_resolved_holders;

verus! {

/// The compiled compute pipeline: opaque device handles.
#[derive(Clone, Copy, PartialEq, Eq, Structural, Debug)]
pub struct ComputePipeline {
    pub pipeline_layout: u64,
    pub pipeline: u64,
}

/// A loaded compute shader: its name, pipeline, reflection model and the
/// device handles of its descriptor-set layouts.
#[derive(Debug)]
pub struct ComputeShader {
    pub name: String,
    pub pipeline: ComputePipeline,
    pub reflection: ReflectionInfo,
    pub descriptor_set_layouts: Vec<u64>,
}

/// How an image is accessed before and after a barrier.
#[derive(Clone, Copy, PartialEq, Eq, Structural, Debug)]
pub enum AccessKind {
    /// No prior access: the image's contents are irrelevant.
    Nothing,
    /// Written by a compute shader.
    ComputeShaderWrite,
}

/// An image-layout barrier to record before the dispatch.
#[derive(Clone, Copy, PartialEq, Eq, Structural, Debug)]
pub struct ImageBarrierCmd {
    pub image: u64,
    pub prev_access: AccessKind,
    pub next_access: AccessKind,
    /// The previous contents may be discarded: the shader overwrites the
    /// whole image.
    pub discard: bool,
}

/// A work-group count per dispatch axis.
#[derive(Clone, Copy, PartialEq, Eq, Structural, Debug)]
pub struct GroupCount {
    pub x: u32,
    pub y: u32,
    pub z: u32,
}

/// Everything the caller must record on the frame's command stream for one
/// compute invocation, plus the debug report to emit.
#[derive(Debug)]
pub struct ComputeInvocation {
    /// Transition the output image for compute writes, discarding it.
    pub barrier: ImageBarrierCmd,
    /// The pipeline to bind.
    pub pipeline: ComputePipeline,
    /// Dynamic buffer offsets to supply when binding the descriptor sets.
    pub dynamic_offsets: Vec<u32>,
    /// Descriptor updates to apply as one batch before the bind.
    pub descriptor_writes: Vec<DescriptorWrite>,
    /// Unsupported-binding diagnostics, attributable to the shader.
    pub warnings: Vec<BindWarning>,
    /// Work groups to dispatch: the output size divided by the shader's
    /// work-group size, rounded up.
    pub groups: GroupCount,
    /// The shader name to associate with the produced image in the
    /// debug/profiling report.
    pub debug_name: String,
    /// The produced image's view, for the debug/profiling report.
    pub output_view: u64,
}

/// Why a dispatch failed.
#[derive(Clone, Copy, PartialEq, Eq, Structural, Debug)]
pub enum DispatchError {
    /// The uniform bundle's resolution failed; nothing was bound.
    Resolve(ResolveError),
    /// Binding failed; the arena and descriptor state are not reusable.
    Bind(BindError),
}

/// The name under which the orchestrator binds the output image.
pub open spec fn output_tex_name() -> Seq<char> {
    "outputTex"@
}

/// The resolved bundle the binder sees: the caller's resolved holders with
/// the implicit output-texture holder appended.
pub open spec fn with_output_holder(resolved: Seq<ResolvedHolderView>, tex: Texture) -> Seq<
    ResolvedHolderView,
> {
    resolved.push(
        ResolvedHolderView {
            name: output_tex_name(),
            value: ResolvedValueView::TextureAsset(tex),
        },
    )
}

/// Composes one compute invocation: resolves `uniforms` against `store`,
/// appends the implicit `outputTex` holder for `output_tex`, flattens,
/// binds against the shader's reflection, and lays out barrier, binds and
/// dispatch dimensions.  Fails exactly when resolution or binding fails;
/// the arena is untouched on a resolution failure.
pub fn compute_tex(
    key: &TextureKey,
    cs: &ComputeShader,
    store: &AssetStore,
    uniforms: &Vec<ShaderUniformHolder>,
    output_tex: Texture,
    arena: &mut UniformArena,
) -> (r: Result<ComputeInvocation, DispatchError>)
    requires
        reflection_wf(cs.reflection),
        old(arena).wf(),
        output_tex.key == *key,
    ensures
        final(arena).wf(),
        final(arena).contents().len() == old(arena).contents().len(),
        ({
            let resolved = resolve_holder_views(view_of_holders(uniforms@), store@);
            match r {
                Ok(plan) => {
                    &&& resolved is Some
                    &&& ({
                        let full = with_output_holder(resolved->Some_0, output_tex);
                        let map = map_of_flat_events(flat_events(full));
                        let target = bind_sets(
                            init_bind_state(old(arena).contents(), old(arena).spec_cursor()),
                            cs.reflection.descriptor_sets@,
                            0,
                            map,
                        );
                        &&& target is Ok
                        &&& plan.dynamic_offsets@ == target->Ok_0.offsets
                        &&& plan.descriptor_writes@ == target->Ok_0.writes
                        &&& plan.warnings@ == target->Ok_0.warnings
                        &&& final(arena).contents() == target->Ok_0.arena
                        &&& final(arena).spec_cursor() == target->Ok_0.cursor
                    })
                    &&& plan.barrier == (ImageBarrierCmd {
                        image: output_tex.image,
                        prev_access: AccessKind::Nothing,
                        next_access: AccessKind::ComputeShaderWrite,
                        discard: true,
                    })
                    &&& plan.pipeline == cs.pipeline
                    &&& plan.groups == (GroupCount {
                        x: spec_group_count(
                            key.width as nat,
                            cs.reflection.work_group_size.x as nat,
                        ) as u32,
                        y: spec_group_count(
                            key.height as nat,
                            cs.reflection.work_group_size.y as nat,
                        ) as u32,
                        z: 1u32,
                    })
                    &&& plan.debug_name@ == cs.name@
                    &&& plan.output_view == output_tex.view
                },
                Err(DispatchError::Resolve(_)) => {
                    &&& resolved is None
                    &&& *final(arena) == *old(arena)
                },
                Err(DispatchError::Bind(e)) => {
                    &&& resolved is Some
                    &&& ({
                        let full = with_output_holder(resolved->Some_0, output_tex);
                        let map = map_of_flat_events(flat_events(full));
                        bind_sets(
                            init_bind_state(old(arena).contents(), old(arena).spec_cursor()),
                            cs.reflection.descriptor_sets@,
                            0,
                            map,
                        ) == Err::<BindState, BindError>(e)
                    })
                },
            }
        }),
{
    let mut resolved = match resolve_holders(store, uniforms) {
        Ok(out) => out,
        Err(e) => {
            return Err(DispatchError::Resolve(e));
        },
    };
    let ghost resolved0 = resolved@;
    let implicit = ResolvedShaderUniformHolder {
        name: "outputTex".to_owned(),
        value: ResolvedShaderUniformValue::TextureAsset(output_tex),
    };
    proof {
        lemma_view_of_resolved_holders_push(resolved@, implicit);
    }
    resolved.push(implicit);
    proof {
        assert(view_of_resolved_holders(resolved@) =~= with_output_holder(
            view_of_resolved_holders(resolved0),
            output_tex,
        ));
    }

    let mut events: Vec<PlumberEvent> = Vec::new();
    flatten_uniforms(&resolved, &mut events);
    let map = build_flat_uniform_map(&events);

    let bound: BindOutput = match update_descriptor_sets(&cs.reflection, arena, &map) {
        Ok(out) => out,
        Err(e) => {
            return Err(DispatchError::Bind(e));
        },
    };

    let gx = group_count(key.width, cs.reflection.work_group_size.x);
    let gy = group_count(key.height, cs.reflection.work_group_size.y);

    Ok(
        ComputeInvocation {
            barrier: ImageBarrierCmd {
                image: output_tex.image,
                prev_access: AccessKind::Nothing,
                next_access: AccessKind::ComputeShaderWrite,
                discard: true,
            },
            pipeline: cs.pipeline,
            dynamic_offsets: bound.dynamic_offsets,
            descriptor_writes: bound.writes,
            warnings: bound.warnings,
            groups: GroupCount { x: gx, y: gy, z: 1 },
            debug_name: cs.name.clone(),
            output_view: output_tex.view,
        },
    )
}

} // verus!
