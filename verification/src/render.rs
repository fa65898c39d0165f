//! The render context and the submission of draws.
//!
//! The context owns what the frame loop works on: the material table, the
//! pipeline cache and the shader source. For every draw it resolves the
//! pipeline, brings the uniform buffer up to date and says what to bind.

use vstd::prelude::*;
use crate::layout::{bindings_of, packed};
use crate::material::{
    all_repacked, live, repacked, stale_count, table_wf, MaterialHandle, MaterialSpec,
    MaterialTable,
};
use crate::parameter_set::{first_named, has_name, valid_fields, ParameterSet};
use crate::params::{BlockBinding, ParamValue};
use crate::tweak::{
    apply_edit, apply_edit_by_name, apply_edits, edit_outcome, table_after_edit,
    table_after_edits, Edit, TweakError,
};
use crate::pipeline::{
    cache_after, cache_wf, outcome_of, without_stale, PipelineCache, PipelineCacheSpec,
    PipelineError, PipelineKey, PipelineKeySpec,
};
use crate::shader::{
    next_action, next_source, source_wf, CompileOutcome, CompileOutcomeSpec, ShaderSource,
    ShaderSourceSpec, WatchAction, WatchEvent, WatchEventSpec, WatchState,
};

verus! {

/// A mesh as the context sees it: an opaque identity and the tag of its
/// vertex layout.
#[derive(Clone, Copy, Debug, PartialEq, Eq, Structural)]
pub struct Mesh {
    pub id: u64,
    pub vertex_layout: u64,
}

/// One mesh to draw with one material.
#[derive(Clone, Copy, Debug, PartialEq, Eq, Structural)]
pub struct DrawRequest {
    pub mesh: Mesh,
    pub material: MaterialHandle,
}

/// Why a draw was left out.
#[derive(Clone, Copy, Debug, PartialEq, Eq, Structural)]
pub enum SkipReason {
    /// The handle names no live material.
    NoSuchMaterial,
    /// The material is drawn with another shader than the one of the context.
    UnknownShader,
    /// No pipeline could be built.
    Pipeline(PipelineError),
}

/// What to bind for one draw: the pipeline, the uniform buffer of the
/// material at the ranges of its slots, and the buffers of the mesh.
#[derive(Debug)]
pub struct DrawCall {
    /// Identity of the pipeline.
    pub pipeline: u64,
    /// The material whose uniform buffer is bound.
    pub material: MaterialHandle,
    /// Where in the uniform buffer the block of each used slot lies.
    pub bindings: Vec<BlockBinding>,
    /// Identity of the mesh.
    pub mesh: u64,
}

/// Mathematical model of a [`DrawCall`].
pub struct DrawCallSpec {
    pub pipeline: u64,
    pub material: MaterialHandle,
    pub bindings: Seq<BlockBinding>,
    pub mesh: u64,
}

impl View for DrawCall {
    type V = DrawCallSpec;

    open spec fn view(&self) -> DrawCallSpec {
        DrawCallSpec {
            pipeline: self.pipeline,
            material: self.material,
            bindings: self.bindings@,
            mesh: self.mesh,
        }
    }
}

/// What became of one draw request.
#[derive(Debug)]
pub enum Submission {
    Draw(DrawCall),
    Skipped(SkipReason),
}

/// Mathematical model of a [`Submission`].
pub enum SubmissionSpec {
    Draw(DrawCallSpec),
    Skipped(SkipReason),
}

impl View for Submission {
    type V = SubmissionSpec;

    open spec fn view(&self) -> SubmissionSpec {
        match self {
            Submission::Draw(call) => SubmissionSpec::Draw(call@),
            Submission::Skipped(reason) => SubmissionSpec::Skipped(*reason),
        }
    }
}

/// What a reload came to.
#[derive(Clone, Copy, Debug, PartialEq, Eq, Structural)]
pub enum ReloadReport {
    /// No changed content was waiting.
    NotPending,
    /// The new content compiled; so many pipelines of earlier revisions
    /// were dropped.
    Reloaded { evicted: usize },
    /// The new content did not compile. The error is recorded and the
    /// pipelines of the last good revision stay in use.
    Failed,
}

/// What one frame did, phase by phase.
#[derive(Debug)]
pub struct FrameReport {
    /// For every edit, whether it was accepted.
    pub edits: Vec<Result<(), TweakError>>,
    /// How many uniform buffers were packed anew.
    pub repacked: usize,
    /// What the reload came to.
    pub reload: ReloadReport,
    /// For every draw, what became of it.
    pub submissions: Vec<Submission>,
}

/// Mathematical model of a [`RenderContext`].
pub struct ContextSpec {
    pub materials: Seq<Option<MaterialSpec>>,
    pub pipelines: PipelineCacheSpec,
    pub shader: ShaderSourceSpec,
}

/// The key of the pipeline that draws `mesh` with `m`.
pub open spec fn key_for(ctx: ContextSpec, m: MaterialSpec, mesh: Mesh) -> PipelineKeySpec {
    PipelineKeySpec {
        type_tag: m.type_tag,
        vertex_layout: mesh.vertex_layout,
        entry_point: m.entry_point,
        revision: ctx.shader.compiled_revision,
    }
}

/// What becomes of `draw` in `ctx`.
pub open spec fn submission_of(ctx: ContextSpec, draw: DrawRequest) -> SubmissionSpec {
    if !live(ctx.materials, draw.material) {
        SubmissionSpec::Skipped(SkipReason::NoSuchMaterial)
    } else {
        let m = ctx.materials[draw.material.index as int]->0;
        if m.shader != ctx.shader.path {
            SubmissionSpec::Skipped(SkipReason::UnknownShader)
        } else {
            match outcome_of(ctx.pipelines, key_for(ctx, m, draw.mesh), ctx.shader.entry_points) {
                Ok(pipeline) => SubmissionSpec::Draw(
                    DrawCallSpec {
                        pipeline,
                        material: draw.material,
                        bindings: bindings_of(m.params),
                        mesh: draw.mesh.id,
                    },
                ),
                Err(e) => SubmissionSpec::Skipped(SkipReason::Pipeline(e)),
            }
        }
    }
}

/// The context after `draw` was submitted: the pipeline is in the cache, and
/// the uniform buffer of the material holds its packed parameters.
pub open spec fn context_after_draw(ctx: ContextSpec, draw: DrawRequest) -> ContextSpec {
    if submission_of(ctx, draw) is Draw {
        let m = ctx.materials[draw.material.index as int]->0;
        ContextSpec {
            materials: ctx.materials.update(draw.material.index as int, Some(repacked(m))),
            pipelines: cache_after(
                ctx.pipelines,
                key_for(ctx, m, draw.mesh),
                ctx.shader.entry_points,
            ),
            shader: ctx.shader,
        }
    } else {
        ctx
    }
}

/// The context after the first `n` of `draws` were submitted in order.
pub open spec fn context_after(ctx: ContextSpec, draws: Seq<DrawRequest>, n: nat) -> ContextSpec
    recommends
        n <= draws.len(),
    decreases n,
{
    if n == 0 {
        ctx
    } else {
        context_after_draw(context_after(ctx, draws, (n - 1) as nat), draws[n - 1])
    }
}

/// The context after a reload with `outcome`.
pub open spec fn context_after_reload(ctx: ContextSpec, outcome: CompileOutcomeSpec) -> ContextSpec {
    if ctx.shader.state != WatchState::ChangedPending {
        ctx
    } else {
        let reloaded = next_source(ctx.shader, WatchEventSpec::Reload(outcome));
        match outcome {
            CompileOutcomeSpec::Compiled { .. } => ContextSpec {
                materials: ctx.materials,
                pipelines: without_stale(ctx.pipelines, reloaded.compiled_revision),
                shader: next_source(reloaded, WatchEventSpec::PipelinesInvalidated),
            },
            CompileOutcomeSpec::Failed { .. } => ContextSpec {
                materials: ctx.materials,
                pipelines: ctx.pipelines,
                shader: reloaded,
            },
        }
    }
}

/// The context after the edits of a frame were applied and the stale
/// buffers packed anew.
pub open spec fn context_after_tweaks(ctx: ContextSpec, edits: Seq<Edit>) -> ContextSpec {
    ContextSpec {
        materials: all_repacked(table_after_edits(ctx.materials, edits, edits.len())),
        ..ctx
    }
}

/// The context of a frame at the time its draws are submitted: after the
/// edits, the repacking, and the reload if one was due.
pub open spec fn context_before_draws(
    ctx: ContextSpec,
    edits: Seq<Edit>,
    reload: Option<CompileOutcomeSpec>,
) -> ContextSpec {
    let tweaked = context_after_tweaks(ctx, edits);
    match reload {
        Some(outcome) => context_after_reload(tweaked, outcome),
        None => tweaked,
    }
}

/// What a reload with `outcome` reports.
pub open spec fn report_of_reload(ctx: ContextSpec, outcome: CompileOutcomeSpec) -> ReloadReport {
    if ctx.shader.state != WatchState::ChangedPending {
        ReloadReport::NotPending
    } else {
        match outcome {
            CompileOutcomeSpec::Compiled { .. } => ReloadReport::Reloaded {
                evicted: (ctx.pipelines.pipelines.dom().len() - context_after_reload(
                    ctx,
                    outcome,
                ).pipelines.pipelines.dom().len()) as usize,
            },
            CompileOutcomeSpec::Failed { .. } => ReloadReport::Failed,
        }
    }
}

/// What holds of every context.
pub open spec fn context_wf(ctx: ContextSpec) -> bool {
    &&& table_wf(ctx.materials)
    &&& cache_wf(ctx.pipelines)
    &&& source_wf(ctx.shader)
}

/// Reloads are processed once: a second reload with no modification in
/// between finds nothing pending and changes nothing.
pub proof fn law_reload_once(
    ctx: ContextSpec,
    first: CompileOutcomeSpec,
    second: CompileOutcomeSpec,
)
    ensures
        context_after_reload(context_after_reload(ctx, first), second) == context_after_reload(
            ctx,
            first,
        ),
{
}

/// A reload that fails changes nothing for the draws that follow: the
/// watcher stands in `Reloaded` with the error recorded, the cache is as it
/// was, and every draw is answered as it would have been before the reload,
/// so a material that had a pipeline keeps exactly that pipeline.
pub proof fn law_failed_reload_keeps_pipeline(
    ctx: ContextSpec,
    message: Seq<char>,
    draw: DrawRequest,
)
    requires
        ctx.shader.state == WatchState::ChangedPending,
    ensures
        ({
            let after = context_after_reload(ctx, CompileOutcomeSpec::Failed { message });
            &&& after.shader.state == WatchState::Reloaded
            &&& after.shader.error == Some(message)
            &&& after.pipelines == ctx.pipelines
            &&& after.materials == ctx.materials
            &&& submission_of(after, draw) == submission_of(ctx, draw)
        }),
{
}

/// A material that is drawn is drawn from a buffer that holds exactly its
/// packed parameters, bound at the ranges of its slots; the draw changes
/// neither its parameters nor any other material.
pub proof fn law_drawn_buffer_is_current(ctx: ContextSpec, draw: DrawRequest)
    requires
        submission_of(ctx, draw) is Draw,
    ensures
        ({
            let i = draw.material.index as int;
            let before = ctx.materials[i]->0;
            let after = context_after_draw(ctx, draw).materials;
            &&& after.len() == ctx.materials.len()
            &&& after[i] is Some
            &&& after[i]->0.params == before.params
            &&& after[i]->0.buffer == packed(before.params)
            &&& !after[i]->0.dirty
            &&& submission_of(ctx, draw)->Draw_0.bindings == after[i]->0.bindings
            &&& forall|j: int| 0 <= j < after.len() && j != i ==> after[j] == ctx.materials[j]
        }),
{
}

/// Two draws whose materials agree on type tag and entry point, with meshes
/// of one vertex layout, are drawn with the same pipeline, and the second
/// adds nothing to the cache.
pub proof fn law_equal_keys_share_pipeline(ctx: ContextSpec, a: DrawRequest, b: DrawRequest)
    requires
        submission_of(ctx, a) is Draw,
        live(ctx.materials, b.material),
        a.mesh.vertex_layout == b.mesh.vertex_layout,
        ({
            let ma = ctx.materials[a.material.index as int]->0;
            let mb = ctx.materials[b.material.index as int]->0;
            &&& ma.type_tag == mb.type_tag
            &&& ma.entry_point == mb.entry_point
            &&& ma.shader == mb.shader
        }),
    ensures
        ({
            let after = context_after_draw(ctx, a);
            &&& submission_of(after, b) is Draw
            &&& submission_of(after, b)->Draw_0.pipeline == submission_of(ctx, a)->Draw_0.pipeline
            &&& context_after_draw(after, b).pipelines == after.pipelines
        }),
{
}

/// The state of the renderer: materials, pipelines and the shader source.
#[derive(Debug)]
pub struct RenderContext {
    materials: MaterialTable,
    pipelines: PipelineCache,
    shader: ShaderSource,
}

impl View for RenderContext {
    type V = ContextSpec;

    closed spec fn view(&self) -> ContextSpec {
        ContextSpec {
            materials: self.materials@,
            pipelines: self.pipelines@,
            shader: self.shader@,
        }
    }
}

fn copy_bindings(bindings: &Vec<BlockBinding>) -> (out: Vec<BlockBinding>)
    ensures
        out@ == bindings@,
{
    let mut out: Vec<BlockBinding> = Vec::new();
    let mut k: usize = 0;
    while k < bindings.len()
        invariant
            k <= bindings.len(),
            out@ == bindings@.subrange(0, k as int),
        decreases bindings.len() - k,
    {
        out.push(bindings[k]);
        k += 1;
        assert(out@ =~= bindings@.subrange(0, k as int));
    }
    assert(out@ =~= bindings@);
    out
}

impl RenderContext {
    /// The context is well formed.
    pub closed spec fn wf(&self) -> bool {
        self.materials.wf() && self.pipelines.wf() && source_wf(self.shader@)
    }

    /// A well-formed context stands for a well-formed model.
    pub proof fn lemma_wf(&self)
        requires
            self.wf(),
        ensures
            context_wf(self@),
    {
        self.pipelines.lemma_wf();
    }

    /// A context around `shader`, with no material and no pipeline.
    pub fn new(shader: ShaderSource) -> (ctx: RenderContext)
        requires
            source_wf(shader@),
        ensures
            ctx.wf(),
            ctx@ == (ContextSpec {
                materials: Seq::empty(),
                pipelines: PipelineCacheSpec { pipelines: Map::empty(), next_id: 0 },
                shader: shader@,
            }),
    {
        RenderContext { materials: MaterialTable::new(), pipelines: PipelineCache::new(), shader }
    }

    /// The material table.
    pub fn materials(&self) -> (table: &MaterialTable)
        ensures
            table@ == self@.materials,
            self.wf() ==> table.wf(),
    {
        &self.materials
    }

    /// The pipeline cache.
    pub fn pipelines(&self) -> (cache: &PipelineCache)
        ensures
            cache@ == self@.pipelines,
            self.wf() ==> cache.wf(),
    {
        &self.pipelines
    }

    /// The shader source.
    pub fn shader(&self) -> (shader: &ShaderSource)
        ensures
            shader@ == self@.shader,
    {
        &self.shader
    }

    /// Registers a material that is drawn with the shader at `shader`. A
    /// first reference to the shader of the context makes its watcher start.
    pub fn create_material(
        &mut self,
        type_tag: u128,
        params: ParameterSet,
        shader: String,
        entry_point: Option<String>,
    ) -> (r: (MaterialHandle, WatchAction))
        requires
            old(self).wf(),
            params.valid(),
        ensures
            final(self).wf(),
            r.0.index == old(self)@.materials.len(),
            final(self)@.materials == old(self)@.materials.push(
                Some(
                    MaterialSpec {
                        type_tag,
                        params: params@,
                        shader: shader@,
                        entry_point: match entry_point {
                            Some(name) => Some(name@),
                            None => None,
                        },
                        buffer: Seq::empty(),
                        bindings: Seq::empty(),
                        dirty: true,
                        refs: 1,
                    },
                ),
            ),
            final(self)@.pipelines == old(self)@.pipelines,
            shader@ == old(self)@.shader.path ==> final(self)@.shader == next_source(
                old(self)@.shader,
                WatchEventSpec::Referenced,
            ) && r.1 == next_action(old(self)@.shader, WatchEventSpec::Referenced),
            shader@ != old(self)@.shader.path ==> final(self)@.shader == old(self)@.shader && r.1
                == WatchAction::Nothing,
    {
        let action = if shader == *self.shader.path() {
            self.shader.handle(WatchEvent::Referenced)
        } else {
            WatchAction::Nothing
        };
        let handle = self.materials.create(type_tag, params, shader, entry_point);
        (handle, action)
    }

    /// Hands out the parameters of a live material for editing and marks its
    /// buffer stale.
    pub fn get_mut(&mut self, handle: MaterialHandle) -> (r: Option<&mut ParameterSet>)
        ensures
            match r {
                Some(params) => {
                    &&& live(old(self)@.materials, handle)
                    &&& params@ == old(self)@.materials[handle.index as int]->0.params
                    &&& final(self)@.materials == old(self)@.materials.update(
                        handle.index as int,
                        Some(
                            MaterialSpec {
                                params: final(params)@,
                                dirty: true,
                                ..old(self)@.materials[handle.index as int]->0
                            },
                        ),
                    )
                },
                None => !live(old(self)@.materials, handle) && final(self)@.materials == old(self)@.materials,
            },
            final(self)@.pipelines == old(self)@.pipelines,
            final(self)@.shader == old(self)@.shader,
            old(self).wf() ==> match r {
                Some(params) => valid_fields(final(params)@) ==> final(self).wf(),
                None => final(self).wf(),
            },
    {
        self.materials.get_mut(handle)
    }

    /// Writes `value` into field `index` of the material of `handle` and
    /// marks its buffer stale. The value is stored as given.
    pub fn apply_edit(&mut self, handle: MaterialHandle, index: usize, value: ParamValue) -> (r:
        Result<(), TweakError>)
        requires
            old(self).wf(),
        ensures
            final(self).wf(),
            r == edit_outcome(old(self)@.materials, handle, index, value),
            final(self)@ == (ContextSpec {
                materials: table_after_edit(old(self)@.materials, handle, index, value),
                ..old(self)@
            }),
    {
        apply_edit(&mut self.materials, handle, index, value)
    }

    /// Writes `value` into the field called `name` of the material of
    /// `handle` and marks its buffer stale.
    pub fn apply_edit_by_name(
        &mut self,
        handle: MaterialHandle,
        name: &String,
        value: ParamValue,
    ) -> (r: Result<(), TweakError>)
        requires
            old(self).wf(),
        ensures
            final(self).wf(),
            r == if !live(old(self)@.materials, handle) {
                Err::<(), TweakError>(TweakError::NoSuchMaterial)
            } else if !has_name(old(self)@.materials[handle.index as int]->0.params, name@) {
                Err(TweakError::NoSuchField)
            } else {
                edit_outcome(
                    old(self)@.materials,
                    handle,
                    first_named(old(self)@.materials[handle.index as int]->0.params, name@) as usize,
                    value,
                )
            },
            final(self)@ == (ContextSpec {
                materials: if live(old(self)@.materials, handle) && has_name(
                    old(self)@.materials[handle.index as int]->0.params,
                    name@,
                ) {
                    table_after_edit(
                        old(self)@.materials,
                        handle,
                        first_named(
                            old(self)@.materials[handle.index as int]->0.params,
                            name@,
                        ) as usize,
                        value,
                    )
                } else {
                    old(self)@.materials
                },
                ..old(self)@
            }),
    {
        apply_edit_by_name(&mut self.materials, handle, name, value)
    }

    /// Counts one more scene entity that refers to the material. Says
    /// whether it was counted.
    pub fn retain(&mut self, handle: MaterialHandle) -> (r: bool)
        requires
            old(self).wf(),
        ensures
            final(self).wf(),
            r == (live(old(self)@.materials, handle) && old(self)@.materials[handle.index as int]->0.refs < usize::MAX),
            final(self)@ == (ContextSpec {
                materials: if r {
                    old(self)@.materials.update(
                        handle.index as int,
                        Some(
                            MaterialSpec {
                                refs: (old(self)@.materials[handle.index as int]->0.refs
                                    + 1) as usize,
                                ..old(self)@.materials[handle.index as int]->0
                            },
                        ),
                    )
                } else {
                    old(self)@.materials
                },
                ..old(self)@
            }),
    {
        self.materials.retain(handle)
    }

    /// Counts one scene entity less that refers to the material, and
    /// destroys the material when none is left. Says whether it was
    /// destroyed.
    pub fn release(&mut self, handle: MaterialHandle) -> (r: bool)
        requires
            old(self).wf(),
        ensures
            final(self).wf(),
            r == (live(old(self)@.materials, handle) && old(self)@.materials[handle.index as int]->0.refs <= 1),
            final(self)@ == (ContextSpec {
                materials: if !live(old(self)@.materials, handle) {
                    old(self)@.materials
                } else if r {
                    old(self)@.materials.update(handle.index as int, None)
                } else {
                    old(self)@.materials.update(
                        handle.index as int,
                        Some(
                            MaterialSpec {
                                refs: (old(self)@.materials[handle.index as int]->0.refs
                                    - 1) as usize,
                                ..old(self)@.materials[handle.index as int]->0
                            },
                        ),
                    )
                },
                ..old(self)@
            }),
    {
        self.materials.release(handle)
    }

    /// Destroys the material that `handle` names. Says whether there was one.
    pub fn destroy(&mut self, handle: MaterialHandle) -> (r: bool)
        requires
            old(self).wf(),
        ensures
            final(self).wf(),
            r == live(old(self)@.materials, handle),
            final(self)@ == (ContextSpec {
                materials: if r {
                    old(self)@.materials.update(handle.index as int, None)
                } else {
                    old(self)@.materials
                },
                ..old(self)@
            }),
    {
        self.materials.destroy(handle)
    }

    /// Packs the buffer of every material whose buffer is stale, and returns
    /// how many there were.
    pub fn repack_dirty(&mut self) -> (count: usize)
        requires
            old(self).wf(),
        ensures
            final(self).wf(),
            final(self)@ == (ContextSpec {
                materials: all_repacked(old(self)@.materials),
                ..old(self)@
            }),
            count == stale_count(
                old(self)@.materials,
                old(self)@.materials.len(),
            ),
    {
        self.materials.repack_dirty()
    }

    /// Records that the modification signal of the shader file fired.
    pub fn file_changed(&mut self)
        requires
            old(self).wf(),
        ensures
            final(self).wf(),
            final(self)@ == (ContextSpec {
                shader: next_source(old(self)@.shader, WatchEventSpec::FileChanged),
                ..old(self)@
            }),
    {
        self.shader.handle(WatchEvent::FileChanged);
    }

    /// True when changed shader content waits to be compiled.
    pub fn reload_pending(&self) -> (b: bool)
        ensures
            b == (self@.shader.state == WatchState::ChangedPending),
    {
        self.shader.reload_pending()
    }

    /// Takes the outcome of compiling the changed shader content. On
    /// success the pipelines of earlier revisions are dropped and the
    /// watcher goes back to watching. On failure the error is recorded and
    /// nothing else changes.
    pub fn process_reload(&mut self, outcome: CompileOutcome) -> (report: ReloadReport)
        requires
            old(self).wf(),
        ensures
            final(self).wf(),
            final(self)@ == context_after_reload(old(self)@, outcome@),
            report == report_of_reload(old(self)@, outcome@),
            old(self)@.pipelines.pipelines.dom().finite(),
            final(self)@.pipelines.pipelines.dom().finite(),
    {
        proof {
            self.pipelines.lemma_finite();
        }
        if !self.shader.reload_pending() {
            return ReloadReport::NotPending;
        }
        match self.shader.handle(WatchEvent::Reload(outcome)) {
            WatchAction::InvalidatePipelines => {
                let evicted = self.pipelines.invalidate(self.shader.compiled_revision());
                self.shader.handle(WatchEvent::PipelinesInvalidated);
                ReloadReport::Reloaded { evicted }
            },
            _ => ReloadReport::Failed,
        }
    }

    /// Submits one draw: resolves the pipeline (building it on a miss),
    /// brings the uniform buffer of the material up to date, and says what
    /// to bind.
    pub fn submit(&mut self, draw: DrawRequest) -> (r: Submission)
        requires
            old(self).wf(),
        ensures
            final(self).wf(),
            r@ == submission_of(old(self)@, draw),
            final(self)@ == context_after_draw(old(self)@, draw),
    {
        let key = match self.materials.get(draw.material) {
            Some(material) => {
                if *material.shader() != *self.shader.path() {
                    return Submission::Skipped(SkipReason::UnknownShader);
                }
                PipelineKey {
                    type_tag: material.type_tag(),
                    vertex_layout: draw.mesh.vertex_layout,
                    entry_point: match material.entry_point() {
                        Some(name) => Some(name.clone()),
                        None => None,
                    },
                    revision: self.shader.compiled_revision(),
                }
            },
            None => {
                return Submission::Skipped(SkipReason::NoSuchMaterial);
            },
        };
        let pipeline = match self.pipelines.get_or_build(key, self.shader.entry_points()) {
            Ok(id) => id,
            Err(e) => {
                return Submission::Skipped(SkipReason::Pipeline(e));
            },
        };
        self.materials.refresh(draw.material);
        let bindings = match self.materials.get(draw.material) {
            Some(material) => copy_bindings(material.bindings()),
            None => Vec::new(),
        };
        Submission::Draw(
            DrawCall { pipeline, material: draw.material, bindings, mesh: draw.mesh.id },
        )
    }

    /// Submits the draws of a frame in the order given. Entry `i` of the
    /// result answers draw `i`, and is what that draw comes to after the
    /// draws before it.
    pub fn render(&mut self, draws: &Vec<DrawRequest>) -> (out: Vec<Submission>)
        requires
            old(self).wf(),
        ensures
            final(self).wf(),
            final(self)@ == context_after(old(self)@, draws@, draws@.len()),
            out@.len() == draws@.len(),
            forall|i: int|
                0 <= i < draws@.len() ==> (#[trigger] out@[i])@ == submission_of(
                    context_after(old(self)@, draws@, i as nat),
                    draws@[i],
                ),
    {
        let mut out: Vec<Submission> = Vec::new();
        let mut k: usize = 0;
        while k < draws.len()
            invariant
                k <= draws.len(),
                self.wf(),
                self@ == context_after(old(self)@, draws@, k as nat),
                out@.len() == k,
                forall|i: int|
                    0 <= i < k ==> (#[trigger] out@[i])@ == submission_of(
                        context_after(old(self)@, draws@, i as nat),
                        draws@[i],
                    ),
            decreases draws.len() - k,
        {
            let submission = self.submit(draws[k]);
            out.push(submission);
            k += 1;
        }
        out
    }

    /// Runs one frame in its fixed order of phases: the edits from the
    /// editor are applied, the stale uniform buffers are packed anew, the
    /// outcome of compiling changed shader content is taken if there is one,
    /// and the draws are submitted. Every phase is complete before the next
    /// begins.
    pub fn frame(
        &mut self,
        edits: &Vec<Edit>,
        reload: Option<CompileOutcome>,
        draws: &Vec<DrawRequest>,
    ) -> (report: FrameReport)
        requires
            old(self).wf(),
        ensures
            final(self).wf(),
            ({
                let reload_spec = match reload {
                    Some(outcome) => Some(outcome@),
                    None => None,
                };
                let tweaked = context_after_tweaks(old(self)@, edits@);
                let ready = context_before_draws(old(self)@, edits@, reload_spec);
                &&& final(self)@ == context_after(ready, draws@, draws@.len())
                &&& report.edits@.len() == edits@.len()
                &&& forall|i: int|
                    0 <= i < edits@.len() ==> #[trigger] report.edits@[i] == edit_outcome(
                        table_after_edits(old(self)@.materials, edits@, i as nat),
                        edits@[i].material,
                        edits@[i].field,
                        edits@[i].value,
                    )
                &&& report.repacked == stale_count(
                    table_after_edits(old(self)@.materials, edits@, edits@.len()),
                    old(self)@.materials.len(),
                )
                &&& report.reload == match reload_spec {
                    Some(outcome) => report_of_reload(tweaked, outcome),
                    None => ReloadReport::NotPending,
                }
                &&& report.submissions@.len() == draws@.len()
                &&& forall|i: int|
                    0 <= i < draws@.len() ==> (#[trigger] report.submissions@[i])@ == submission_of(
                        context_after(ready, draws@, i as nat),
                        draws@[i],
                    )
            }),
    {
        let edit_results = apply_edits(&mut self.materials, edits);
        proof {
            lemma_edits_keep_len(old(self)@.materials, edits@, edits@.len());
        }
        let repacked = self.materials.repack_dirty();
        let reload_report = match reload {
            Some(outcome) => self.process_reload(outcome),
            None => ReloadReport::NotPending,
        };
        let submissions = self.render(draws);
        FrameReport { edits: edit_results, repacked, reload: reload_report, submissions }
    }
}

/// Edits never add or remove a slot of the table.
proof fn lemma_edits_keep_len(table: Seq<Option<MaterialSpec>>, edits: Seq<Edit>, n: nat)
    requires
        n <= edits.len(),
    ensures
        table_after_edits(table, edits, n).len() == table.len(),
    decreases n,
{
    if n > 0 {
        lemma_edits_keep_len(table, edits, (n - 1) as nat);
    }
}

} // verus!
