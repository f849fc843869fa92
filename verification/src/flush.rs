//! The flush planner: memory-budget preparation, in-place rewriting,
//! storage and bind-group materialization, and command-buffer splitting.
//!
//! A flush walks the deferred queue and turns it into a sequence of
//! self-contained command-buffer plans: each holds the metadata words to
//! upload, the buffers to allocate, and the dispatches to record, with
//! their dynamic metadata offsets. A thin driver shim executes the plans
//! against the real GPU API in order.

use vstd::prelude::*;

verus! {

use crate::MAX_DISPATCH_SIZE;
use crate::bindgroup::{
    BindGroupReference,
    CachedBindgroupBuffers,
    PipelineLayoutKind,
    bg_dest,
    bg_layout_kind,
    bg_layout_kind_spec,
    bg_member_vec,
    bg_members,
};
use crate::cache::{BufferReference, ModelCache};
use crate::pipeline::{
    BinaryFunctions,
    CopyFunctions,
    PipelineType,
    Pipelines,
    UnaryFunctions,
    pipeline_code,
    pipeline_code_spec,
};
use crate::queue::{
    DispatchedBindgroup,
    MlQueue,
    MlQueueDispatch,
    WgpuDevice,
    align_words,
    device_wf,
    disp,
    dispatch_wf,
};

/// A pool buffer the driver shim must create before executing the plan.
#[derive(Clone, Copy, Debug)]
pub struct BufferAlloc {
    pub id: usize,
    pub size: u64,
}

/// One dispatch of a planned command buffer, fully resolved: pipeline,
/// concrete buffers, dynamic metadata offset in bytes, and extents.
#[derive(Debug)]
pub struct PlanDispatch {
    pub pipeline: PipelineType,
    pub layout_kind: PipelineLayoutKind,
    pub bindgroup: CachedBindgroupBuffers,
    pub meta_offset: u32,
    pub x: u32,
    pub y: u32,
    pub z: u32,
    pub workload_size: u64,
}

/// One command buffer, ready to record and submit.
#[derive(Debug)]
pub struct CommandBufferPlan {
    /// The window of the metadata array to upload to the shared buffer.
    pub meta_words: Vec<u32>,
    /// Pool buffers to create before binding.
    pub allocations: Vec<BufferAlloc>,
    pub dispatches: Vec<PlanDispatch>,
    /// A buffer whose first four bytes are copied to the staging probe
    /// after the pass, so completion can be awaited.
    pub wait_copy: Option<usize>,
}

/// The planner's verdict on one dispatch before materialization.
#[derive(Clone, Copy, Debug, PartialEq, Eq, Structural)]
pub enum RewriteDecision {
    /// No rewrite applies.
    Keep,
    /// A contiguous unary op whose input is the last holder of its
    /// storage: run it in place over the input.
    UnaryInplace,
    /// A contiguous binary op whose first input is the last holder: run it
    /// in place over the first input.
    BinaryInplace1,
    /// As above, over the second input; the bind group swaps the inputs so
    /// the in-place one is bound first.
    BinaryInplace2,
    /// A whole-buffer copy whose input is the last holder: no dispatch at
    /// all, the storage moves at plan time.
    CopyElide,
}

/// A unary dispatch rewritable to its in-place variant: the contiguous
/// pipeline with the in-place hint, whose sole input is held only by this
/// queue entry, writing a destination that fits in it and is still
/// unbacked.
pub open spec fn unary_inplace_applicable(
    cache: ModelCache,
    pipeline: PipelineType,
    bg: BindGroupReference,
) -> bool {
    match (pipeline.0, bg) {
        (
            Pipelines::Unary(_, UnaryFunctions::UnaryFromBufferContiguous),
            BindGroupReference::Bindgroup1(vdest, v1, _),
        ) => {
            &&& pipeline.2.input1_inplaceable
            &&& vdest != v1
            &&& cache.buffer_references@[vdest as int].ref_count >= 1
            &&& cache.buffer_references@[v1 as int].ref_count == 1
            &&& cache.buffer_references@[vdest as int].size
                <= cache.buffer_references@[v1 as int].size
            &&& cache.buffer_references@[vdest as int].storage is None
        },
        _ => false,
    }
}

pub open spec fn binary_inplace1_applicable(
    cache: ModelCache,
    pipeline: PipelineType,
    bg: BindGroupReference,
) -> bool {
    match (pipeline.0, bg) {
        (
            Pipelines::Binary(_, BinaryFunctions::BinaryBufferFromBufferContiguousBoth),
            BindGroupReference::Bindgroup2(vdest, v1, v2, _),
        ) => {
            &&& pipeline.2.input1_inplaceable
            &&& vdest != v1
            &&& vdest != v2
            &&& cache.buffer_references@[vdest as int].ref_count >= 1
            &&& cache.buffer_references@[v1 as int].ref_count == 1
            &&& cache.buffer_references@[vdest as int].size
                <= cache.buffer_references@[v1 as int].size
            &&& cache.buffer_references@[vdest as int].storage is None
        },
        _ => false,
    }
}

pub open spec fn binary_inplace2_applicable(
    cache: ModelCache,
    pipeline: PipelineType,
    bg: BindGroupReference,
) -> bool {
    match (pipeline.0, bg) {
        (
            Pipelines::Binary(_, BinaryFunctions::BinaryBufferFromBufferContiguousBoth),
            BindGroupReference::Bindgroup2(vdest, v1, v2, _),
        ) => {
            &&& !pipeline.2.input1_inplaceable
            &&& pipeline.2.input2_inplaceable
            &&& vdest != v2
            &&& vdest != v1
            &&& cache.buffer_references@[vdest as int].ref_count >= 1
            &&& cache.buffer_references@[v2 as int].ref_count == 1
            &&& cache.buffer_references@[vdest as int].size
                <= cache.buffer_references@[v2 as int].size
            &&& cache.buffer_references@[vdest as int].storage is None
        },
        _ => false,
    }
}

pub open spec fn copy_elide_applicable(
    cache: ModelCache,
    pipeline: PipelineType,
    bg: BindGroupReference,
) -> bool {
    match (pipeline.0, bg) {
        (
            Pipelines::CopyOp(_, CopyFunctions::CopyBuffer),
            BindGroupReference::Bindgroup1(vdest, v1, _),
        ) => {
            &&& pipeline.2.input1_inplaceable
            &&& vdest != v1
            &&& cache.buffer_references@[vdest as int].ref_count >= 1
            &&& cache.buffer_references@[v1 as int].ref_count == 1
            &&& cache.buffer_references@[vdest as int].size
                <= cache.buffer_references@[v1 as int].size
            &&& cache.buffer_references@[vdest as int].storage is None
        },
        _ => false,
    }
}

/// The decision the planner takes on one dispatch.
pub open spec fn decision_spec(
    cache: ModelCache,
    pipeline: PipelineType,
    bg: BindGroupReference,
) -> RewriteDecision {
    if unary_inplace_applicable(cache, pipeline, bg) {
        RewriteDecision::UnaryInplace
    } else if binary_inplace1_applicable(cache, pipeline, bg) {
        RewriteDecision::BinaryInplace1
    } else if binary_inplace2_applicable(cache, pipeline, bg) {
        RewriteDecision::BinaryInplace2
    } else if copy_elide_applicable(cache, pipeline, bg) {
        RewriteDecision::CopyElide
    } else {
        RewriteDecision::Keep
    }
}

/// A unary pipeline key rewritten to its in-place variant.
pub open spec fn unary_rewrite_keys(p0: PipelineType, p1: PipelineType) -> bool {
    match (p0.0, p1.0) {
        (
            Pipelines::Unary(dt0, UnaryFunctions::UnaryFromBufferContiguous),
            Pipelines::Unary(dt1, UnaryFunctions::UnaryInplaceContiguous),
        ) => dt0 == dt1 && p0.2.input1_inplaceable,
        _ => false,
    }
}

/// A binary pipeline key rewritten in place over its first input.
pub open spec fn binary1_rewrite_keys(p0: PipelineType, p1: PipelineType) -> bool {
    match (p0.0, p1.0) {
        (
            Pipelines::Binary(dt0, BinaryFunctions::BinaryBufferFromBufferContiguousBoth),
            Pipelines::Binary(dt1, BinaryFunctions::BinaryBufferInplace1ContiguousBoth),
        ) => dt0 == dt1 && p0.2.input1_inplaceable,
        _ => false,
    }
}

/// A binary pipeline key rewritten in place over its second input.
pub open spec fn binary2_rewrite_keys(p0: PipelineType, p1: PipelineType) -> bool {
    match (p0.0, p1.0) {
        (
            Pipelines::Binary(dt0, BinaryFunctions::BinaryBufferFromBufferContiguousBoth),
            Pipelines::Binary(dt1, BinaryFunctions::BinaryBufferInplace2ContiguousBoth),
        ) => dt0 == dt1 && !p0.2.input1_inplaceable && p0.2.input2_inplaceable,
        _ => false,
    }
}

/// Only a whole-buffer copy whose first input carries the in-place hint
/// may vanish from the plan.
pub open spec fn elidable_key(p0: PipelineType) -> bool {
    match p0.0 {
        Pipelines::CopyOp(_, CopyFunctions::CopyBuffer) => p0.2.input1_inplaceable,
        _ => false,
    }
}

/// How planning may change one dispatch: the constant-array index and the
/// hints never move; a concrete dispatch keeps its pipeline or takes
/// exactly one of the three in-place keys; only an elidable copy becomes a
/// no-op; nothing stays unplanned.
pub open spec fn rewrite_shape_ok(d0: MlQueueDispatch, d1: MlQueueDispatch) -> bool {
    &&& d1.pipeline.1 == d0.pipeline.1
    &&& d1.pipeline.2 == d0.pipeline.2
    &&& match d1.bindgroup {
        DispatchedBindgroup::CachedBindgroup(_) => d1.pipeline_cached && (d1.pipeline.0
            == d0.pipeline.0 || unary_rewrite_keys(d0.pipeline, d1.pipeline)
            || binary1_rewrite_keys(d0.pipeline, d1.pipeline) || binary2_rewrite_keys(
            d0.pipeline,
            d1.pipeline,
        ))
        ,
        DispatchedBindgroup::NoOp => elidable_key(d0.pipeline),
        DispatchedBindgroup::BindgroupReference(_) => false,
    }
}

/// The aliasing step's footprint in the cache: the source lost its
/// storage, and wherever the destination is still held it carries exactly
/// the storage the source had (a destination nobody holds any more may
/// have returned its storage to the pool).
pub open spec fn storage_moved(c0: ModelCache, c1: ModelCache, vdest: usize, src: usize) -> bool {
    &&& c1.buffer_references@[src as int].storage is None
    &&& (c0.buffer_references@[src as int].storage is Some ==> {
        &&& (c1.buffer_references@[vdest as int].storage
            == c0.buffer_references@[src as int].storage
            || c1.buffer_references@[vdest as int].storage is None)
        &&& (c1.buffer_references@[vdest as int].ref_count >= 1
            ==> c1.buffer_references@[vdest as int].storage
            == c0.buffer_references@[src as int].storage)
    })
}

/// The pipeline and bind-group form the planner gives one dispatch,
/// determined by the rewrite decision taken against the cache state the
/// dispatch was planned in.
pub open spec fn decision_shape_ok(
    c0: ModelCache,
    bg: BindGroupReference,
    d0: MlQueueDispatch,
    d1: MlQueueDispatch,
) -> bool {
    let dec = decision_spec(c0, d0.pipeline, bg);
    &&& (dec is Keep ==> d1.pipeline == d0.pipeline && d1.bindgroup is CachedBindgroup)
    &&& (dec is CopyElide ==> d1.bindgroup is NoOp)
    &&& (dec is UnaryInplace ==> d1.bindgroup is CachedBindgroup && unary_rewrite_keys(
        d0.pipeline,
        d1.pipeline,
    ))
    &&& (dec is BinaryInplace1 ==> d1.bindgroup is CachedBindgroup && binary1_rewrite_keys(
        d0.pipeline,
        d1.pipeline,
    ))
    &&& (dec is BinaryInplace2 ==> d1.bindgroup is CachedBindgroup && binary2_rewrite_keys(
        d0.pipeline,
        d1.pipeline,
    ))
}

/// The cache-side effect of planning one dispatch: each rewrite moves the
/// input's storage onto the destination and never allocates for the
/// destination — an elided copy touches no pool byte at all, and an
/// in-place rewrite whose operands were already backed leaves the pool no
/// larger than it was.
pub open spec fn decision_storage_ok(
    c0: ModelCache,
    c1: ModelCache,
    bg: BindGroupReference,
    d0: MlQueueDispatch,
) -> bool {
    let dec = decision_spec(c0, d0.pipeline, bg);
    &&& (dec is CopyElide ==> (match bg {
        BindGroupReference::Bindgroup1(vdest, v1, _) => storage_moved(c0, c1, vdest, v1)
            && c1.buffer_memory == c0.buffer_memory && c1.buffers@.len() == c0.buffers@.len(),
        _ => true,
    }))
    &&& (dec is UnaryInplace ==> (match bg {
        BindGroupReference::Bindgroup1(vdest, v1, _) => storage_moved(c0, c1, vdest, v1) && (
        c0.buffer_references@[v1 as int].storage is Some ==> c1.buffer_memory
            <= c0.buffer_memory && c1.buffers@.len() == c0.buffers@.len()),
        _ => true,
    }))
    &&& (dec is BinaryInplace1 ==> (match bg {
        BindGroupReference::Bindgroup2(vdest, v1, v2, _) => storage_moved(c0, c1, vdest, v1) && (
        c0.buffer_references@[v1 as int].storage is Some
            && c0.buffer_references@[v2 as int].storage is Some ==> c1.buffer_memory
            <= c0.buffer_memory && c1.buffers@.len() == c0.buffers@.len()),
        _ => true,
    }))
    &&& (dec is BinaryInplace2 ==> (match bg {
        BindGroupReference::Bindgroup2(vdest, v1, v2, _) => storage_moved(c0, c1, vdest, v2) && (
        c0.buffer_references@[v1 as int].storage is Some
            && c0.buffer_references@[v2 as int].storage is Some ==> c1.buffer_memory
            <= c0.buffer_memory && c1.buffers@.len() == c0.buffers@.len()),
        _ => true,
    }))
}

/// Pattern-matches one dispatch against the in-place rewrite rules.
pub fn inplace_decision(
    cache: &ModelCache,
    pipeline: &PipelineType,
    bg: &BindGroupReference,
) -> (r: RewriteDecision)
    requires
        crate::queue::bg_refs_ok(*bg, cache.n_refs()),
    ensures
        r == decision_spec(*cache, *pipeline, *bg),
{
    proof {
        assert(bg_members(*bg).len() >= 1);
    }
    match (&pipeline.0, bg) {
        (
            Pipelines::Unary(_, UnaryFunctions::UnaryFromBufferContiguous),
            BindGroupReference::Bindgroup1(vdest, v1, _),
        ) => {
            proof {
                assert(bg_members(*bg)[0] == bg_dest(*bg));
                assert(bg_members(*bg)[1] < cache.n_refs());
            }
            if pipeline.2.input1_inplaceable && *vdest != *v1
                && cache.buffer_references[*vdest].ref_count >= 1
                && cache.buffer_references[*v1].ref_count == 1
                && cache.buffer_references[*vdest].size <= cache.buffer_references[*v1].size
                && cache.buffer_references[*vdest].storage.is_none() {
                RewriteDecision::UnaryInplace
            } else {
                RewriteDecision::Keep
            }
        },
        (
            Pipelines::Binary(_, BinaryFunctions::BinaryBufferFromBufferContiguousBoth),
            BindGroupReference::Bindgroup2(vdest, v1, v2, _),
        ) => {
            proof {
                assert(bg_members(*bg)[1] < cache.n_refs());
                assert(bg_members(*bg)[2] < cache.n_refs());
            }
            if pipeline.2.input1_inplaceable && *vdest != *v1 && *vdest != *v2
                && cache.buffer_references[*vdest].ref_count >= 1
                && cache.buffer_references[*v1].ref_count == 1
                && cache.buffer_references[*vdest].size <= cache.buffer_references[*v1].size
                && cache.buffer_references[*vdest].storage.is_none() {
                RewriteDecision::BinaryInplace1
            } else if !pipeline.2.input1_inplaceable && pipeline.2.input2_inplaceable
                && *vdest != *v2 && *vdest != *v1
                && cache.buffer_references[*vdest].ref_count >= 1
                && cache.buffer_references[*v2].ref_count == 1
                && cache.buffer_references[*vdest].size <= cache.buffer_references[*v2].size
                && cache.buffer_references[*vdest].storage.is_none() {
                RewriteDecision::BinaryInplace2
            } else {
                RewriteDecision::Keep
            }
        },
        (
            Pipelines::CopyOp(_, CopyFunctions::CopyBuffer),
            BindGroupReference::Bindgroup1(vdest, v1, _),
        ) => {
            proof {
                assert(bg_members(*bg)[1] < cache.n_refs());
            }
            if pipeline.2.input1_inplaceable && *vdest != *v1
                && cache.buffer_references[*vdest].ref_count >= 1
                && cache.buffer_references[*v1].ref_count == 1
                && cache.buffer_references[*vdest].size <= cache.buffer_references[*v1].size
                && cache.buffer_references[*vdest].storage.is_none() {
                RewriteDecision::CopyElide
            } else {
                RewriteDecision::Keep
            }
        },
        _ => RewriteDecision::Keep,
    }
}

/// Binds storage to every reference a bind group names and returns the
/// concrete bind group over the bound pool buffers, together with the
/// fresh allocations this required.
fn bind_bindgroup(cache: &mut ModelCache, bg: &BindGroupReference, allocs: &mut Vec<BufferAlloc>)
 -> (cb: CachedBindgroupBuffers)
    requires
        old(cache).wf(),
        crate::queue::bg_refs_ok(*bg, old(cache).n_refs()),
        forall|k: int|
            0 <= k < bg_members(*bg).len() ==> old(cache).buffer_references@[#[trigger] bg_members(
                *bg,
            )[k] as int].ref_count >= 1,
    ensures
        final(cache).wf(),
        final(cache).buffer_references@.len() == old(cache).buffer_references@.len(),
        final(cache).buffers@.len() >= old(cache).buffers@.len(),
        final(cache).max_memory_allowed == old(cache).max_memory_allowed,
        final(cache).last_most_needed == old(cache).last_most_needed,
        final(cache).current_mapping == old(cache).current_mapping,
        final(cache).bindgroups@ =~= old(cache).bindgroups@,
        forall|j: int|
            0 <= j < old(cache).n_refs() ==> {
                &&& (#[trigger] final(cache).buffer_references@[j]).size == old(cache).buffer_references@[j].size
                &&& final(cache).buffer_references@[j].ref_count == old(cache).buffer_references@[j].ref_count
                &&& final(cache).buffer_references@[j].is_referenced_by_storage == old(cache).buffer_references@[j].is_referenced_by_storage
            },
        forall|k: int|
            0 <= k < bg_members(*bg).len() ==> final(cache).buffer_references@[#[trigger] bg_members(
                *bg,
            )[k] as int].storage is Some,
        forall|id: usize|
            (id as int) < old(cache).n_refs() && old(cache).buffer_references@[id as int].storage is Some
                ==> (#[trigger] final(cache).buffer_references@[id as int]).storage == old(cache).buffer_references@[id as int].storage,
        forall|id: usize|
            (id as int) < old(cache).n_refs() && (forall|k: int|
                0 <= k < bg_members(*bg).len() ==> #[trigger] bg_members(*bg)[k] != id) ==> (
            #[trigger] final(cache).buffer_references@[id as int]).storage == old(cache).buffer_references@[id as int].storage,
        (forall|k: int|
            0 <= k < bg_members(*bg).len() ==> old(cache).buffer_references@[#[trigger] bg_members(
                *bg,
            )[k] as int].storage is Some) ==> {
            &&& final(cache).buffers@ == old(cache).buffers@
            &&& final(cache).buffer_memory == old(cache).buffer_memory
            &&& final(cache).buffer_memory_free == old(cache).buffer_memory_free
            &&& final(allocs)@ == old(allocs)@
        },
        cb.wf(),
        final(cache).buffer_references@[bg_dest(*bg) as int].storage == Some(cb.dest),
        cb.inputs@.len() == bg_members(*bg).len() - 1,
        forall|k: int|
            0 <= k < cb.inputs@.len() ==> final(cache).buffer_references@[bg_members(*bg)[k
                + 1] as int].storage == Some(#[trigger] cb.inputs@[k]),
        cb.min_binding_16 == (bg_layout_kind_spec(*bg) == PipelineLayoutKind::Layout1B16
            || bg_layout_kind_spec(*bg) == PipelineLayoutKind::Layout2B16),
        final(allocs)@.len() >= old(allocs)@.len(),
        forall|k: int| 0 <= k < old(allocs)@.len() ==> final(allocs)@[k] == old(allocs)@[k],
        forall|k: int|
            old(allocs)@.len() <= k < final(allocs)@.len() ==> (#[trigger] final(allocs)@[k].id
                as int) < final(cache).buffers@.len(),
{
    let members = bg_member_vec(bg);
    let n = members.len();
    let mut k: usize = 0;
    while k < n
        invariant
            0 <= k <= n,
            n == bg_members(*bg).len(),
            members@ == bg_members(*bg),
            cache.wf(),
            cache.buffer_references@.len() == old(cache).buffer_references@.len(),
            cache.buffers@.len() >= old(cache).buffers@.len(),
            cache.max_memory_allowed == old(cache).max_memory_allowed,
            cache.last_most_needed == old(cache).last_most_needed,
            cache.current_mapping == old(cache).current_mapping,
            cache.bindgroups@ =~= old(cache).bindgroups@,
            crate::queue::bg_refs_ok(*bg, cache.n_refs()),
            forall|j: int|
                0 <= j < bg_members(*bg).len() ==> old(cache).buffer_references@[#[trigger] bg_members(
                    *bg,
                )[j] as int].ref_count >= 1,
            forall|j: int|
                0 <= j < old(cache).n_refs() ==> {
                    &&& (#[trigger] cache.buffer_references@[j]).size == old(cache).buffer_references@[j].size
                    &&& cache.buffer_references@[j].ref_count == old(cache).buffer_references@[j].ref_count
                    &&& cache.buffer_references@[j].is_referenced_by_storage == old(cache).buffer_references@[j].is_referenced_by_storage
                },
            forall|j: int|
                0 <= j < k ==> cache.buffer_references@[#[trigger] members@[j] as int].storage
                    is Some,
            forall|id: usize|
                (id as int) < old(cache).n_refs() && old(cache).buffer_references@[id as int].storage is Some
                    ==> (#[trigger] cache.buffer_references@[id as int]).storage == old(cache).buffer_references@[id as int].storage,
            forall|id: usize|
                (id as int) < old(cache).n_refs() && (forall|k2: int|
                    0 <= k2 < bg_members(*bg).len() ==> #[trigger] bg_members(*bg)[k2] != id)
                    ==> (#[trigger] cache.buffer_references@[id as int]).storage == old(cache).buffer_references@[id as int].storage,
            (forall|k2: int|
                0 <= k2 < bg_members(*bg).len() ==> old(cache).buffer_references@[#[trigger] bg_members(
                    *bg,
                )[k2] as int].storage is Some) ==> {
                &&& cache.buffers@ == old(cache).buffers@
                &&& cache.buffer_memory == old(cache).buffer_memory
                &&& cache.buffer_memory_free == old(cache).buffer_memory_free
                &&& allocs@ == old(allocs)@
            },
            allocs@.len() >= old(allocs)@.len(),
            forall|j: int| 0 <= j < old(allocs)@.len() ==> allocs@[j] == old(allocs)@[j],
            forall|j: int|
                old(allocs)@.len() <= j < allocs@.len() ==> (#[trigger] allocs@[j].id as int)
                    < cache.buffers@.len(),
        decreases n - k,
    {
        let id = members[k];
        let needs = match &self_storage(cache, id) {
            Option::Some(_) => false,
            Option::None => true,
        };
        if needs {
            let size = cache.buffer_references[id].size;
            proof {
                assert(members@[k as int] == bg_members(*bg)[k as int]);
                assert(old(cache).buffer_references@[bg_members(*bg)[k as int] as int].ref_count
                    >= 1);
            }
            let (sid, fresh) = cache.bind_buffer(id);
            if fresh {
                allocs.push(BufferAlloc { id: sid, size });
            }
            proof {
                assert forall|j: int|
                    0 <= j < k + 1 implies cache.buffer_references@[#[trigger] members@[j] as int].storage
                    is Some by {}
            }
        }
        k += 1;
    }
    // read the bound storage ids out
    let dest_sid = match self_storage(cache, members[0]) {
        Option::Some(s) => s,
        Option::None => 0,  // excluded: every member is bound by now
    };
    let mut inputs: Vec<usize> = Vec::new();
    let mut k: usize = 1;
    while k < n
        invariant
            1 <= k <= n,
            n == bg_members(*bg).len(),
            members@ == bg_members(*bg),
            n >= 1,
            inputs@.len() == k - 1,
            forall|j: int|
                0 <= j < k - 1 ==> cache.buffer_references@[bg_members(*bg)[j + 1] as int].storage
                    == Some(#[trigger] inputs@[j]),
            cache.wf(),
            crate::queue::bg_refs_ok(*bg, cache.n_refs()),
            forall|j: int|
                0 <= j < n ==> cache.buffer_references@[#[trigger] members@[j] as int].storage
                    is Some,
        decreases n - k,
    {
        let sid = match self_storage(cache, members[k]) {
            Option::Some(s) => s,
            Option::None => 0,  // excluded as above
        };
        inputs.push(sid);
        k += 1;
    }
    let kind = bg_layout_kind(bg);
    let min16 = match kind {
        PipelineLayoutKind::Layout1B16 => true,
        PipelineLayoutKind::Layout2B16 => true,
        _ => false,
    };
    proof {
        assert(bg_members(*bg).len() >= 1);
    }
    CachedBindgroupBuffers { dest: dest_sid, inputs, min_binding_16: min16 }
}

/// Reads a reference's storage slot.
fn self_storage(cache: &ModelCache, id: usize) -> (r: Option<usize>)
    requires
        (id as int) < cache.buffer_references@.len(),
    ensures
        r == cache.buffer_references@[id as int].storage,
{
    cache.buffer_references[id].storage
}

/// The buffer-mapping signature: a fold of the queue's pipeline codes.
pub open spec fn sig_mix(h: u64, c: u64) -> u64 {
    ((((h ^ c) as int) * 0x100000001b3) % 0x1_0000_0000_0000_0000) as u64
}

pub open spec fn pipelines_sig(ds: Seq<MlQueue>) -> u64
    decreases ds.len(),
{
    if ds.len() == 0 {
        0xcbf29ce484222325u64
    } else {
        sig_mix(
            pipelines_sig(ds.drop_last()),
            pipeline_code_spec(disp(ds.last()).pipeline.0) as u64,
        )
    }
}

fn sig_mix_exec(h: u64, c: u64) -> (r: u64)
    ensures
        r == sig_mix(h, c),
{
    let t = ((h ^ c) as u128) * 0x100000001b3u128;
    proof {
        vstd::arithmetic::div_mod::lemma_mod_bound(t as int, 0x1_0000_0000_0000_0000);
    }
    (t % 0x1_0000_0000_0000_0000u128) as u64
}

/// The buffer references one queue entry names, in binding order; a
/// planned or elided entry names none.
pub open spec fn member_seq(q: MlQueue) -> Seq<usize> {
    match disp(q).bindgroup {
        DispatchedBindgroup::BindgroupReference(bg) => bg_members(bg),
        DispatchedBindgroup::CachedBindgroup(_) => Seq::empty(),
        DispatchedBindgroup::NoOp => Seq::empty(),
    }
}

/// Whether `m` already occurred among the members of an earlier queue
/// entry, or among the first `k` members of entry `i`: its storage was
/// counted then, not now.
pub open spec fn occurs_before(ds: Seq<MlQueue>, i: int, k: int, m: usize) -> bool {
    (exists|j: int| 0 <= j < i && member_seq(#[trigger] ds[j]).contains(m)) || member_seq(
        ds[i],
    ).take(k).contains(m)
}

/// Whether `m` occurs in any queue entry after position `i`: entry `i` is
/// its last use exactly when it does not.
pub open spec fn occurs_after(ds: Seq<MlQueue>, i: int, m: usize) -> bool {
    exists|j: int| i < j < ds.len() && member_seq(#[trigger] ds[j]).contains(m)
}

/// One member step of the allocation simulation: an unbacked reference is
/// charged at its first use (raising the high-water mark), and a reference
/// not held by a long-term tensor is credited back at its last use.
pub open spec fn sim_step(
    st: (u64, u64),
    refs: Seq<BufferReference>,
    ds: Seq<MlQueue>,
    i: int,
    k: int,
) -> (u64, u64) {
    let m = member_seq(ds[i])[k];
    let r = refs[m as int];
    let st1 = if !occurs_before(ds, i, k, m) && r.storage is None {
        let t = crate::sat_add_spec(st.0, r.size);
        (t, if t > st.1 {
            t
        } else {
            st.1
        })
    } else {
        st
    };
    if !occurs_after(ds, i, m) && !r.is_referenced_by_storage {
        (crate::sat_sub_spec(st1.0, r.size), st1.1)
    } else {
        st1
    }
}

/// The simulation state after processing every member position lexically
/// before `(i, k)`: running live bytes and the high-water mark, starting
/// from the bytes already in use.
pub open spec fn sim_upto(
    ds: Seq<MlQueue>,
    refs: Seq<BufferReference>,
    base: u64,
    i: int,
    k: int,
) -> (u64, u64)
    decreases i, k,
{
    if i <= 0 && k <= 0 {
        (base, base)
    } else if k <= 0 {
        sim_upto(ds, refs, base, i - 1, member_seq(ds[i - 1]).len() as int)
    } else {
        sim_step(sim_upto(ds, refs, base, i, k - 1), refs, ds, i, k - 1)
    }
}

/// The high-water mark of live storage bytes a flush of this queue needs:
/// the peak of the allocation simulation over the whole queue, starting
/// from the bytes currently in use.
pub open spec fn most_needed_spec(ds: Seq<MlQueue>, refs: Seq<BufferReference>, base: u64) -> u64 {
    sim_upto(ds, refs, base, ds.len() as int, 0).1
}

/// The members of one queue entry, as the simulation scans them.
fn member_vec_of(q: &MlQueue) -> (r: Vec<usize>)
    ensures
        r@ == member_seq(*q),
{
    match q {
        MlQueue::Dispatch(d) => {
            match &d.bindgroup {
                DispatchedBindgroup::BindgroupReference(bg) => bg_member_vec(bg),
                DispatchedBindgroup::CachedBindgroup(_) => Vec::new(),
                DispatchedBindgroup::NoOp => Vec::new(),
            }
        },
    }
}

/// Scans the queue for an occurrence of `m` lexically before `(i, k)`.
fn occurs_before_exec(dev: &WgpuDevice, i: usize, k: usize, m: usize) -> (r: bool)
    requires
        (i as int) < dev.command_queue.command_queue@.len(),
        k <= member_seq(dev.command_queue.command_queue@[i as int]).len(),
    ensures
        r == occurs_before(dev.command_queue.command_queue@, i as int, k as int, m),
{
    let ghost ds = dev.command_queue.command_queue@;
    let mut j: usize = 0;
    while j < i
        invariant
            0 <= j <= i,
            (i as int) < ds.len(),
            ds == dev.command_queue.command_queue@,
            forall|j2: int| 0 <= j2 < j ==> !member_seq(#[trigger] ds[j2]).contains(m),
        decreases i - j,
    {
        let members = member_vec_of(&dev.command_queue.command_queue[j]);
        let mut l: usize = 0;
        while l < members.len()
            invariant
                0 <= l <= members@.len(),
                0 <= j < i,
                (i as int) < ds.len(),
                ds == dev.command_queue.command_queue@,
                members@ == member_seq(ds[j as int]),
                forall|l2: int| 0 <= l2 < l ==> members@[l2] != m,
            decreases members@.len() - l,
        {
            if members[l] == m {
                proof {
                    assert(member_seq(ds[j as int]).contains(m)) by {
                        assert(member_seq(ds[j as int])[l as int] == m);
                    }
                }
                return true;
            }
            l += 1;
        }
        proof {
            assert(!member_seq(ds[j as int]).contains(m));
        }
        j += 1;
    }
    let members = member_vec_of(&dev.command_queue.command_queue[i]);
    let mut l: usize = 0;
    while l < k
        invariant
            0 <= l <= k,
            k <= members@.len(),
            (i as int) < ds.len(),
            ds == dev.command_queue.command_queue@,
            members@ == member_seq(ds[i as int]),
            forall|j2: int| 0 <= j2 < i ==> !member_seq(#[trigger] ds[j2]).contains(m),
            forall|l2: int| 0 <= l2 < l ==> members@[l2] != m,
        decreases k - l,
    {
        if members[l] == m {
            proof {
                assert(member_seq(ds[i as int]).take(k as int).contains(m)) by {
                    assert(member_seq(ds[i as int]).take(k as int)[l as int] == m);
                }
            }
            return true;
        }
        l += 1;
    }
    proof {
        assert(!member_seq(ds[i as int]).take(k as int).contains(m)) by {
            if member_seq(ds[i as int]).take(k as int).contains(m) {
                let w = choose|w: int|
                    0 <= w < k && member_seq(ds[i as int]).take(k as int)[w] == m;
                assert(members@[w] == m);
            }
        }
    }
    false
}

/// Scans the queue for an occurrence of `m` after position `i`.
fn occurs_after_exec(dev: &WgpuDevice, i: usize, m: usize) -> (r: bool)
    requires
        (i as int) < dev.command_queue.command_queue@.len(),
    ensures
        r == occurs_after(dev.command_queue.command_queue@, i as int, m),
{
    let ghost ds = dev.command_queue.command_queue@;
    let len = dev.command_queue.command_queue.len();
    let mut j: usize = i + 1;
    while j < len
        invariant
            i < j <= len,
            len == ds.len(),
            ds == dev.command_queue.command_queue@,
            forall|j2: int| i < j2 < j ==> !member_seq(#[trigger] ds[j2]).contains(m),
        decreases len - j,
    {
        let members = member_vec_of(&dev.command_queue.command_queue[j]);
        let mut l: usize = 0;
        while l < members.len()
            invariant
                0 <= l <= members@.len(),
                i < j < ds.len(),
                ds == dev.command_queue.command_queue@,
                members@ == member_seq(ds[j as int]),
                forall|l2: int| 0 <= l2 < l ==> members@[l2] != m,
            decreases members@.len() - l,
        {
            if members[l] == m {
                proof {
                    assert(member_seq(ds[j as int]).contains(m)) by {
                        assert(member_seq(ds[j as int])[l as int] == m);
                    }
                }
                return true;
            }
            l += 1;
        }
        proof {
            assert(!member_seq(ds[j as int]).contains(m));
        }
        j += 1;
    }
    false
}

/// Walks the queue to set the buffer-mapping signature and to estimate the
/// high-water storage need of this flush, then applies the memory-budget
/// update: the budget rises to the expanded watermark at once and decays
/// toward it by an eighth per flush.
#[verifier::rlimit(100)]
pub fn prepare(dev: &mut WgpuDevice)
    requires
        device_wf(*old(dev)),
    ensures
        device_wf(*final(dev)),
        final(dev).device_limits == old(dev).device_limits,
        final(dev).command_queue.command_queue@ == old(dev).command_queue.command_queue@,
        final(dev).command_queue.meta.0@ == old(dev).command_queue.meta.0@,
        final(dev).command_queue.current_meta == old(dev).command_queue.current_meta,
        final(dev).command_queue.id_to_const_array@ == old(dev).command_queue.id_to_const_array@,
        final(dev).command_queue.last_buffer == old(dev).command_queue.last_buffer,
        final(dev).cache.buffer_references@ == old(dev).cache.buffer_references@,
        final(dev).cache.buffers@ == old(dev).cache.buffers@,
        final(dev).cache.buffer_memory == old(dev).cache.buffer_memory,
        final(dev).cache.buffer_memory_free == old(dev).cache.buffer_memory_free,
        final(dev).cache.bindgroups@ =~= old(dev).cache.bindgroups@,
        final(dev).cache.current_mapping == pipelines_sig(old(dev).command_queue.command_queue@),
        final(dev).cache.last_most_needed == crate::cache::expand_headroom_spec(
            most_needed_spec(
                old(dev).command_queue.command_queue@,
                old(dev).cache.buffer_references@,
                crate::sat_sub_spec(
                    old(dev).cache.buffer_memory,
                    old(dev).cache.buffer_memory_free,
                ),
            ),
        ),
        final(dev).cache.max_memory_allowed == (if final(dev).cache.last_most_needed > old(dev).cache.max_memory_allowed {
            final(dev).cache.last_most_needed
        } else {
            ((7 * old(dev).cache.max_memory_allowed as int) / 8 + final(dev).cache.last_most_needed / 8) as u64
        }),
{
    let ghost ds = dev.command_queue.command_queue@;
    let ghost refs = dev.cache.buffer_references@;
    let n = dev.command_queue.command_queue.len();
    // pass 0: fold the pipeline codes into the mapping signature
    let mut h: u64 = 0xcbf29ce484222325;
    let mut i: usize = 0;
    while i < n
        invariant
            0 <= i <= n,
            n == dev.command_queue.command_queue@.len(),
            h == pipelines_sig(dev.command_queue.command_queue@.take(i as int)),
        decreases n - i,
    {
        let code = match &dev.command_queue.command_queue[i] {
            MlQueue::Dispatch(d) => pipeline_code(&d.pipeline.0),
        };
        h = sig_mix_exec(h, code);
        proof {
            let ds2 = dev.command_queue.command_queue@;
            assert(ds2.take(i as int + 1).drop_last() =~= ds2.take(i as int));
            assert(ds2.take(i as int + 1).last() == ds2[i as int]);
        }
        i += 1;
    }
    proof {
        assert(dev.command_queue.command_queue@.take(n as int)
            =~= dev.command_queue.command_queue@);
    }
    dev.cache.set_current_buffer_mapping(h);

    // simulate allocation in member order and track the high-water mark of
    // the storage in use
    let base = crate::sat_sub(dev.cache.buffer_memory, dev.cache.buffer_memory_free);
    let mut total_used_storage: u64 = base;
    let mut most_needed_storage: u64 = base;
    let mut i: usize = 0;
    while i < n
        invariant
            0 <= i <= n,
            device_wf(*dev),
            n == dev.command_queue.command_queue@.len(),
            ds == dev.command_queue.command_queue@,
            refs == dev.cache.buffer_references@,
            base == crate::sat_sub_spec(
                old(dev).cache.buffer_memory,
                old(dev).cache.buffer_memory_free,
            ),
            (total_used_storage, most_needed_storage) == sim_upto(ds, refs, base, i as int, 0),
            dev.device_limits == old(dev).device_limits,
            dev.command_queue.command_queue@ == old(dev).command_queue.command_queue@,
            dev.command_queue.meta.0@ == old(dev).command_queue.meta.0@,
            dev.command_queue.current_meta == old(dev).command_queue.current_meta,
            dev.command_queue.id_to_const_array@ == old(dev).command_queue.id_to_const_array@,
            dev.command_queue.last_buffer == old(dev).command_queue.last_buffer,
            dev.cache.buffer_references@ == old(dev).cache.buffer_references@,
            dev.cache.buffers@ == old(dev).cache.buffers@,
            dev.cache.buffer_memory == old(dev).cache.buffer_memory,
            dev.cache.buffer_memory_free == old(dev).cache.buffer_memory_free,
            dev.cache.bindgroups@ =~= old(dev).cache.bindgroups@,
            dev.cache.max_memory_allowed == old(dev).cache.max_memory_allowed,
            dev.cache.last_most_needed == old(dev).cache.last_most_needed,
            dev.cache.current_mapping == pipelines_sig(old(dev).command_queue.command_queue@),
        decreases n - i,
    {
        let members = member_vec_of(&dev.command_queue.command_queue[i]);
        proof {
            if member_seq(ds[i as int]).len() > 0 {
                assert(dispatch_wf(
                    disp(ds[i as int]),
                    align_words(dev.device_limits),
                    dev.cache.n_refs(),
                    dev.command_queue.id_to_const_array@.len() as int,
                ));
            }
        }
        let mut k: usize = 0;
        while k < members.len()
            invariant
                0 <= k <= members@.len(),
                (i as int) < ds.len(),
                device_wf(*dev),
                ds == dev.command_queue.command_queue@,
                refs == dev.cache.buffer_references@,
                members@ == member_seq(ds[i as int]),
                forall|l: int|
                    0 <= l < members@.len() ==> (#[trigger] members@[l] as int) < refs.len(),
                (total_used_storage, most_needed_storage) == sim_upto(
                    ds,
                    refs,
                    base,
                    i as int,
                    k as int,
                ),
            decreases members@.len() - k,
        {
            let m = members[k];
            let first = !occurs_before_exec(dev, i, k, m);
            if first && dev.cache.buffer_references[m].storage.is_none() {
                total_used_storage = crate::sat_add(
                    total_used_storage,
                    dev.cache.buffer_references[m].size,
                );
                if total_used_storage > most_needed_storage {
                    most_needed_storage = total_used_storage;
                }
            }
            if !occurs_after_exec(dev, i, m) {
                if !dev.cache.buffer_references[m].is_referenced_by_storage {
                    total_used_storage = crate::sat_sub(
                        total_used_storage,
                        dev.cache.buffer_references[m].size,
                    );
                }
            }
            k += 1;
        }
        proof {
            assert(sim_upto(ds, refs, base, i as int + 1, 0) == sim_upto(
                ds,
                refs,
                base,
                i as int,
                member_seq(ds[i as int]).len() as int,
            ));
        }
        i += 1;
    }
    dev.cache.update_max_memory(most_needed_storage);
}

/// Materialization keeps a dispatch's identity: extents, metadata offset,
/// workload estimate and constant-array index are untouched.
pub open spec fn same_shape(a: MlQueue, b: MlQueue) -> bool {
    &&& disp(a).x == disp(b).x
    &&& disp(a).y == disp(b).y
    &&& disp(a).z == disp(b).z
    &&& disp(a).meta == disp(b).meta
    &&& disp(a).workload_size == disp(b).workload_size
    &&& disp(a).pipeline.1 == disp(b).pipeline.1
}

/// The bind-group reference a dispatch still carries, if it has not been
/// materialized yet.
pub open spec fn ref_bg_of(q: MlQueue) -> Option<BindGroupReference> {
    match disp(q).bindgroup {
        DispatchedBindgroup::BindgroupReference(b) => Some(b),
        DispatchedBindgroup::CachedBindgroup(_) => None,
        DispatchedBindgroup::NoOp => None,
    }
}

/// A dispatch the recorder can take: its bind group is concrete and its
/// pipeline resolved, or it was elided entirely.
pub open spec fn materialized(q: MlQueue) -> bool {
    match disp(q).bindgroup {
        DispatchedBindgroup::CachedBindgroup(_) => disp(q).pipeline_cached,
        DispatchedBindgroup::NoOp => true,
        DispatchedBindgroup::BindgroupReference(_) => false,
    }
}

/// Materializes the dispatch at position `i` of the queue: applies the
/// in-place rewrite it is eligible for, binds storage for the buffers it
/// names, resolves its bind group, and releases the queue's holds on the
/// original references. Returns whether the pool hit its memory budget
/// while binding.
#[verifier::rlimit(100)]
fn materialize_dispatch(dev: &mut WgpuDevice, i: usize, allocs: &mut Vec<BufferAlloc>) -> (limit_hit:
    bool)
    requires
        device_wf(*old(dev)),
        (i as int) < old(dev).command_queue.command_queue@.len(),
        disp(old(dev).command_queue.command_queue@[i as int]).bindgroup is BindgroupReference,
    ensures
        device_wf(*final(dev)),
        final(dev).device_limits == old(dev).device_limits,
        final(dev).command_queue.command_queue@.len() == old(dev).command_queue.command_queue@.len(),
        forall|j: int|
            0 <= j < old(dev).command_queue.command_queue@.len() && j != i ==> final(dev).command_queue.command_queue@[j] == old(dev).command_queue.command_queue@[j],
        same_shape(
            final(dev).command_queue.command_queue@[i as int],
            old(dev).command_queue.command_queue@[i as int],
        ),
        materialized(final(dev).command_queue.command_queue@[i as int]),
        final(dev).command_queue.meta.0@ == old(dev).command_queue.meta.0@,
        final(dev).command_queue.current_meta == old(dev).command_queue.current_meta,
        final(dev).command_queue.id_to_const_array@ == old(dev).command_queue.id_to_const_array@,
        final(dev).command_queue.last_buffer == old(dev).command_queue.last_buffer,
        final(dev).cache.buffer_references@.len() == old(dev).cache.buffer_references@.len(),
        final(dev).cache.buffers@.len() >= old(dev).cache.buffers@.len(),
        final(dev).cache.max_memory_allowed == old(dev).cache.max_memory_allowed,
        limit_hit ==> final(dev).cache.buffer_memory > final(dev).cache.max_memory_allowed,
        final(allocs)@.len() >= old(allocs)@.len(),
        forall|k: int| 0 <= k < old(allocs)@.len() ==> final(allocs)@[k] == old(allocs)@[k],
        forall|k: int|
            old(allocs)@.len() <= k < final(allocs)@.len() ==> (final(allocs)@[k].id as int)
                < final(dev).cache.buffers@.len(),
        ({
            let d0 = disp(old(dev).command_queue.command_queue@[i as int]);
            let d1 = disp(final(dev).command_queue.command_queue@[i as int]);
            &&& rewrite_shape_ok(d0, d1)
            &&& match ref_bg_of(old(dev).command_queue.command_queue@[i as int]) {
                Some(bg) => decision_shape_ok(old(dev).cache, bg, d0, d1) && decision_storage_ok(
                    old(dev).cache,
                    final(dev).cache,
                    bg,
                    d0,
                ),
                None => true,
            }
        }),
{
    let (pipeline, x, y, z, meta, workload, bg) = match &dev.command_queue.command_queue[i] {
        MlQueue::Dispatch(d) => {
            let bg = match &d.bindgroup {
                DispatchedBindgroup::BindgroupReference(b) => *b,
                DispatchedBindgroup::CachedBindgroup(_) => BindGroupReference::Bindgroup0(0),
                DispatchedBindgroup::NoOp => BindGroupReference::Bindgroup0(0),
            };
            (d.pipeline, d.x, d.y, d.z, d.meta, d.workload_size, bg)
        },
    };
    proof {
        let aw = align_words(dev.device_limits);
        assert(dispatch_wf(
            disp(dev.command_queue.command_queue@[i as int]),
            aw,
            dev.cache.n_refs(),
            dev.command_queue.id_to_const_array@.len() as int,
        ));
    }
    let old_members = bg_member_vec(&bg);
    let dec = inplace_decision(&dev.cache, &pipeline, &bg);
    let ghost c0g = dev.cache;
    let mut limit_hit = false;
    let mut new_pipeline = pipeline;
    let new_bindgroup: DispatchedBindgroup = match dec {
        RewriteDecision::CopyElide => {
            match bg {
                BindGroupReference::Bindgroup1(vdest, v1, _) => {
                    dev.cache.transfer_storage(vdest, v1);
                    proof {
                        assert(bg_members(bg)[0] == vdest && bg_members(bg)[1] == v1);
                    }
                    dev.cache.release_members(&old_members);
                    DispatchedBindgroup::NoOp
                },
                _ => DispatchedBindgroup::NoOp,  // excluded by the decision
            }
        },
        _ => {
            let rewritten: BindGroupReference = match dec {
                RewriteDecision::UnaryInplace => {
                    match (pipeline.0, bg) {
                        (
                            Pipelines::Unary(dt, _),
                            BindGroupReference::Bindgroup1(vdest, v1, _),
                        ) => {
                            new_pipeline = PipelineType(
                                Pipelines::Unary(dt, UnaryFunctions::UnaryInplaceContiguous),
                                pipeline.1,
                                pipeline.2,
                            );
                            BindGroupReference::Bindgroup0(v1)
                        },
                        _ => bg,  // excluded by the decision
                    }
                },
                RewriteDecision::BinaryInplace1 => {
                    match (pipeline.0, bg) {
                        (
                            Pipelines::Binary(dt, _),
                            BindGroupReference::Bindgroup2(vdest, v1, v2, _),
                        ) => {
                            new_pipeline = PipelineType(
                                Pipelines::Binary(
                                    dt,
                                    BinaryFunctions::BinaryBufferInplace1ContiguousBoth,
                                ),
                                pipeline.1,
                                pipeline.2,
                            );
                            BindGroupReference::Bindgroup1(v1, v2, false)
                        },
                        _ => bg,
                    }
                },
                RewriteDecision::BinaryInplace2 => {
                    match (pipeline.0, bg) {
                        (
                            Pipelines::Binary(dt, _),
                            BindGroupReference::Bindgroup2(vdest, v1, v2, _),
                        ) => {
                            new_pipeline = PipelineType(
                                Pipelines::Binary(
                                    dt,
                                    BinaryFunctions::BinaryBufferInplace2ContiguousBoth,
                                ),
                                pipeline.1,
                                pipeline.2,
                            );
                            BindGroupReference::Bindgroup1(v2, v1, false)
                        },
                        _ => bg,
                    }
                },
                _ => bg,
            };
            let new_members = bg_member_vec(&rewritten);
            dev.cache.retain_members_clamped(&new_members);
            let ghost c_ret = dev.cache;
            let cb = bind_bindgroup(&mut dev.cache, &rewritten, allocs);
            let ghost c_bind = dev.cache;
            // cache the bind group for replay
            match dev.cache.lookup_bindgroup(&new_pipeline, &cb) {
                Option::Some(_) => {},
                Option::None => {
                    let stored = CachedBindgroupBuffers {
                        dest: cb.dest,
                        inputs: crate::layout::clone_usize_vec(&cb.inputs),
                        min_binding_16: cb.min_binding_16,
                    };
                    let _ = dev.cache.insert_bindgroup(new_pipeline, stored);
                },
            }
            if dev.cache.remove_unused() {
                limit_hit = true;
            }
            let ghost c_evict = dev.cache;
            // the in-place aliasing step, delayed until after binding
            match dec {
                RewriteDecision::UnaryInplace => {
                    match bg {
                        BindGroupReference::Bindgroup1(vdest, v1, _) => {
                            if dev.cache.buffer_references[vdest].ref_count >= 1
                                && dev.cache.buffer_references[vdest].storage.is_none() {
                                dev.cache.transfer_storage(vdest, v1);
                            }
                        },
                        _ => {},
                    }
                },
                RewriteDecision::BinaryInplace1 => {
                    match bg {
                        BindGroupReference::Bindgroup2(vdest, v1, _, _) => {
                            if dev.cache.buffer_references[vdest].ref_count >= 1
                                && dev.cache.buffer_references[vdest].storage.is_none() {
                                dev.cache.transfer_storage(vdest, v1);
                            }
                        },
                        _ => {},
                    }
                },
                RewriteDecision::BinaryInplace2 => {
                    match bg {
                        BindGroupReference::Bindgroup2(vdest, _, v2, _) => {
                            if dev.cache.buffer_references[vdest].ref_count >= 1
                                && dev.cache.buffer_references[vdest].storage.is_none() {
                                dev.cache.transfer_storage(vdest, v2);
                            }
                        },
                        _ => {},
                    }
                },
                _ => {},
            }
            let ghost c_xfer = dev.cache;
            dev.cache.release_members(&old_members);
            proof {
                match dec {
                    RewriteDecision::UnaryInplace => {
                        match bg {
                            BindGroupReference::Bindgroup1(vdest, v1, _) => {
                                assert(bg_members(rewritten) =~= seq![v1]);
                                assert(forall|k2: int|
                                    0 <= k2 < bg_members(rewritten).len() ==> #[trigger] bg_members(
                                        rewritten,
                                    )[k2] != vdest);
                                assert(c_evict.buffer_references@[vdest as int].storage is None);
                                assert(c_evict.buffer_references@[vdest as int].ref_count >= 1);
                                assert(c_xfer.buffer_references@[v1 as int].storage is None);
                                assert(dev.cache.buffer_references@[v1 as int].storage is None);
                                if c0g.buffer_references@[v1 as int].storage is Some {
                                    assert(bg_members(rewritten)[0] == v1);
                                    assert(c_bind.buffer_references@[v1 as int].storage
                                        == c0g.buffer_references@[v1 as int].storage);
                                    assert(c_xfer.buffer_references@[vdest as int].storage
                                        == c0g.buffer_references@[v1 as int].storage);
                                }
                            },
                            _ => {},
                        }
                    },
                    RewriteDecision::BinaryInplace1 => {
                        match bg {
                            BindGroupReference::Bindgroup2(vdest, v1, v2, _) => {
                                assert(bg_members(rewritten) =~= seq![v1, v2]);
                                assert(forall|k2: int|
                                    0 <= k2 < bg_members(rewritten).len() ==> #[trigger] bg_members(
                                        rewritten,
                                    )[k2] != vdest);
                                assert(c_evict.buffer_references@[vdest as int].storage is None);
                                assert(c_evict.buffer_references@[vdest as int].ref_count >= 1);
                                assert(c_xfer.buffer_references@[v1 as int].storage is None);
                                assert(dev.cache.buffer_references@[v1 as int].storage is None);
                                if c0g.buffer_references@[v1 as int].storage is Some {
                                    assert(bg_members(rewritten)[0] == v1);
                                    assert(c_bind.buffer_references@[v1 as int].storage
                                        == c0g.buffer_references@[v1 as int].storage);
                                    assert(c_xfer.buffer_references@[vdest as int].storage
                                        == c0g.buffer_references@[v1 as int].storage);
                                }
                            },
                            _ => {},
                        }
                    },
                    RewriteDecision::BinaryInplace2 => {
                        match bg {
                            BindGroupReference::Bindgroup2(vdest, v1, v2, _) => {
                                assert(bg_members(rewritten) =~= seq![v2, v1]);
                                assert(forall|k2: int|
                                    0 <= k2 < bg_members(rewritten).len() ==> #[trigger] bg_members(
                                        rewritten,
                                    )[k2] != vdest);
                                assert(c_evict.buffer_references@[vdest as int].storage is None);
                                assert(c_evict.buffer_references@[vdest as int].ref_count >= 1);
                                assert(c_xfer.buffer_references@[v2 as int].storage is None);
                                assert(dev.cache.buffer_references@[v2 as int].storage is None);
                                if c0g.buffer_references@[v2 as int].storage is Some {
                                    assert(bg_members(rewritten)[0] == v2);
                                    assert(c_bind.buffer_references@[v2 as int].storage
                                        == c0g.buffer_references@[v2 as int].storage);
                                    assert(c_xfer.buffer_references@[vdest as int].storage
                                        == c0g.buffer_references@[v2 as int].storage);
                                }
                            },
                            _ => {},
                        }
                    },
                    _ => {},
                }
            }
            DispatchedBindgroup::CachedBindgroup(cb)
        },
    };
    let pipeline_cached = match new_bindgroup {
        DispatchedBindgroup::CachedBindgroup(_) => true,
        _ => false,
    };
    dev.command_queue.command_queue[i] = MlQueue::Dispatch(
        MlQueueDispatch {
            x,
            y,
            z,
            pipeline: new_pipeline,
            pipeline_cached,
            bindgroup: new_bindgroup,
            meta,
            workload_size: workload,
        },
    );
    proof {
        let aw = align_words(dev.device_limits);
        let nr = dev.cache.n_refs();
        let nc = dev.command_queue.id_to_const_array@.len() as int;
        let ds0 = old(dev).command_queue.command_queue@;
        let ds1 = dev.command_queue.command_queue@;
        assert forall|k: int|
            0 <= k < ds1.len() implies dispatch_wf(disp(#[trigger] ds1[k]), aw, nr, nc) by {
            assert(dispatch_wf(disp(ds0[k]), aw, nr, nc));
            if k != i {
                assert(ds1[k] == ds0[k]);
            }
        }
        assert forall|k: int, j: int|
            0 <= k < j < ds1.len() implies disp(#[trigger] ds1[k]).meta <= disp(
            #[trigger] ds1[j],
        ).meta by {
            assert(disp(ds0[k]).meta <= disp(ds0[j]).meta);
        }
        assert forall|k: int, j: int|
            0 <= k < ds1.len() && j == k + 1 && j < ds1.len() implies disp(
            #[trigger] ds1[j],
        ).meta - disp(#[trigger] ds1[k]).meta <= 64 by {
            assert(disp(ds0[j]).meta - disp(ds0[k]).meta <= 64);
        }
        assert forall|k: int|
            0 <= k < ds1.len() implies disp(#[trigger] ds1[k]).meta
            <= dev.command_queue.current_meta by {
            assert(disp(ds0[k]).meta <= old(dev).command_queue.current_meta);
        }
        if ds1.len() > 0 {
            assert(disp(ds1[0]).meta == disp(ds0[0]).meta);
            assert(disp(ds1.last()).meta == disp(ds0.last()).meta);
        }
    }
    limit_hit
}

/// Sum of the workload estimates of the queue slice `[lo, hi)`.
pub open spec fn sum_workload(ds: Seq<MlQueue>, lo: int, hi: int) -> int
    decreases hi - lo,
{
    if lo >= hi {
        0
    } else {
        sum_workload(ds, lo, hi - 1) + disp(ds[hi - 1]).workload_size
    }
}

/// Selects the next run of dispatches for one command buffer, starting at
/// `*index`: materializes each dispatch until the workload cap, the
/// metadata window, or the cache budget calls for a split. `current_meta`
/// is the window base; `*last_meta` ends up at the offset of the last
/// dispatch taken.
#[verifier::rlimit(100)]
pub fn set_buffers(
    dev: &mut WgpuDevice,
    index: &mut usize,
    current_meta: u32,
    last_meta: &mut u32,
) -> (allocs: Vec<BufferAlloc>)
    requires
        device_wf(*old(dev)),
        (*old(index) as int) <= old(dev).command_queue.command_queue@.len(),
        (*old(index) as int) < old(dev).command_queue.command_queue@.len() ==> {
            let d = disp(old(dev).command_queue.command_queue@[*old(index) as int]);
            &&& current_meta <= d.meta
            &&& d.meta - current_meta <= 64
        },
        forall|i: int|
            *old(index) <= i < old(dev).command_queue.command_queue@.len() ==> disp(
                #[trigger] old(dev).command_queue.command_queue@[i],
            ).bindgroup is BindgroupReference,
    ensures
        device_wf(*final(dev)),
        final(dev).device_limits == old(dev).device_limits,
        final(dev).command_queue.command_queue@.len() == old(dev).command_queue.command_queue@.len(),
        *old(index) <= *final(index) <= old(dev).command_queue.command_queue@.len(),
        (*old(index) as int) < old(dev).command_queue.command_queue@.len() ==> *old(index)
            < *final(index),
        forall|i: int|
            0 <= i < old(dev).command_queue.command_queue@.len() && !(*old(index) <= i < *final(index)) ==> final(dev).command_queue.command_queue@[i] == old(dev).command_queue.command_queue@[i],
        forall|i: int|
            *old(index) <= i < *final(index) ==> same_shape(
                #[trigger] final(dev).command_queue.command_queue@[i],
                old(dev).command_queue.command_queue@[i],
            ) && materialized(final(dev).command_queue.command_queue@[i]),
        forall|i: int|
            *old(index) <= i < *final(index) ==> rewrite_shape_ok(
                disp(#[trigger] old(dev).command_queue.command_queue@[i]),
                disp(final(dev).command_queue.command_queue@[i]),
            ),
        (*old(index) as int) < old(dev).command_queue.command_queue@.len() ==> ({
            let d0 = disp(old(dev).command_queue.command_queue@[*old(index) as int]);
            let d1 = disp(final(dev).command_queue.command_queue@[*old(index) as int]);
            match ref_bg_of(old(dev).command_queue.command_queue@[*old(index) as int]) {
                Some(bg) => decision_shape_ok(old(dev).cache, bg, d0, d1) && (*final(index)
                    == *old(index) + 1 ==> decision_storage_ok(
                    old(dev).cache,
                    final(dev).cache,
                    bg,
                    d0,
                )),
                None => true,
            }
        }),
        sum_workload(
            final(dev).command_queue.command_queue@,
            *old(index) as int,
            *final(index) as int,
        ) <= old(dev).device_limits.max_workload_size as int || *final(index) - *old(index) == 1,
        (*final(index) as int) < old(dev).command_queue.command_queue@.len() ==> ({
            let batch_sum = sum_workload(
                final(dev).command_queue.command_queue@,
                *old(index) as int,
                *final(index) as int,
            );
            ||| batch_sum > old(dev).device_limits.max_workload_size as int
            ||| batch_sum + disp(
                final(dev).command_queue.command_queue@[*final(index) as int],
            ).workload_size > old(dev).device_limits.max_workload_size as int
            ||| (*final(last_meta) - current_meta) * 4 + 768 > old(
                dev,
            ).device_limits.meta_buffer_size
            ||| final(dev).cache.buffer_memory > final(dev).cache.max_memory_allowed
        }),
        *final(index) > *old(index) ==> {
            &&& *final(last_meta) == disp(
                final(dev).command_queue.command_queue@[*final(index) - 1],
            ).meta
            &&& (*final(last_meta) - current_meta) * 4 + 512 <= old(dev).device_limits.meta_buffer_size
            &&& current_meta <= *final(last_meta)
        },
        final(dev).command_queue.meta.0@ == old(dev).command_queue.meta.0@,
        final(dev).command_queue.current_meta == old(dev).command_queue.current_meta,
        final(dev).command_queue.id_to_const_array@ == old(dev).command_queue.id_to_const_array@,
        final(dev).command_queue.last_buffer == old(dev).command_queue.last_buffer,
        final(dev).cache.buffer_references@.len() == old(dev).cache.buffer_references@.len(),
        forall|k: int|
            0 <= k < allocs@.len() ==> (#[trigger] allocs@[k].id as int) < final(dev).cache.buffers@.len(),
{
    let len = dev.command_queue.command_queue.len();
    let start_index = *index;
    let mut total_workload: u64 = 0;
    let mut stop = false;
    let mut allocs: Vec<BufferAlloc> = Vec::new();
    while *index < len && !stop
        invariant
            device_wf(*dev),
            dev.device_limits == old(dev).device_limits,
            len == dev.command_queue.command_queue@.len(),
            len == old(dev).command_queue.command_queue@.len(),
            start_index == *old(index),
            start_index <= *index <= len,
            *index == start_index ==> dev.cache == old(dev).cache
                && dev.command_queue.command_queue@ == old(dev).command_queue.command_queue@,
            forall|i: int|
                0 <= i < len && !(start_index <= i < *index) ==> #[trigger] dev.command_queue.command_queue@[i]
                    == old(dev).command_queue.command_queue@[i],
            forall|i: int|
                start_index <= i < *index ==> same_shape(
                    #[trigger] dev.command_queue.command_queue@[i],
                    old(dev).command_queue.command_queue@[i],
                ) && materialized(dev.command_queue.command_queue@[i]),
            forall|i: int|
                start_index <= i < *index ==> rewrite_shape_ok(
                    disp(#[trigger] old(dev).command_queue.command_queue@[i]),
                    disp(dev.command_queue.command_queue@[i]),
                ),
            *index > start_index ==> ({
                let d0 = disp(old(dev).command_queue.command_queue@[start_index as int]);
                let d1 = disp(dev.command_queue.command_queue@[start_index as int]);
                match ref_bg_of(old(dev).command_queue.command_queue@[start_index as int]) {
                    Some(bg) => decision_shape_ok(old(dev).cache, bg, d0, d1) && (*index
                        == start_index + 1 ==> decision_storage_ok(
                        old(dev).cache,
                        dev.cache,
                        bg,
                        d0,
                    )),
                    None => true,
                }
            }),
            total_workload == sum_workload(
                dev.command_queue.command_queue@,
                start_index as int,
                *index as int,
            ),
            *index - start_index >= 2 ==> total_workload
                <= dev.device_limits.max_workload_size,
            *index > start_index ==> {
                &&& *last_meta == disp(dev.command_queue.command_queue@[*index - 1]).meta
                &&& current_meta <= *last_meta
                &&& (*last_meta - current_meta) * 4 + 512 <= dev.device_limits.meta_buffer_size
                &&& (!stop ==> (*last_meta - current_meta) * 4 + 768
                    <= dev.device_limits.meta_buffer_size)
            },
            *index == start_index ==> !stop,
            stop ==> ({
                let batch_sum = sum_workload(
                    dev.command_queue.command_queue@,
                    start_index as int,
                    *index as int,
                );
                ||| batch_sum > dev.device_limits.max_workload_size as int
                ||| ((*index as int) < len && batch_sum + disp(
                    dev.command_queue.command_queue@[*index as int],
                ).workload_size > dev.device_limits.max_workload_size as int)
                ||| (*index > start_index && (*last_meta - current_meta) * 4 + 768
                    > dev.device_limits.meta_buffer_size)
                ||| dev.cache.buffer_memory > dev.cache.max_memory_allowed
            }),
            (*index as int) < len && *index == start_index ==> {
                let d = disp(dev.command_queue.command_queue@[*index as int]);
                &&& current_meta <= d.meta
                &&& d.meta - current_meta <= 64
            },
            dev.command_queue.meta.0@ == old(dev).command_queue.meta.0@,
            dev.command_queue.current_meta == old(dev).command_queue.current_meta,
            dev.command_queue.id_to_const_array@ == old(dev).command_queue.id_to_const_array@,
            dev.command_queue.last_buffer == old(dev).command_queue.last_buffer,
            dev.cache.buffer_references@.len() == old(dev).cache.buffer_references@.len(),
            forall|i: int|
                start_index <= i < len ==> disp(
                    #[trigger] old(dev).command_queue.command_queue@[i],
                ).bindgroup is BindgroupReference,
            forall|k: int|
                0 <= k < allocs@.len() ==> (#[trigger] allocs@[k].id as int)
                    < dev.cache.buffers@.len(),
        decreases len - *index + if stop {
            0int
        } else {
            1int
        },
    {
        let i = *index;
        let w = match &dev.command_queue.command_queue[i] {
            MlQueue::Dispatch(d) => d.workload_size,
        };
        proof {
            assert(dispatch_wf(
                disp(dev.command_queue.command_queue@[i as int]),
                align_words(dev.device_limits),
                dev.cache.n_refs(),
                dev.command_queue.id_to_const_array@.len() as int,
            ));
        }
        proof {
            assert(dev.command_queue.command_queue@[i as int] == old(dev).command_queue.command_queue@[i as int]);
            assert(disp(
                old(dev).command_queue.command_queue@[i as int],
            ).bindgroup is BindgroupReference);
        }
        let ele_size = i - start_index;
        let would_exceed = (total_workload as u128) + (w as u128)
            > dev.device_limits.max_workload_size as u128;
        if would_exceed && ele_size >= 1 {
            stop = true;
        } else {
            proof {
                if ele_size == 0 {
                    assert(total_workload == 0);
                }
            }
            *index = i + 1;
            total_workload = total_workload + w;
            let ghost pre_loop = *dev;
            let limit_hit = materialize_dispatch(dev, i, &mut allocs);
            let lm = match &dev.command_queue.command_queue[i] {
                MlQueue::Dispatch(d) => d.meta,
            };
            *last_meta = lm;
            proof {
                // the shape of the batch so far is preserved entry by entry
                assert forall|j: int|
                    start_index <= j < *index implies same_shape(
                    #[trigger] dev.command_queue.command_queue@[j],
                    old(dev).command_queue.command_queue@[j],
                ) && materialized(dev.command_queue.command_queue@[j]) by {
                    if j < i {
                        assert(dev.command_queue.command_queue@[j]
                            == pre_loop.command_queue.command_queue@[j]);
                    }
                }
                assert forall|j: int|
                    start_index <= j < *index implies rewrite_shape_ok(
                    disp(#[trigger] old(dev).command_queue.command_queue@[j]),
                    disp(dev.command_queue.command_queue@[j]),
                ) by {
                    if j < i {
                        assert(dev.command_queue.command_queue@[j]
                            == pre_loop.command_queue.command_queue@[j]);
                    }
                }
                if i == start_index {
                    // the first dispatch of the run is planned against the
                    // cache exactly as it stood at entry
                    assert(pre_loop.cache == old(dev).cache);
                    assert(pre_loop.command_queue.command_queue@ == old(
                        dev,
                    ).command_queue.command_queue@);
                }
                assert(sum_workload(
                    dev.command_queue.command_queue@,
                    start_index as int,
                    *index as int,
                ) == sum_workload(
                    dev.command_queue.command_queue@,
                    start_index as int,
                    i as int,
                ) + disp(dev.command_queue.command_queue@[i as int]).workload_size);
                lemma_sum_workload_same(
                    pre_loop.command_queue.command_queue@,
                    dev.command_queue.command_queue@,
                    start_index as int,
                    i as int,
                );

                // the window stays bounded: the new last offset is within
                // one parameter window of the previous one
                if i > start_index {
                    assert(disp(pre_loop.command_queue.command_queue@[i as int]).meta - disp(
                        pre_loop.command_queue.command_queue@[i - 1],
                    ).meta <= 64);
                }
            }
            let meta_size = (lm - current_meta) as u64 * 4 + 256 * 3;
            if meta_size > dev.device_limits.meta_buffer_size as u64 {
                stop = true;
            }
            if limit_hit {
                stop = true;
            }
            if total_workload > dev.device_limits.max_workload_size {
                stop = true;
            }
        }
    }
    allocs
}

/// Workload sums only read the slice's entries, which materialization
/// keeps intact.
proof fn lemma_sum_workload_same(ds0: Seq<MlQueue>, ds1: Seq<MlQueue>, lo: int, hi: int)
    requires
        0 <= lo,
        hi <= ds0.len(),
        ds0.len() == ds1.len(),
        forall|j: int| lo <= j < hi ==> disp(#[trigger] ds1[j]).workload_size == disp(ds0[j]).workload_size,
    ensures
        sum_workload(ds1, lo, hi) == sum_workload(ds0, lo, hi),
    decreases hi - lo,
{
    if lo < hi {
        lemma_sum_workload_same(ds0, ds1, lo, hi - 1);
    }
}

/// Indices of the dispatches of `[lo, hi)` that carry a concrete bind
/// group (elided copies record nothing), in queue order.
pub open spec fn cached_indices(ds: Seq<MlQueue>, lo: int, hi: int) -> Seq<int>
    decreases hi - lo,
{
    if lo >= hi {
        Seq::empty()
    } else if disp(ds[hi - 1]).bindgroup is CachedBindgroup {
        cached_indices(ds, lo, hi - 1).push(hi - 1)
    } else {
        cached_indices(ds, lo, hi - 1)
    }
}

/// Sum of the workload estimates a plan's dispatches carry.
pub open spec fn sum_plan(pds: Seq<PlanDispatch>) -> int
    decreases pds.len(),
{
    if pds.len() == 0 {
        0
    } else {
        sum_plan(pds.drop_last()) + pds.last().workload_size
    }
}

/// The plan entry `pd` records exactly the queue dispatch `d`, with its
/// dynamic metadata offset taken relative to the window base `cm`.
pub open spec fn plan_matches(pd: PlanDispatch, d: MlQueueDispatch, cm: int) -> bool {
    &&& pd.pipeline == d.pipeline
    &&& pd.x == d.x
    &&& pd.y == d.y
    &&& pd.z == d.z
    &&& pd.workload_size == d.workload_size
    &&& pd.meta_offset == (d.meta - cm) * 4
    &&& match d.bindgroup {
        DispatchedBindgroup::CachedBindgroup(cb) => {
            &&& pd.bindgroup.dest == cb.dest
            &&& pd.bindgroup.inputs@ == cb.inputs@
            &&& pd.bindgroup.min_binding_16 == cb.min_binding_16
        },
        _ => false,
    }
}

/// Builds the command-buffer plan for the materialized queue slice
/// `[start, end)`: the metadata window to upload, and one record per
/// dispatch whose bind group is concrete, in order, with its dynamic
/// offset `(meta - current_meta) * 4`.
#[verifier::rlimit(100)]
pub fn get_command_buffer(
    dev: &WgpuDevice,
    start: usize,
    end: usize,
    current_meta: u32,
    last_meta: u32,
    waiting_buffer: &Option<usize>,
) -> (r: CommandBufferPlan)
    requires
        device_wf(*dev),
        (start as int) < (end as int),
        (end as int) <= dev.command_queue.command_queue@.len(),
        forall|i: int|
            start <= i < end ==> materialized(#[trigger] dev.command_queue.command_queue@[i]),
        last_meta == disp(dev.command_queue.command_queue@[end - 1]).meta,
        current_meta <= disp(dev.command_queue.command_queue@[start as int]).meta,
        (last_meta - current_meta) * 4 + 512 <= dev.device_limits.meta_buffer_size,
        current_meta <= dev.command_queue.meta.0@.len(),
    ensures
        r.meta_words@ == dev.command_queue.meta.0@.subrange(
            current_meta as int,
            if last_meta + 64 <= dev.command_queue.meta.0@.len() {
                last_meta + 64
            } else {
                dev.command_queue.meta.0@.len() as int
            },
        ),
        r.meta_words@.len() * 4 + 256 <= dev.device_limits.meta_buffer_size,
        r.allocations@.len() == 0,
        r.wait_copy == *waiting_buffer,
        r.dispatches@.len() == cached_indices(
            dev.command_queue.command_queue@,
            start as int,
            end as int,
        ).len(),
        forall|k: int|
            0 <= k < r.dispatches@.len() ==> plan_matches(
                #[trigger] r.dispatches@[k],
                disp(
                    dev.command_queue.command_queue@[cached_indices(
                        dev.command_queue.command_queue@,
                        start as int,
                        end as int,
                    )[k]],
                ),
                current_meta as int,
            ),
        forall|k: int|
            0 <= k < r.dispatches@.len() ==> (#[trigger] r.dispatches@[k]).x <= MAX_DISPATCH_SIZE
                && r.dispatches@[k].y <= MAX_DISPATCH_SIZE && r.dispatches@[k].z
                <= MAX_DISPATCH_SIZE,
        sum_plan(r.dispatches@) <= sum_workload(
            dev.command_queue.command_queue@,
            start as int,
            end as int,
        ),
        r.dispatches@.len() <= end - start,
{
    let ghost ds = dev.command_queue.command_queue@;
    // the window of metadata words this command buffer uploads
    let meta_len = dev.command_queue.meta.0.len();
    let window_end: usize = if (last_meta as u64) + 64 <= meta_len as u64 {
        ((last_meta as u64) + 64) as usize
    } else {
        meta_len
    };
    let mut meta_words: Vec<u32> = Vec::new();
    let mut m: usize = current_meta as usize;
    proof {
        assert(current_meta <= last_meta);
    }
    while m < window_end
        invariant
            current_meta as int <= m as int <= window_end as int,
            window_end == if last_meta + 64 <= dev.command_queue.meta.0@.len() {
                last_meta + 64
            } else {
                dev.command_queue.meta.0@.len() as int
            },
            window_end <= dev.command_queue.meta.0@.len(),
            meta_words@ == dev.command_queue.meta.0@.subrange(current_meta as int, m as int),
        decreases window_end - m,
    {
        meta_words.push(dev.command_queue.meta.0[m]);
        proof {
            assert(dev.command_queue.meta.0@.subrange(current_meta as int, m as int + 1)
                =~= dev.command_queue.meta.0@.subrange(current_meta as int, m as int).push(
                dev.command_queue.meta.0@[m as int],
            ));
        }
        m += 1;
    }
    // one record per concrete dispatch, in order
    let mut dispatches: Vec<PlanDispatch> = Vec::new();
    let mut i: usize = start;
    while i < end
        invariant
            start <= i <= end,
            (end as int) <= dev.command_queue.command_queue@.len(),
            ds == dev.command_queue.command_queue@,
            device_wf(*dev),
            forall|j: int|
                start <= j < end ==> materialized(#[trigger] dev.command_queue.command_queue@[j]),
            current_meta <= disp(dev.command_queue.command_queue@[start as int]).meta,
            last_meta == disp(dev.command_queue.command_queue@[end - 1]).meta,
            (last_meta - current_meta) * 4 + 512 <= dev.device_limits.meta_buffer_size,
            dispatches@.len() == cached_indices(ds, start as int, i as int).len(),
            forall|k: int|
                0 <= k < dispatches@.len() ==> plan_matches(
                    #[trigger] dispatches@[k],
                    disp(ds[cached_indices(ds, start as int, i as int)[k]]),
                    current_meta as int,
                ),
            forall|k: int|
                0 <= k < dispatches@.len() ==> (#[trigger] dispatches@[k]).x <= MAX_DISPATCH_SIZE
                    && dispatches@[k].y <= MAX_DISPATCH_SIZE && dispatches@[k].z
                    <= MAX_DISPATCH_SIZE,
            sum_plan(dispatches@) <= sum_workload(ds, start as int, i as int),
            dispatches@.len() <= i - start,
        decreases end - i,
    {
        let ghost pre_dispatches = dispatches@;
        proof {
            lemma_cached_indices_bounds(ds, start as int, i as int);
            assert(dispatch_wf(
                disp(ds[i as int]),
                align_words(dev.device_limits),
                dev.cache.n_refs(),
                dev.command_queue.id_to_const_array@.len() as int,
            ));
            // metadata offsets are monotone over the queue
            assert(disp(ds[start as int]).meta <= disp(ds[i as int]).meta);
            assert(disp(ds[i as int]).meta <= disp(ds[end - 1]).meta);
        }
        match &dev.command_queue.command_queue[i] {
            MlQueue::Dispatch(d) => {
                match &d.bindgroup {
                    DispatchedBindgroup::CachedBindgroup(cb) => {
                        let arity = cb.inputs.len();
                        let kind: PipelineLayoutKind = if arity == 0 {
                            PipelineLayoutKind::Layout0
                        } else if arity == 1 && !cb.min_binding_16 {
                            PipelineLayoutKind::Layout1
                        } else if arity == 1 {
                            PipelineLayoutKind::Layout1B16
                        } else if arity == 2 && !cb.min_binding_16 {
                            PipelineLayoutKind::Layout2
                        } else if arity == 2 {
                            PipelineLayoutKind::Layout2B16
                        } else {
                            PipelineLayoutKind::Layout3
                        };
                        let pd = PlanDispatch {
                            pipeline: d.pipeline,
                            layout_kind: kind,
                            bindgroup: CachedBindgroupBuffers {
                                dest: cb.dest,
                                inputs: crate::layout::clone_usize_vec(&cb.inputs),
                                min_binding_16: cb.min_binding_16,
                            },
                            meta_offset: (d.meta - current_meta) * 4,
                            x: d.x,
                            y: d.y,
                            z: d.z,
                            workload_size: d.workload_size,
                        };
                        dispatches.push(pd);
                    },
                    DispatchedBindgroup::NoOp => {},
                    DispatchedBindgroup::BindgroupReference(_) => {},
                }
            },
        }
        proof {
            assert(cached_indices(ds, start as int, i as int + 1)
                == if disp(ds[i as int]).bindgroup is CachedBindgroup {
                cached_indices(ds, start as int, i as int).push(i as int)
            } else {
                cached_indices(ds, start as int, i as int)
            });
            assert(sum_workload(ds, start as int, i as int + 1) == sum_workload(
                ds,
                start as int,
                i as int,
            ) + disp(ds[i as int]).workload_size);
            if disp(ds[i as int]).bindgroup is CachedBindgroup {
                assert(dispatches@.drop_last() =~= pre_dispatches);
                assert(sum_plan(dispatches@) == sum_plan(pre_dispatches)
                    + dispatches@.last().workload_size);
            }
        }
        i += 1;
    }
    CommandBufferPlan {
        meta_words,
        allocations: Vec::new(),
        dispatches,
        wait_copy: match waiting_buffer {
            Option::Some(b) => Option::Some(*b),
            Option::None => Option::None,
        },
    }
}

/// One command buffer records exactly the concrete dispatches of the
/// queue slice `[lo, hi)`, in order, with its window base `base`.
pub open spec fn batch_records(
    pds: Seq<PlanDispatch>,
    mds: Seq<MlQueue>,
    lo: int,
    hi: int,
    base: int,
) -> bool {
    &&& 0 <= lo < hi <= mds.len()
    &&& pds.len() == cached_indices(mds, lo, hi).len()
    &&& forall|k: int|
        0 <= k < pds.len() ==> plan_matches(
            #[trigger] pds[k],
            disp(mds[cached_indices(mds, lo, hi)[k]]),
            base,
        )
}

/// The plans partition the queue `[lo, hi)` into consecutive command
/// buffers: the first records a batch starting at `lo` with window base
/// `base`, each later batch starts where the previous ended with the
/// previous batch's last metadata offset as its base, and together they
/// reach `hi`, whose base would be `base_hi`.
pub open spec fn plans_cover_to(
    plans: Seq<CommandBufferPlan>,
    mds: Seq<MlQueue>,
    lo: int,
    base: int,
    hi: int,
    base_hi: int,
) -> bool
    decreases plans.len(),
{
    if plans.len() == 0 {
        lo == hi && base == base_hi
    } else {
        exists|mid: int|
            {
                &&& #[trigger] batch_records(plans[0].dispatches@, mds, lo, mid, base)
                &&& plans_cover_to(
                    plans.drop_first(),
                    mds,
                    mid,
                    disp(mds[mid - 1]).meta as int,
                    hi,
                    base_hi,
                )
            }
    }
}

/// The recorder's selection reads only the slice it covers.
pub proof fn lemma_cached_indices_stable(mds1: Seq<MlQueue>, mds2: Seq<MlQueue>, lo: int, hi: int)
    requires
        0 <= lo,
        hi <= mds1.len(),
        hi <= mds2.len(),
        forall|i: int| lo <= i < hi ==> #[trigger] mds2[i] == mds1[i],
    ensures
        cached_indices(mds2, lo, hi) == cached_indices(mds1, lo, hi),
    decreases hi - lo,
{
    if lo < hi {
        lemma_cached_indices_stable(mds1, mds2, lo, hi - 1);
    }
}

/// Coverage reads only the queue prefix it covers.
pub proof fn lemma_cover_stable(
    plans: Seq<CommandBufferPlan>,
    mds1: Seq<MlQueue>,
    mds2: Seq<MlQueue>,
    lo: int,
    base: int,
    hi: int,
    base_hi: int,
)
    requires
        plans_cover_to(plans, mds1, lo, base, hi, base_hi),
        mds1.len() == mds2.len(),
        forall|i: int| 0 <= i < hi ==> #[trigger] mds2[i] == mds1[i],
        hi <= mds1.len(),
    ensures
        plans_cover_to(plans, mds2, lo, base, hi, base_hi),
    decreases plans.len(),
{
    if plans.len() > 0 {
        let mid = choose|mid: int|
            {
                &&& #[trigger] batch_records(plans[0].dispatches@, mds1, lo, mid, base)
                &&& plans_cover_to(
                    plans.drop_first(),
                    mds1,
                    mid,
                    disp(mds1[mid - 1]).meta as int,
                    hi,
                    base_hi,
                )
            };
        lemma_cover_mid_bound(plans.drop_first(), mds1, mid, disp(mds1[mid - 1]).meta as int, hi, base_hi);
        lemma_cached_indices_stable(mds1, mds2, lo, mid);
        lemma_cached_indices_bounds(mds1, lo, mid);
        lemma_cover_stable(
            plans.drop_first(),
            mds1,
            mds2,
            mid,
            disp(mds1[mid - 1]).meta as int,
            hi,
            base_hi,
        );
        assert(mds2[mid - 1] == mds1[mid - 1]);
        assert(batch_records(plans[0].dispatches@, mds2, lo, mid, base)) by {
            assert forall|k: int|
                0 <= k < plans[0].dispatches@.len() implies plan_matches(
                #[trigger] plans[0].dispatches@[k],
                disp(mds2[cached_indices(mds2, lo, mid)[k]]),
                base,
            ) by {
                let idx = cached_indices(mds1, lo, mid)[k];
                assert(plan_matches(plans[0].dispatches@[k], disp(mds1[idx]), base));
                assert(mds2[idx] == mds1[idx]);
            }
        }
    }
}

/// A covered range never runs past its end.
pub proof fn lemma_cover_mid_bound(
    plans: Seq<CommandBufferPlan>,
    mds: Seq<MlQueue>,
    lo: int,
    base: int,
    hi: int,
    base_hi: int,
)
    requires
        plans_cover_to(plans, mds, lo, base, hi, base_hi),
    ensures
        lo <= hi,
    decreases plans.len(),
{
    if plans.len() > 0 {
        let mid = choose|mid: int|
            {
                &&& #[trigger] batch_records(plans[0].dispatches@, mds, lo, mid, base)
                &&& plans_cover_to(
                    plans.drop_first(),
                    mds,
                    mid,
                    disp(mds[mid - 1]).meta as int,
                    hi,
                    base_hi,
                )
            };
        lemma_cover_mid_bound(
            plans.drop_first(),
            mds,
            mid,
            disp(mds[mid - 1]).meta as int,
            hi,
            base_hi,
        );
    }
}

/// Appending one recorded batch extends the covered range to its end.
pub proof fn lemma_cover_snoc(
    plans: Seq<CommandBufferPlan>,
    p: CommandBufferPlan,
    mds: Seq<MlQueue>,
    lo: int,
    base: int,
    hi: int,
    base_hi: int,
    hi2: int,
)
    requires
        plans_cover_to(plans, mds, lo, base, hi, base_hi),
        batch_records(p.dispatches@, mds, hi, hi2, base_hi),
    ensures
        plans_cover_to(plans.push(p), mds, lo, base, hi2, disp(mds[hi2 - 1]).meta as int),
    decreases plans.len(),
{
    if plans.len() == 0 {
        let single = plans.push(p);
        assert(single[0] == p);
        assert(single.drop_first() =~= Seq::<CommandBufferPlan>::empty());
        assert(batch_records(single[0].dispatches@, mds, lo, hi2, base));
        assert(plans_cover_to(
            single.drop_first(),
            mds,
            hi2,
            disp(mds[hi2 - 1]).meta as int,
            hi2,
            disp(mds[hi2 - 1]).meta as int,
        ));
    } else {
        let mid = choose|mid: int|
            {
                &&& #[trigger] batch_records(plans[0].dispatches@, mds, lo, mid, base)
                &&& plans_cover_to(
                    plans.drop_first(),
                    mds,
                    mid,
                    disp(mds[mid - 1]).meta as int,
                    hi,
                    base_hi,
                )
            };
        lemma_cover_snoc(
            plans.drop_first(),
            p,
            mds,
            mid,
            disp(mds[mid - 1]).meta as int,
            hi,
            base_hi,
            hi2,
        );
        assert(plans.push(p).drop_first() =~= plans.drop_first().push(p));
        assert(plans.push(p)[0] == plans[0]);
        assert(batch_records(plans.push(p)[0].dispatches@, mds, lo, mid, base));
    }
}

/// Every index the recorder selects lies in the slice.
pub proof fn lemma_cached_indices_bounds(ds: Seq<MlQueue>, lo: int, hi: int)
    requires
        0 <= lo,
        hi <= ds.len(),
    ensures
        forall|k: int|
            0 <= k < cached_indices(ds, lo, hi).len() ==> lo <= #[trigger] cached_indices(
                ds,
                lo,
                hi,
            )[k] < hi,
    decreases hi - lo,
{
    if lo < hi {
        lemma_cached_indices_bounds(ds, lo, hi - 1);
        let prev = cached_indices(ds, lo, hi - 1);
        let cur = cached_indices(ds, lo, hi);
        assert forall|k: int| 0 <= k < cur.len() implies lo <= #[trigger] cur[k] < hi by {
            if disp(ds[hi - 1]).bindgroup is CachedBindgroup {
                if k < prev.len() {
                    assert(cur[k] == prev[k]);
                }
            } else {
                assert(cur[k] == prev[k]);
            }
        }
    }
}

/// What every emitted command buffer respects: the metadata window fits
/// the shared buffer with its upload margin, every dispatch extent is
/// within the device limit, and the summed workload is within the cap
/// unless the buffer holds a single overweight dispatch.
pub open spec fn plan_ok(p: CommandBufferPlan, l: crate::queue::DeviceLimits) -> bool {
    &&& p.meta_words@.len() * 4 + 256 <= l.meta_buffer_size
    &&& forall|k: int|
        0 <= k < p.dispatches@.len() ==> (#[trigger] p.dispatches@[k]).x <= MAX_DISPATCH_SIZE
            && p.dispatches@[k].y <= MAX_DISPATCH_SIZE && p.dispatches@[k].z <= MAX_DISPATCH_SIZE
    &&& (sum_plan(p.dispatches@) <= l.max_workload_size || p.dispatches@.len() <= 1)
}

/// Flushes the deferred queue: prepares the memory budget, then
/// repeatedly selects a run of dispatches, materializes it and records one
/// command-buffer plan, until the queue is consumed. Afterwards the queue
/// is empty, the metadata array truncated, and the caches trimmed. An
/// empty queue flushes to nothing and changes nothing.
#[verifier::rlimit(100)]
pub fn flush_gpu_command(dev: &mut WgpuDevice) -> (plans: Vec<CommandBufferPlan>)
    requires
        device_wf(*old(dev)),
        forall|i: int|
            0 <= i < old(dev).command_queue.command_queue@.len() ==> disp(
                #[trigger] old(dev).command_queue.command_queue@[i],
            ).bindgroup is BindgroupReference,
    ensures
        device_wf(*final(dev)),
        final(dev).device_limits == old(dev).device_limits,
        final(dev).command_queue.command_queue@.len() == 0,
        old(dev).command_queue.command_queue@.len() == 0 ==> plans@.len() == 0 && *final(dev)
            == *old(dev),
        old(dev).command_queue.command_queue@.len() > 0 ==> plans@.len() >= 1 && final(dev).command_queue.meta.0@.len() == 0 && final(dev).command_queue.current_meta == 0
            && crate::queue::meta_tail_tight(final(dev).command_queue),
        old(dev).command_queue.command_queue@.len() > 0 ==> final(dev).cache.current_mapping == 0,
        old(dev).command_queue.command_queue@.len() > 0 ==> forall|k: int|
            0 <= k < final(dev).cache.bindgroups@.len() ==> crate::cache::bindgroup_entry_live(
                #[trigger] final(dev).cache.bindgroups@[k],
                final(dev).cache.buffers@,
            ),
        old(dev).command_queue.command_queue@.len() > 0 && final(dev).cache.buffer_memory
            > final(dev).cache.max_memory_allowed ==> forall|s: int|
            0 <= s < final(dev).cache.buffers@.len() ==> !(match #[trigger] final(dev).cache.buffers@[s] {
                Option::Some(b) => b.is_free,
                Option::None => false,
            }),
        forall|k: int|
            0 <= k < plans@.len() ==> plan_ok(#[trigger] plans@[k], old(dev).device_limits),
        final(dev).cache.buffer_references@.len() == old(dev).cache.buffer_references@.len(),
        old(dev).command_queue.command_queue@.len() > 0 ==> exists|mds: Seq<MlQueue>, be: int|
            {
                &&& mds.len() == old(dev).command_queue.command_queue@.len()
                &&& forall|i: int|
                    0 <= i < mds.len() ==> same_shape(
                        #[trigger] mds[i],
                        old(dev).command_queue.command_queue@[i],
                    ) && materialized(mds[i]) && rewrite_shape_ok(
                        disp(old(dev).command_queue.command_queue@[i]),
                        disp(mds[i]),
                    )
                &&& #[trigger] plans_cover_to(plans@, mds, 0, 0, mds.len() as int, be)
            },
{
    if dev.command_queue.command_queue.len() == 0 {
        return Vec::new();
    }
    prepare(dev);
    let len = dev.command_queue.command_queue.len();
    let ghost dev_p = *dev;
    let mut plans: Vec<CommandBufferPlan> = Vec::new();
    let mut start_index: usize = 0;
    let mut index: usize = 0;
    let mut current_meta: u32 = 0;
    let mut last_meta: u32 = 0;
    while index < len
        invariant
            device_wf(*dev),
            dev.device_limits == old(dev).device_limits,
            len == dev.command_queue.command_queue@.len(),
            len >= 1,
            start_index == index,
            index <= len,
            forall|i: int|
                index <= i < len ==> #[trigger] dev.command_queue.command_queue@[i]
                    == dev_p.command_queue.command_queue@[i],
            forall|i: int|
                0 <= i < len ==> disp(
                    #[trigger] dev_p.command_queue.command_queue@[i],
                ).bindgroup is BindgroupReference,
            (index as int) < len ==> {
                let d = disp(dev.command_queue.command_queue@[index as int]);
                &&& current_meta <= d.meta
                &&& d.meta - current_meta <= 64
            },
            current_meta <= dev.command_queue.meta.0@.len(),
            dev.command_queue.meta.0@ == dev_p.command_queue.meta.0@,
            dev.command_queue.current_meta == dev_p.command_queue.current_meta,
            dev.cache.buffer_references@.len() == old(dev).cache.buffer_references@.len(),
            index > 0 ==> plans@.len() >= 1,
            forall|k: int|
                0 <= k < plans@.len() ==> plan_ok(#[trigger] plans@[k], dev.device_limits),
            plans_cover_to(
                plans@,
                dev.command_queue.command_queue@,
                0,
                0,
                index as int,
                current_meta as int,
            ),
            forall|i: int|
                0 <= i < index ==> same_shape(
                    #[trigger] dev.command_queue.command_queue@[i],
                    dev_p.command_queue.command_queue@[i],
                ) && materialized(dev.command_queue.command_queue@[i]) && rewrite_shape_ok(
                    disp(dev_p.command_queue.command_queue@[i]),
                    disp(dev.command_queue.command_queue@[i]),
                ),
        decreases len - index,
    {
        let ghost pre_batch = *dev;
        let allocs = set_buffers(dev, &mut index, current_meta, &mut last_meta);
        proof {
            assert(index > start_index);
        }
        let cb = get_command_buffer(
            dev,
            start_index,
            index,
            current_meta,
            last_meta,
            &Option::None,
        );
        let cb = CommandBufferPlan {
            meta_words: cb.meta_words,
            allocations: allocs,
            dispatches: cb.dispatches,
            wait_copy: cb.wait_copy,
        };
        proof {
            // the workload bound carries from the batch to the plan
            assert(sum_plan(cb.dispatches@) <= sum_workload(
                dev.command_queue.command_queue@,
                start_index as int,
                index as int,
            ));
        }
        // capture the last destination of the flushed batch so a
        // synchronize can wait on it
        match &dev.command_queue.command_queue[index - 1] {
            MlQueue::Dispatch(d) => {
                match &d.bindgroup {
                    DispatchedBindgroup::CachedBindgroup(c) => {
                        dev.command_queue.last_buffer = Option::Some(c.dest);
                    },
                    DispatchedBindgroup::NoOp => {},
                    DispatchedBindgroup::BindgroupReference(_) => {},
                }
            },
        }
        let ghost pre_push_plans = plans@;
        plans.push(cb);
        proof {
            // the coverage of the already-planned prefix is unaffected by
            // materializing this batch, and the new command buffer records
            // exactly the batch just selected
            lemma_cover_stable(
                pre_push_plans,
                pre_batch.command_queue.command_queue@,
                dev.command_queue.command_queue@,
                0,
                0,
                start_index as int,
                current_meta as int,
            );
            assert(batch_records(
                plans@.last().dispatches@,
                dev.command_queue.command_queue@,
                start_index as int,
                index as int,
                current_meta as int,
            ));
            lemma_cover_snoc(
                pre_push_plans,
                plans@.last(),
                dev.command_queue.command_queue@,
                0,
                0,
                start_index as int,
                current_meta as int,
                index as int,
            );
            assert(plans@.drop_last() =~= pre_push_plans);
            assert(plans@ =~= pre_push_plans.push(plans@.last()));
            // the batch's shape facts chain back to the entry state
            assert forall|i: int|
                0 <= i < index implies same_shape(
                #[trigger] dev.command_queue.command_queue@[i],
                dev_p.command_queue.command_queue@[i],
            ) && materialized(dev.command_queue.command_queue@[i]) && rewrite_shape_ok(
                disp(dev_p.command_queue.command_queue@[i]),
                disp(dev.command_queue.command_queue@[i]),
            ) by {
                if i < start_index {
                    assert(dev.command_queue.command_queue@[i]
                        == pre_batch.command_queue.command_queue@[i]);
                } else {
                    assert(pre_batch.command_queue.command_queue@[i]
                        == dev_p.command_queue.command_queue@[i]);
                }
            }
            // the next batch starts within one window of the last offset
            if (index as int) < len {
                let ds = dev.command_queue.command_queue@;
                assert(disp(ds[index as int]).meta - disp(ds[index - 1]).meta <= 64);
                assert(disp(ds[index - 1]).meta <= disp(ds[index as int]).meta);
                assert(ds[index as int] == dev_p.command_queue.command_queue@[index as int]);
                assert(disp(ds[index - 1]).meta <= dev.command_queue.current_meta);
            }
        }
        start_index = index;
        current_meta = last_meta;
    }
    proof {
        let mds = dev.command_queue.command_queue@;
        assert(plans_cover_to(plans@, mds, 0, 0, mds.len() as int, current_meta as int));
    }
    dev.command_queue.clear();
    dev.cache.mappings_finish();
    let _ = dev.cache.remove_unused();
    dev.cache.remove_unused_bindgroups();
    plans
}

/// The plan a blocking or cooperative synchronize executes: the flushed
/// command buffers, and the buffer whose completion to await through the
/// staging probe.
#[derive(Debug)]
pub struct SyncPlan {
    pub plans: Vec<CommandBufferPlan>,
    pub probe: Option<usize>,
}

/// Flushes the queue and names the buffer whose first bytes the driver
/// shim copies to the staging probe, so it can block until the work is
/// done. An empty queue synchronizes to nothing.
pub fn synchronize(dev: &mut WgpuDevice) -> (r: SyncPlan)
    requires
        device_wf(*old(dev)),
        forall|i: int|
            0 <= i < old(dev).command_queue.command_queue@.len() ==> disp(
                #[trigger] old(dev).command_queue.command_queue@[i],
            ).bindgroup is BindgroupReference,
    ensures
        device_wf(*final(dev)),
        final(dev).command_queue.command_queue@.len() == 0,
        old(dev).command_queue.command_queue@.len() == 0 ==> r.plans@.len() == 0 && *final(dev)
            == *old(dev) && r.probe is None,
        old(dev).command_queue.command_queue@.len() > 0 ==> r.probe == final(dev).command_queue.last_buffer,
        forall|k: int|
            0 <= k < r.plans@.len() ==> plan_ok(#[trigger] r.plans@[k], old(dev).device_limits),
        old(dev).command_queue.command_queue@.len() > 0 ==> exists|mds: Seq<MlQueue>, be: int|
            {
                &&& mds.len() == old(dev).command_queue.command_queue@.len()
                &&& forall|i: int|
                    0 <= i < mds.len() ==> same_shape(
                        #[trigger] mds[i],
                        old(dev).command_queue.command_queue@[i],
                    ) && materialized(mds[i]) && rewrite_shape_ok(
                        disp(old(dev).command_queue.command_queue@[i]),
                        disp(mds[i]),
                    )
                &&& #[trigger] plans_cover_to(r.plans@, mds, 0, 0, mds.len() as int, be)
            },
{
    if dev.command_queue.command_queue.len() > 0 {
        let plans = flush_gpu_command(dev);
        let ghost pseq = plans@;
        let probe = dev.command_queue.last_buffer;
        let sp = SyncPlan { plans, probe };
        proof {
            let (mds, be) = choose|mds: Seq<MlQueue>, be: int| {
                &&& mds.len() == old(dev).command_queue.command_queue@.len()
                &&& forall|i: int|
                    0 <= i < mds.len() ==> same_shape(
                        #[trigger] mds[i],
                        old(dev).command_queue.command_queue@[i],
                    ) && materialized(mds[i]) && rewrite_shape_ok(
                        disp(old(dev).command_queue.command_queue@[i]),
                        disp(mds[i]),
                    )
                &&& #[trigger] plans_cover_to(pseq, mds, 0, 0, mds.len() as int, be)
            };
            assert(plans_cover_to(sp.plans@, mds, 0, 0, mds.len() as int, be));
        }
        sp
    } else {
        SyncPlan { plans: Vec::new(), probe: Option::None }
    }
}

/// Flushes the queue and resolves the storage buffer that backs `buffer`,
/// from which the driver shim copies the bytes to read back. A reference
/// that ends the flush unbacked yields nothing to read.
pub fn read_data_from_gpu(dev: &mut WgpuDevice, buffer: usize) -> (r: (
    Vec<CommandBufferPlan>,
    Option<usize>,
))
    requires
        device_wf(*old(dev)),
        (buffer as int) < old(dev).cache.buffer_references@.len(),
        forall|i: int|
            0 <= i < old(dev).command_queue.command_queue@.len() ==> disp(
                #[trigger] old(dev).command_queue.command_queue@[i],
            ).bindgroup is BindgroupReference,
    ensures
        device_wf(*final(dev)),
        final(dev).command_queue.command_queue@.len() == 0,
        r.1 == final(dev).cache.buffer_references@[buffer as int].storage,
        forall|k: int|
            0 <= k < r.0@.len() ==> plan_ok(#[trigger] r.0@[k], old(dev).device_limits),
        old(dev).command_queue.command_queue@.len() > 0 ==> exists|mds: Seq<MlQueue>, be: int|
            {
                &&& mds.len() == old(dev).command_queue.command_queue@.len()
                &&& forall|i: int|
                    0 <= i < mds.len() ==> same_shape(
                        #[trigger] mds[i],
                        old(dev).command_queue.command_queue@[i],
                    ) && materialized(mds[i]) && rewrite_shape_ok(
                        disp(old(dev).command_queue.command_queue@[i]),
                        disp(mds[i]),
                    )
                &&& #[trigger] plans_cover_to(r.0@, mds, 0, 0, mds.len() as int, be)
            },
{
    let plans = flush_gpu_command(dev);
    let ghost pseq = plans@;
    let storage = self_storage(&dev.cache, buffer);
    let result = (plans, storage);
    proof {
        if old(dev).command_queue.command_queue@.len() > 0 {
            let (mds, be) = choose|mds: Seq<MlQueue>, be: int| {
                &&& mds.len() == old(dev).command_queue.command_queue@.len()
                &&& forall|i: int|
                    0 <= i < mds.len() ==> same_shape(
                        #[trigger] mds[i],
                        old(dev).command_queue.command_queue@[i],
                    ) && materialized(mds[i]) && rewrite_shape_ok(
                        disp(old(dev).command_queue.command_queue@[i]),
                        disp(mds[i]),
                    )
                &&& #[trigger] plans_cover_to(pseq, mds, 0, 0, mds.len() as int, be)
            };
            assert(plans_cover_to(result.0@, mds, 0, 0, mds.len() as int, be));
        }
    }
    result
}

} // verus!
