//! The deferred command queue: dispatch records, the queue buffer under
//! construction, the device front-end, and the enqueue helpers all op
//! encoders go through.

use vstd::prelude::*;

verus! {

use crate::{MAX_DISPATCH_SIZE, MAX_WORKLOAD_ESTIMATE, WORKGROUP_SIZE, next_divisible_by_n};
use crate::bindgroup::{BindGroupReference, CachedBindgroupBuffers, bg_member_vec, bg_members};
use crate::cache::{BufferReference, ModelCache};
use crate::meta::MetaArray;
use crate::pipeline::{
    CONST_ARRAY_CAPACITY,
    ConstArray,
    OpIsInplaceable,
    PipelineType,
    Pipelines,
    const_arrays_equal,
};

/// How a dispatch's bind group stands: still a reference to logical
/// buffers, materialized over concrete storage, or elided entirely (a copy
/// the planner resolved at plan time).
#[derive(Debug)]
pub enum DispatchedBindgroup {
    BindgroupReference(BindGroupReference),
    CachedBindgroup(CachedBindgroupBuffers),
    NoOp,
}

/// One deferred compute dispatch.
#[derive(Debug)]
pub struct MlQueueDispatch {
    pub x: u32,
    pub y: u32,
    pub z: u32,
    pub pipeline: PipelineType,
    /// Set at plan time once the compiled pipeline is resolved.
    pub pipeline_cached: bool,
    pub bindgroup: DispatchedBindgroup,
    /// Start offset of this dispatch's parameters in the metadata array,
    /// in 32-bit words.
    pub meta: u32,
    /// Cost estimate used for command-buffer splitting.
    pub workload_size: u64,
}

/// An entry of the deferred queue.
#[derive(Debug)]
pub enum MlQueue {
    Dispatch(MlQueueDispatch),
}

pub open spec fn disp(q: MlQueue) -> MlQueueDispatch {
    match q {
        MlQueue::Dispatch(d) => d,
    }
}

/// The queue under construction: deferred dispatches, the metadata array,
/// the cursor of the record being written, the deduplicated constant
/// arrays, and the most recently planned output buffer.
#[derive(Debug)]
pub struct QueueBuffer {
    pub command_queue: Vec<MlQueue>,
    pub meta: MetaArray,
    pub current_meta: u32,
    pub id_to_const_array: Vec<ConstArray>,
    pub last_buffer: Option<usize>,
}

/// The device limits the planner must respect.
#[derive(Clone, Copy, Debug)]
pub struct DeviceLimits {
    /// Minimum storage-buffer offset alignment, in bytes.
    pub min_storage_buffer_offset_alignment: u32,
    /// Capacity of the shared metadata buffer, in bytes.
    pub meta_buffer_size: u32,
    /// Cap on the summed workload estimates of one command buffer.
    pub max_workload_size: u64,
}

/// The device front-end: the deferred queue, the cache, and the limits.
#[derive(Debug)]
pub struct WgpuDevice {
    pub command_queue: QueueBuffer,
    pub cache: ModelCache,
    pub device_limits: DeviceLimits,
}

/// Alignment is a multiple of 4 bytes, at least 4, and its word count
/// divides the 64-word dispatch parameter window; the metadata buffer holds
/// at least 64 KiB.
pub open spec fn limits_wf(l: DeviceLimits) -> bool {
    &&& l.min_storage_buffer_offset_alignment % 4 == 0
    &&& l.min_storage_buffer_offset_alignment >= 4
    &&& 64u32 % (l.min_storage_buffer_offset_alignment / 4) == 0
    &&& l.meta_buffer_size >= 65536
    &&& l.max_workload_size >= 1
}

/// The metadata offset alignment in 32-bit words.
pub open spec fn align_words(l: DeviceLimits) -> u32 {
    l.min_storage_buffer_offset_alignment / 4
}

/// All buffer references a bind group names exist in the cache.
pub open spec fn bg_refs_ok(bg: BindGroupReference, n_refs: int) -> bool {
    forall|k: int| 0 <= k < bg_members(bg).len() ==> (#[trigger] bg_members(bg)[k] as int) < n_refs
}

/// Per-dispatch well-formedness: the metadata offset is aligned, the
/// extents respect the device's dispatch limit, the workload estimate is
/// bounded, and the pipeline's constant array and bind-group references
/// exist.
pub open spec fn dispatch_wf(d: MlQueueDispatch, aw: u32, n_refs: int, n_consts: int) -> bool {
    &&& aw > 0
    &&& d.meta % aw == 0
    &&& d.x <= MAX_DISPATCH_SIZE
    &&& d.y <= MAX_DISPATCH_SIZE
    &&& d.z <= MAX_DISPATCH_SIZE
    &&& d.workload_size <= MAX_WORKLOAD_ESTIMATE
    &&& (d.pipeline.1 as int) < n_consts
    &&& match d.bindgroup {
        DispatchedBindgroup::BindgroupReference(bg) => bg_refs_ok(bg, n_refs),
        DispatchedBindgroup::CachedBindgroup(_) => true,
        DispatchedBindgroup::NoOp => true,
    }
}

/// Queue-level well-formedness. Besides per-dispatch sanity it pins the
/// shape the flush planner relies on: metadata offsets are nondecreasing,
/// consecutive dispatches start at most 64 words apart (one 256-byte
/// parameter window), the first dispatch starts within the first window,
/// and the cursor lies beyond every recorded offset.
pub open spec fn queue_wf(qb: QueueBuffer, aw: u32, n_refs: int) -> bool {
    let ds = qb.command_queue@;
    &&& forall|i: int|
        0 <= i < ds.len() ==> dispatch_wf(
            disp(#[trigger] ds[i]),
            aw,
            n_refs,
            qb.id_to_const_array@.len() as int,
        )
    &&& forall|i: int, j: int|
        0 <= i < j < ds.len() ==> disp(#[trigger] ds[i]).meta <= disp(#[trigger] ds[j]).meta
    &&& forall|i: int, j: int|
        0 <= i < ds.len() && j == i + 1 && j < ds.len() ==> disp(#[trigger] ds[j]).meta - disp(
            #[trigger] ds[i],
        ).meta <= 64
    &&& (ds.len() > 0 ==> disp(ds[0]).meta <= 64)
    &&& (ds.len() > 0 ==> disp(ds.last()).meta <= qb.current_meta)
    &&& qb.current_meta % aw == 0
    &&& qb.current_meta <= qb.meta.0@.len()
    &&& forall|i: int| 0 <= i < ds.len() ==> disp(#[trigger] ds[i]).meta <= qb.current_meta
}

/// The metadata array ends close behind the last dispatch: what a fresh
/// `get_meta` needs so that the next dispatch starts within one parameter
/// window of the previous one.
pub open spec fn meta_tail_tight(qb: QueueBuffer) -> bool {
    if qb.command_queue@.len() == 0 {
        qb.meta.0@.len() <= 64
    } else {
        qb.meta.0@.len() <= disp(qb.command_queue@.last()).meta + 64
    }
}

/// Device-level well-formedness.
pub open spec fn device_wf(dev: WgpuDevice) -> bool {
    &&& limits_wf(dev.device_limits)
    &&& dev.cache.wf()
    &&& queue_wf(dev.command_queue, align_words(dev.device_limits), dev.cache.n_refs())
}

/// The (constant id, value) pairs a constant vector specializes a pipeline
/// with: position as id.
pub open spec fn const_entries_of(v: Seq<u32>) -> Seq<(u32, u32)> {
    Seq::new(v.len(), |k: int| (k as u32, v[k]))
}

impl QueueBuffer {
    pub fn new() -> (r: QueueBuffer)
        ensures
            r.command_queue@.len() == 0,
            r.meta.0@.len() == 0,
            r.current_meta == 0,
            r.id_to_const_array@.len() == 0,
            r.last_buffer is None,
    {
        QueueBuffer {
            command_queue: Vec::new(),
            meta: MetaArray::new(0),
            current_meta: 0,
            id_to_const_array: Vec::new(),
            last_buffer: Option::None,
        }
    }

    /// Empties the queue and truncates the metadata array; the constant
    /// table and the last planned output survive the flush.
    pub fn clear(&mut self)
        ensures
            final(self).command_queue@.len() == 0,
            final(self).meta.0@.len() == 0,
            final(self).current_meta == 0,
            final(self).id_to_const_array@ == old(self).id_to_const_array@,
            final(self).last_buffer == old(self).last_buffer,
    {
        self.command_queue.clear();
        self.meta.0.clear();
        self.current_meta = 0;
    }

    /// Deduplicates the constant array built from `const_vec` into the
    /// queue's const table and returns the pipeline specialized by it, with
    /// the given in-place hints.
    pub fn get_pipeline_const_inplace(
        &mut self,
        pipeline: Pipelines,
        const_vec: &Vec<u32>,
        inplaceable: OpIsInplaceable,
    ) -> (r: PipelineType)
        requires
            const_vec@.len() <= CONST_ARRAY_CAPACITY,
        ensures
            r.0 == pipeline,
            r.2 == inplaceable,
            (r.1 as int) < final(self).id_to_const_array@.len(),
            final(self).id_to_const_array@[r.1 as int].0@ == const_entries_of(const_vec@),
            (exists|k: int|
                0 <= k < old(self).id_to_const_array@.len() && (#[trigger] old(self).id_to_const_array@[k]).0@
                    == const_entries_of(const_vec@)) ==> {
                &&& final(self).id_to_const_array@ == old(self).id_to_const_array@
                &&& forall|k: int|
                    0 <= k < r.1 ==> (#[trigger] old(self).id_to_const_array@[k]).0@
                        != const_entries_of(const_vec@)
            },
            !(exists|k: int|
                0 <= k < old(self).id_to_const_array@.len() && (#[trigger] old(self).id_to_const_array@[k]).0@
                    == const_entries_of(const_vec@)) ==> {
                &&& final(self).id_to_const_array@.len() == old(self).id_to_const_array@.len() + 1
                &&& (r.1 as int) == old(self).id_to_const_array@.len()
            },
            old(self).id_to_const_array@.len() <= final(self).id_to_const_array@.len() <= old(self).id_to_const_array@.len() + 1,
            forall|k: int|
                0 <= k < old(self).id_to_const_array@.len() ==> final(self).id_to_const_array@[k]
                    == old(self).id_to_const_array@[k],
            final(self).command_queue@ == old(self).command_queue@,
            final(self).meta.0@ == old(self).meta.0@,
            final(self).current_meta == old(self).current_meta,
            final(self).last_buffer == old(self).last_buffer,
    {
        let mut consts = ConstArray::new();
        let mut k: usize = 0;
        while k < const_vec.len()
            invariant
                0 <= k <= const_vec@.len(),
                const_vec@.len() <= CONST_ARRAY_CAPACITY,
                consts.0@ == const_entries_of(const_vec@.take(k as int)),
                consts.0@.len() == k,
            decreases const_vec@.len() - k,
        {
            consts.insert(k as u32, const_vec[k]);
            proof {
                assert(consts.0@ =~= const_entries_of(const_vec@.take(k as int + 1)));
            }
            k += 1;
        }
        proof {
            assert(const_vec@.take(const_vec@.len() as int) =~= const_vec@);
        }
        let n = self.id_to_const_array.len();
        let mut id: usize = 0;
        let mut found = false;
        while id < n && !found
            invariant
                0 <= id <= n,
                n == self.id_to_const_array@.len(),
                found ==> id < n && self.id_to_const_array@[id as int].0@ == consts.0@,
                forall|j: int|
                    0 <= j < id ==> (#[trigger] self.id_to_const_array@[j]).0@ != consts.0@,
            decreases n - id + if found {
                0int
            } else {
                1int
            },
        {
            if const_arrays_equal(&self.id_to_const_array[id], &consts) {
                found = true;
            } else {
                id += 1;
            }
        }
        if found {
            PipelineType(pipeline, id, inplaceable)
        } else {
            let id = self.id_to_const_array.len();
            self.id_to_const_array.push(consts);
            PipelineType(pipeline, id, inplaceable)
        }
    }

    /// As `get_pipeline_const_inplace`, with no in-place hints.
    pub fn get_pipeline_const(&mut self, pipeline: Pipelines, const_vec: &Vec<u32>) -> (r:
        PipelineType)
        requires
            const_vec@.len() <= CONST_ARRAY_CAPACITY,
        ensures
            r.0 == pipeline,
            !r.2.input1_inplaceable,
            !r.2.input2_inplaceable,
            (r.1 as int) < final(self).id_to_const_array@.len(),
            final(self).id_to_const_array@[r.1 as int].0@ == const_entries_of(const_vec@),
            (exists|k: int|
                0 <= k < old(self).id_to_const_array@.len() && (#[trigger] old(self).id_to_const_array@[k]).0@
                    == const_entries_of(const_vec@)) ==> {
                &&& final(self).id_to_const_array@ == old(self).id_to_const_array@
                &&& forall|k: int|
                    0 <= k < r.1 ==> (#[trigger] old(self).id_to_const_array@[k]).0@
                        != const_entries_of(const_vec@)
            },
            !(exists|k: int|
                0 <= k < old(self).id_to_const_array@.len() && (#[trigger] old(self).id_to_const_array@[k]).0@
                    == const_entries_of(const_vec@)) ==> {
                &&& final(self).id_to_const_array@.len() == old(self).id_to_const_array@.len() + 1
                &&& (r.1 as int) == old(self).id_to_const_array@.len()
            },
            old(self).id_to_const_array@.len() <= final(self).id_to_const_array@.len() <= old(self).id_to_const_array@.len() + 1,
            forall|k: int|
                0 <= k < old(self).id_to_const_array@.len() ==> final(self).id_to_const_array@[k]
                    == old(self).id_to_const_array@[k],
            final(self).command_queue@ == old(self).command_queue@,
            final(self).meta.0@ == old(self).meta.0@,
            final(self).current_meta == old(self).current_meta,
            final(self).last_buffer == old(self).last_buffer,
    {
        let flags = OpIsInplaceable::new();
        self.get_pipeline_const_inplace(pipeline, const_vec, flags)
    }
}

impl WgpuDevice {
    /// A fresh device front-end with the given limits.
    pub fn new(limits: DeviceLimits) -> (r: WgpuDevice)
        requires
            limits_wf(limits),
        ensures
            device_wf(r),
            meta_tail_tight(r.command_queue),
            r.command_queue.command_queue@.len() == 0,
            r.command_queue.meta.0@.len() == 0,
            r.command_queue.current_meta == 0,
            r.command_queue.id_to_const_array@.len() == 0,
            r.cache.buffer_references@.len() == 0,
            r.cache.buffers@.len() == 0,
            r.cache.buffer_memory == 0,
            r.cache.max_memory_allowed == 0,
            r.device_limits == limits,
    {
        WgpuDevice {
            command_queue: QueueBuffer::new(),
            cache: ModelCache::new(),
            device_limits: limits,
        }
    }

    /// Limits of a typical device: 256-byte offset alignment, a 64 KiB
    /// metadata buffer, and a large workload cap.
    pub fn default_limits() -> (r: DeviceLimits)
        ensures
            limits_wf(r),
            r.min_storage_buffer_offset_alignment == 256,
            r.meta_buffer_size == 65536,
            r.max_workload_size == 1024u64 * 1024 * 1024,
    {
        let r = DeviceLimits {
            min_storage_buffer_offset_alignment: 256,
            meta_buffer_size: 65536,
            max_workload_size: 1024u64 * 1024 * 1024,
        };
        proof {
            assert(r.min_storage_buffer_offset_alignment / 4 == 64);
            assert(64u32 % 64u32 == 0);
        }
        r
    }
}

/// Zero-pads a metadata array up to `target` words.
fn pad_meta_to(meta: &mut MetaArray, target: u32)
    requires
        old(meta).0@.len() <= target,
    ensures
        final(meta).0@.len() == target,
        forall|k: int| 0 <= k < old(meta).0@.len() ==> final(meta).0@[k] == old(meta).0@[k],
        forall|k: int|
            old(meta).0@.len() <= k < target ==> final(meta).0@[k] == 0,
{
    while meta.0.len() < target as usize
        invariant
            meta.0@.len() <= target,
            old(meta).0@.len() <= meta.0@.len(),
            forall|k: int| 0 <= k < old(meta).0@.len() ==> meta.0@[k] == old(meta).0@[k],
            forall|k: int| old(meta).0@.len() <= k < meta.0@.len() ==> meta.0@[k] == 0,
        decreases target as int - meta.0@.len(),
    {
        meta.0.push(0);
    }
}

#[verifier::rlimit(100)]
pub fn get_meta(dev: &mut WgpuDevice)
    requires
        device_wf(*old(dev)),
        meta_tail_tight(old(dev).command_queue),
        old(dev).command_queue.meta.0@.len() + 64 <= u32::MAX,
    ensures
        device_wf(*final(dev)),
        meta_tail_tight(final(dev).command_queue),
        final(dev).device_limits == old(dev).device_limits,
        final(dev).cache == old(dev).cache,
        final(dev).command_queue.command_queue@ == old(dev).command_queue.command_queue@,
        final(dev).command_queue.id_to_const_array@ == old(dev).command_queue.id_to_const_array@,
        final(dev).command_queue.last_buffer == old(dev).command_queue.last_buffer,
        final(dev).command_queue.current_meta % align_words(old(dev).device_limits) == 0,
        final(dev).command_queue.current_meta == crate::align_up_spec(
            old(dev).command_queue.meta.0@.len() as int,
            align_words(old(dev).device_limits) as int,
        ),
        old(dev).command_queue.meta.0@.len() <= final(dev).command_queue.current_meta < old(dev).command_queue.meta.0@.len() + align_words(old(dev).device_limits),
        final(dev).command_queue.meta.0@.len() == final(dev).command_queue.current_meta,
        forall|k: int|
            0 <= k < old(dev).command_queue.meta.0@.len() ==> final(dev).command_queue.meta.0@[k]
                == old(dev).command_queue.meta.0@[k],
        forall|k: int|
            old(dev).command_queue.meta.0@.len() <= k < final(dev).command_queue.meta.0@.len()
                ==> final(dev).command_queue.meta.0@[k] == 0,
        old(dev).command_queue.command_queue@.len() == 0 ==> final(dev).command_queue.current_meta <= 64,
        old(dev).command_queue.command_queue@.len() > 0 ==> final(dev).command_queue.current_meta
            <= disp(old(dev).command_queue.command_queue@.last()).meta + 64,
{
    let aw = dev.device_limits.min_storage_buffer_offset_alignment / 4;
    let len = dev.command_queue.meta.0.len() as u32;
    proof {
        // the alignment's word count divides 64, so it is at most 64
        if aw > 64 {
            vstd::arithmetic::div_mod::lemma_small_mod(64nat, aw as nat);
        }
    }
    let meta_offset = next_divisible_by_n(len, aw);
    dev.command_queue.current_meta = meta_offset;
    pad_meta_to(&mut dev.command_queue.meta, meta_offset);
    proof {
        lemma_align_keeps_window(
            old(dev).command_queue,
            align_words(old(dev).device_limits),
            dev.command_queue.current_meta,
        );
    }
}

/// If the tail was tight and the cursor is the aligned end of the metadata
/// array, the cursor stays within one 64-word window of the last dispatch.
proof fn lemma_align_keeps_window(qb: QueueBuffer, aw: u32, cm: u32)
    requires
        aw > 0,
        64u32 % aw == 0,
        meta_tail_tight(qb),
        qb.command_queue@.len() > 0 ==> disp(qb.command_queue@.last()).meta % aw == 0,
        qb.meta.0@.len() <= cm < qb.meta.0@.len() + aw,
        cm % aw == 0,
    ensures
        qb.command_queue@.len() == 0 ==> cm <= 64,
        qb.command_queue@.len() > 0 ==> cm <= disp(qb.command_queue@.last()).meta + 64,
{
    if qb.command_queue@.len() == 0 {
        // cm is the least multiple of aw at or beyond the array length,
        // which is at most 64; 64 itself is a multiple of aw
        assert(cm <= 64) by {
            if cm > 64 {
                assert(qb.meta.0@.len() <= 64);
                assert(cm < qb.meta.0@.len() + aw);
                assert(aw <= 64) by {
                    if aw > 64 {
                        assert(64u32 % aw == 64) by {
                            vstd::arithmetic::div_mod::lemma_small_mod(64nat, aw as nat);
                        }
                    }
                }
                // cm lies strictly between the multiples 64 and 64 + aw
                let q64 = 64int / aw as int;
                vstd::arithmetic::div_mod::lemma_fundamental_div_mod(64int, aw as int);
                assert(64int == q64 * aw);
                vstd::arithmetic::div_mod::lemma_fundamental_div_mod_converse_mod(
                    cm as int,
                    aw as int,
                    q64,
                    cm as int - 64,
                );
                assert(false);
            }
        }
    } else {
        let lm = disp(qb.command_queue@.last()).meta;
        assert(cm <= lm + 64) by {
            if cm > lm + 64 {
                assert(qb.meta.0@.len() <= lm + 64);
                assert(aw <= 64) by {
                    if aw > 64 {
                        assert(64u32 % aw == 64) by {
                            vstd::arithmetic::div_mod::lemma_small_mod(64nat, aw as nat);
                        }
                    }
                }
                // cm lies strictly between the multiples lm + 64 and lm + 64 + aw
                let qlm = (lm + 64) as int / aw as int;
                vstd::arithmetic::div_mod::lemma_add_mod_noop(lm as int, 64int, aw as int);
                vstd::arithmetic::div_mod::lemma_small_mod(0nat, aw as nat);
                assert((lm + 64) as int % aw as int == 0);
                vstd::arithmetic::div_mod::lemma_fundamental_div_mod((lm + 64) as int, aw as int);
                assert((lm + 64) as int == qlm * aw);
                vstd::arithmetic::div_mod::lemma_fundamental_div_mod_converse_mod(
                    cm as int,
                    aw as int,
                    qlm,
                    cm as int - (lm + 64),
                );
                assert(false);
            }
        }
    }
}

/// The reference kept its identity and gained `n` holds.
pub open spec fn ref_retained(r0: BufferReference, r1: BufferReference, n: nat) -> bool {
    &&& r1.ref_count == r0.ref_count + n
    &&& r1.size == r0.size
    &&& r1.storage == r0.storage
    &&& r1.is_referenced_by_storage == r0.is_referenced_by_storage
}

/// Counts how many entries of `s` equal `id`.
pub open spec fn occ(s: Seq<usize>, id: usize) -> nat
    decreases s.len(),
{
    if s.len() == 0 {
        0
    } else {
        occ(s.drop_last(), id) + if s.last() == id {
            1nat
        } else {
            0nat
        }
    }
}

pub proof fn lemma_occ_snoc(s: Seq<usize>, v: usize, id: usize)
    ensures
        occ(s.push(v), id) == occ(s, id) + if v == id {
            1nat
        } else {
            0nat
        },
{
    assert(s.push(v).drop_last() =~= s);
}

pub proof fn lemma_occ_take_succ(s: Seq<usize>, k: int, id: usize)
    requires
        0 <= k < s.len(),
    ensures
        occ(s.take(k + 1), id) == occ(s.take(k), id) + if s[k] == id {
            1nat
        } else {
            0nat
        },
{
    assert(s.take(k + 1).drop_last() =~= s.take(k));
    assert(s.take(k + 1).last() == s[k]);
    assert(occ(s.take(k + 1), id) == occ(s.take(k + 1).drop_last(), id) + if s.take(
        k + 1,
    ).last() == id {
        1nat
    } else {
        0nat
    });
}

pub proof fn lemma_occ_le_len(s: Seq<usize>, id: usize)
    ensures
        occ(s, id) <= s.len(),
    decreases s.len(),
{
    if s.len() > 0 {
        lemma_occ_le_len(s.drop_last(), id);
    }
}

/// Adds one hold per occurrence for every reference a bind group names:
/// the queue now holds them.
#[verifier::rlimit(100)]
fn retain_members(cache: &mut ModelCache, members: &Vec<usize>)
    requires
        old(cache).wf(),
        forall|k: int|
            0 <= k < members@.len() ==> (#[trigger] members@[k] as int) < old(cache).n_refs(),
        forall|k: int|
            0 <= k < members@.len() ==> old(cache).buffer_references@[#[trigger] members@[k] as int].ref_count
                + members@.len() <= u32::MAX,
    ensures
        final(cache).wf(),
        final(cache).same_pools(old(cache)),
        final(cache).buffer_references@.len() == old(cache).buffer_references@.len(),
        forall|id: usize|
            (id as int) < old(cache).n_refs() ==> ref_retained(
                #[trigger] old(cache).buffer_references@[id as int],
                final(cache).buffer_references@[id as int],
                occ(members@, id),
            ),
{
    let n = members.len();
    let mut k: usize = 0;
    while k < n
        invariant
            0 <= k <= n,
            n == members@.len(),
            cache.wf(),
            cache.same_pools(old(cache)),
            cache.buffer_references@.len() == old(cache).buffer_references@.len(),
            forall|j: int|
                0 <= j < members@.len() ==> (#[trigger] members@[j] as int) < old(cache).n_refs(),
            forall|j: int|
                0 <= j < members@.len() ==> old(cache).buffer_references@[#[trigger] members@[j] as int].ref_count
                    + members@.len() <= u32::MAX,
            forall|id: usize|
                (id as int) < old(cache).n_refs() ==> ref_retained(
                    #[trigger] old(cache).buffer_references@[id as int],
                    cache.buffer_references@[id as int],
                    occ(members@.take(k as int), id),
                ),
        decreases n - k,
    {
        let id = members[k];
        let ghost pre = *cache;
        proof {
            lemma_occ_le_len(members@.take(k as int), id);
            assert(members@.take(k as int).len() == k);
            assert(ref_retained(
                old(cache).buffer_references@[id as int],
                pre.buffer_references@[id as int],
                occ(members@.take(k as int), id),
            ));
        }
        cache.retain_buffer_reference(id);
        proof {
            assert forall|i: usize| (i as int) < old(cache).n_refs() implies ref_retained(
                #[trigger] old(cache).buffer_references@[i as int],
                cache.buffer_references@[i as int],
                occ(members@.take(k as int + 1), i),
            ) by {
                assert(ref_retained(
                    old(cache).buffer_references@[i as int],
                    pre.buffer_references@[i as int],
                    occ(members@.take(k as int), i),
                ));
                lemma_occ_take_succ(members@, k as int, i);
                if i == id {
                    assert(members@[k as int] == i);
                    assert(cache.buffer_references@[i as int].ref_count
                        == pre.buffer_references@[i as int].ref_count + 1);
                } else {
                    assert(members@[k as int] != i);
                    assert(cache.buffer_references@[i as int] == pre.buffer_references@[i as int]);
                }
            }
        }
        k += 1;
    }
    proof {
        assert(members@.take(n as int) =~= members@);
    }
}

/// Everything an op encoder must have in hand before queueing a dispatch:
/// a well-formed device, a resolved constant array, live bind-group
/// references with headroom on their hold counts, and a metadata cursor
/// still within one parameter window of the previous dispatch.
pub open spec fn enqueue_ready(
    dev: WgpuDevice,
    pipeline: PipelineType,
    bind_group: BindGroupReference,
) -> bool {
    &&& device_wf(dev)
    &&& (pipeline.1 as int) < dev.command_queue.id_to_const_array@.len()
    &&& bg_refs_ok(bind_group, dev.cache.n_refs())
    &&& forall|k: int|
        0 <= k < bg_members(bind_group).len() ==> dev.cache.buffer_references@[#[trigger] bg_members(
            bind_group,
        )[k] as int].ref_count + 4 <= u32::MAX
    &&& dev.command_queue.meta.0@.len() <= dev.command_queue.current_meta + 64
    &&& (dev.command_queue.command_queue@.len() == 0 ==> dev.command_queue.current_meta <= 64)
    &&& (dev.command_queue.command_queue@.len() > 0 ==> dev.command_queue.current_meta <= disp(
        dev.command_queue.command_queue@.last(),
    ).meta + 64)
}

/// What queueing one dispatch did: exactly one record was appended, holding
/// the given extents and pipeline and starting at the metadata cursor; the
/// queue took one hold per bind-group entry; nothing else moved.
pub open spec fn enqueued(
    dev0: WgpuDevice,
    dev1: WgpuDevice,
    pipeline: PipelineType,
    bind_group: BindGroupReference,
    x: u32,
    y: u32,
    z: u32,
    workload_size: u64,
) -> bool {
    &&& device_wf(dev1)
    &&& meta_tail_tight(dev1.command_queue)
    &&& dev1.device_limits == dev0.device_limits
    &&& dev1.command_queue.command_queue@ == dev0.command_queue.command_queue@.push(
        MlQueue::Dispatch(
            MlQueueDispatch {
                x,
                y,
                z,
                pipeline,
                pipeline_cached: false,
                bindgroup: DispatchedBindgroup::BindgroupReference(bind_group),
                meta: dev0.command_queue.current_meta,
                workload_size,
            },
        ),
    )
    &&& dev1.command_queue.meta.0@ == dev0.command_queue.meta.0@
    &&& dev1.command_queue.current_meta == dev0.command_queue.current_meta
    &&& dev1.command_queue.id_to_const_array@ == dev0.command_queue.id_to_const_array@
    &&& dev1.command_queue.last_buffer == dev0.command_queue.last_buffer
    &&& dev1.cache.same_pools(&dev0.cache)
    &&& dev1.cache.buffer_references@.len() == dev0.cache.buffer_references@.len()
    &&& forall|id: usize|
        (id as int) < dev0.cache.n_refs() ==> ref_retained(
            #[trigger] dev0.cache.buffer_references@[id as int],
            dev1.cache.buffer_references@[id as int],
            occ(bg_members(bind_group), id),
        )
}

/// Queues one dispatch over explicit workgroup extents. The queue takes a
/// hold on every buffer the bind group names; the dispatch's parameters are
/// the words written since the last `get_meta`.
#[verifier::rlimit(100)]
pub fn enqueue_workgroups_extra(
    dev: &mut WgpuDevice,
    pipeline: PipelineType,
    bind_group: BindGroupReference,
    x: u32,
    y: u32,
    z: u32,
    workload_size: u64,
)
    requires
        enqueue_ready(*old(dev), pipeline, bind_group),
        x <= MAX_DISPATCH_SIZE,
        y <= MAX_DISPATCH_SIZE,
        z <= MAX_DISPATCH_SIZE,
        workload_size <= MAX_WORKLOAD_ESTIMATE,
    ensures
        enqueued(*old(dev), *final(dev), pipeline, bind_group, x, y, z, workload_size),
{
    let members = bg_member_vec(&bind_group);
    proof {
        assert(members@.len() <= 4);
    }
    retain_members(&mut dev.cache, &members);
    let q = MlQueue::Dispatch(
        MlQueueDispatch {
            x,
            y,
            z,
            pipeline,
            pipeline_cached: false,
            bindgroup: DispatchedBindgroup::BindgroupReference(bind_group),
            meta: dev.command_queue.current_meta,
            workload_size,
        },
    );
    dev.command_queue.command_queue.push(q);
    proof {
        let aw = align_words(dev.device_limits);
        let nr = dev.cache.n_refs();
        let nc = dev.command_queue.id_to_const_array@.len() as int;
        let ds0 = old(dev).command_queue.command_queue@;
        let ds1 = dev.command_queue.command_queue@;
        assert(ds1.len() == ds0.len() + 1);
        assert forall|i: int|
            0 <= i < ds1.len() implies dispatch_wf(disp(#[trigger] ds1[i]), aw, nr, nc) by {
            if i < ds0.len() {
                assert(ds1[i] == ds0[i]);
                assert(dispatch_wf(disp(ds0[i]), aw, nr, nc));
            }
        }
        assert forall|i: int, j: int|
            0 <= i < j < ds1.len() implies disp(#[trigger] ds1[i]).meta <= disp(
            #[trigger] ds1[j],
        ).meta by {
            if j < ds0.len() {
                assert(disp(ds0[i]).meta <= disp(ds0[j]).meta);
            } else {
                assert(disp(ds1[i]).meta <= old(dev).command_queue.current_meta);
            }
        }
        assert forall|i: int, j: int|
            0 <= i < ds1.len() && j == i + 1 && j < ds1.len() implies disp(
            #[trigger] ds1[j],
        ).meta - disp(#[trigger] ds1[i]).meta <= 64 by {
            if j < ds0.len() {
                assert(disp(ds0[j]).meta - disp(ds0[i]).meta <= 64);
            } else {
                assert(ds1[i] == ds0.last());
            }
        }
    }
}

/// As `enqueue_workgroups_extra`; the entry point op encoders use.
#[verifier::rlimit(100)]
pub fn enqueue_workgroups(
    dev: &mut WgpuDevice,
    pipeline: PipelineType,
    bind_group: BindGroupReference,
    x: u32,
    y: u32,
    z: u32,
    workload_size: u64,
)
    requires
        enqueue_ready(*old(dev), pipeline, bind_group),
        x <= MAX_DISPATCH_SIZE,
        y <= MAX_DISPATCH_SIZE,
        z <= MAX_DISPATCH_SIZE,
        workload_size <= MAX_WORKLOAD_ESTIMATE,
    ensures
        enqueued(*old(dev), *final(dev), pipeline, bind_group, x, y, z, workload_size),
{
    enqueue_workgroups_extra(dev, pipeline, bind_group, x, y, z, workload_size)
}

/// Queues a 1-D dispatch tiled by the workgroup size.
pub fn enqueue_extra(
    dev: &mut WgpuDevice,
    pipeline: PipelineType,
    bind_group: BindGroupReference,
    length: u32,
    workload_size: u64,
)
    requires
        enqueue_ready(*old(dev), pipeline, bind_group),
        length <= 65535 * 64,
        workload_size <= MAX_WORKLOAD_ESTIMATE,
    ensures
        enqueued(
            *old(dev),
            *final(dev),
            pipeline,
            bind_group,
            ((length + 63) / 64) as u32,
            1,
            1,
            workload_size,
        ),
{
    enqueue_workgroups_extra(
        dev,
        pipeline,
        bind_group,
        (length + WORKGROUP_SIZE - 1) / WORKGROUP_SIZE,
        1,
        1,
        workload_size,
    )
}

/// As `enqueue_extra`; the entry point op encoders use.
pub fn enqueue(
    dev: &mut WgpuDevice,
    pipeline: PipelineType,
    bind_group: BindGroupReference,
    length: u32,
    workload_size: u64,
)
    requires
        enqueue_ready(*old(dev), pipeline, bind_group),
        length <= 65535 * 64,
        workload_size <= MAX_WORKLOAD_ESTIMATE,
    ensures
        enqueued(
            *old(dev),
            *final(dev),
            pipeline,
            bind_group,
            ((length + 63) / 64) as u32,
            1,
            1,
            workload_size,
        ),
{
    enqueue_extra(dev, pipeline, bind_group, length, workload_size)
}

/// The extents `enqueue_big` produces for a length: the workgroup count,
/// split across the y dimension once it exceeds the per-dimension limit.
pub open spec fn big_extents(length: u32) -> (u32, u32) {
    let id = (length + 63) / 64;
    (if id < 65535 {
        id as u32
    } else {
        65535u32
    }, ((id + 65534) / 65535) as u32)
}

/// Queues a 1-D dispatch of unbounded length: the workgroup count is split
/// across the y dimension when it exceeds the per-dimension limit.
pub fn enqueue_big_extra(
    dev: &mut WgpuDevice,
    pipeline: PipelineType,
    bind_group: BindGroupReference,
    length: u32,
)
    requires
        enqueue_ready(*old(dev), pipeline, bind_group),
    ensures
        enqueued(
            *old(dev),
            *final(dev),
            pipeline,
            bind_group,
            big_extents(length).0,
            big_extents(length).1,
            1,
            length as u64,
        ),
{
    let id = (((length as u64) + (WORKGROUP_SIZE as u64) - 1) / (WORKGROUP_SIZE as u64)) as u32;
    let x = if id < 65535 {
        id
    } else {
        65535
    };
    let y = (id + 65534) / 65535;
    proof {
        assert(id <= (0xFFFF_FFFFu32 + 63) / 64);
        assert(y <= 65535);
        assert(length as u64 <= MAX_WORKLOAD_ESTIMATE);
    }
    enqueue_workgroups_extra(dev, pipeline, bind_group, x, y, 1, length as u64)
}

/// As `enqueue_big_extra`; the entry point op encoders use.
pub fn enqueue_big(
    dev: &mut WgpuDevice,
    pipeline: PipelineType,
    bind_group: BindGroupReference,
    length: u32,
)
    requires
        enqueue_ready(*old(dev), pipeline, bind_group),
    ensures
        enqueued(
            *old(dev),
            *final(dev),
            pipeline,
            bind_group,
            big_extents(length).0,
            big_extents(length).1,
            1,
            length as u64,
        ),
{
    enqueue_big_extra(dev, pipeline, bind_group, length)
}

/// The value at the aligned cursor an encoder's dispatch will start at.
pub open spec fn next_meta_offset(dev: WgpuDevice) -> int {
    crate::align_up_spec(
        dev.command_queue.meta.0@.len() as int,
        align_words(dev.device_limits) as int,
    )
}

/// `m` zero-padded up to length `cm`.
pub open spec fn padded(m: Seq<u32>, cm: int) -> Seq<u32>
    recommends
        m.len() <= cm,
{
    m + Seq::new((cm - m.len()) as nat, |i: int| 0u32)
}

/// What every op encoder needs of the device before it starts.
pub open spec fn encoder_ready(dev: WgpuDevice) -> bool {
    &&& device_wf(dev)
    &&& meta_tail_tight(dev.command_queue)
    &&& dev.command_queue.meta.0@.len() + 128 <= u32::MAX
}

/// A buffer reference an encoder may hand to a bind group: it exists and
/// its hold count has headroom for the queue's holds.
pub open spec fn ref_usable(dev: WgpuDevice, id: usize) -> bool {
    &&& (id as int) < dev.cache.n_refs()
    &&& dev.cache.buffer_references@[id as int].ref_count >= 1
    &&& dev.cache.buffer_references@[id as int].ref_count + 4 <= u32::MAX
}

/// What one op-encoder call did: exactly one dispatch was appended. Its
/// parameters are `words`, written at the aligned cursor; its pipeline is
/// `key` specialized by `consts` with hints `flags`; its bind group is
/// `bg`; its extents are (x, y, z) and its workload estimate `workload`.
/// The queue took one hold per bind-group entry; nothing else moved.
pub open spec fn encoded_one(
    dev0: WgpuDevice,
    dev1: WgpuDevice,
    key: Pipelines,
    flags: OpIsInplaceable,
    bg: BindGroupReference,
    x: u32,
    y: u32,
    z: u32,
    workload: u64,
    words: Seq<u32>,
    consts: Seq<u32>,
) -> bool {
    let cm = next_meta_offset(dev0);
    let ds0 = dev0.command_queue.command_queue@;
    let ds1 = dev1.command_queue.command_queue@;
    let q = disp(ds1.last());
    &&& device_wf(dev1)
    &&& meta_tail_tight(dev1.command_queue)
    &&& dev1.device_limits == dev0.device_limits
    &&& ds1.len() == ds0.len() + 1
    &&& forall|i: int| 0 <= i < ds0.len() ==> #[trigger] ds1[i] == ds0[i]
    &&& q.x == x
    &&& q.y == y
    &&& q.z == z
    &&& q.workload_size == workload
    &&& q.meta == cm
    &&& q.pipeline.0 == key
    &&& q.pipeline.2 == flags
    &&& !q.pipeline_cached
    &&& (q.pipeline.1 as int) < dev1.command_queue.id_to_const_array@.len()
    &&& dev1.command_queue.id_to_const_array@[q.pipeline.1 as int].0@ == const_entries_of(consts)
    &&& q.bindgroup == DispatchedBindgroup::BindgroupReference(bg)
    &&& dev1.command_queue.meta.0@ == padded(dev0.command_queue.meta.0@, cm) + words
    &&& forall|k: int|
        0 <= k < dev0.command_queue.id_to_const_array@.len()
            ==> #[trigger] dev1.command_queue.id_to_const_array@[k]
            == dev0.command_queue.id_to_const_array@[k]
    &&& dev0.command_queue.id_to_const_array@.len() <= dev1.command_queue.id_to_const_array@.len()
        <= dev0.command_queue.id_to_const_array@.len() + 1
    &&& dev1.command_queue.last_buffer == dev0.command_queue.last_buffer
    &&& dev1.cache.same_pools(&dev0.cache)
    &&& dev1.cache.buffer_references@.len() == dev0.cache.buffer_references@.len()
    &&& forall|id: usize|
        (id as int) < dev0.cache.n_refs() ==> ref_retained(
            #[trigger] dev0.cache.buffer_references@[id as int],
            dev1.cache.buffer_references@[id as int],
            occ(bg_members(bg), id),
        )
}

/// Queue well-formedness only gets easier as the reference table grows.
pub proof fn lemma_queue_wf_more_refs(qb: QueueBuffer, aw: u32, nr0: int, nr1: int)
    requires
        queue_wf(qb, aw, nr0),
        nr0 <= nr1,
    ensures
        queue_wf(qb, aw, nr1),
{
    let ds = qb.command_queue@;
    assert forall|i: int|
        0 <= i < ds.len() implies dispatch_wf(
        disp(#[trigger] ds[i]),
        aw,
        nr1,
        qb.id_to_const_array@.len() as int,
    ) by {
        assert(dispatch_wf(disp(ds[i]), aw, nr0, qb.id_to_const_array@.len() as int));
        match disp(ds[i]).bindgroup {
            DispatchedBindgroup::BindgroupReference(bg) => {
                assert forall|k: int|
                    0 <= k < bg_members(bg).len() implies (#[trigger] bg_members(bg)[k] as int)
                    < nr1 by {
                    assert((bg_members(bg)[k] as int) < nr0);
                }
            },
            DispatchedBindgroup::CachedBindgroup(_) => {},
            DispatchedBindgroup::NoOp => {},
        }
    }
}

pub proof fn lemma_occ_seq2(a: usize, b: usize, id: usize)
    ensures
        occ(seq![a, b], id) == (if a == id {
            1nat
        } else {
            0nat
        }) + (if b == id {
            1nat
        } else {
            0nat
        }),
{
    reveal_with_fuel(occ, 4);
    assert(seq![a, b].drop_last() =~= seq![a]);
    assert(seq![a].drop_last() =~= Seq::<usize>::empty());
}

pub proof fn lemma_occ_seq3(a: usize, b: usize, c: usize, id: usize)
    ensures
        occ(seq![a, b, c], id) == (if a == id {
            1nat
        } else {
            0nat
        }) + (if b == id {
            1nat
        } else {
            0nat
        }) + (if c == id {
            1nat
        } else {
            0nat
        }),
{
    reveal_with_fuel(occ, 4);
    assert(seq![a, b, c].drop_last() =~= seq![a, b]);
    lemma_occ_seq2(a, b, id);
}

} // verus!
