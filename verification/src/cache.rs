//! The buffer-reference cache: logical buffer references, the pool of real
//! storage buffers they are bound to, the bind-group cache, and the
//! high-water memory budget.
//!
//! A `BufferReference` is a logical request for storage. Its `ref_count`
//! counts the live holds on it: one per caller handle and one per bind-group
//! entry in the deferred queue. When the count reaches zero its storage
//! buffer returns to the pool as free, ready for reuse by a later dispatch
//! of the same flush.

use vstd::prelude::*;

verus! {

use crate::{MAX_BUFFER_SIZE, sat_add, sat_add_spec, sat_sub, sat_sub_spec};
use crate::bindgroup::{CachedBindgroupBuffers, cached_bindgroups_equal};
use crate::pipeline::PipelineType;

/// A logical buffer request, not yet (or no longer) backed by real storage.
#[derive(Clone, Copy, Debug)]
pub struct BufferReference {
    /// Requested byte size.
    pub size: u64,
    /// Index of the storage buffer backing this reference, if bound.
    pub storage: Option<usize>,
    /// True while a live long-term tensor holds this reference; transient
    /// queue-internal allocations carry `false`.
    pub is_referenced_by_storage: bool,
    /// Live holds: caller handles plus queue bind-group entries.
    pub ref_count: u32,
}

/// A real GPU storage buffer owned by the pool.
#[derive(Clone, Copy, Debug)]
pub struct CachedBuffer {
    pub size: u64,
    pub is_free: bool,
}

/// A cached bind group, keyed by pipeline and the concrete buffers bound.
#[derive(Debug)]
pub struct CachedBindgroupEntry {
    pub pipeline: PipelineType,
    pub buffers: CachedBindgroupBuffers,
}

/// What well-formedness asks of one buffer reference: a bound reference
/// points at a live, non-free pool buffer that is large enough for it, a
/// dead reference is unbound, and the size respects the device limit.
pub open spec fn ref_ok_at(r: BufferReference, bufs: Seq<Option<CachedBuffer>>) -> bool {
    &&& match r.storage {
        Option::Some(s) => {
            &&& (s as int) < bufs.len()
            &&& match bufs[s as int] {
                Option::Some(b) => !b.is_free && r.size <= b.size,
                Option::None => false,
            }
        },
        Option::None => true,
    }
    &&& (r.ref_count == 0 ==> r.storage is None)
    &&& r.size <= MAX_BUFFER_SIZE
}

/// What a hold count comes to after `n` releases: each release takes one
/// hold until none is left.
pub open spec fn released_count(count: u32, n: nat) -> u32 {
    if n <= count {
        (count - n) as u32
    } else {
        0
    }
}

/// Whether a pool slot holds a live, in-use buffer.
pub open spec fn buffer_live_at(s: usize, bufs: Seq<Option<CachedBuffer>>) -> bool {
    (s as int) < bufs.len() && match bufs[s as int] {
        Option::Some(b) => !b.is_free,
        Option::None => false,
    }
}

/// Every buffer a cached bind group binds is still live: only such an
/// entry can be replayed.
pub open spec fn bindgroup_entry_live(e: CachedBindgroupEntry, bufs: Seq<Option<CachedBuffer>>) -> bool {
    &&& buffer_live_at(e.buffers.dest, bufs)
    &&& forall|j: int|
        0 <= j < e.buffers.inputs@.len() ==> buffer_live_at(#[trigger] e.buffers.inputs@[j], bufs)
}

/// What well-formedness asks of one pool slot.
pub open spec fn buf_ok(b: Option<CachedBuffer>) -> bool {
    match b {
        Option::Some(b) => b.size <= MAX_BUFFER_SIZE,
        Option::None => true,
    }
}

/// The two-level cache: buffer references, the storage pool with its memory
/// budget, and the bind-group cache.
#[derive(Debug)]
pub struct ModelCache {
    pub buffer_references: Vec<BufferReference>,
    /// Storage pool; a slot is `None` once its buffer has been dropped.
    pub buffers: Vec<Option<CachedBuffer>>,
    /// Total bytes of pool buffers currently allocated.
    pub buffer_memory: u64,
    /// Bytes of pool buffers currently free.
    pub buffer_memory_free: u64,
    /// High-water budget; allocation beyond it triggers eviction.
    pub max_memory_allowed: u64,
    /// Watermark observed by the most recent flush preparation, already
    /// expanded by its 25% headroom.
    pub last_most_needed: u64,
    /// Signature of the pipeline sequence of the flush being prepared.
    pub current_mapping: u64,
    pub bindgroups: Vec<CachedBindgroupEntry>,
}

impl ModelCache {
    pub open spec fn n_refs(&self) -> int {
        self.buffer_references@.len() as int
    }

    /// Two references never share storage: in-place aliasing moves the
    /// storage, it never duplicates it.
    pub open spec fn storages_distinct(&self) -> bool {
        forall|i: int, j: int|
            0 <= i < self.n_refs() && 0 <= j < self.n_refs() && i != j && (#[trigger] self
                .buffer_references@[i]).storage is Some ==> self.buffer_references@[i].storage
                != (#[trigger] self.buffer_references@[j]).storage
    }

    pub open spec fn wf(&self) -> bool {
        &&& forall|i: int|
            0 <= i < self.n_refs() ==> ref_ok_at(
                #[trigger] self.buffer_references@[i],
                self.buffers@,
            )
        &&& self.storages_distinct()
        &&& forall|s: int|
            0 <= s < self.buffers@.len() ==> buf_ok(#[trigger] self.buffers@[s])
    }

    /// The pool and bind-group side of the cache is untouched.
    pub open spec fn same_pools(&self, other: &ModelCache) -> bool {
        &&& self.buffers@ == other.buffers@
        &&& self.buffer_memory == other.buffer_memory
        &&& self.buffer_memory_free == other.buffer_memory_free
        &&& self.max_memory_allowed == other.max_memory_allowed
        &&& self.last_most_needed == other.last_most_needed
        &&& self.current_mapping == other.current_mapping
        &&& self.bindgroups@ =~= other.bindgroups@
    }

    /// The reference table is untouched.
    pub open spec fn same_refs(&self, other: &ModelCache) -> bool {
        self.buffer_references@ == other.buffer_references@
    }

    pub fn new() -> (r: ModelCache)
        ensures
            r.wf(),
            r.buffer_references@.len() == 0,
            r.buffers@.len() == 0,
            r.buffer_memory == 0,
            r.buffer_memory_free == 0,
            r.max_memory_allowed == 0,
            r.last_most_needed == 0,
            r.current_mapping == 0,
            r.bindgroups@.len() == 0,
    {
        ModelCache {
            buffer_references: Vec::new(),
            buffers: Vec::new(),
            buffer_memory: 0,
            buffer_memory_free: 0,
            max_memory_allowed: 0,
            last_most_needed: 0,
            current_mapping: 0,
            bindgroups: Vec::new(),
        }
    }

    /// Creates a fresh logical buffer reference with one caller hold.
    pub fn create_buffer_reference(&mut self, size: u64, referenced_by_storage: bool) -> (id:
        usize)
        requires
            old(self).wf(),
            size <= MAX_BUFFER_SIZE,
        ensures
            final(self).wf(),
            id == old(self).buffer_references@.len(),
            final(self).buffer_references@ == old(self).buffer_references@.push(
                BufferReference {
                    size,
                    storage: Option::None,
                    is_referenced_by_storage: referenced_by_storage,
                    ref_count: 1,
                },
            ),
            final(self).same_pools(old(self)),
    {
        let id = self.buffer_references.len();
        self.buffer_references.push(
            BufferReference {
                size,
                storage: Option::None,
                is_referenced_by_storage: referenced_by_storage,
                ref_count: 1,
            },
        );
        id
    }

    /// Adds one hold on a reference (a caller handle cloned, or the queue
    /// taking an entry).
    pub fn retain_buffer_reference(&mut self, id: usize)
        requires
            old(self).wf(),
            id < old(self).buffer_references@.len(),
            old(self).buffer_references@[id as int].ref_count < u32::MAX,
        ensures
            final(self).wf(),
            final(self).buffer_references@ == old(self).buffer_references@.update(
                id as int,
                BufferReference {
                    ref_count: (old(self).buffer_references@[id as int].ref_count + 1) as u32,
                    ..old(self).buffer_references@[id as int]
                },
            ),
            final(self).same_pools(old(self)),
    {
        let mut e = self.buffer_references[id];
        e.ref_count = e.ref_count + 1;
        self.buffer_references[id] = e;
    }

    /// Drops one hold on a reference. When the last hold goes, the backing
    /// storage (if any) returns to the pool as free.
    pub fn release_buffer_reference(&mut self, id: usize)
        requires
            old(self).wf(),
            id < old(self).buffer_references@.len(),
            old(self).buffer_references@[id as int].ref_count >= 1,
        ensures
            final(self).wf(),
            final(self).buffer_references@.len() == old(self).buffer_references@.len(),
            forall|j: int|
                0 <= j < old(self).buffer_references@.len() && j != id ==> final(self).buffer_references@[j] == old(self).buffer_references@[j],
            final(self).buffer_references@[id as int].ref_count == old(self).buffer_references@[id as int].ref_count - 1,
            final(self).buffer_references@[id as int].size == old(self).buffer_references@[id as int].size,
            final(self).buffer_references@[id as int].is_referenced_by_storage == old(self).buffer_references@[id as int].is_referenced_by_storage,
            old(self).buffer_references@[id as int].ref_count > 1 ==> {
                &&& final(self).buffer_references@[id as int].storage == old(self).buffer_references@[id as int].storage
                &&& final(self).same_pools(old(self))
            },
            final(self).buffer_memory == old(self).buffer_memory,
            final(self).max_memory_allowed == old(self).max_memory_allowed,
            final(self).last_most_needed == old(self).last_most_needed,
            final(self).current_mapping == old(self).current_mapping,
            final(self).bindgroups@ =~= old(self).bindgroups@,
            final(self).buffers@.len() == old(self).buffers@.len(),
            old(self).buffer_references@[id as int].ref_count == 1 ==> {
                &&& final(self).buffer_references@[id as int].storage is None
                &&& match old(self).buffer_references@[id as int].storage {
                    Option::Some(s) => {
                        &&& final(self).buffers@ == old(self).buffers@.update(
                            s as int,
                            match old(self).buffers@[s as int] {
                                Option::Some(b) => Option::Some(
                                    CachedBuffer { size: b.size, is_free: true },
                                ),
                                Option::None => Option::None,
                            },
                        )
                        &&& final(self).buffer_memory == old(self).buffer_memory
                        &&& final(self).buffer_memory_free == sat_add_spec(
                            old(self).buffer_memory_free,
                            match old(self).buffers@[s as int] {
                                Option::Some(b) => b.size,
                                Option::None => 0,
                            },
                        )
                    },
                    Option::None => final(self).same_pools(old(self)),
                }
                &&& final(self).max_memory_allowed == old(self).max_memory_allowed
                &&& final(self).bindgroups@ =~= old(self).bindgroups@
            },
    {
        let mut e = self.buffer_references[id];
        if e.ref_count == 1 {
            match e.storage {
                Option::Some(s) => {
                    let b = self.buffers[s];
                    match b {
                        Option::Some(cb) => {
                            self.buffers[s] = Option::Some(
                                CachedBuffer { size: cb.size, is_free: true },
                            );
                            self.buffer_memory_free = sat_add(self.buffer_memory_free, cb.size);
                        },
                        Option::None => {
                            // excluded by well-formedness: a bound reference
                            // always points at a live pool buffer
                        },
                    }
                },
                Option::None => {},
            }
            e.storage = Option::None;
        }
        e.ref_count = e.ref_count - 1;
        self.buffer_references[id] = e;
    }

    /// First free pool buffer large enough for `size`.
    pub fn find_free_buffer(&self, size: u64) -> (r: Option<usize>)
        ensures
            match r {
                Option::Some(s) => {
                    &&& (s as int) < self.buffers@.len()
                    &&& match self.buffers@[s as int] {
                        Option::Some(b) => b.is_free && b.size >= size,
                        Option::None => false,
                    }
                },
                Option::None => forall|s: int|
                    0 <= s < self.buffers@.len() ==> match #[trigger] self.buffers@[s] {
                        Option::Some(b) => !(b.is_free && b.size >= size),
                        Option::None => true,
                    },
            },
    {
        let n = self.buffers.len();
        let mut s: usize = 0;
        while s < n
            invariant
                0 <= s <= n,
                n == self.buffers@.len(),
                forall|k: int|
                    0 <= k < s ==> match #[trigger] self.buffers@[k] {
                        Option::Some(b) => !(b.is_free && b.size >= size),
                        Option::None => true,
                    },
            decreases n - s,
        {
            match self.buffers[s] {
                Option::Some(b) => {
                    if b.is_free && b.size >= size {
                        return Option::Some(s);
                    }
                },
                Option::None => {},
            }
            s += 1;
        }
        Option::None
    }

    /// Binds an unbound reference to storage: reuses a free pool buffer of
    /// adequate size if one exists, otherwise allocates a fresh one of
    /// exactly the requested size. Returns the pool index and whether the
    /// buffer is freshly allocated.
    pub fn bind_buffer(&mut self, id: usize) -> (r: (usize, bool))
        requires
            old(self).wf(),
            id < old(self).buffer_references@.len(),
            old(self).buffer_references@[id as int].storage is None,
            old(self).buffer_references@[id as int].ref_count >= 1,
        ensures
            final(self).wf(),
            final(self).buffer_references@ == old(self).buffer_references@.update(
                id as int,
                BufferReference {
                    storage: Option::Some(r.0),
                    ..old(self).buffer_references@[id as int]
                },
            ),
            final(self).max_memory_allowed == old(self).max_memory_allowed,
            final(self).last_most_needed == old(self).last_most_needed,
            final(self).current_mapping == old(self).current_mapping,
            final(self).bindgroups@ =~= old(self).bindgroups@,
            (r.0 as int) < final(self).buffers@.len(),
            match final(self).buffers@[r.0 as int] {
                Option::Some(b) => !b.is_free && b.size >= old(self).buffer_references@[id as int].size,
                Option::None => false,
            },
            r.1 ==> {
                &&& r.0 == old(self).buffers@.len()
                &&& final(self).buffers@ == old(self).buffers@.push(
                    Option::Some(
                        CachedBuffer {
                            size: old(self).buffer_references@[id as int].size,
                            is_free: false,
                        },
                    ),
                )
                &&& final(self).buffer_memory == sat_add_spec(
                    old(self).buffer_memory,
                    old(self).buffer_references@[id as int].size,
                )
                &&& final(self).buffer_memory_free == old(self).buffer_memory_free
            },
            !r.1 ==> {
                &&& (r.0 as int) < old(self).buffers@.len()
                &&& match old(self).buffers@[r.0 as int] {
                    Option::Some(b) => {
                        &&& b.is_free
                        &&& b.size >= old(self).buffer_references@[id as int].size
                        &&& final(self).buffers@ == old(self).buffers@.update(
                            r.0 as int,
                            Option::Some(CachedBuffer { size: b.size, is_free: false }),
                        )
                        &&& final(self).buffer_memory == old(self).buffer_memory
                        &&& final(self).buffer_memory_free == sat_sub_spec(
                            old(self).buffer_memory_free,
                            b.size,
                        )
                    },
                    Option::None => false,
                }
            },
    {
        let size = self.buffer_references[id].size;
        match self.find_free_buffer(size) {
            Option::Some(s) => {
                let b = self.buffers[s];
                match b {
                    Option::Some(cb) => {
                        self.buffers[s] = Option::Some(
                            CachedBuffer { size: cb.size, is_free: false },
                        );
                        self.buffer_memory_free = sat_sub(self.buffer_memory_free, cb.size);
                        let mut e = self.buffer_references[id];
                        e.storage = Option::Some(s);
                        self.buffer_references[id] = e;
                        (s, false)
                    },
                    Option::None => {
                        // excluded by find_free_buffer's contract
                        (0, false)
                    },
                }
            },
            Option::None => {
                let s = self.buffers.len();
                self.buffers.push(Option::Some(CachedBuffer { size, is_free: false }));
                self.buffer_memory = sat_add(self.buffer_memory, size);
                let mut e = self.buffer_references[id];
                e.storage = Option::Some(s);
                self.buffer_references[id] = e;
                (s, true)
            },
        }
    }

    /// Drops free pool buffers, oldest first, while the pool is over the
    /// budget. Returns true when the budget is still exceeded afterwards
    /// (nothing more was free): the cache limit is hit.
    pub fn remove_unused(&mut self) -> (limit_hit: bool)
        requires
            old(self).wf(),
        ensures
            final(self).wf(),
            final(self).same_refs(old(self)),
            limit_hit == (final(self).buffer_memory > final(self).max_memory_allowed),
            final(self).buffers@.len() == old(self).buffers@.len(),
            forall|s: int|
                0 <= s < old(self).buffers@.len() ==> (final(self).buffers@[s] == old(self).buffers@[s] || (final(self).buffers@[s] is None && match old(self).buffers@[s] {
                    Option::Some(b) => b.is_free,
                    Option::None => true,
                })),
            final(self).max_memory_allowed == old(self).max_memory_allowed,
            final(self).last_most_needed == old(self).last_most_needed,
            final(self).current_mapping == old(self).current_mapping,
            final(self).bindgroups@ =~= old(self).bindgroups@,
            final(self).buffer_memory <= old(self).buffer_memory,
            limit_hit ==> forall|s: int|
                0 <= s < final(self).buffers@.len() ==> !(match #[trigger] final(self).buffers@[s] {
                    Option::Some(b) => b.is_free,
                    Option::None => false,
                }),
    {
        let n = self.buffers.len();
        let mut s: usize = 0;
        while s < n && self.buffer_memory > self.max_memory_allowed
            invariant
                0 <= s <= n,
                n == self.buffers@.len(),
                self.wf(),
                self.same_refs(old(self)),
                self.buffers@.len() == old(self).buffers@.len(),
                forall|k: int|
                    0 <= k < n ==> (self.buffers@[k] == old(self).buffers@[k] || (
                    self.buffers@[k] is None && match old(self).buffers@[k] {
                        Option::Some(b) => b.is_free,
                        Option::None => true,
                    })),
                self.max_memory_allowed == old(self).max_memory_allowed,
                self.last_most_needed == old(self).last_most_needed,
                self.current_mapping == old(self).current_mapping,
                self.bindgroups@ =~= old(self).bindgroups@,
                self.buffer_memory <= old(self).buffer_memory,
                self.buffer_memory > self.max_memory_allowed ==> forall|k: int|
                    0 <= k < s ==> !(match #[trigger] self.buffers@[k] {
                        Option::Some(b) => b.is_free,
                        Option::None => false,
                    }),
            decreases n - s,
        {
            let ghost pre = *self;
            match self.buffers[s] {
                Option::Some(b) => {
                    if b.is_free {
                        self.buffers[s] = Option::None;
                        self.buffer_memory = sat_sub(self.buffer_memory, b.size);
                        self.buffer_memory_free = sat_sub(self.buffer_memory_free, b.size);
                        proof {
                            assert forall|i: int| 0 <= i < self.n_refs() implies ref_ok_at(
                                #[trigger] self.buffer_references@[i],
                                self.buffers@,
                            ) by {
                                assert(ref_ok_at(pre.buffer_references@[i], pre.buffers@));
                            }
                        }
                    }
                },
                Option::None => {},
            }
            s += 1;
        }
        self.buffer_memory > self.max_memory_allowed
    }

    /// Looks a bind group up in the cache by pipeline and bound buffers.
    pub fn lookup_bindgroup(&self, pipeline: &PipelineType, bg: &CachedBindgroupBuffers) -> (r:
        Option<usize>)
        ensures
            match r {
                Option::Some(k) => {
                    &&& (k as int) < self.bindgroups@.len()
                    &&& self.bindgroups@[k as int].pipeline == *pipeline
                    &&& self.bindgroups@[k as int].buffers.dest == bg.dest
                    &&& self.bindgroups@[k as int].buffers.inputs@ == bg.inputs@
                    &&& self.bindgroups@[k as int].buffers.min_binding_16 == bg.min_binding_16
                },
                Option::None => forall|k: int|
                    0 <= k < self.bindgroups@.len() ==> !((#[trigger] self.bindgroups@[k]).pipeline
                        == *pipeline && self.bindgroups@[k].buffers.dest == bg.dest
                        && self.bindgroups@[k].buffers.inputs@ == bg.inputs@
                        && self.bindgroups@[k].buffers.min_binding_16 == bg.min_binding_16),
            },
    {
        let n = self.bindgroups.len();
        let mut k: usize = 0;
        while k < n
            invariant
                0 <= k <= n,
                n == self.bindgroups@.len(),
                forall|j: int|
                    0 <= j < k ==> !((#[trigger] self.bindgroups@[j]).pipeline == *pipeline
                        && self.bindgroups@[j].buffers.dest == bg.dest
                        && self.bindgroups@[j].buffers.inputs@ == bg.inputs@
                        && self.bindgroups@[j].buffers.min_binding_16 == bg.min_binding_16),
            decreases n - k,
        {
            let entry = &self.bindgroups[k];
            if entry.pipeline == *pipeline {
                if cached_bindgroups_equal(&entry.buffers, bg) {
                    return Option::Some(k);
                }
            }
            k += 1;
        }
        Option::None
    }

    /// Stores a freshly created bind group in the cache.
    pub fn insert_bindgroup(&mut self, pipeline: PipelineType, bg: CachedBindgroupBuffers) -> (k:
        usize)
        requires
            old(self).wf(),
        ensures
            final(self).wf(),
            final(self).same_refs(old(self)),
            k == old(self).bindgroups@.len(),
            final(self).bindgroups@.len() == old(self).bindgroups@.len() + 1,
            forall|j: int|
                0 <= j < old(self).bindgroups@.len() ==> #[trigger] final(self).bindgroups@[j]
                    == old(self).bindgroups@[j],
            final(self).bindgroups@[k as int].pipeline == pipeline,
            final(self).bindgroups@[k as int].buffers.dest == bg.dest,
            final(self).bindgroups@[k as int].buffers.inputs@ == bg.inputs@,
            final(self).bindgroups@[k as int].buffers.min_binding_16 == bg.min_binding_16,
            final(self).buffers@ == old(self).buffers@,
            final(self).buffer_memory == old(self).buffer_memory,
            final(self).buffer_memory_free == old(self).buffer_memory_free,
            final(self).max_memory_allowed == old(self).max_memory_allowed,
            final(self).last_most_needed == old(self).last_most_needed,
            final(self).current_mapping == old(self).current_mapping,
    {
        let k = self.bindgroups.len();
        self.bindgroups.push(CachedBindgroupEntry { pipeline, buffers: bg });
        k
    }

    /// Records the buffer-mapping signature of the flush being prepared.
    pub fn set_current_buffer_mapping(&mut self, signature: u64)
        requires
            old(self).wf(),
        ensures
            final(self).wf(),
            final(self).same_refs(old(self)),
            final(self).current_mapping == signature,
            final(self).buffers@ == old(self).buffers@,
            final(self).buffer_memory == old(self).buffer_memory,
            final(self).buffer_memory_free == old(self).buffer_memory_free,
            final(self).max_memory_allowed == old(self).max_memory_allowed,
            final(self).last_most_needed == old(self).last_most_needed,
            final(self).bindgroups@ =~= old(self).bindgroups@,
    {
        self.current_mapping = signature;
    }

    /// Closes the mapping of the finished flush.
    pub fn mappings_finish(&mut self)
        requires
            old(self).wf(),
        ensures
            final(self).wf(),
            final(self).same_refs(old(self)),
            final(self).current_mapping == 0,
            final(self).buffers@ == old(self).buffers@,
            final(self).buffer_memory == old(self).buffer_memory,
            final(self).buffer_memory_free == old(self).buffer_memory_free,
            final(self).max_memory_allowed == old(self).max_memory_allowed,
            final(self).last_most_needed == old(self).last_most_needed,
            final(self).bindgroups@ =~= old(self).bindgroups@,
    {
        self.current_mapping = 0;
    }
}

/// The watermark expanded by its 25% headroom, saturating.
pub open spec fn expand_headroom_spec(m: u64) -> u64 {
    if (m * 5) / 4 <= u64::MAX {
        ((m * 5) / 4) as u64
    } else {
        u64::MAX
    }
}

impl ModelCache {
    /// Applies the memory-budget update of a flush preparation: the
    /// watermark is expanded by 25% headroom; the budget rises to it at
    /// once but decays toward it only by an eighth per flush.
    pub fn update_max_memory(&mut self, most_needed: u64)
        requires
            old(self).wf(),
        ensures
            final(self).wf(),
            final(self).same_refs(old(self)),
            final(self).buffers@ == old(self).buffers@,
            final(self).buffer_memory == old(self).buffer_memory,
            final(self).buffer_memory_free == old(self).buffer_memory_free,
            final(self).current_mapping == old(self).current_mapping,
            final(self).bindgroups@ =~= old(self).bindgroups@,
            final(self).last_most_needed == expand_headroom_spec(most_needed),
            final(self).max_memory_allowed == (if expand_headroom_spec(most_needed) > old(self).max_memory_allowed {
                expand_headroom_spec(most_needed)
            } else {
                ((7 * old(self).max_memory_allowed as int) / 8 + expand_headroom_spec(most_needed)
                    / 8) as u64
            }),
    {
        let e128 = (most_needed as u128) * 5 / 4;
        let expanded: u64 = if e128 > u64::MAX as u128 {
            u64::MAX
        } else {
            e128 as u64
        };
        self.last_most_needed = expanded;
        if expanded > self.max_memory_allowed {
            self.max_memory_allowed = expanded;
        } else {
            let m = self.max_memory_allowed as u128;
            let next = 7 * m / 8 + (expanded as u128) / 8;
            proof {
                let mi = self.max_memory_allowed as int;
                let ei = expanded as int;
                vstd::arithmetic::div_mod::lemma_fundamental_div_mod(7 * mi, 8);
                vstd::arithmetic::div_mod::lemma_fundamental_div_mod(ei, 8);
                assert((7 * mi) / 8 + ei / 8 <= mi);
            }
            self.max_memory_allowed = next as u64;
        }
    }

    /// Moves the storage of `v1` onto `vdest`: the in-place aliasing step.
    /// No pool buffer is touched and no byte is allocated.
    pub fn transfer_storage(&mut self, vdest: usize, v1: usize)
        requires
            old(self).wf(),
            vdest < old(self).buffer_references@.len(),
            v1 < old(self).buffer_references@.len(),
            vdest != v1,
            old(self).buffer_references@[vdest as int].storage is None,
            old(self).buffer_references@[vdest as int].ref_count >= 1,
            old(self).buffer_references@[vdest as int].size <= old(self).buffer_references@[v1 as int].size,
        ensures
            final(self).wf(),
            final(self).same_pools(old(self)),
            final(self).buffer_references@ == old(self).buffer_references@.update(
                vdest as int,
                BufferReference {
                    storage: old(self).buffer_references@[v1 as int].storage,
                    ..old(self).buffer_references@[vdest as int]
                },
            ).update(
                v1 as int,
                BufferReference {
                    storage: Option::None,
                    ..old(self).buffer_references@[v1 as int]
                },
            ),
    {
        let src = self.buffer_references[v1];
        let mut d = self.buffer_references[vdest];
        d.storage = src.storage;
        self.buffer_references[vdest] = d;
        let mut sref = self.buffer_references[v1];
        sref.storage = Option::None;
        self.buffer_references[v1] = sref;
        proof {
            assert forall|i: int, j: int|
                0 <= i < self.n_refs() && 0 <= j < self.n_refs() && i != j && (#[trigger] self
                    .buffer_references@[i]).storage is Some implies self
                .buffer_references@[i].storage != (#[trigger] self.buffer_references@[j]).storage
                by {
                if i == vdest as int {
                    assert(old(self).buffer_references@[v1 as int].storage is Some ==> old(self).buffer_references@[v1 as int].storage != old(self).buffer_references@[j].storage || j == v1);
                } else if j == vdest as int {
                    assert(old(self).buffer_references@[i].storage != old(self).buffer_references@[v1 as int].storage || i == v1);
                }
            }
        }
    }

    /// Drops one queue hold on every reference a bind group named; storage
    /// whose last hold goes returns to the pool.
    pub fn release_members(&mut self, members: &Vec<usize>)
        requires
            old(self).wf(),
            forall|k: int|
                0 <= k < members@.len() ==> (#[trigger] members@[k] as int) < old(self).n_refs(),
        ensures
            final(self).wf(),
            final(self).buffer_references@.len() == old(self).buffer_references@.len(),
            final(self).buffers@.len() == old(self).buffers@.len(),
            final(self).buffer_memory == old(self).buffer_memory,
            final(self).max_memory_allowed == old(self).max_memory_allowed,
            final(self).last_most_needed == old(self).last_most_needed,
            final(self).current_mapping == old(self).current_mapping,
            final(self).bindgroups@ =~= old(self).bindgroups@,
            forall|j: int|
                0 <= j < old(self).n_refs() ==> {
                    &&& (#[trigger] final(self).buffer_references@[j]).size == old(self).buffer_references@[j].size
                    &&& final(self).buffer_references@[j].is_referenced_by_storage == old(self).buffer_references@[j].is_referenced_by_storage
                    &&& final(self).buffer_references@[j].ref_count <= old(self).buffer_references@[j].ref_count
                    &&& (final(self).buffer_references@[j].storage == old(self).buffer_references@[j].storage
                        || final(self).buffer_references@[j].storage is None)
                    &&& (final(self).buffer_references@[j].ref_count >= 1
                        ==> final(self).buffer_references@[j].storage == old(self).buffer_references@[j].storage)
                },
            forall|id: usize|
                (id as int) < old(self).n_refs() ==> (#[trigger] final(self).buffer_references@[id as int]).ref_count
                    == released_count(
                    old(self).buffer_references@[id as int].ref_count,
                    crate::queue::occ(members@, id),
                ),
    {
        let n = members.len();
        let mut k: usize = 0;
        while k < n
            invariant
                0 <= k <= n,
                n == members@.len(),
                self.wf(),
                self.buffer_references@.len() == old(self).buffer_references@.len(),
                self.buffers@.len() == old(self).buffers@.len(),
                self.buffer_memory == old(self).buffer_memory,
                self.max_memory_allowed == old(self).max_memory_allowed,
                self.last_most_needed == old(self).last_most_needed,
                self.current_mapping == old(self).current_mapping,
                self.bindgroups@ =~= old(self).bindgroups@,
                forall|j: int|
                    0 <= j < members@.len() ==> (#[trigger] members@[j] as int) < old(self).n_refs(),
                forall|j: int|
                    0 <= j < old(self).n_refs() ==> {
                        &&& (#[trigger] self.buffer_references@[j]).size == old(self).buffer_references@[j].size
                        &&& self.buffer_references@[j].is_referenced_by_storage == old(self).buffer_references@[j].is_referenced_by_storage
                        &&& self.buffer_references@[j].ref_count <= old(self).buffer_references@[j].ref_count
                        &&& (self.buffer_references@[j].storage == old(self).buffer_references@[j].storage
                            || self.buffer_references@[j].storage is None)
                        &&& (self.buffer_references@[j].ref_count >= 1
                            ==> self.buffer_references@[j].storage == old(self).buffer_references@[j].storage)
                    },
                forall|id: usize|
                    (id as int) < old(self).n_refs() ==> (#[trigger] self.buffer_references@[id as int]).ref_count
                        == released_count(
                        old(self).buffer_references@[id as int].ref_count,
                        crate::queue::occ(members@.take(k as int), id),
                    ),
            decreases n - k,
        {
            let id = members[k];
            let ghost pre = *self;
            if self.buffer_references[id].ref_count >= 1 {
                self.release_buffer_reference(id);
            }
            proof {
                assert forall|i: usize|
                    (i as int) < old(self).n_refs() implies (#[trigger] self.buffer_references@[i as int]).ref_count
                    == released_count(
                    old(self).buffer_references@[i as int].ref_count,
                    crate::queue::occ(members@.take(k as int + 1), i),
                ) by {
                    crate::queue::lemma_occ_take_succ(members@, k as int, i);
                    assert(pre.buffer_references@[i as int].ref_count == released_count(
                        old(self).buffer_references@[i as int].ref_count,
                        crate::queue::occ(members@.take(k as int), i),
                    ));
                    if i != id {
                        assert(self.buffer_references@[i as int] == pre.buffer_references@[i as int]);
                    }
                }
            }
            k += 1;
        }
        proof {
            assert(members@.take(n as int) =~= members@);
        }
    }

    /// Drops cached bind groups that refer to a pool buffer that no longer
    /// exists or sits free: their bindings cannot be replayed.
    pub fn remove_unused_bindgroups(&mut self)
        requires
            old(self).wf(),
        ensures
            final(self).wf(),
            final(self).same_refs(old(self)),
            final(self).buffers@ == old(self).buffers@,
            final(self).buffer_memory == old(self).buffer_memory,
            final(self).buffer_memory_free == old(self).buffer_memory_free,
            final(self).max_memory_allowed == old(self).max_memory_allowed,
            final(self).last_most_needed == old(self).last_most_needed,
            final(self).current_mapping == old(self).current_mapping,
            final(self).bindgroups@.len() <= old(self).bindgroups@.len(),
            forall|k: int|
                0 <= k < final(self).bindgroups@.len() ==> bindgroup_entry_live(
                    #[trigger] final(self).bindgroups@[k],
                    final(self).buffers@,
                ),
    {
        let ghost pre = *self;
        let mut kept: Vec<CachedBindgroupEntry> = Vec::new();
        while self.bindgroups.len() > 0
            invariant
                self.wf(),
                self.same_refs(&pre),
                self.buffers@ == pre.buffers@,
                self.buffer_memory == pre.buffer_memory,
                self.buffer_memory_free == pre.buffer_memory_free,
                self.max_memory_allowed == pre.max_memory_allowed,
                self.last_most_needed == pre.last_most_needed,
                self.current_mapping == pre.current_mapping,
                self.bindgroups@.len() + kept@.len() <= pre.bindgroups@.len(),
                forall|k: int|
                    0 <= k < kept@.len() ==> bindgroup_entry_live(
                        #[trigger] kept@[k],
                        self.buffers@,
                    ),
            decreases self.bindgroups@.len(),
        {
            let entry_opt = self.bindgroups.pop();
            match entry_opt {
                Option::Some(entry) => {
                    let mut ok = self.buffer_alive(entry.buffers.dest);
                    let mut j: usize = 0;
                    while j < entry.buffers.inputs.len()
                        invariant
                            0 <= j <= entry.buffers.inputs@.len(),
                            ok ==> buffer_live_at(entry.buffers.dest, self.buffers@) && forall|
                                i: int,
                            |
                                0 <= i < j ==> buffer_live_at(
                                    #[trigger] entry.buffers.inputs@[i],
                                    self.buffers@,
                                ),
                        decreases entry.buffers.inputs@.len() - j,
                    {
                        if !self.buffer_alive(entry.buffers.inputs[j]) {
                            ok = false;
                        }
                        j += 1;
                    }
                    if ok {
                        kept.push(entry);
                    }
                },
                Option::None => {},
            }
        }
        self.bindgroups.append(&mut kept);
    }

    /// Whether a pool slot still holds a live, in-use buffer.
    pub fn buffer_alive(&self, s: usize) -> (r: bool)
        ensures
            r == ((s as int) < self.buffers@.len() && match self.buffers@[s as int] {
                Option::Some(b) => !b.is_free,
                Option::None => false,
            }),
    {
        if s < self.buffers.len() {
            match self.buffers[s] {
                Option::Some(b) => !b.is_free,
                Option::None => false,
            }
        } else {
            false
        }
    }
}

impl ModelCache {
    /// Adds one hold per occurrence on every reference a bind group names,
    /// saturating at the counter's ceiling.
    pub fn retain_members_clamped(&mut self, members: &Vec<usize>)
        requires
            old(self).wf(),
            forall|k: int|
                0 <= k < members@.len() ==> (#[trigger] members@[k] as int) < old(self).n_refs(),
        ensures
            final(self).wf(),
            final(self).same_pools(old(self)),
            final(self).buffer_references@.len() == old(self).buffer_references@.len(),
            forall|j: int|
                0 <= j < old(self).n_refs() ==> {
                    &&& (#[trigger] final(self).buffer_references@[j]).size == old(self).buffer_references@[j].size
                    &&& final(self).buffer_references@[j].storage == old(self).buffer_references@[j].storage
                    &&& final(self).buffer_references@[j].is_referenced_by_storage == old(self).buffer_references@[j].is_referenced_by_storage
                    &&& final(self).buffer_references@[j].ref_count >= old(self).buffer_references@[j].ref_count
                },
            forall|k: int|
                0 <= k < members@.len() ==> final(self).buffer_references@[#[trigger] members@[k] as int].ref_count >= 1,
    {
        let n = members.len();
        let mut k: usize = 0;
        while k < n
            invariant
                0 <= k <= n,
                n == members@.len(),
                self.wf(),
                self.same_pools(old(self)),
                self.buffer_references@.len() == old(self).buffer_references@.len(),
                forall|j: int|
                    0 <= j < members@.len() ==> (#[trigger] members@[j] as int) < old(self).n_refs(),
                forall|j: int|
                    0 <= j < old(self).n_refs() ==> {
                        &&& (#[trigger] self.buffer_references@[j]).size == old(self).buffer_references@[j].size
                        &&& self.buffer_references@[j].storage == old(self).buffer_references@[j].storage
                        &&& self.buffer_references@[j].is_referenced_by_storage == old(self).buffer_references@[j].is_referenced_by_storage
                        &&& self.buffer_references@[j].ref_count >= old(self).buffer_references@[j].ref_count
                    },
                forall|j: int|
                    0 <= j < k ==> self.buffer_references@[#[trigger] members@[j] as int].ref_count
                        >= 1,
            decreases n - k,
        {
            let id = members[k];
            let mut e = self.buffer_references[id];
            if e.ref_count < u32::MAX {
                e.ref_count = e.ref_count + 1;
                self.buffer_references[id] = e;
            }
            k += 1;
        }
    }
}

} // verus!
