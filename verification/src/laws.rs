//! The library's global guarantees, stated on their own so a reader finds
//! them in one place. Each follows from the well-formedness the queue and
//! planner maintain, and from the contracts of the flush planner.

use vstd::prelude::*;

verus! {

use crate::MAX_DISPATCH_SIZE;
use crate::cache::expand_headroom_spec;
use crate::queue::{WgpuDevice, align_words, device_wf, disp, dispatch_wf};

/// Metadata alignment: every recorded dispatch starts at a multiple of
/// `min_storage_buffer_offset_alignment / 4` words in the metadata array.
pub proof fn lemma_meta_alignment(dev: WgpuDevice)
    requires
        device_wf(dev),
    ensures
        forall|i: int|
            0 <= i < dev.command_queue.command_queue@.len() ==> disp(
                #[trigger] dev.command_queue.command_queue@[i],
            ).meta % align_words(dev.device_limits) == 0,
{
    assert forall|i: int|
        0 <= i < dev.command_queue.command_queue@.len() implies disp(
        #[trigger] dev.command_queue.command_queue@[i],
    ).meta % align_words(dev.device_limits) == 0 by {
        assert(dispatch_wf(
            disp(dev.command_queue.command_queue@[i]),
            align_words(dev.device_limits),
            dev.cache.n_refs(),
            dev.command_queue.id_to_const_array@.len() as int,
        ));
    }
}

/// Dispatch extents: every recorded dispatch keeps each workgroup extent
/// within the per-dimension device limit.
pub proof fn lemma_dispatch_extents(dev: WgpuDevice)
    requires
        device_wf(dev),
    ensures
        forall|i: int|
            0 <= i < dev.command_queue.command_queue@.len() ==> {
                let d = disp(#[trigger] dev.command_queue.command_queue@[i]);
                &&& d.x <= MAX_DISPATCH_SIZE
                &&& d.y <= MAX_DISPATCH_SIZE
                &&& d.z <= MAX_DISPATCH_SIZE
            },
{
    assert forall|i: int|
        0 <= i < dev.command_queue.command_queue@.len() implies {
        let d = disp(#[trigger] dev.command_queue.command_queue@[i]);
        &&& d.x <= MAX_DISPATCH_SIZE
        &&& d.y <= MAX_DISPATCH_SIZE
        &&& d.z <= MAX_DISPATCH_SIZE
    } by {
        assert(dispatch_wf(
            disp(dev.command_queue.command_queue@[i]),
            align_words(dev.device_limits),
            dev.cache.n_refs(),
            dev.command_queue.id_to_const_array@.len() as int,
        ));
    }
}

/// Memory-budget recovery: one budget update never raises the budget
/// beyond the larger of its old value and the expanded watermark, and a
/// budget already at or under the expanded watermark stays there. So over
/// repeated flushes of the same workload the budget converges down to
/// `1.25 x most_needed_storage` and never escapes it again.
pub proof fn lemma_budget_recovery(old_max: u64, most_needed: u64)
    ensures
        budget_step(old_max, most_needed) <= if old_max > expand_headroom_spec(most_needed) {
            old_max
        } else {
            expand_headroom_spec(most_needed)
        },
        old_max <= expand_headroom_spec(most_needed) ==> budget_step(old_max, most_needed)
            <= expand_headroom_spec(most_needed),
        budget_step(old_max, most_needed) >= expand_headroom_spec(most_needed) / 8,
{
    let e = expand_headroom_spec(most_needed);
    if e > old_max {
    } else {
        vstd::arithmetic::div_mod::lemma_fundamental_div_mod(7 * old_max as int, 8);
        vstd::arithmetic::div_mod::lemma_fundamental_div_mod(e as int, 8);
    }
}

/// The budget after one update, exactly as `update_max_memory` computes
/// it: an immediate raise to the expanded watermark, or an eighth-step
/// decay toward it.
pub open spec fn budget_step(old_max: u64, most_needed: u64) -> int {
    let e = expand_headroom_spec(most_needed);
    if e > old_max {
        e as int
    } else {
        (7 * old_max as int) / 8 + e as int / 8
    }
}

} // verus!
