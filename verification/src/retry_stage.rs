//! Retry stage: pure liveness recovery. Slices stuck in `Requested`
//! longer than the stall timeout are returned to `Empty` so they can be
//! requested again; the slow peer is not penalized, since only
//! demonstrably invalid data triggers penalization.

use vstd::prelude::*;
use crate::header_slices::{HeaderSlice, HeaderSlices, SliceStatus};

verus! {

/// Whether a slice's request has been outstanding for at least
/// `stall_timeout` ticks at tick `now`.
pub open spec fn stalled(s: HeaderSlice, now: u64, stall_timeout: u64) -> bool {
    s.status == SliceStatus::Requested && s.request_time + stall_timeout <= now
}

/// How one slice relates to its old self after the stage ran over it:
/// reset to `Empty` and cleared when it was stalled, untouched otherwise.
pub open spec fn retried_slice(
    old_s: HeaderSlice,
    new_s: HeaderSlice,
    now: u64,
    stall_timeout: u64,
) -> bool {
    if stalled(old_s, now, stall_timeout) {
        &&& new_s.status == SliceStatus::Empty
        &&& new_s.headers@.len() == 0
        &&& new_s.from_peer is None
        &&& new_s.start_block_num == old_s.start_block_num
    } else {
        new_s == old_s
    }
}

/// Resets slice `i` when it is stalled at tick `now`, else leaves it be.
#[verifier::rlimit(100)]
#[verifier::spinoff_prover]
fn retry_one(w: &mut HeaderSlices, i: usize, now: u64, stall_timeout: u64)
    requires
        old(w).wf(),
        (i as int) < old(w).n(),
    ensures
        final(w).wf(),
        final(w).same_shape(*old(w)),
        final(w).low_block_num == old(w).low_block_num,
        final(w).low_anchor_hash == old(w).low_anchor_hash,
        final(w).saved_slices == old(w).saved_slices,
        final(w).saved_history@ == old(w).saved_history@,
        retried_slice(old(w).slices@[i as int], final(w).slices@[i as int], now, stall_timeout),
        forall|j: int|
            0 <= j < old(w).n() && j != i as int ==> final(w).slices@[j] == old(w).slices@[j],
{
    let is_stalled = w.slices[i].status == SliceStatus::Requested && now
        >= w.slices[i].request_time && now - w.slices[i].request_time >= stall_timeout;
    if is_stalled {
        w.reset_to_empty(i);
    }
}

/// One iteration of the stage: every slice stalled in `Requested` at tick
/// `now` is reset to `Empty` within this single call, whatever the peer
/// does; all other slices are untouched.
#[verifier::rlimit(100)]
#[verifier::spinoff_prover]
pub fn retry_stalled(w: &mut HeaderSlices, now: u64, stall_timeout: u64)
    requires
        old(w).wf(),
    ensures
        final(w).wf(),
        final(w).same_shape(*old(w)),
        final(w).low_block_num == old(w).low_block_num,
        final(w).low_anchor_hash == old(w).low_anchor_hash,
        final(w).saved_slices == old(w).saved_slices,
        final(w).saved_history@ == old(w).saved_history@,
        forall|i: int|
            0 <= i < old(w).n() ==> #[trigger] retried_slice(
                old(w).slices@[i],
                final(w).slices@[i],
                now,
                stall_timeout,
            ),
{
    let ghost pre = *w;
    let n = w.slices.len();
    let mut i: usize = 0;
    while i < n
        invariant
            pre == *old(w),
            w.wf(),
            w.same_shape(pre),
            n == pre.n(),
            i <= n,
            w.low_block_num == pre.low_block_num,
            w.low_anchor_hash == pre.low_anchor_hash,
            w.saved_slices == pre.saved_slices,
            w.saved_history@ == pre.saved_history@,
            forall|j: int|
                0 <= j < i as int ==> #[trigger] retried_slice(
                    pre.slices@[j],
                    w.slices@[j],
                    now,
                    stall_timeout,
                ),
            forall|j: int| i as int <= j < n as int ==> w.slices@[j] == pre.slices@[j],
        decreases n - i,
    {
        let ghost mid = *w;
        retry_one(w, i, now, stall_timeout);
        proof {
            assert(retried_slice(pre.slices@[i as int], w.slices@[i as int], now, stall_timeout));
            assert forall|j: int|
                0 <= j < i as int implies #[trigger] retried_slice(
                pre.slices@[j],
                w.slices@[j],
                now,
                stall_timeout,
            ) by {
                assert(w.slices@[j] == mid.slices@[j]);
                assert(retried_slice(pre.slices@[j], mid.slices@[j], now, stall_timeout));
            }
        }
        i = i + 1;
    }
}

} // verus!
