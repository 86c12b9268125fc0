//! Fetch-request stage: selects slices awaiting download, claims them,
//! and emits the network fetch requests the peer layer should dispatch.
//! A dispatch error is the caller's to report; recovery belongs to the
//! retry stage.

use vstd::prelude::*;
use crate::models::BlockNumber;
use crate::header_slices::{HeaderSlice, HeaderSlices, SliceStatus};

verus! {

/// A fetch request for one slice's block range.
#[derive(Clone, Copy, PartialEq, Eq, Structural, Debug)]
pub struct FetchRequest {
    /// Index of the claimed slice inside the window.
    pub slice_index: usize,
    /// First block number of the requested range.
    pub start_block_num: BlockNumber,
    /// Number of consecutive headers requested.
    pub block_count: usize,
}

/// How one slice relates to its old self after the stage ran: untouched,
/// or claimed from `Empty` into `Requested` at tick `now`.
pub open spec fn requested_slice(old_s: HeaderSlice, new_s: HeaderSlice, now: u64) -> bool {
    new_s == old_s || ({
        &&& old_s.status == SliceStatus::Empty
        &&& new_s.status == SliceStatus::Requested
        &&& new_s.request_time == now
        &&& new_s.start_block_num == old_s.start_block_num
        &&& new_s.headers@.len() == 0
        &&& new_s.from_peer is None
    })
}

/// What one emitted request means: its slice was `Empty` before the
/// stage ran and is `Requested` at tick `now` after it, and the request
/// covers exactly that slice's range.
pub open spec fn request_entry_ok(
    pre: HeaderSlices,
    cur: HeaderSlices,
    r: FetchRequest,
    now: u64,
) -> bool {
    &&& 0 <= (r.slice_index as int) < pre.n()
    &&& pre.request_claimable(r.slice_index as int)
    &&& cur.slices@[r.slice_index as int].status == SliceStatus::Requested
    &&& cur.slices@[r.slice_index as int].request_time == now
    &&& r.start_block_num == pre.slices@[r.slice_index as int].start_block_num
    &&& r.block_count == pre.slice_size
}

/// One iteration of the stage: claims `Empty` slices in window order,
/// bounded by the outstanding-request budget, moving each to `Requested`
/// at tick `now`, and returns the requests to hand to the peer layer.
/// When fewer requests than the budget come back, no `Empty` slice is
/// left; the stage then suspends until the window changes.
#[verifier::rlimit(100)]
#[verifier::spinoff_prover]
pub fn request_slices(w: &mut HeaderSlices, now: u64, max_requests: usize) -> (reqs: Vec<
    FetchRequest,
>)
    requires
        old(w).wf(),
    ensures
        final(w).wf(),
        final(w).same_shape(*old(w)),
        final(w).low_block_num == old(w).low_block_num,
        final(w).low_anchor_hash == old(w).low_anchor_hash,
        final(w).saved_slices == old(w).saved_slices,
        final(w).saved_history@ == old(w).saved_history@,
        reqs@.len() <= max_requests,
        forall|i: int|
            0 <= i < old(w).n() ==> #[trigger] requested_slice(
                old(w).slices@[i],
                final(w).slices@[i],
                now,
            ),
        forall|k: int|
            0 <= k < reqs@.len() ==> #[trigger] request_entry_ok(
                *old(w),
                *final(w),
                reqs@[k],
                now,
            ),
        forall|i: int|
            0 <= i < old(w).n() && old(w).request_claimable(i)
                && (#[trigger] final(w).slices@[i]).status == SliceStatus::Requested
                ==> (exists|k: int|
                0 <= k < reqs@.len() && (#[trigger] reqs@[k]).slice_index == i),
        forall|k1: int, k2: int|
            0 <= k1 < k2 < reqs@.len() ==> (#[trigger] reqs@[k1]).slice_index != (
            #[trigger] reqs@[k2]).slice_index,
        reqs@.len() < max_requests ==> (forall|i: int| !final(w).request_claimable(i)),
{
    let ghost pre = *w;
    let mut reqs: Vec<FetchRequest> = Vec::new();
    loop
        invariant
            pre == *old(w),
            w.wf(),
            w.same_shape(pre),
            w.low_block_num == pre.low_block_num,
            w.low_anchor_hash == pre.low_anchor_hash,
            w.saved_slices == pre.saved_slices,
            w.saved_history@ == pre.saved_history@,
            reqs@.len() <= max_requests,
            forall|i: int|
                0 <= i < pre.n() ==> #[trigger] requested_slice(
                    pre.slices@[i],
                    w.slices@[i],
                    now,
                ),
            forall|k: int|
                0 <= k < reqs@.len() ==> #[trigger] request_entry_ok(pre, *w, reqs@[k], now),
            forall|i: int|
                0 <= i < pre.n() && pre.request_claimable(i) && (#[trigger] w.slices@[i]).status
                    == SliceStatus::Requested ==> (exists|k: int|
                    0 <= k < reqs@.len() && (#[trigger] reqs@[k]).slice_index == i),
            forall|k1: int, k2: int|
                0 <= k1 < k2 < reqs@.len() ==> (#[trigger] reqs@[k1]).slice_index != (
                #[trigger] reqs@[k2]).slice_index,
        decreases max_requests - reqs.len(),
    {
        if reqs.len() >= max_requests {
            return reqs;
        }
        let ghost mid = *w;
        let ghost reqs_pre = reqs@;
        match w.try_claim_for_request(now) {
            None => {
                return reqs;
            },
            Some(i) => {
                let start = slice_start_at(w, i);
                reqs.push(
                    FetchRequest {
                        slice_index: i,
                        start_block_num: start,
                        block_count: w.slice_size,
                    },
                );
                proof {
                    assert(mid.slices@[i as int].status == SliceStatus::Empty);
                    assert(requested_slice(pre.slices@[i as int], mid.slices@[i as int], now));
                    assert(pre.slices@[i as int].status == SliceStatus::Empty);
                    assert forall|j: int|
                        0 <= j < pre.n() implies #[trigger] requested_slice(
                        pre.slices@[j],
                        w.slices@[j],
                        now,
                    ) by {
                        assert(requested_slice(pre.slices@[j], mid.slices@[j], now));
                        if j != i as int {
                            assert(w.slices@[j] == mid.slices@[j]);
                        }
                    }
                    assert forall|i2: int|
                        0 <= i2 < pre.n() && pre.request_claimable(i2) && (#[trigger] w.slices@[
                        i2]).status == SliceStatus::Requested implies (exists|k: int|
                        0 <= k < reqs@.len() && (#[trigger] reqs@[k]).slice_index == i2) by {
                        if i2 == i as int {
                            assert(reqs@[reqs@.len() - 1].slice_index == i2);
                        } else {
                            assert(w.slices@[i2] == mid.slices@[i2]);
                            assert(mid.slices@[i2].status == SliceStatus::Requested);
                            let k0 = choose|k: int|
                                0 <= k < reqs_pre.len() && (#[trigger] reqs_pre[k]).slice_index
                                    == i2;
                            assert(reqs@[k0] == reqs_pre[k0]);
                            assert(reqs@[k0].slice_index == i2);
                        }
                    }
                    assert forall|k1: int, k2: int|
                        0 <= k1 < k2 < reqs@.len() implies (#[trigger] reqs@[k1]).slice_index
                        != (#[trigger] reqs@[k2]).slice_index by {
                        assert(reqs@[k1] == reqs_pre[k1]);
                        if k2 < reqs_pre.len() as int {
                            assert(reqs@[k2] == reqs_pre[k2]);
                        } else {
                            assert(reqs@[k2].slice_index == i);
                            assert(request_entry_ok(pre, mid, reqs_pre[k1], now));
                            assert(mid.slices@[reqs_pre[k1].slice_index as int].status
                                == SliceStatus::Requested);
                            assert(mid.slices@[i as int].status == SliceStatus::Empty);
                        }
                    }
                    assert forall|k: int|
                        0 <= k < reqs@.len() implies #[trigger] request_entry_ok(
                        pre,
                        *w,
                        reqs@[k],
                        now,
                    ) by {
                        if k < reqs_pre.len() {
                            assert(reqs@[k] == reqs_pre[k]);
                            assert(request_entry_ok(pre, mid, reqs_pre[k], now));
                            let x = reqs_pre[k].slice_index as int;
                            if x != i as int {
                                assert(w.slices@[x] == mid.slices@[x]);
                            } else {
                                assert(mid.slices@[x].status == SliceStatus::Empty);
                                assert(mid.slices@[x].status == SliceStatus::Requested);
                            }
                        } else {
                            assert(reqs@[k] == (FetchRequest {
                                slice_index: i,
                                start_block_num: start,
                                block_count: w.slice_size,
                            }));
                        }
                    }
                }
            },
        }
    }
}

/// Start block number of slice `i`, read from the window.
fn slice_start_at(w: &HeaderSlices, i: usize) -> (r: BlockNumber)
    requires
        0 <= (i as int) < w.n(),
    ensures
        r == w.slices@[i as int].start_block_num,
{
    w.slices[i].start_block_num
}

} // verus!
