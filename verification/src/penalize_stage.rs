//! Penalize stage: reacts to `Invalid` slices. It resolves the peer that
//! supplied the bad data, clears the slice back to `Empty` so the
//! fetch-request stage retries the range (from some other peer), and
//! hands the peer identity to the caller so the peer layer can issue the
//! penalization directive. Who misbehaved is thus decoupled from what
//! needs re-fetching.

use vstd::prelude::*;
use crate::models::PeerId;
use crate::header_slices::{HeaderSlices, SliceStatus};

verus! {

/// One iteration of the stage: picks the first `Invalid` slice, returns
/// its index and the responsible peer, and resets the slice to `Empty`
/// with its data and peer association cleared — so the clearing happens
/// before any new fetch can be issued for the range. Returns nothing,
/// and leaves the window untouched, when no slice is `Invalid`.
#[verifier::rlimit(100)]
#[verifier::spinoff_prover]
pub fn penalize_next(w: &mut HeaderSlices) -> (r: Option<(usize, PeerId)>)
    requires
        old(w).wf(),
    ensures
        final(w).wf(),
        final(w).same_shape(*old(w)),
        final(w).low_block_num == old(w).low_block_num,
        final(w).low_anchor_hash == old(w).low_anchor_hash,
        final(w).saved_slices == old(w).saved_slices,
        final(w).saved_history@ == old(w).saved_history@,
        r is None ==> *final(w) == *old(w) && (forall|j: int|
            0 <= j < old(w).n() ==> (#[trigger] old(w).slices@[j]).status
                != SliceStatus::Invalid),
        r matches Some((i, p)) ==> ({
            let s = final(w).slices@[i as int];
            &&& 0 <= (i as int) < old(w).n()
            &&& old(w).slices@[i as int].status == SliceStatus::Invalid
            &&& old(w).slices@[i as int].from_peer == Some(p)
            &&& forall|j: int|
                0 <= j < i as int ==> (#[trigger] old(w).slices@[j]).status
                    != SliceStatus::Invalid
            &&& final(w).slices@ == old(w).slices@.update(i as int, s)
            &&& s.status == SliceStatus::Empty
            &&& s.headers@.len() == 0
            &&& s.from_peer is None
            &&& s.start_block_num == old(w).slices@[i as int].start_block_num
        }),
{
    let ghost pre = *w;
    let n = w.slices.len();
    let mut i: usize = 0;
    while i < n
        invariant
            pre == *old(w),
            *w == pre,
            pre.wf(),
            n == pre.n(),
            i <= n,
            forall|j: int|
                0 <= j < i as int ==> (#[trigger] pre.slices@[j]).status != SliceStatus::Invalid,
        decreases n - i,
    {
        if w.slices[i].status == SliceStatus::Invalid {
            proof {
                reveal(HeaderSlices::slices_ok);
                reveal(HeaderSlices::slice_wf);
                assert(pre.slice_wf(i as int));
            }
            let peer = w.slices[i].from_peer.unwrap();
            w.reset_to_empty(i);
            return Some((i, peer));
        }
        i = i + 1;
    }
    None
}

} // verus!
