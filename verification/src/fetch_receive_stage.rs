//! Fetch-receive stage: consumes inbound peer responses, matches each to
//! the `Requested` slice covering the same range, stores the raw headers
//! and records the supplying peer. Whether the peer connection is still
//! usable (the stage's liveness predicate) is observed by the caller and
//! fed to the orchestrator as part of each stage event.

use vstd::prelude::*;
use crate::models::{BlockNumber, Header, PeerId};
use crate::header_slices::{HeaderSlices, SliceStatus};

verus! {

/// An inbound batch of headers from a peer, covering one slice's range.
pub struct HeadersResponse {
    /// First block number of the range the peer answered for.
    pub start_block_num: BlockNumber,
    /// The raw header records, unverified.
    pub headers: Vec<Header>,
    /// The peer that supplied them.
    pub peer: PeerId,
}

/// One iteration of the stage: matches the response to the `Requested`
/// slice with the same range start and moves it to `Fetched` with the
/// response's headers and peer. Returns the matched index; a response
/// that matches no requested range, or whose header count does not fill
/// the slice, is dropped and the window is left untouched.
#[verifier::rlimit(100)]
#[verifier::spinoff_prover]
pub fn receive_response(w: &mut HeaderSlices, response: HeadersResponse) -> (r: Option<usize>)
    requires
        old(w).wf(),
    ensures
        final(w).wf(),
        final(w).same_shape(*old(w)),
        final(w).low_block_num == old(w).low_block_num,
        final(w).low_anchor_hash == old(w).low_anchor_hash,
        final(w).saved_slices == old(w).saved_slices,
        final(w).saved_history@ == old(w).saved_history@,
        r is None ==> *final(w) == *old(w) && (forall|j: int|
            0 <= j < old(w).n() ==> !((#[trigger] old(w).slices@[j]).status
                == SliceStatus::Requested && old(w).slices@[j].start_block_num
                == response.start_block_num && response.headers@.len() == old(w).slice_size)),
        r matches Some(i) ==> ({
            let s = final(w).slices@[i as int];
            &&& 0 <= (i as int) < old(w).n()
            &&& old(w).slices@[i as int].status == SliceStatus::Requested
            &&& old(w).slices@[i as int].start_block_num == response.start_block_num
            &&& response.headers@.len() == old(w).slice_size
            &&& final(w).slices@ == old(w).slices@.update(i as int, s)
            &&& s.status == SliceStatus::Fetched
            &&& s.start_block_num == response.start_block_num
            &&& s.headers@ == response.headers@
            &&& s.from_peer == Some(response.peer)
        }),
{
    w.mark_fetched(response.start_block_num, response.headers, response.peer)
}

} // verus!
