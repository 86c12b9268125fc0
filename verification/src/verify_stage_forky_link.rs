//! Verify-fork-link stage: the special case of verification for the
//! window's very first slice. Its anchor is not a previous slice but the
//! externally supplied checkpoint hash, because this phase starts from an
//! arbitrary checkpoint, not from genesis. Once the first slice has been
//! verified (or saved), this stage has no further work for the run.

use vstd::prelude::*;
use crate::header_slices::{HeaderSlices, SliceStatus};
use crate::verify_stage_linear::{slice_ok, verify_slice_at, VerifyOutcome};

verus! {

/// One iteration of the stage: when the window's first slice is
/// `Fetched` and nothing has been saved yet, checks it against the
/// checkpoint hash and marks it `Verified` or `Invalid`; otherwise does
/// nothing.
#[verifier::rlimit(100)]
#[verifier::spinoff_prover]
pub fn verify_fork_link(w: &mut HeaderSlices) -> (r: VerifyOutcome)
    requires
        old(w).wf(),
    ensures
        final(w).wf(),
        final(w).same_shape(*old(w)),
        final(w).low_block_num == old(w).low_block_num,
        final(w).low_anchor_hash == old(w).low_anchor_hash,
        final(w).saved_slices == old(w).saved_slices,
        final(w).saved_history@ == old(w).saved_history@,
        r is NoSliceReady ==> *final(w) == *old(w) && !old(w).verify_ready(0),
        r matches VerifyOutcome::SliceVerified(i) ==> ({
            &&& i == 0
            &&& old(w).verify_ready(0)
            &&& slice_ok(
                old(w).slices@[0].headers@,
                old(w).chain_config,
                old(w).start_hash,
                old(w).start_block_num.0 as int,
            )
            &&& final(w).slices@ == old(w).slices@.update(0, final(w).slices@[0])
            &&& final(w).slices@[0].status == SliceStatus::Verified
            &&& final(w).slices@[0].headers@ == old(w).slices@[0].headers@
            &&& final(w).slices@[0].from_peer == old(w).slices@[0].from_peer
        }),
        r matches VerifyOutcome::SliceInvalid(i) ==> ({
            &&& i == 0
            &&& old(w).verify_ready(0)
            &&& !slice_ok(
                old(w).slices@[0].headers@,
                old(w).chain_config,
                old(w).start_hash,
                old(w).start_block_num.0 as int,
            )
            &&& final(w).slices@ == old(w).slices@.update(0, final(w).slices@[0])
            &&& final(w).slices@[0].status == SliceStatus::Invalid
            &&& final(w).slices@[0].headers@ == old(w).slices@[0].headers@
            &&& final(w).slices@[0].from_peer == old(w).slices@[0].from_peer
        }),
{
    let n = w.slices.len();
    if n == 0 {
        return VerifyOutcome::NoSliceReady;
    }
    if w.saved_slices != 0 || w.slices[0].status != SliceStatus::Fetched {
        return VerifyOutcome::NoSliceReady;
    }
    proof {
        reveal(HeaderSlices::link_anchor_at);
        assert(old(w).verify_ready(0));
        // With nothing saved, the first slice's anchor is the checkpoint.
        assert(old(w).link_anchor_at(0) == old(w).start_hash);
        assert(old(w).spec_slice_start(0) == old(w).start_block_num.0 as int) by {
            vstd::arithmetic::mul::lemma_mul_basics(old(w).slice_size as int);
        }
    }
    verify_slice_at(w, 0)
}

} // verus!
