//! Save stage: the only stage that shrinks the window and the only one
//! with access to the persistence collaborator. It drains the longest
//! contiguous run of `Verified` slices at the low boundary, hands their
//! headers to the caller for an ordered append to the persistent
//! transaction, and advances the window's low boundary past them.

use vstd::prelude::*;
use crate::models::Header;
use crate::header_slices::{headers_all_valid, headers_chain_ok, HeaderSlices, SliceStatus};

verus! {

/// One iteration of the stage: returns, in block order, the headers of
/// the contiguous verified prefix at the low boundary for the caller to
/// persist, marks those slices `Saved`, frees their memory, and advances
/// the low boundary exactly past them. The returned batch is itself a
/// chain anchored on the previous low anchor; it never contains a
/// non-contiguous prefix, so persistence is chain-order-preserving.
#[verifier::rlimit(100)]
#[verifier::spinoff_prover]
pub fn save_verified_prefix(w: &mut HeaderSlices) -> (out: Vec<Header>)
    requires
        old(w).wf(),
    ensures
        final(w).wf(),
        final(w).same_shape(*old(w)),
        old(w).saved_n() <= final(w).saved_n() <= old(w).n(),
        forall|j: int|
            old(w).saved_n() <= j < final(w).saved_n() ==> (#[trigger] old(w).slices@[j]).status
                == SliceStatus::Verified,
        final(w).saved_n() < old(w).n() ==> old(w).slices@[final(w).saved_n()].status
            != SliceStatus::Verified,
        forall|j: int|
            0 <= j < old(w).n() && !(old(w).saved_n() <= j < final(w).saved_n())
                ==> final(w).slices@[j] == old(w).slices@[j],
        forall|j: int|
            old(w).saved_n() <= j < final(w).saved_n() ==> (#[trigger] final(w).slices@[j]).status
                == SliceStatus::Saved,
        final(w).saved_history@ == old(w).saved_history@ + out@,
        out@.len() == (final(w).saved_n() - old(w).saved_n()) * (old(w).slice_size as int),
        headers_chain_ok(out@, old(w).low_anchor_hash, old(w).low_block_num.0 as int),
        headers_all_valid(out@, old(w).chain_config),
        final(w).low_block_num.0 == old(w).low_block_num.0 + out@.len(),
{
    w.mark_saved_prefix()
}

} // verus!
