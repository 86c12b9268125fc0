//! Verify-linear stage: validates `Fetched` slices against the consensus
//! rules and links them to the already-verified chain below them.
//! Processing respects slice order: a slice is checked only once its
//! predecessor is verified (or already saved), so continuity is
//! established incrementally, never re-checking the whole window.

use vstd::prelude::*;
use crate::models::{BlockHash, ChainConfig, Header};
use crate::header_slices::{headers_all_valid, headers_chain_ok, HeaderSlices, SliceStatus};

verus! {

/// Result of one verify-stage iteration.
#[derive(Clone, Copy, PartialEq, Eq, Structural, Debug)]
pub enum VerifyOutcome {
    /// No slice currently awaits this stage.
    NoSliceReady,
    /// The slice at this index passed and is now `Verified`.
    SliceVerified(usize),
    /// The slice at this index failed and is now `Invalid`.
    SliceInvalid(usize),
}

/// Whether a slice's headers satisfy every rule for its position: each
/// header passes the consensus rules independently, the numbers ascend
/// from `start_num`, the headers are hash-linked internally, and the
/// first one links to `anchor`.
pub open spec fn slice_ok(h: Seq<Header>, cfg: ChainConfig, anchor: BlockHash, start_num: int,
) -> bool {
    &&& headers_chain_ok(h, anchor, start_num)
    &&& headers_all_valid(h, cfg)
}

/// Checks one slice's headers against the chain rules for the range
/// beginning at `start_num`, anchored on `anchor`.
pub fn check_slice_chain(
    headers: &Vec<Header>,
    cfg: &ChainConfig,
    anchor: BlockHash,
    start_num: u64,
) -> (r: bool)
    requires
        start_num + headers@.len() <= u64::MAX,
    ensures
        r == slice_ok(headers@, *cfg, anchor, start_num as int),
{
    proof {
        reveal(headers_chain_ok);
        reveal(headers_all_valid);
    }
    let n = headers.len();
    let mut j: usize = 0;
    while j < n
        invariant
            n == headers@.len(),
            j <= n,
            start_num + n <= u64::MAX,
            forall|k: int|
                0 <= k < j as int ==> (#[trigger] headers@[k]).number.0 == start_num + k,
            forall|k: int|
                0 <= k < j as int ==> cfg.spec_header_valid(#[trigger] headers@[k]),
            j as int > 0 ==> headers@[0].parent_hash == anchor,
            forall|k: int|
                1 <= k < j as int ==> (#[trigger] headers@[k]).parent_hash == headers@[k
                    - 1].hash,
        decreases n - j,
    {
        proof {
            reveal(headers_chain_ok);
            reveal(headers_all_valid);
        }
        let h = &headers[j];
        if h.number.0 != start_num + (j as u64) {
            return false;
        }
        if !cfg.header_valid(h) {
            return false;
        }
        if j == 0 {
            if h.parent_hash != anchor {
                return false;
            }
        } else {
            if h.parent_hash != headers[j - 1].hash {
                return false;
            }
        }
        j = j + 1;
    }
    proof {
        reveal(headers_chain_ok);
        reveal(headers_all_valid);
    }
    true
}

/// One iteration of the stage: finds the first `Fetched` slice above the
/// window's first position whose anchor is known (its predecessor is
/// `Verified`, or everything below it is already `Saved`), checks it, and
/// marks it `Verified` on success or `Invalid` on any failure; the
/// headers and the peer stay recorded on an invalid slice so the
/// penalize stage can implicate the supplier. The window's very first
/// slice is the fork-link stage's job, not this one's.
#[verifier::rlimit(100)]
#[verifier::spinoff_prover]
pub fn verify_next(w: &mut HeaderSlices) -> (r: VerifyOutcome)
    requires
        old(w).wf(),
    ensures
        final(w).wf(),
        final(w).same_shape(*old(w)),
        final(w).low_block_num == old(w).low_block_num,
        final(w).low_anchor_hash == old(w).low_anchor_hash,
        final(w).saved_slices == old(w).saved_slices,
        final(w).saved_history@ == old(w).saved_history@,
        r is NoSliceReady ==> *final(w) == *old(w) && (forall|i: int|
            1 <= i < old(w).n() ==> !old(w).verify_ready(i)),
        r matches VerifyOutcome::SliceVerified(i) ==> ({
            &&& 1 <= (i as int) < old(w).n()
            &&& old(w).verify_ready(i as int)
            &&& slice_ok(
                old(w).slices@[i as int].headers@,
                old(w).chain_config,
                old(w).link_anchor_at(i as int),
                old(w).spec_slice_start(i as int),
            )
            &&& final(w).slices@ == old(w).slices@.update(i as int, final(w).slices@[i as int])
            &&& final(w).slices@[i as int].status == SliceStatus::Verified
            &&& final(w).slices@[i as int].headers@ == old(w).slices@[i as int].headers@
            &&& final(w).slices@[i as int].from_peer == old(w).slices@[i as int].from_peer
        }),
        r matches VerifyOutcome::SliceInvalid(i) ==> ({
            &&& 1 <= (i as int) < old(w).n()
            &&& old(w).verify_ready(i as int)
            &&& !slice_ok(
                old(w).slices@[i as int].headers@,
                old(w).chain_config,
                old(w).link_anchor_at(i as int),
                old(w).spec_slice_start(i as int),
            )
            &&& final(w).slices@ == old(w).slices@.update(i as int, final(w).slices@[i as int])
            &&& final(w).slices@[i as int].status == SliceStatus::Invalid
            &&& final(w).slices@[i as int].headers@ == old(w).slices@[i as int].headers@
            &&& final(w).slices@[i as int].from_peer == old(w).slices@[i as int].from_peer
        }),
{
    let ghost pre = *w;
    let n = w.slices.len();
    if n == 0 {
        return VerifyOutcome::NoSliceReady;
    }
    let mut i: usize = 1;
    while i < n
        invariant
            pre == *old(w),
            *w == pre,
            pre.wf(),
            n == pre.n(),
            1 <= n,
            1 <= i,
            i as int <= n as int,
            forall|j: int| 1 <= j < i as int ==> !pre.verify_ready(j),
        decreases n - i,
    {
        if w.slices[i].status == SliceStatus::Fetched && (i == w.saved_slices || w.slices[i
            - 1].status == SliceStatus::Verified) {
            proof {
                reveal(HeaderSlices::slices_ok);
                reveal(HeaderSlices::slice_wf);
                assert(pre.slice_wf(i as int));
                assert(pre.verify_ready(i as int));
            }
            return verify_slice_at(w, i);
        }
        proof {
            assert(!pre.verify_ready(i as int));
        }
        i = i + 1;
    }
    VerifyOutcome::NoSliceReady
}

/// Checks the ready slice at `i` and records the outcome in the window.
#[verifier::rlimit(100)]
#[verifier::spinoff_prover]
pub fn verify_slice_at(w: &mut HeaderSlices, i: usize) -> (r: VerifyOutcome)
    requires
        old(w).wf(),
        old(w).verify_ready(i as int),
    ensures
        final(w).wf(),
        final(w).same_shape(*old(w)),
        final(w).low_block_num == old(w).low_block_num,
        final(w).low_anchor_hash == old(w).low_anchor_hash,
        final(w).saved_slices == old(w).saved_slices,
        final(w).saved_history@ == old(w).saved_history@,
        r matches VerifyOutcome::SliceVerified(k) ==> k == i && slice_ok(
            old(w).slices@[i as int].headers@,
            old(w).chain_config,
            old(w).link_anchor_at(i as int),
            old(w).spec_slice_start(i as int),
        ),
        r matches VerifyOutcome::SliceInvalid(k) ==> k == i && !slice_ok(
            old(w).slices@[i as int].headers@,
            old(w).chain_config,
            old(w).link_anchor_at(i as int),
            old(w).spec_slice_start(i as int),
        ),
        !(r is NoSliceReady),
        final(w).slices@ == old(w).slices@.update(i as int, final(w).slices@[i as int]),
        final(w).slices@[i as int].status == (if r is SliceVerified {
            SliceStatus::Verified
        } else {
            SliceStatus::Invalid
        }),
        final(w).slices@[i as int].headers@ == old(w).slices@[i as int].headers@,
        final(w).slices@[i as int].from_peer == old(w).slices@[i as int].from_peer,
{
    proof {
        reveal(HeaderSlices::slices_ok);
                reveal(HeaderSlices::slice_wf);
        assert(old(w).slice_wf(i as int));
        vstd::arithmetic::mul::lemma_mul_inequality(
            i as int + 1,
            old(w).n(),
            old(w).slice_size as int,
        );
        vstd::arithmetic::mul::lemma_mul_is_distributive_add_other_way(
            old(w).slice_size as int,
            i as int,
            1,
        );
    }
    let anchor = w.link_anchor(i);
    let start_num = w.slices[i].start_block_num;
    let cfg = w.chain_config;
    let ok = check_slice_chain(&w.slices[i].headers, &cfg, anchor, start_num.0);
    if ok {
        w.mark_verified(i);
        VerifyOutcome::SliceVerified(i)
    } else {
        w.mark_invalid(i);
        VerifyOutcome::SliceInvalid(i)
    }
}

} // verus!
