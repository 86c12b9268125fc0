//! The header window: the shared, bounded collection of header slices
//! covering `[low_block_num, final_block_num)`. It is the single source of
//! truth for every stage; all mutation goes through its transition
//! operations, which preserve the window invariants: slices are contiguous
//! and aligned, the low boundary advances exactly past the saved prefix,
//! verified slices satisfy the consensus rules and chain by parent hash
//! back to the checkpoint, and the held header data never exceeds the
//! memory budget.

use vstd::prelude::*;
use vstd::arithmetic::mul::*;
use vstd::arithmetic::div_mod::*;
use crate::models::{BlockHash, BlockNumber, ChainConfig, Header, PeerId};

verus! {

/// Number of consecutive block numbers covered by one slice in the
/// default configuration.
pub const HEADER_SLICE_SIZE: usize = 192;

/// Estimated bytes of memory one header record occupies; used to turn the
/// window's byte budget into a bound on the number of slices.
pub const HEADER_MEM_ESTIMATE: usize = 512;

/// Upper bound accepted for a slice size, so that byte-budget arithmetic
/// stays within machine integers.
pub const MAX_SLICE_SIZE: usize = 268435456;

/// Lifecycle of a slice. `Empty -> Requested -> Fetched -> {Verified |
/// Invalid} -> Saved`, with `Invalid` and a stall timeout both routing
/// back to `Empty`.
#[derive(Clone, Copy, PartialEq, Eq, Structural, Debug)]
pub enum SliceStatus {
    /// Nothing fetched and no request outstanding.
    Empty,
    /// Claimed by the fetch-request stage; a network request is in flight.
    Requested,
    /// Headers stored, awaiting verification.
    Fetched,
    /// Headers passed consensus rules and chain linkage.
    Verified,
    /// Headers failed verification; the supplying peer is implicated.
    Invalid,
    /// Headers persisted and their memory released.
    Saved,
}

/// The unit of work: a fixed-size, number-aligned sub-range of the window.
pub struct HeaderSlice {
    /// First block number of the slice's range.
    pub start_block_num: BlockNumber,
    /// Header records, empty until fetched and after saving.
    pub headers: Vec<Header>,
    /// Position in the lifecycle.
    pub status: SliceStatus,
    /// The peer that supplied the headers, once known.
    pub from_peer: Option<PeerId>,
    /// Tick at which the slice was claimed for request; meaningful only
    /// while `Requested`.
    pub request_time: u64,
}

/// Whether a sequence of headers chains correctly: block numbers ascend
/// one by one from `start_num`, the first parent hash equals `anchor`,
/// and every later parent hash equals the previous header's hash.
/// Opaque so that window proofs can pass the predicate around without
/// expanding its quantifiers; proofs that need the definition reveal it.
#[verifier::opaque]
pub open spec fn headers_chain_ok(h: Seq<Header>, anchor: BlockHash, start_num: int) -> bool {
    &&& forall|j: int| 0 <= j < h.len() ==> (#[trigger] h[j]).number.0 == start_num + j
    &&& (h.len() > 0 ==> h[0].parent_hash == anchor)
    &&& forall|j: int| 1 <= j < h.len() ==> (#[trigger] h[j]).parent_hash == h[j - 1].hash
}

/// Whether every header in a sequence satisfies the consensus validity
/// rules on its own. Opaque for the same reason as [`headers_chain_ok`].
#[verifier::opaque]
pub open spec fn headers_all_valid(h: Seq<Header>, cfg: ChainConfig) -> bool {
    forall|j: int| 0 <= j < h.len() ==> cfg.spec_header_valid(#[trigger] h[j])
}

/// The shared window of header slices. One is created per run, mutated by
/// all stages for the run's duration, and discarded at the end; its final
/// low boundary becomes the next phase's starting point.
pub struct HeaderSlices {
    /// The slices, in block-number order; index `i` covers
    /// `[start + i * slice_size, start + (i + 1) * slice_size)`.
    pub slices: Vec<HeaderSlice>,
    /// Lower edge of the whole window; never changes during a run.
    pub start_block_num: BlockNumber,
    /// Hash of the block just below `start_block_num`: the external
    /// checkpoint the first slice must link to.
    pub start_hash: BlockHash,
    /// Upper edge of the window (exclusive); never changes during a run.
    pub final_block_num: BlockNumber,
    /// Lowest block number not yet saved; the forward-moving cursor.
    pub low_block_num: BlockNumber,
    /// Hash the next slice to be verified at the low boundary must link
    /// to: the checkpoint hash until something is saved, then the hash of
    /// the last saved header.
    pub low_anchor_hash: BlockHash,
    /// Number of leading slices already saved.
    pub saved_slices: usize,
    /// Block numbers covered by each slice.
    pub slice_size: usize,
    /// Byte ceiling for held header data.
    pub mem_limit: usize,
    /// The consensus parameters a slice must satisfy to become
    /// `Verified`; fixed for the window's lifetime.
    pub chain_config: ChainConfig,
    /// Bumped by `notify_status_watchers` so observers can detect change.
    pub watch_generation: u64,
    /// History of every header saved so far, in order; ghost because the
    /// real data has been handed to persistence and freed.
    pub saved_history: Ghost<Seq<Header>>,
}

impl HeaderSlices {
    /// Number of slices in the window.
    pub open spec fn n(self) -> int {
        self.slices@.len() as int
    }

    /// Number of leading saved slices.
    pub open spec fn saved_n(self) -> int {
        self.saved_slices as int
    }

    /// First block number of slice `i`.
    pub open spec fn spec_slice_start(self, i: int) -> int {
        self.start_block_num.0 + i * (self.slice_size as int)
    }

    /// Per-slice shape: aligned range, saved slices form exactly the
    /// prefix, and held data matches the status. Opaque to keep the
    /// window invariant cheap to carry; proofs that look inside a slice
    /// reveal it.
    #[verifier::opaque]
    pub open spec fn slice_wf(self, i: int) -> bool {
        let s = self.slices@[i];
        &&& s.start_block_num.0 == self.spec_slice_start(i)
        &&& (s.status == SliceStatus::Saved <==> i < self.saved_n())
        &&& match s.status {
            SliceStatus::Empty => s.headers@.len() == 0 && s.from_peer is None,
            SliceStatus::Requested => s.headers@.len() == 0 && s.from_peer is None,
            SliceStatus::Saved => s.headers@.len() == 0,
            _ => s.headers@.len() == self.slice_size && s.from_peer is Some,
        }
    }

    /// Verified slices form a contiguous run starting right after the
    /// saved prefix: a slice is verified only once its predecessor is.
    pub open spec fn verified_contiguous(self) -> bool {
        forall|i: int|
            0 <= i < self.n() && (#[trigger] self.slices@[i]).status == SliceStatus::Verified
                ==> (i == self.saved_n() || self.slices@[i - 1].status == SliceStatus::Verified)
    }

    /// The hash slice `i`'s first header must link to: the low-boundary
    /// anchor for the first unsaved slice, else the last header hash of
    /// the preceding slice. Opaque to keep the window invariant cheap to
    /// carry; proofs about anchors reveal it.
    #[verifier::opaque]
    pub open spec fn link_anchor_at(self, i: int) -> BlockHash {
        if i == self.saved_n() {
            self.low_anchor_hash
        } else {
            self.slices@[i - 1].headers@.last().hash
        }
    }

    /// Continuity: every verified slice's headers chain from its anchor.
    pub open spec fn continuity_ok(self) -> bool {
        forall|i: int|
            0 <= i < self.n() && (#[trigger] self.slices@[i]).status == SliceStatus::Verified
                ==> headers_chain_ok(
                    self.slices@[i].headers@,
                    self.link_anchor_at(i),
                    self.spec_slice_start(i),
                )
    }

    /// Validity: every verified slice's headers all pass the consensus
    /// rules of the window's chain configuration.
    pub open spec fn validity_ok(self) -> bool {
        forall|i: int|
            0 <= i < self.n() && (#[trigger] self.slices@[i]).status == SliceStatus::Verified
                ==> headers_all_valid(self.slices@[i].headers@, self.chain_config)
    }

    /// The quantified half of the window invariant: per-slice shapes,
    /// contiguity of the verified run, chain continuity and consensus
    /// validity. Opaque so that contracts can pass the whole bundle
    /// around cheaply; proofs that look inside reveal it.
    #[verifier::opaque]
    pub open spec fn slices_ok(self) -> bool {
        &&& forall|i: int| 0 <= i < self.n() ==> #[trigger] self.slice_wf(i)
        &&& self.verified_contiguous()
        &&& self.continuity_ok()
        &&& self.validity_ok()
    }

    /// The window invariant; established by the constructor and preserved
    /// by every transition operation.
    pub open spec fn wf(self) -> bool {
        &&& 1 <= self.slice_size <= MAX_SLICE_SIZE
        &&& self.start_block_num.0 + self.n() * (self.slice_size as int) <= u64::MAX
        &&& self.final_block_num.0 == self.start_block_num.0 + self.n() * (self.slice_size as int)
        &&& 0 <= self.saved_n() <= self.n()
        &&& self.low_block_num.0 == self.start_block_num.0 + self.saved_n() * (self.slice_size as int)
        &&& self.slices_ok()
        &&& headers_all_valid(self.saved_history@, self.chain_config)
        &&& (self.saved_n() == 0 ==> self.low_anchor_hash == self.start_hash)
        &&& self.n() * (self.slice_size as int) * (HEADER_MEM_ESTIMATE as int) <= self.mem_limit
        &&& self.saved_history@.len() == self.saved_n() * (self.slice_size as int)
        &&& headers_chain_ok(self.saved_history@, self.start_hash, self.start_block_num.0 as int)
        &&& (self.saved_history@.len() > 0 ==> self.low_anchor_hash == self.saved_history@.last().hash)
    }

    /// Whether slice `i` may be claimed by the fetch-request stage.
    pub open spec fn request_claimable(self, i: int) -> bool {
        0 <= i < self.n() && self.slices@[i].status == SliceStatus::Empty
    }

    /// Whether slice `i` is ready for verification: it holds fetched data
    /// and its anchor is known (its predecessor is verified, or it is the
    /// first unsaved slice).
    pub open spec fn verify_ready(self, i: int) -> bool {
        &&& 0 <= i < self.n()
        &&& self.slices@[i].status == SliceStatus::Fetched
        &&& (i == self.saved_n()
            || (i > self.saved_n() && self.slices@[i - 1].status == SliceStatus::Verified))
    }

    /// All fields that never change during a run, plus the slice count.
    pub open spec fn same_shape(self, other: HeaderSlices) -> bool {
        &&& self.n() == other.n()
        &&& self.start_block_num == other.start_block_num
        &&& self.start_hash == other.start_hash
        &&& self.final_block_num == other.final_block_num
        &&& self.slice_size == other.slice_size
        &&& self.mem_limit == other.mem_limit
        &&& self.chain_config == other.chain_config
    }

    /// Creates a window of empty slices anchored at `start_num` (whose
    /// parent block has hash `start_hash`), covering as many whole slices
    /// of `requested_span` block numbers as the byte budget allows.
    #[verifier::rlimit(50)]
    pub fn new(
        mem_limit: usize,
        slice_size: usize,
        start_num: BlockNumber,
        start_hash: BlockHash,
        requested_span: u64,
        chain_config: ChainConfig,
    ) -> (w: HeaderSlices)
        requires
            1 <= slice_size <= MAX_SLICE_SIZE,
            start_num.0 + requested_span <= u64::MAX,
        ensures
            w.wf(),
            w.start_block_num == start_num,
            w.start_hash == start_hash,
            w.low_block_num == start_num,
            w.slice_size == slice_size,
            w.mem_limit == mem_limit,
            w.chain_config == chain_config,
            w.saved_n() == 0,
            w.saved_history@ == Seq::<Header>::empty(),
            w.n() == vstd::math::min(
                requested_span as int / slice_size as int,
                mem_limit as int / (slice_size as int * HEADER_MEM_ESTIMATE as int),
            ),
            forall|i: int| 0 <= i < w.n() ==> (#[trigger] w.slices@[i]).status == SliceStatus::Empty,
    {
        let span_slices: u64 = requested_span / (slice_size as u64);
        let slice_bytes: u64 = (slice_size as u64) * (HEADER_MEM_ESTIMATE as u64);
        let budget_slices: u64 = (mem_limit as u64) / slice_bytes;
        let count_u64: u64 = if span_slices < budget_slices {
            span_slices
        } else {
            budget_slices
        };
        proof {
            lemma_fundamental_div_mod(mem_limit as int, slice_bytes as int);
            lemma_mul_inequality(1, slice_bytes as int, budget_slices as int);
            assert(budget_slices <= mem_limit);
            lemma_fundamental_div_mod(requested_span as int, slice_size as int);
            lemma_mul_inequality(
                count_u64 as int,
                span_slices as int,
                slice_size as int,
            );
            lemma_mul_inequality(
                count_u64 as int,
                budget_slices as int,
                slice_bytes as int,
            );
            lemma_mul_is_associative(
                count_u64 as int,
                slice_size as int,
                HEADER_MEM_ESTIMATE as int,
            );
            assert(span_slices as int * slice_size as int <= requested_span) by {
                lemma_fundamental_div_mod(requested_span as int, slice_size as int);
                lemma_mul_is_commutative(span_slices as int, slice_size as int);
            }
            assert(count_u64 as int * slice_size as int <= requested_span);
            assert(count_u64 as int * slice_bytes as int <= mem_limit) by {
                lemma_mul_is_commutative(budget_slices as int, slice_bytes as int);
            }
        }
        let count: usize = count_u64 as usize;
        let mut slices: Vec<HeaderSlice> = Vec::new();
        let mut next_start: u64 = start_num.0;
        let mut i: usize = 0;
        while i < count
            invariant
                i <= count,
                count == count_u64,
                count_u64 as int * slice_size as int <= requested_span,
                start_num.0 + requested_span <= u64::MAX,
                1 <= slice_size <= MAX_SLICE_SIZE,
                slices@.len() == i,
                next_start == start_num.0 + i as int * slice_size as int,
                forall|j: int|
                    0 <= j < i ==> {
                        let s = #[trigger] slices@[j];
                        &&& s.start_block_num.0 == start_num.0 + j * (slice_size as int)
                        &&& s.status == SliceStatus::Empty
                        &&& s.headers@.len() == 0
                        &&& s.from_peer is None
                    },
            decreases count - i,
        {
            proof {
                lemma_mul_inequality(i as int + 1, count as int, slice_size as int);
                lemma_mul_is_distributive_add_other_way(
                    slice_size as int,
                    i as int,
                    1,
                );
            }
            slices.push(
                HeaderSlice {
                    start_block_num: BlockNumber(next_start),
                    headers: Vec::new(),
                    status: SliceStatus::Empty,
                    from_peer: None,
                    request_time: 0,
                },
            );
            next_start = next_start + slice_size as u64;
            i = i + 1;
        }
        let final_num: u64 = next_start;
        let w = HeaderSlices {
            slices,
            start_block_num: start_num,
            start_hash,
            final_block_num: BlockNumber(final_num),
            low_block_num: start_num,
            low_anchor_hash: start_hash,
            saved_slices: 0,
            slice_size,
            mem_limit,
            chain_config,
            watch_generation: 0,
            saved_history: Ghost(Seq::empty()),
        };
        proof {
            Self::lemma_fresh_window_wf(w);
        }
        w
    }

    /// A window of all-empty, aligned slices with nothing saved is well
    /// formed.
    #[verifier::rlimit(100)]
    #[verifier::spinoff_prover]
    proof fn lemma_fresh_window_wf(w: HeaderSlices)
        requires
            1 <= w.slice_size <= MAX_SLICE_SIZE,
            w.saved_slices == 0,
            w.low_block_num == w.start_block_num,
            w.low_anchor_hash == w.start_hash,
            w.saved_history@ == Seq::<Header>::empty(),
            w.final_block_num.0 == w.start_block_num.0 + w.n() * (w.slice_size as int),
            w.start_block_num.0 + w.n() * (w.slice_size as int) <= u64::MAX,
            w.n() * (w.slice_size as int) * (HEADER_MEM_ESTIMATE as int) <= w.mem_limit,
            forall|j: int|
                0 <= j < w.n() ==> {
                    let s = #[trigger] w.slices@[j];
                    &&& s.start_block_num.0 == w.start_block_num.0 + j * (w.slice_size as int)
                    &&& s.status == SliceStatus::Empty
                    &&& s.headers@.len() == 0
                    &&& s.from_peer is None
                },
        ensures
            w.wf(),
    {
        reveal(HeaderSlices::slices_ok);
        reveal(headers_chain_ok);
        reveal(headers_all_valid);
        assert forall|i2: int| 0 <= i2 < w.n() implies #[trigger] w.slice_wf(i2) by {
            reveal(HeaderSlices::slice_wf);
            assert(w.slices@[i2].status == SliceStatus::Empty);
        }
        assert(w.continuity_ok());
        assert(w.verified_contiguous());
        assert(w.validity_ok());
    }

    /// The current low boundary: the lowest block number not yet saved.
    pub fn low_block_num(&self) -> (r: BlockNumber)
        ensures
            r == self.low_block_num,
    {
        self.low_block_num
    }

    /// Number of slices in the window.
    pub fn slice_count(&self) -> (r: usize)
        ensures
            r as int == self.n(),
    {
        self.slices.len()
    }

    /// Whether the slice at the window's upper edge holds no header data:
    /// either it was never fetched, or everything up to the edge has
    /// already been saved and freed. The orchestrator treats this as the
    /// signal that no further downloadable data exists without sliding
    /// the window forward.
    pub open spec fn spec_empty_at_final(self) -> bool {
        ||| self.n() == 0
        ||| self.slices@[self.n() - 1].status == SliceStatus::Empty
        ||| self.slices@[self.n() - 1].status == SliceStatus::Saved
    }

    /// See [`Self::spec_empty_at_final`].
    pub fn is_empty_at_final_position(&self) -> (r: bool)
        ensures
            r == self.spec_empty_at_final(),
    {
        if self.slices.len() == 0 {
            true
        } else {
            let st = self.slices[self.slices.len() - 1].status;
            st == SliceStatus::Empty || st == SliceStatus::Saved
        }
    }

    /// Wakes observers after a batch of transitions by bumping the
    /// generation counter (wrapping at the integer ceiling); changes
    /// nothing else.
    #[verifier::rlimit(100)]
    pub fn notify_status_watchers(&mut self)
        ensures
            final(self).watch_generation == (if old(self).watch_generation == u64::MAX {
                0u64
            } else {
                (old(self).watch_generation + 1) as u64
            }),
            final(self).slices@ == old(self).slices@,
            final(self).same_shape(*old(self)),
            final(self).low_block_num == old(self).low_block_num,
            final(self).low_anchor_hash == old(self).low_anchor_hash,
            final(self).saved_slices == old(self).saved_slices,
            final(self).saved_history@ == old(self).saved_history@,
            old(self).wf() ==> final(self).wf(),
    {
        let ghost pre = *self;
        self.watch_generation = if self.watch_generation == u64::MAX {
            0
        } else {
            self.watch_generation + 1
        };
        proof {
            if pre.wf() {
                lemma_wf_unchanged(pre, *self);
            }
        }
    }

    /// Replaces slice `i`, leaving every other field alone.
    fn set_slice(&mut self, i: usize, s: HeaderSlice)
        requires
            i < old(self).slices@.len(),
        ensures
            final(self).slices@ == old(self).slices@.update(i as int, s),
            final(self).start_block_num == old(self).start_block_num,
            final(self).start_hash == old(self).start_hash,
            final(self).final_block_num == old(self).final_block_num,
            final(self).low_block_num == old(self).low_block_num,
            final(self).low_anchor_hash == old(self).low_anchor_hash,
            final(self).saved_slices == old(self).saved_slices,
            final(self).slice_size == old(self).slice_size,
            final(self).mem_limit == old(self).mem_limit,
            final(self).chain_config == old(self).chain_config,
            final(self).watch_generation == old(self).watch_generation,
            final(self).saved_history@ == old(self).saved_history@,
    {
        let _ = self.slices.remove(i);
        self.slices.insert(i, s);
        proof {
            assert(final(self).slices@ =~= old(self).slices@.update(i as int, s));
        }
    }

    /// Index of the first `Empty` slice, if any.
    fn find_empty(&self) -> (r: Option<usize>)
        ensures
            r is None ==> forall|j: int| !self.request_claimable(j),
            r matches Some(i) ==> self.request_claimable(i as int) && (forall|j: int|
                0 <= j < i as int ==> !self.request_claimable(j)),
    {
        let n = self.slices.len();
        let mut i: usize = 0;
        while i < n
            invariant
                n == self.n(),
                i <= n,
                forall|j: int| 0 <= j < i as int ==> !self.request_claimable(j),
            decreases n - i,
        {
            if self.slices[i].status == SliceStatus::Empty {
                return Some(i);
            }
            i = i + 1;
        }
        None
    }

    /// Index of the `Requested` slice whose range starts at `start`.
    fn find_requested(&self, start: BlockNumber) -> (r: Option<usize>)
        ensures
            r is None ==> forall|j: int|
                0 <= j < self.n() ==> !((#[trigger] self.slices@[j]).status
                    == SliceStatus::Requested && self.slices@[j].start_block_num == start),
            r matches Some(i) ==> ({
                &&& 0 <= (i as int) < self.n()
                &&& self.slices@[i as int].status == SliceStatus::Requested
                &&& self.slices@[i as int].start_block_num == start
            }),
    {
        let n = self.slices.len();
        let mut i: usize = 0;
        while i < n
            invariant
                n == self.n(),
                i <= n,
                forall|j: int|
                    0 <= j < i as int ==> !((#[trigger] self.slices@[j]).status
                        == SliceStatus::Requested && self.slices@[j].start_block_num == start),
            decreases n - i,
        {
            if self.slices[i].status == SliceStatus::Requested
                && self.slices[i].start_block_num == start {
                return Some(i);
            }
            i = i + 1;
        }
        None
    }

    /// Atomically claims the first `Empty` slice for a network request,
    /// moving it to `Requested` and recording the claim tick. Returns the
    /// claimed index, or nothing when no slice awaits a request.
    #[verifier::rlimit(100)]
    #[verifier::spinoff_prover]
    pub fn try_claim_for_request(&mut self, now: u64) -> (r: Option<usize>)
        requires
            old(self).wf(),
        ensures
            final(self).wf(),
            final(self).same_shape(*old(self)),
            final(self).low_block_num == old(self).low_block_num,
            final(self).low_anchor_hash == old(self).low_anchor_hash,
            final(self).saved_slices == old(self).saved_slices,
            final(self).saved_history@ == old(self).saved_history@,
            r is None ==> *final(self) == *old(self) && (forall|j: int|
                !old(self).request_claimable(j)),
            r matches Some(i) ==> ({
                let s = final(self).slices@[i as int];
                &&& old(self).request_claimable(i as int)
                &&& forall|j: int| 0 <= j < i as int ==> !old(self).request_claimable(j)
                &&& final(self).slices@ == old(self).slices@.update(i as int, s)
                &&& s.status == SliceStatus::Requested
                &&& s.start_block_num == old(self).slices@[i as int].start_block_num
                &&& s.headers@.len() == 0
                &&& s.from_peer is None
                &&& s.request_time == now
            }),
    {
        let ghost pre = *self;
        match self.find_empty() {
            None => None,
            Some(i) => {
                let start = self.slices[i].start_block_num;
                let claimed = HeaderSlice {
                    start_block_num: start,
                    headers: Vec::new(),
                    status: SliceStatus::Requested,
                    from_peer: None,
                    request_time: now,
                };
                self.set_slice(i, claimed);
                proof {
                    assert(slice_update_frame(pre, *self, i as int));
                    lemma_wf_slice_update(pre, *self, i as int);
                }
                Some(i)
            },
        }
    }

    /// Atomically matches an inbound response to the `Requested` slice
    /// with the given range start, stores its headers and records the
    /// supplying peer, moving the slice to `Fetched`. Returns the matched
    /// index; a response that matches no requested range, or whose header
    /// count does not fill the slice, is dropped.
    #[verifier::rlimit(100)]
    #[verifier::spinoff_prover]
    pub fn mark_fetched(
        &mut self,
        start: BlockNumber,
        headers: Vec<Header>,
        peer: PeerId,
    ) -> (r: Option<usize>)
        requires
            old(self).wf(),
        ensures
            final(self).wf(),
            final(self).same_shape(*old(self)),
            final(self).low_block_num == old(self).low_block_num,
            final(self).low_anchor_hash == old(self).low_anchor_hash,
            final(self).saved_slices == old(self).saved_slices,
            final(self).saved_history@ == old(self).saved_history@,
            r is None ==> *final(self) == *old(self) && (forall|j: int|
                0 <= j < old(self).n() ==> !((#[trigger] old(self).slices@[j]).status
                    == SliceStatus::Requested && old(self).slices@[j].start_block_num == start
                    && headers@.len() == old(self).slice_size)),
            r matches Some(i) ==> ({
                let s = final(self).slices@[i as int];
                &&& 0 <= (i as int) < old(self).n()
                &&& old(self).slices@[i as int].status == SliceStatus::Requested
                &&& old(self).slices@[i as int].start_block_num == start
                &&& headers@.len() == old(self).slice_size
                &&& final(self).slices@ == old(self).slices@.update(i as int, s)
                &&& s.status == SliceStatus::Fetched
                &&& s.start_block_num == start
                &&& s.headers@ == headers@
                &&& s.from_peer == Some(peer)
            }),
    {
        let ghost pre = *self;
        match self.find_requested(start) {
            None => None,
            Some(i) => {
                if headers.len() != self.slice_size {
                    return None;
                }
                let fetched = HeaderSlice {
                    start_block_num: start,
                    headers,
                    status: SliceStatus::Fetched,
                    from_peer: Some(peer),
                    request_time: 0,
                };
                self.set_slice(i, fetched);
                proof {
                    assert(slice_update_frame(pre, *self, i as int));
                    lemma_wf_slice_update(pre, *self, i as int);
                }
                Some(i)
            },
        }
    }

    /// The hash that the first header of slice `i` must link to, read
    /// from the window: the low-boundary anchor for the first unsaved
    /// slice, else the last header hash of the verified predecessor.
    #[verifier::rlimit(100)]
    #[verifier::spinoff_prover]
    pub fn link_anchor(&self, i: usize) -> (r: BlockHash)
        requires
            self.wf(),
            self.verify_ready(i as int),
        ensures
            r == self.link_anchor_at(i as int),
    {
        proof {
            reveal(HeaderSlices::link_anchor_at);
            reveal(HeaderSlices::slices_ok);
            reveal(HeaderSlices::slice_wf);
            assert(self.slice_wf(i as int));
        }
        if i == self.saved_slices {
            self.low_anchor_hash
        } else {
            proof {
                reveal(HeaderSlices::slices_ok);
            reveal(HeaderSlices::slice_wf);
                assert(self.slice_wf(i as int - 1));
            }
            let prev = &self.slices[i - 1];
            prev.headers[prev.headers.len() - 1].hash
        }
    }

    /// Moves a slice whose headers passed all checks to `Verified`.
    #[verifier::rlimit(100)]
    #[verifier::spinoff_prover]
    pub fn mark_verified(&mut self, i: usize)
        requires
            old(self).wf(),
            old(self).verify_ready(i as int),
            headers_chain_ok(
                old(self).slices@[i as int].headers@,
                old(self).link_anchor_at(i as int),
                old(self).spec_slice_start(i as int),
            ),
            headers_all_valid(old(self).slices@[i as int].headers@, old(self).chain_config),
        ensures
            final(self).wf(),
            final(self).same_shape(*old(self)),
            final(self).low_block_num == old(self).low_block_num,
            final(self).low_anchor_hash == old(self).low_anchor_hash,
            final(self).saved_slices == old(self).saved_slices,
            final(self).saved_history@ == old(self).saved_history@,
            final(self).slices@ == old(self).slices@.update(
                i as int,
                final(self).slices@[i as int],
            ),
            ({
                let s = final(self).slices@[i as int];
                &&& s.status == SliceStatus::Verified
                &&& s.start_block_num == old(self).slices@[i as int].start_block_num
                &&& s.headers@ == old(self).slices@[i as int].headers@
                &&& s.from_peer == old(self).slices@[i as int].from_peer
            }),
    {
        let ghost pre = *self;
        proof {
            reveal(HeaderSlices::slices_ok);
            reveal(HeaderSlices::slice_wf);
            assert(pre.slice_wf(i as int));
        }
        let mut s = self.slices.remove(i);
        s.status = SliceStatus::Verified;
        self.slices.insert(i, s);
        proof {
            assert(final(self).slices@ =~= pre.slices@.update(
                i as int,
                final(self).slices@[i as int],
            ));
            assert(self.slices@[i as int].headers@ == pre.slices@[i as int].headers@);
            assert(headers_chain_ok(
                self.slices@[i as int].headers@,
                pre.link_anchor_at(i as int),
                pre.spec_slice_start(i as int),
            ));
            assert(headers_all_valid(self.slices@[i as int].headers@, pre.chain_config));
            assert(slice_update_frame(pre, *self, i as int));
            lemma_wf_slice_update(pre, *self, i as int);
        }
    }

    /// Moves a slice whose headers failed a check to `Invalid`, keeping
    /// the headers and the peer association so the penalize stage can
    /// resolve the responsible peer.
    #[verifier::rlimit(100)]
    #[verifier::spinoff_prover]
    pub fn mark_invalid(&mut self, i: usize)
        requires
            old(self).wf(),
            0 <= (i as int) < old(self).n(),
            old(self).slices@[i as int].status == SliceStatus::Fetched,
        ensures
            final(self).wf(),
            final(self).same_shape(*old(self)),
            final(self).low_block_num == old(self).low_block_num,
            final(self).low_anchor_hash == old(self).low_anchor_hash,
            final(self).saved_slices == old(self).saved_slices,
            final(self).saved_history@ == old(self).saved_history@,
            final(self).slices@ == old(self).slices@.update(
                i as int,
                final(self).slices@[i as int],
            ),
            ({
                let s = final(self).slices@[i as int];
                &&& s.status == SliceStatus::Invalid
                &&& s.start_block_num == old(self).slices@[i as int].start_block_num
                &&& s.headers@ == old(self).slices@[i as int].headers@
                &&& s.from_peer == old(self).slices@[i as int].from_peer
            }),
    {
        let ghost pre = *self;
        proof {
            reveal(HeaderSlices::slices_ok);
            reveal(HeaderSlices::slice_wf);
            assert(pre.slice_wf(i as int));
        }
        let mut s = self.slices.remove(i);
        s.status = SliceStatus::Invalid;
        self.slices.insert(i, s);
        proof {
            assert(final(self).slices@ =~= pre.slices@.update(
                i as int,
                final(self).slices@[i as int],
            ));
            assert(slice_update_frame(pre, *self, i as int));
            lemma_wf_slice_update(pre, *self, i as int);
        }
    }

    /// Returns a `Requested` or `Invalid` slice to `Empty`, dropping its
    /// headers and releasing the peer association, so the fetch-request
    /// stage will claim it again.
    #[verifier::rlimit(100)]
    #[verifier::spinoff_prover]
    pub fn reset_to_empty(&mut self, i: usize)
        requires
            old(self).wf(),
            0 <= (i as int) < old(self).n(),
            old(self).slices@[i as int].status == SliceStatus::Requested || old(
                self,
            ).slices@[i as int].status == SliceStatus::Invalid,
        ensures
            final(self).wf(),
            final(self).same_shape(*old(self)),
            final(self).low_block_num == old(self).low_block_num,
            final(self).low_anchor_hash == old(self).low_anchor_hash,
            final(self).saved_slices == old(self).saved_slices,
            final(self).saved_history@ == old(self).saved_history@,
            final(self).slices@ == old(self).slices@.update(
                i as int,
                final(self).slices@[i as int],
            ),
            ({
                let s = final(self).slices@[i as int];
                &&& s.status == SliceStatus::Empty
                &&& s.start_block_num == old(self).slices@[i as int].start_block_num
                &&& s.headers@.len() == 0
                &&& s.from_peer is None
            }),
    {
        let ghost pre = *self;
        let start = self.slices[i].start_block_num;
        let cleared = HeaderSlice {
            start_block_num: start,
            headers: Vec::new(),
            status: SliceStatus::Empty,
            from_peer: None,
            request_time: 0,
        };
        self.set_slice(i, cleared);
        proof {
            assert(slice_update_frame(pre, *self, i as int));
            lemma_wf_slice_update(pre, *self, i as int);
        }
    }

    /// Drains the contiguous run of `Verified` slices at the low
    /// boundary: returns their headers in block order for persistence,
    /// marks the slices `Saved`, frees their memory, and advances the low
    /// boundary and its anchor past them. The returned batch is itself a
    /// chain anchored on the previous low anchor, starting at the
    /// previous low boundary.
    #[verifier::rlimit(100)]
    #[verifier::spinoff_prover]
    pub fn mark_saved_prefix(&mut self) -> (out: Vec<Header>)
        requires
            old(self).wf(),
        ensures
            final(self).wf(),
            final(self).same_shape(*old(self)),
            final(self).watch_generation == old(self).watch_generation,
            old(self).saved_n() <= final(self).saved_n() <= old(self).n(),
            forall|j: int|
                old(self).saved_n() <= j < final(self).saved_n()
                    ==> (#[trigger] old(self).slices@[j]).status == SliceStatus::Verified,
            final(self).saved_n() < old(self).n()
                ==> old(self).slices@[final(self).saved_n()].status != SliceStatus::Verified,
            forall|j: int|
                0 <= j < old(self).n() && !(old(self).saved_n() <= j < final(self).saved_n())
                    ==> final(self).slices@[j] == old(self).slices@[j],
            forall|j: int|
                old(self).saved_n() <= j < final(self).saved_n()
                    ==> (#[trigger] final(self).slices@[j]).status == SliceStatus::Saved,
            final(self).saved_history@ == old(self).saved_history@ + out@,
            out@.len() == (final(self).saved_n() - old(self).saved_n()) * (
            old(self).slice_size as int),
            headers_chain_ok(out@, old(self).low_anchor_hash, old(self).low_block_num.0 as int),
            headers_all_valid(out@, old(self).chain_config),
            final(self).low_block_num.0 == old(self).low_block_num.0 + out@.len(),
    {
        let ghost pre = *self;
        let mut out: Vec<Header> = Vec::new();
        proof {
            assert(pre.saved_history@ + out@ =~= pre.saved_history@);
            assert(headers_chain_ok(out@, pre.low_anchor_hash, pre.low_block_num.0 as int)) by {
                reveal(headers_chain_ok);
            }
            assert(headers_all_valid(out@, pre.chain_config)) by {
                reveal(headers_all_valid);
            }
        }
        while self.saved_slices < self.slices.len()
            && self.slices[self.saved_slices].status == SliceStatus::Verified
            invariant
                self.wf(),
                pre.wf(),
                self.same_shape(pre),
                self.watch_generation == pre.watch_generation,
                pre.saved_n() <= self.saved_n() <= self.n(),
                out@.len() == (self.saved_n() - pre.saved_n()) * (pre.slice_size as int),
                self.low_block_num.0 == pre.low_block_num.0 + out@.len(),
                self.saved_history@ == pre.saved_history@ + out@,
                headers_chain_ok(out@, pre.low_anchor_hash, pre.low_block_num.0 as int),
                headers_all_valid(out@, pre.chain_config),
                self.low_anchor_hash == (if out@.len() == 0 {
                    pre.low_anchor_hash
                } else {
                    out@.last().hash
                }),
                forall|j: int|
                    pre.saved_n() <= j < self.saved_n() ==> (#[trigger] pre.slices@[j]).status
                        == SliceStatus::Verified,
                forall|j: int|
                    0 <= j < pre.n() && !(pre.saved_n() <= j < self.saved_n())
                        ==> self.slices@[j] == pre.slices@[j],
                forall|j: int|
                    pre.saved_n() <= j < self.saved_n() ==> (#[trigger] self.slices@[j]).status
                        == SliceStatus::Saved,
            decreases self.n() - self.saved_n(),
        {
            let ghost mid = *self;
            let ghost out_pre = out@;
            let mut hs = self.save_one();
            let ghost hs_view = hs@;
            out.append(&mut hs);
            proof {
                lemma_mul_is_distributive_add_other_way(
                    pre.slice_size as int,
                    mid.saved_n() - pre.saved_n(),
                    1,
                );
                assert(mid.low_anchor_hash == (if out_pre.len() == 0 {
                    pre.low_anchor_hash
                } else {
                    out_pre.last().hash
                }));
                assert(mid.low_block_num.0 == pre.low_block_num.0 + out_pre.len());
                lemma_chain_concat(out_pre, hs_view, pre.low_anchor_hash, pre.low_block_num.0 as int);
                lemma_all_valid_concat(out_pre, hs_view, pre.chain_config);
                assert(out@ == out_pre + hs_view);
                assert(hs_view.len() > 0);
                assert(out@.last() == hs_view.last());
                assert(self.saved_history@ =~= pre.saved_history@ + out@);
                assert forall|j: int|
                    0 <= j < pre.n() && !(pre.saved_n() <= j
                        < self.saved_n()) implies self.slices@[j] == pre.slices@[j] by {
                    assert(self.slices@[j] == mid.slices@[j]);
                }
            }
        }
        out
    }

    /// Saves the single verified slice at the low boundary, returning its
    /// headers: they chain from the current low anchor starting at the
    /// current low boundary.
    #[verifier::rlimit(100)]
    #[verifier::spinoff_prover]
    fn save_one(&mut self) -> (hs: Vec<Header>)
        requires
            old(self).wf(),
            old(self).saved_n() < old(self).n(),
            old(self).slices@[old(self).saved_n()].status == SliceStatus::Verified,
        ensures
            final(self).wf(),
            final(self).same_shape(*old(self)),
            final(self).watch_generation == old(self).watch_generation,
            final(self).saved_slices == old(self).saved_slices + 1,
            hs@ == old(self).slices@[old(self).saved_n()].headers@,
            hs@.len() == old(self).slice_size,
            headers_chain_ok(hs@, old(self).low_anchor_hash, old(self).low_block_num.0 as int),
            headers_all_valid(hs@, old(self).chain_config),
            final(self).low_block_num.0 == old(self).low_block_num.0 + old(self).slice_size,
            final(self).low_anchor_hash == hs@.last().hash,
            final(self).saved_history@ == old(self).saved_history@ + hs@,
            forall|j: int|
                0 <= j < old(self).n() && j != old(self).saved_n()
                    ==> final(self).slices@[j] == old(self).slices@[j],
            final(self).slices@[old(self).saved_n()].status == SliceStatus::Saved,
    {
        let ghost pre = *self;
        let i = self.saved_slices;
        proof {
            reveal(HeaderSlices::slices_ok);
            reveal(HeaderSlices::slice_wf);
            assert(pre.slice_wf(i as int));
            lemma_mul_is_distributive_add_other_way(pre.slice_size as int, i as int, 1);
            lemma_mul_inequality(i as int + 1, pre.n(), pre.slice_size as int);
        }
        let mut s = self.slices.remove(i);
        let last_hash = s.headers[s.headers.len() - 1].hash;
        let ghost hs_seq = s.headers@;
        let mut taken: Vec<Header> = Vec::new();
        core::mem::swap(&mut taken, &mut s.headers);
        s.status = SliceStatus::Saved;
        self.slices.insert(i, s);
        let len = self.slices.len();
        proof {
            assert(i as int + 1 <= len as int);
        }
        self.saved_slices = i + 1;
        self.low_block_num = BlockNumber(self.low_block_num.0 + self.slice_size as u64);
        self.low_anchor_hash = last_hash;
        self.saved_history = Ghost(self.saved_history@ + hs_seq);
        proof {
            assert(self.slices@ =~= pre.slices@.update(i as int, self.slices@[i as int]));
            assert(save_step_frame(pre, *self, i as int));
            lemma_wf_save_step(pre, *self, i as int);
            reveal(HeaderSlices::link_anchor_at);
            assert(headers_chain_ok(
                hs_seq,
                pre.link_anchor_at(i as int),
                pre.spec_slice_start(i as int),
            ));
            assert(pre.link_anchor_at(i as int) == pre.low_anchor_hash);
            assert(pre.spec_slice_start(i as int) == pre.low_block_num.0 as int);
            assert(headers_all_valid(hs_seq, pre.chain_config));
        }
        taken
    }
}

/// Two chains concatenate into one chain when the second is anchored on
/// the last hash of the first and continues its numbering.
pub proof fn lemma_chain_concat(a: Seq<Header>, b: Seq<Header>, anchor: BlockHash, start: int)
    requires
        headers_chain_ok(a, anchor, start),
        headers_chain_ok(
            b,
            if a.len() == 0 {
                anchor
            } else {
                a.last().hash
            },
            start + a.len(),
        ),
    ensures
        headers_chain_ok(a + b, anchor, start),
{
    reveal(headers_chain_ok);
    let c = a + b;
    assert forall|j: int| 0 <= j < c.len() implies (#[trigger] c[j]).number.0 == start + j by {
        if j < a.len() {
            assert(c[j] == a[j]);
        } else {
            assert(c[j] == b[j - a.len()]);
        }
    }
    if c.len() > 0 {
        if a.len() > 0 {
            assert(c[0] == a[0]);
        } else {
            assert(c[0] == b[0]);
        }
    }
    assert forall|j: int| 1 <= j < c.len() implies (#[trigger] c[j]).parent_hash == c[j - 1].hash by {
        if j < a.len() {
            assert(c[j] == a[j]);
            assert(c[j - 1] == a[j - 1]);
        } else if j == a.len() {
            assert(c[j] == b[0]);
            assert(a.len() > 0);
            assert(c[j - 1] == a[j - 1]);
            assert(a[j - 1] == a.last());
        } else {
            assert(c[j] == b[j - a.len()]);
            assert(c[j - 1] == b[j - a.len() - 1]);
        }
    }
}

/// Two all-valid header sequences concatenate into one.
pub proof fn lemma_all_valid_concat(a: Seq<Header>, b: Seq<Header>, cfg: ChainConfig)
    requires
        headers_all_valid(a, cfg),
        headers_all_valid(b, cfg),
    ensures
        headers_all_valid(a + b, cfg),
{
    reveal(headers_all_valid);
    let c = a + b;
    assert forall|j: int| 0 <= j < c.len() implies cfg.spec_header_valid(#[trigger] c[j]) by {
        if j < a.len() {
            assert(c[j] == a[j]);
        } else {
            assert(c[j] == b[j - a.len()]);
        }
    }
}

/// Frame of one save step: window `b` equals window `a` except that the
/// first verified slice after the saved prefix was marked `Saved` and
/// emptied, and the saved prefix, low boundary, anchor and history were
/// moved past it.
pub open spec fn save_step_frame(a: HeaderSlices, b: HeaderSlices, i: int) -> bool {
    &&& i == a.saved_n()
    &&& 0 <= i < a.n()
    &&& a.slices@[i].status == SliceStatus::Verified
    &&& b.slices@ == a.slices@.update(i, b.slices@[i])
    &&& b.slices@[i].status == SliceStatus::Saved
    &&& b.slices@[i].headers@.len() == 0
    &&& b.slices@[i].start_block_num == a.slices@[i].start_block_num
    &&& b.start_block_num == a.start_block_num
    &&& b.start_hash == a.start_hash
    &&& b.final_block_num == a.final_block_num
    &&& b.slice_size == a.slice_size
    &&& b.mem_limit == a.mem_limit
    &&& b.chain_config == a.chain_config
    &&& b.saved_slices == a.saved_slices + 1
    &&& b.low_block_num.0 == a.low_block_num.0 + a.slice_size
    &&& b.low_anchor_hash == a.slices@[i].headers@.last().hash
    &&& b.saved_history@ == a.saved_history@ + a.slices@[i].headers@
}

/// One save step keeps the saved history a single chain anchored at the
/// checkpoint, ending in the new low anchor.
#[verifier::rlimit(100)]
#[verifier::spinoff_prover]
proof fn lemma_save_step_history(a: HeaderSlices, b: HeaderSlices, i: int)
    requires
        a.wf(),
        save_step_frame(a, b, i),
    ensures
        b.saved_history@.len() == b.saved_n() * (b.slice_size as int),
        headers_chain_ok(b.saved_history@, b.start_hash, b.start_block_num.0 as int),
        headers_all_valid(b.saved_history@, b.chain_config),
        b.low_anchor_hash == b.saved_history@.last().hash,
        b.low_block_num.0 == b.start_block_num.0 + b.saved_n() * (b.slice_size as int),
{
    reveal(HeaderSlices::slices_ok);
    reveal(HeaderSlices::link_anchor_at);
    reveal(HeaderSlices::slices_ok);
            reveal(HeaderSlices::slice_wf);
    assert(a.slice_wf(i));
    let ss = a.slice_size as int;
    let hs = a.slices@[i].headers@;
    assert(hs.len() == ss >= 1);
    lemma_mul_is_distributive_add_other_way(ss, i, 1);
    assert(headers_chain_ok(hs, a.link_anchor_at(i), a.spec_slice_start(i)));
    if a.saved_history@.len() == 0 {
        assert(i * ss == 0);
        assert(i == 0) by {
            if i > 0 {
                lemma_mul_inequality(1, i, ss);
            }
        }
        assert(a.link_anchor_at(i) == a.start_hash);
    } else {
        assert(a.link_anchor_at(i) == a.saved_history@.last().hash);
    }
    assert(a.spec_slice_start(i) == a.start_block_num.0 + a.saved_history@.len());
    lemma_chain_concat(a.saved_history@, hs, a.start_hash, a.start_block_num.0 as int);
    assert(headers_all_valid(hs, a.chain_config));
    lemma_all_valid_concat(a.saved_history@, hs, a.chain_config);
    assert(b.saved_history@.last() == hs.last());
}

/// One save step keeps every slice's per-slice shape.
#[verifier::rlimit(100)]
#[verifier::spinoff_prover]
proof fn lemma_save_step_shapes(a: HeaderSlices, b: HeaderSlices, i: int)
    requires
        a.wf(),
        save_step_frame(a, b, i),
    ensures
        forall|j: int| 0 <= j < b.n() ==> #[trigger] b.slice_wf(j),
{
    reveal(HeaderSlices::slices_ok);
    assert forall|j: int| 0 <= j < b.n() implies #[trigger] b.slice_wf(j) by {
        reveal(HeaderSlices::slices_ok);
            reveal(HeaderSlices::slice_wf);
        assert(a.slice_wf(j));
        if j != i {
            assert(b.slices@[j] == a.slices@[j]);
        }
    }
}

/// One save step keeps the verified slices contiguous above the new
/// saved prefix.
#[verifier::rlimit(100)]
#[verifier::spinoff_prover]
proof fn lemma_save_step_contiguous(a: HeaderSlices, b: HeaderSlices, i: int)
    requires
        a.wf(),
        save_step_frame(a, b, i),
    ensures
        b.verified_contiguous(),
{
    reveal(HeaderSlices::slices_ok);
    assert forall|j: int|
        0 <= j < b.n() && (#[trigger] b.slices@[j]).status == SliceStatus::Verified implies (j
        == b.saved_n() || b.slices@[j - 1].status == SliceStatus::Verified) by {
        assert(j != i);
        assert(b.slices@[j] == a.slices@[j]);
        assert(a.slices@[j].status == SliceStatus::Verified);
        if j != b.saved_n() {
            reveal(HeaderSlices::slices_ok);
            reveal(HeaderSlices::slice_wf);
            assert(a.slice_wf(j));
            assert(j > i >= 0);
            assert(j != a.saved_n());
            assert(a.slices@[j - 1].status == SliceStatus::Verified);
            assert(j - 1 != i);
            assert(b.slices@[j - 1] == a.slices@[j - 1]);
        }
    }
}

/// One save step keeps every verified slice consensus-valid.
#[verifier::rlimit(100)]
#[verifier::spinoff_prover]
proof fn lemma_save_step_validity(a: HeaderSlices, b: HeaderSlices, i: int)
    requires
        a.wf(),
        save_step_frame(a, b, i),
    ensures
        b.validity_ok(),
{
    reveal(HeaderSlices::slices_ok);
    assert forall|j: int|
        0 <= j < b.n() && (#[trigger] b.slices@[j]).status
            == SliceStatus::Verified implies headers_all_valid(
        b.slices@[j].headers@,
        b.chain_config,
    ) by {
        assert(j != i);
        assert(b.slices@[j] == a.slices@[j]);
        assert(a.slices@[j].status == SliceStatus::Verified);
        assert(headers_all_valid(a.slices@[j].headers@, a.chain_config));
    }
}

/// One save step keeps continuity: the slice right above the run now
/// anchors on the low anchor, which is the saved slice's last hash.
#[verifier::rlimit(100)]
#[verifier::spinoff_prover]
proof fn lemma_save_step_continuity(a: HeaderSlices, b: HeaderSlices, i: int)
    requires
        a.wf(),
        save_step_frame(a, b, i),
    ensures
        b.continuity_ok(),
{
    reveal(HeaderSlices::slices_ok);
    reveal(HeaderSlices::link_anchor_at);
    assert forall|j: int|
        0 <= j < b.n() && (#[trigger] b.slices@[j]).status
            == SliceStatus::Verified implies headers_chain_ok(
        b.slices@[j].headers@,
        b.link_anchor_at(j),
        b.spec_slice_start(j),
    ) by {
        assert(j != i);
        assert(b.slices@[j] == a.slices@[j]);
        assert(a.slices@[j].status == SliceStatus::Verified);
        assert(headers_chain_ok(
            a.slices@[j].headers@,
            a.link_anchor_at(j),
            a.spec_slice_start(j),
        ));
        assert(j != a.saved_n());
        if j == b.saved_n() {
            assert(j - 1 == i);
            assert(a.link_anchor_at(j) == a.slices@[i].headers@.last().hash);
            assert(b.link_anchor_at(j) == b.low_anchor_hash);
        } else {
            reveal(HeaderSlices::slices_ok);
            reveal(HeaderSlices::slice_wf);
            assert(a.slice_wf(j));
            assert(j > i >= 0);
            assert(a.slices@[j - 1].status == SliceStatus::Verified);
            assert(j - 1 != i);
            assert(b.slices@[j - 1] == a.slices@[j - 1]);
            assert(b.link_anchor_at(j) == a.link_anchor_at(j));
        }
    }
}

/// Saving the first verified slice after the saved prefix, while moving
/// the low boundary, its anchor and the save history past it, keeps the
/// window well formed.
#[verifier::rlimit(100)]
#[verifier::spinoff_prover]
pub proof fn lemma_wf_save_step(a: HeaderSlices, b: HeaderSlices, i: int)
    requires
        a.wf(),
        save_step_frame(a, b, i),
    ensures
        b.wf(),
{
    lemma_save_step_history(a, b, i);
    lemma_save_step_shapes(a, b, i);
    lemma_save_step_contiguous(a, b, i);
    lemma_save_step_validity(a, b, i);
    lemma_save_step_continuity(a, b, i);
    assert(b.slices_ok()) by {
        reveal(HeaderSlices::slices_ok);
    }
}

/// Frame of a single-slice transition: window `b` equals window `a`
/// except that slice `i` was replaced by a slice of the same range, and
/// the slice was neither verified nor saved before.
pub open spec fn slice_update_frame(a: HeaderSlices, b: HeaderSlices, i: int) -> bool {
    &&& 0 <= i < a.n()
    &&& b.slices@ == a.slices@.update(i, b.slices@[i])
    &&& b.start_block_num == a.start_block_num
    &&& b.start_hash == a.start_hash
    &&& b.final_block_num == a.final_block_num
    &&& b.low_block_num == a.low_block_num
    &&& b.low_anchor_hash == a.low_anchor_hash
    &&& b.saved_slices == a.saved_slices
    &&& b.slice_size == a.slice_size
    &&& b.mem_limit == a.mem_limit
    &&& b.chain_config == a.chain_config
    &&& b.saved_history@ == a.saved_history@
    &&& a.slices@[i].status != SliceStatus::Verified
    &&& a.slices@[i].status != SliceStatus::Saved
    &&& b.slices@[i].start_block_num == a.slices@[i].start_block_num
    &&& b.slices@[i].status != SliceStatus::Saved
    &&& match b.slices@[i].status {
        SliceStatus::Empty | SliceStatus::Requested => b.slices@[i].headers@.len() == 0
            && b.slices@[i].from_peer is None,
        SliceStatus::Verified => {
            &&& b.slices@[i].headers@.len() == a.slice_size
            &&& b.slices@[i].from_peer is Some
            &&& a.verify_ready(i)
            &&& headers_chain_ok(
                b.slices@[i].headers@,
                a.link_anchor_at(i),
                a.spec_slice_start(i),
            )
            &&& headers_all_valid(b.slices@[i].headers@, a.chain_config)
        },
        _ => b.slices@[i].headers@.len() == a.slice_size && b.slices@[i].from_peer is Some,
    }
}

/// Under a single-slice transition, each slice keeps its per-slice shape.
#[verifier::rlimit(100)]
#[verifier::spinoff_prover]
proof fn lemma_slice_update_shapes(a: HeaderSlices, b: HeaderSlices, i: int)
    requires
        a.wf(),
        slice_update_frame(a, b, i),
    ensures
        forall|j: int| 0 <= j < b.n() ==> #[trigger] b.slice_wf(j),
{
    reveal(HeaderSlices::slices_ok);
    assert forall|j: int| 0 <= j < b.n() implies #[trigger] b.slice_wf(j) by {
        reveal(HeaderSlices::slices_ok);
            reveal(HeaderSlices::slice_wf);
        assert(a.slice_wf(j));
        reveal(HeaderSlices::slices_ok);
            reveal(HeaderSlices::slice_wf);
        assert(a.slice_wf(i));
        if j == i {
            assert(i >= a.saved_n());
        } else {
            assert(b.slices@[j] == a.slices@[j]);
        }
    }
}

/// Under a single-slice transition, verified slices stay contiguous.
#[verifier::rlimit(100)]
#[verifier::spinoff_prover]
proof fn lemma_slice_update_contiguous(a: HeaderSlices, b: HeaderSlices, i: int)
    requires
        a.wf(),
        slice_update_frame(a, b, i),
    ensures
        b.verified_contiguous(),
{
    reveal(HeaderSlices::slices_ok);
    assert forall|j: int|
        0 <= j < b.n() && (#[trigger] b.slices@[j]).status == SliceStatus::Verified implies (j
        == b.saved_n() || b.slices@[j - 1].status == SliceStatus::Verified) by {
        if j != i {
            assert(a.slices@[j].status == SliceStatus::Verified);
            reveal(HeaderSlices::slices_ok);
            reveal(HeaderSlices::slice_wf);
            assert(a.slice_wf(j));
            if j != b.saved_n() {
                assert(j > a.saved_n() >= 0);
                assert(a.slices@[j - 1].status == SliceStatus::Verified);
                reveal(HeaderSlices::slices_ok);
            reveal(HeaderSlices::slice_wf);
                assert(a.slice_wf(i));
                assert(j - 1 != i);
                assert(b.slices@[j - 1] == a.slices@[j - 1]);
            }
        } else {
            assert(a.verify_ready(i));
            if i != b.saved_n() {
                assert(b.slices@[i - 1] == a.slices@[i - 1]);
            }
        }
    }
}

/// Under a single-slice transition, every verified slice stays
/// consensus-valid.
#[verifier::rlimit(100)]
#[verifier::spinoff_prover]
proof fn lemma_slice_update_validity(a: HeaderSlices, b: HeaderSlices, i: int)
    requires
        a.wf(),
        slice_update_frame(a, b, i),
    ensures
        b.validity_ok(),
{
    reveal(HeaderSlices::slices_ok);
    assert forall|j: int|
        0 <= j < b.n() && (#[trigger] b.slices@[j]).status
            == SliceStatus::Verified implies headers_all_valid(
        b.slices@[j].headers@,
        b.chain_config,
    ) by {
        if j != i {
            assert(b.slices@[j] == a.slices@[j]);
            assert(a.slices@[j].status == SliceStatus::Verified);
            assert(headers_all_valid(a.slices@[j].headers@, a.chain_config));
        }
    }
}

/// Under a single-slice transition, continuity of verified slices keeps.
#[verifier::rlimit(100)]
#[verifier::spinoff_prover]
proof fn lemma_slice_update_continuity(a: HeaderSlices, b: HeaderSlices, i: int)
    requires
        a.wf(),
        slice_update_frame(a, b, i),
    ensures
        b.continuity_ok(),
{
    reveal(HeaderSlices::slices_ok);
    reveal(HeaderSlices::link_anchor_at);
    reveal(HeaderSlices::slices_ok);
            reveal(HeaderSlices::slice_wf);
    assert(a.slice_wf(i));
    assert forall|j: int|
        0 <= j < b.n() && (#[trigger] b.slices@[j]).status
            == SliceStatus::Verified implies headers_chain_ok(
        b.slices@[j].headers@,
        b.link_anchor_at(j),
        b.spec_slice_start(j),
    ) by {
        if j == i {
            assert(a.verify_ready(i));
            assert(headers_chain_ok(
                b.slices@[i].headers@,
                a.link_anchor_at(i),
                a.spec_slice_start(i),
            ));
            assert(b.link_anchor_at(i) == a.link_anchor_at(i));
        } else {
            assert(a.slices@[j].status == SliceStatus::Verified);
            assert(headers_chain_ok(
                a.slices@[j].headers@,
                a.link_anchor_at(j),
                a.spec_slice_start(j),
            ));
            if j != b.saved_n() {
                reveal(HeaderSlices::slices_ok);
            reveal(HeaderSlices::slice_wf);
                assert(a.slice_wf(j));
                assert(j > a.saved_n() >= 0);
                assert(a.slices@[j - 1].status == SliceStatus::Verified);
                assert(j - 1 != i);
                assert(b.slices@[j - 1] == a.slices@[j - 1]);
                assert(b.link_anchor_at(j) == a.link_anchor_at(j));
            }
            assert(b.slices@[j] == a.slices@[j]);
        }
    }
}

/// Replacing one unsaved, unverified slice by a new slice of the same
/// range whose contents fit its status keeps the window well formed.
/// Every single-slice transition reduces to this.
#[verifier::rlimit(100)]
#[verifier::spinoff_prover]
pub proof fn lemma_wf_slice_update(a: HeaderSlices, b: HeaderSlices, i: int)
    requires
        a.wf(),
        slice_update_frame(a, b, i),
    ensures
        b.wf(),
{
    lemma_slice_update_shapes(a, b, i);
    lemma_slice_update_contiguous(a, b, i);
    lemma_slice_update_validity(a, b, i);
    lemma_slice_update_continuity(a, b, i);
    assert(b.slices_ok()) by {
        reveal(HeaderSlices::slices_ok);
    }
}

/// Continuity invariant: a verified slice's headers always chain from
/// their anchor: the previous slice's last header hash, or, for the first
/// unsaved slice of a window that has saved nothing, the supplied
/// checkpoint hash. This holds in every well-formed window state, so it
/// is never violated after verification.
pub proof fn lemma_verified_continuity(w: HeaderSlices, i: int)
    requires
        w.wf(),
        0 <= i < w.n(),
        w.slices@[i].status == SliceStatus::Verified,
    ensures
        w.slices@[i].headers@.len() == w.slice_size >= 1,
        headers_all_valid(w.slices@[i].headers@, w.chain_config),
        w.slices@[i].headers@[0].parent_hash == w.link_anchor_at(i),
        i == w.saved_n() && w.saved_n() == 0 ==> w.slices@[i].headers@[0].parent_hash
            == w.start_hash,
        i != w.saved_n() ==> w.slices@[i].headers@[0].parent_hash
            == w.slices@[i - 1].headers@.last().hash,
{
    reveal(headers_chain_ok);
    reveal(HeaderSlices::link_anchor_at);
    reveal(HeaderSlices::slices_ok);
            reveal(HeaderSlices::slice_wf);
    assert(w.slice_wf(i));
    assert(headers_chain_ok(w.slices@[i].headers@, w.link_anchor_at(i), w.spec_slice_start(i)));
}

/// The whole saved history is one chain anchored at the checkpoint hash,
/// numbered consecutively from the window's start: persistence is
/// chain-order-preserving across the entire run.
pub proof fn lemma_saved_chain(w: HeaderSlices)
    requires
        w.wf(),
    ensures
        headers_chain_ok(w.saved_history@, w.start_hash, w.start_block_num.0 as int),
        headers_all_valid(w.saved_history@, w.chain_config),
        w.saved_history@.len() == w.saved_n() * (w.slice_size as int),
{
}

/// Exclusive ownership: once a claim of slice `i` succeeds, the slice is
/// no longer claimable, so of two racing claims exactly one wins it; the
/// loser can only claim a slice that was already claimable beforehand.
pub proof fn lemma_claim_exclusive(a: HeaderSlices, b: HeaderSlices, i: int)
    requires
        a.request_claimable(i),
        b.slices@ == a.slices@.update(i, b.slices@[i]),
        b.slices@[i].status == SliceStatus::Requested,
    ensures
        !b.request_claimable(i),
        forall|j: int| b.request_claimable(j) ==> j != i && a.request_claimable(j),
{
    assert forall|j: int| b.request_claimable(j) implies j != i && a.request_claimable(j) by {
        assert(b.slices@[j].status == SliceStatus::Empty);
        if j != i {
            assert(b.slices@[j] == a.slices@[j]);
        }
    }
}

/// Penalize-then-retry: a claimable slice holds no peer association and
/// no data, so after an invalid slice is reset, any new fetch for its
/// range starts clean, before any request can be issued for it.
pub proof fn lemma_refetch_starts_clean(w: HeaderSlices, i: int)
    requires
        w.wf(),
        w.request_claimable(i),
    ensures
        w.slices@[i].from_peer is None,
        w.slices@[i].headers@.len() == 0,
{
    reveal(HeaderSlices::slices_ok);
            reveal(HeaderSlices::slice_wf);
    assert(w.slice_wf(i));
}

/// Boundary placement: the low boundary always sits exactly at the upper
/// edge of the saved prefix, so it moves only when slices become `Saved`;
/// that no transition moves it backwards is part of each transition's
/// contract.
pub proof fn lemma_low_bound_at_saved_prefix(w: HeaderSlices)
    requires
        w.wf(),
    ensures
        w.low_block_num.0 == w.start_block_num.0 + w.saved_n() * (w.slice_size as int),
        forall|j: int|
            0 <= j < w.saved_n() ==> (#[trigger] w.slices@[j]).status == SliceStatus::Saved,
        forall|j: int|
            w.saved_n() <= j < w.n() ==> (#[trigger] w.slices@[j]).status != SliceStatus::Saved,
{
    assert forall|j: int|
        0 <= j < w.saved_n() implies (#[trigger] w.slices@[j]).status == SliceStatus::Saved by {
        reveal(HeaderSlices::slices_ok);
            reveal(HeaderSlices::slice_wf);
        assert(w.slice_wf(j));
    }
    assert forall|j: int|
        w.saved_n() <= j < w.n() implies (#[trigger] w.slices@[j]).status != SliceStatus::Saved by {
        reveal(HeaderSlices::slices_ok);
            reveal(HeaderSlices::slice_wf);
        assert(w.slice_wf(j));
    }
}

/// The window invariant does not depend on the watch generation: two
/// windows that agree on everything else are equally well formed.
#[verifier::rlimit(100)]
pub proof fn lemma_wf_unchanged(a: HeaderSlices, b: HeaderSlices)
    requires
        a.wf(),
        b.slices@ == a.slices@,
        b.start_block_num == a.start_block_num,
        b.start_hash == a.start_hash,
        b.final_block_num == a.final_block_num,
        b.low_block_num == a.low_block_num,
        b.low_anchor_hash == a.low_anchor_hash,
        b.saved_slices == a.saved_slices,
        b.slice_size == a.slice_size,
        b.mem_limit == a.mem_limit,
        b.chain_config == a.chain_config,
        b.saved_history@ == a.saved_history@,
    ensures
        b.wf(),
{
    reveal(HeaderSlices::slices_ok);
    assert forall|i: int|
        0 <= i < b.n() && (#[trigger] b.slices@[i]).status
            == SliceStatus::Verified implies headers_all_valid(
        b.slices@[i].headers@,
        b.chain_config,
    ) by {
        assert(a.slices@[i].status == SliceStatus::Verified);
        assert(headers_all_valid(a.slices@[i].headers@, a.chain_config));
    }
    assert forall|i: int| 0 <= i < b.n() implies #[trigger] b.slice_wf(i) by {
        reveal(HeaderSlices::slices_ok);
            reveal(HeaderSlices::slice_wf);
        assert(a.slice_wf(i));
    }
    assert forall|i: int|
        0 <= i < b.n() && (#[trigger] b.slices@[i]).status == SliceStatus::Verified implies (i
        == b.saved_n() || b.slices@[i - 1].status == SliceStatus::Verified) by {
        assert(a.slices@[i].status == SliceStatus::Verified);
    }
    assert forall|i: int|
        0 <= i < b.n() && (#[trigger] b.slices@[i]).status
            == SliceStatus::Verified implies headers_chain_ok(
        b.slices@[i].headers@,
        b.link_anchor_at(i),
        b.spec_slice_start(i),
    ) by {
        reveal(HeaderSlices::link_anchor_at);
        assert(a.slices@[i].status == SliceStatus::Verified);
        assert(headers_chain_ok(a.slices@[i].headers@, a.link_anchor_at(i), a.spec_slice_start(i)));
        assert(b.link_anchor_at(i) == a.link_anchor_at(i));
    }
}

} // verus!
