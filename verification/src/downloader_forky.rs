//! The downloader for the checkpoint-anchored catch-up phase: it builds
//! the header window for a run and makes the orchestrator's decisions.
//! The stages run as repeating tasks around it; the surrounding runtime
//! performs the network and persistence work and feeds each stage
//! outcome back in as an event. On every event the orchestrator decides:
//! fail fast on a stage error, stop gracefully when peer connectivity is
//! gone or the window has caught up to the downloadable frontier, and
//! otherwise notify observers and continue.

use vstd::prelude::*;
use vstd::arithmetic::mul::*;
use crate::models::{BlockHashAndNumber, BlockNumber, ChainConfig};
use crate::header_slices::{HeaderSlices, HEADER_MEM_ESTIMATE, MAX_SLICE_SIZE};

verus! {

/// Span ceiling of this phase: a run is worth starting only when the
/// caller allows at least this many blocks, since earlier phases are
/// assumed to have synced all but roughly this tail (plus blocks that
/// keep arriving while the sync runs).
pub const FORKY_MAX_BLOCKS_COUNT: usize = 99000;

/// Default byte ceiling for the window: more than enough for the phase
/// span, so it does not constrain the window in practice.
pub const FORKY_MEM_LIMIT: usize = 1073741824;

/// Operational constants of a run, lifted out of the stages so the
/// window is not tied to one configuration.
#[derive(Clone, Copy, PartialEq, Eq, Structural, Debug)]
pub struct RunParams {
    /// Block numbers covered by one slice.
    pub slice_size: usize,
    /// Byte ceiling for held header data.
    pub mem_limit: usize,
    /// Blocks this phase downloads per run, and the minimum
    /// `max_blocks_count` under which a run is a no-op.
    pub phase_blocks_count: usize,
}

impl RunParams {
    /// The parameters the phase runs with by default.
    pub fn forky_defaults() -> (r: RunParams)
        ensures
            r == (RunParams {
                slice_size: crate::header_slices::HEADER_SLICE_SIZE,
                mem_limit: FORKY_MEM_LIMIT,
                phase_blocks_count: FORKY_MAX_BLOCKS_COUNT,
            }),
    {
        RunParams {
            slice_size: crate::header_slices::HEADER_SLICE_SIZE,
            mem_limit: FORKY_MEM_LIMIT,
            phase_blocks_count: FORKY_MAX_BLOCKS_COUNT,
        }
    }
}

/// The stages whose outcomes the orchestrator merges.
#[derive(Clone, Copy, PartialEq, Eq, Structural, Debug)]
pub enum StageId {
    FetchRequest,
    FetchReceive,
    Retry,
    VerifyLinear,
    VerifyForkLink,
    Penalize,
    Save,
}

/// One entry of the merged stage-outcome stream.
#[derive(Clone, Copy, PartialEq, Eq, Structural, Debug)]
pub struct StageEvent {
    /// Which stage produced the outcome.
    pub stage: StageId,
    /// Whether the stage iteration succeeded; a failure is fatal for the
    /// whole run.
    pub ok: bool,
    /// The fetch-receive stage's liveness predicate at this point:
    /// whether the peer connection is still usable.
    pub can_proceed: bool,
}

/// The orchestrator's decision after one event.
#[derive(Clone, Copy, PartialEq, Eq, Structural, Debug)]
pub enum RunOutcome {
    /// Keep the stages running.
    Continue,
    /// Stop: the window has no data at its upper edge, so nothing more
    /// can be downloaded without sliding forward.
    StopAtFrontier,
    /// Stop: no usable peer connection, so no stage can make progress;
    /// the progress made so far stays valid and persisted.
    StopNoPeer,
    /// Stop: this stage failed; the window's state past this point is
    /// not trusted, so the run surfaces an error naming the stage.
    StopFailed(StageId),
}

/// What the caller gets back from a run.
pub struct DownloaderForkyReport {
    /// Headers persisted by this run.
    pub loaded_count: usize,
    /// The resulting low boundary: the next phase's starting point.
    pub final_block_num: BlockNumber,
}

/// State of one run: the shared window plus what the report needs. The
/// consensus parameters travel inside the window, which holds every
/// verified slice to them.
pub struct RunState {
    /// The block number the window started at.
    pub start_block_num: BlockNumber,
    /// The shared window all stages operate on.
    pub window: HeaderSlices,
}

impl RunState {
    /// A run state is well formed when its window is and the recorded
    /// start matches the window's.
    pub open spec fn wf(self) -> bool {
        &&& self.window.wf()
        &&& self.start_block_num == self.window.start_block_num
    }
}

/// How a run begins: below the phase minimum it is a no-op with a zero
/// report; otherwise the window is built and the stages take over.
pub enum RunStart {
    /// `max_blocks_count` was below the phase minimum.
    NoOp(DownloaderForkyReport),
    /// The run is on; drive the stages over this state.
    Started(RunState),
}

/// The downloader for this phase; holds the chain configuration the
/// verify stages will consume.
#[derive(Debug)]
pub struct DownloaderForky {
    /// Consensus parameters, supplied externally and read-only.
    pub chain_config: ChainConfig,
}

impl DownloaderForky {
    /// A downloader that will verify against `chain_config`.
    pub fn new(chain_config: ChainConfig) -> (r: DownloaderForky)
        ensures
            r.chain_config == chain_config,
    {
        DownloaderForky { chain_config }
    }

    /// Begins a run from the checkpoint `start_block_id` (the last block
    /// already synced: the window starts right above it and anchors to
    /// its hash). A request for fewer than `params.phase_blocks_count`
    /// blocks is a no-op reporting zero progress and the unchanged
    /// boundary; otherwise the window covers as many whole slices of the
    /// phase span as the memory budget allows.
    #[verifier::rlimit(100)]
    #[verifier::spinoff_prover]
    pub fn run_start(
        &self,
        params: RunParams,
        start_block_id: BlockHashAndNumber,
        max_blocks_count: usize,
    ) -> (r: RunStart)
        requires
            1 <= params.slice_size <= MAX_SLICE_SIZE,
            start_block_id.number.0 + 1 + params.phase_blocks_count <= u64::MAX,
        ensures
            (max_blocks_count < params.phase_blocks_count) <==> (r is NoOp),
            r matches RunStart::NoOp(rep) ==> rep.loaded_count == 0 && rep.final_block_num.0
                == start_block_id.number.0 + 1,
            r matches RunStart::Started(st) ==> ({
                &&& st.wf()
                &&& st.window.chain_config == self.chain_config
                &&& st.start_block_num.0 == start_block_id.number.0 + 1
                &&& st.window.start_hash == start_block_id.hash
                &&& st.window.low_block_num == st.start_block_num
                &&& st.window.saved_n() == 0
                &&& st.window.slice_size == params.slice_size
                &&& st.window.mem_limit == params.mem_limit
                &&& st.window.saved_history@ == Seq::<crate::models::Header>::empty()
                &&& st.window.n() == vstd::math::min(
                    params.phase_blocks_count as int / params.slice_size as int,
                    params.mem_limit as int / (params.slice_size as int
                        * HEADER_MEM_ESTIMATE as int),
                )
            }),
    {
        let start_block_num = BlockNumber(start_block_id.number.0 + 1);
        if max_blocks_count < params.phase_blocks_count {
            return RunStart::NoOp(
                DownloaderForkyReport { loaded_count: 0, final_block_num: start_block_num },
            );
        }
        let window = HeaderSlices::new(
            params.mem_limit,
            params.slice_size,
            start_block_num,
            start_block_id.hash,
            params.phase_blocks_count as u64,
            self.chain_config,
        );
        RunStart::Started(RunState { start_block_num, window })
    }
}

/// The orchestrator's decision for one event of the merged stream, in
/// the order the policy prescribes: a stage error stops the run as a
/// failure; a dead peer connection stops it gracefully; a window with no
/// data at its upper edge means the run has caught up and stops; in
/// every other case observers are notified and the stages continue.
#[verifier::rlimit(100)]
#[verifier::spinoff_prover]
pub fn run_step(st: &mut RunState, event: StageEvent) -> (r: RunOutcome)
    ensures
        !event.ok ==> r == RunOutcome::StopFailed(event.stage) && *final(st) == *old(st),
        event.ok && !event.can_proceed ==> r == RunOutcome::StopNoPeer && *final(st) == *old(st),
        event.ok && event.can_proceed && old(st).window.spec_empty_at_final() ==> r
            == RunOutcome::StopAtFrontier && *final(st) == *old(st),
        event.ok && event.can_proceed && !old(st).window.spec_empty_at_final() ==> ({
            &&& r == RunOutcome::Continue
            &&& final(st).start_block_num == old(st).start_block_num
            &&& final(st).window.slices@ == old(st).window.slices@
            &&& final(st).window.same_shape(old(st).window)
            &&& final(st).window.low_block_num == old(st).window.low_block_num
            &&& final(st).window.low_anchor_hash == old(st).window.low_anchor_hash
            &&& final(st).window.saved_slices == old(st).window.saved_slices
            &&& final(st).window.saved_history@ == old(st).window.saved_history@
        }),
        old(st).wf() ==> final(st).wf(),
{
    if !event.ok {
        return RunOutcome::StopFailed(event.stage);
    }
    if !event.can_proceed {
        return RunOutcome::StopNoPeer;
    }
    if st.window.is_empty_at_final_position() {
        return RunOutcome::StopAtFrontier;
    }
    st.window.notify_status_watchers();
    RunOutcome::Continue
}

/// The report for the run so far: how many blocks this run persisted and
/// the boundary the next phase starts from.
#[verifier::rlimit(100)]
#[verifier::spinoff_prover]
pub fn run_report(st: &RunState) -> (r: DownloaderForkyReport)
    requires
        st.wf(),
    ensures
        r.loaded_count == st.window.low_block_num.0 - st.start_block_num.0,
        r.final_block_num == st.window.low_block_num,
{
    proof {
        let w = st.window;
        lemma_mul_inequality(w.saved_n(), w.n(), w.slice_size as int);
        lemma_mul_is_associative(w.n(), w.slice_size as int, HEADER_MEM_ESTIMATE as int);
        assert(w.saved_n() * (w.slice_size as int) * (HEADER_MEM_ESTIMATE as int) <= w.mem_limit)
            by {
            lemma_mul_inequality(
                w.saved_n() * (w.slice_size as int),
                w.n() * (w.slice_size as int),
                HEADER_MEM_ESTIMATE as int,
            );
        }
        assert(w.saved_n() * (w.slice_size as int) <= w.mem_limit) by {
            if w.saved_n() * (w.slice_size as int) > w.mem_limit {
                lemma_mul_inequality(
                    1,
                    HEADER_MEM_ESTIMATE as int,
                    w.saved_n() * (w.slice_size as int),
                );
                lemma_mul_is_commutative(
                    w.saved_n() * (w.slice_size as int),
                    HEADER_MEM_ESTIMATE as int,
                );
            }
        }
    }
    let loaded = (st.window.low_block_num.0 - st.start_block_num.0) as usize;
    DownloaderForkyReport {
        loaded_count: loaded,
        final_block_num: st.window.low_block_num,
    }
}

} // verus!
