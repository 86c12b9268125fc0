//! End-to-end scenarios: a run driven stage by stage over the window,
//! checking the reports and the stop decisions.

use header_sync::downloader_forky::{
    run_report, run_step, DownloaderForky, RunParams, RunStart, RunState, StageEvent, StageId,
    RunOutcome,
};
use header_sync::fetch_receive_stage::{receive_response, HeadersResponse};
use header_sync::fetch_request_stage::request_slices;
use header_sync::header_slices::SliceStatus;
use header_sync::models::{BlockHash, BlockHashAndNumber, BlockNumber, ChainConfig, Header, PeerId};
use header_sync::penalize_stage::penalize_next;
use header_sync::save_stage::save_verified_prefix;
use header_sync::verify_stage_forky_link::verify_fork_link;
use header_sync::verify_stage_linear::{verify_next, VerifyOutcome};

fn hash_of(n: u64) -> BlockHash {
    BlockHash { word0: n, word1: 0xAA, word2: 0, word3: 0 }
}

fn chain_config() -> ChainConfig {
    ChainConfig { min_difficulty: 5, max_timestamp: 1000 }
}

/// Headers for blocks `[start, start + count)`, hash-linked to the block
/// below `start`.
fn make_headers(start: u64, count: u64) -> Vec<Header> {
    let mut v = Vec::new();
    for n in start..start + count {
        v.push(Header {
            number: BlockNumber(n),
            hash: hash_of(n),
            parent_hash: hash_of(n - 1),
            difficulty: 10,
            timestamp: 500,
        });
    }
    v
}

fn checkpoint() -> BlockHashAndNumber {
    BlockHashAndNumber { number: BlockNumber(999), hash: hash_of(999) }
}

fn params(slice_size: usize, phase: usize) -> RunParams {
    RunParams { slice_size, mem_limit: 1 << 20, phase_blocks_count: phase }
}

fn start_run(slice_size: usize, phase: usize, max_blocks: usize) -> RunState {
    let d = DownloaderForky::new(chain_config());
    match d.run_start(params(slice_size, phase), checkpoint(), max_blocks) {
        RunStart::Started(st) => st,
        RunStart::NoOp(_) => panic!("run should start"),
    }
}

fn event_ok() -> StageEvent {
    StageEvent { stage: StageId::Save, ok: true, can_proceed: true }
}

#[test]
fn noop_below_phase_minimum() {
    let d = DownloaderForky::new(chain_config());
    match d.run_start(params(64, 192), checkpoint(), 10) {
        RunStart::NoOp(rep) => {
            assert_eq!(rep.loaded_count, 0);
            assert_eq!(rep.final_block_num, BlockNumber(1000));
        }
        RunStart::Started(_) => panic!("a request below the phase minimum must be a no-op"),
    }
}

#[test]
fn full_sync_two_slices() {
    // Window [1000, 1192) in two slices of 96 blocks each.
    let mut st = start_run(96, 192, 192);
    assert_eq!(st.window.low_block_num(), BlockNumber(1000));
    assert_eq!(st.window.final_block_num, BlockNumber(1192));
    assert_eq!(st.window.slice_count(), 2);

    let reqs = request_slices(&mut st.window, 7, 10);
    assert_eq!(reqs.len(), 2);
    assert_eq!(reqs[0].start_block_num, BlockNumber(1000));
    assert_eq!(reqs[1].start_block_num, BlockNumber(1096));

    let peer = PeerId(42);
    for r in &reqs {
        let resp = HeadersResponse {
            start_block_num: r.start_block_num,
            headers: make_headers(r.start_block_num.0, 96),
            peer,
        };
        assert!(receive_response(&mut st.window, resp).is_some());
    }

    assert_eq!(verify_fork_link(&mut st.window), VerifyOutcome::SliceVerified(0));
    assert_eq!(verify_next(&mut st.window), VerifyOutcome::SliceVerified(1));

    let saved = save_verified_prefix(&mut st.window);
    assert_eq!(saved.len(), 192);
    assert_eq!(saved[0].number, BlockNumber(1000));
    assert_eq!(saved[0].parent_hash, hash_of(999));
    assert_eq!(saved[191].number, BlockNumber(1191));

    // The run stops at the frontier: everything up to the edge is saved.
    assert_eq!(run_step(&mut st, event_ok()), RunOutcome::StopAtFrontier);
    let rep = run_report(&st);
    assert_eq!(rep.loaded_count, 192);
    assert_eq!(rep.final_block_num, BlockNumber(1192));
}

#[test]
fn full_sync_three_slices_of_64() {
    // The same span in slices of 64: [1000, 1192) holds three of them.
    let mut st = start_run(64, 192, 192);
    assert_eq!(st.window.slice_count(), 3);
    let reqs = request_slices(&mut st.window, 0, 10);
    assert_eq!(reqs.len(), 3);
    for r in &reqs {
        let resp = HeadersResponse {
            start_block_num: r.start_block_num,
            headers: make_headers(r.start_block_num.0, 64),
            peer: PeerId(1),
        };
        assert!(receive_response(&mut st.window, resp).is_some());
    }
    assert_eq!(verify_fork_link(&mut st.window), VerifyOutcome::SliceVerified(0));
    assert_eq!(verify_next(&mut st.window), VerifyOutcome::SliceVerified(1));
    assert_eq!(verify_next(&mut st.window), VerifyOutcome::SliceVerified(2));
    let saved = save_verified_prefix(&mut st.window);
    assert_eq!(saved.len(), 192);
    let rep = run_report(&st);
    assert_eq!(rep.loaded_count, 192);
    assert_eq!(rep.final_block_num, BlockNumber(1192));
}

#[test]
fn invalid_slice_penalized_then_refetched() {
    let mut st = start_run(96, 192, 192);
    let reqs = request_slices(&mut st.window, 0, 1);
    assert_eq!(reqs.len(), 1);

    // The first slice arrives chaining from the wrong parent hash.
    let mut bad = make_headers(1000, 96);
    bad[0].parent_hash = hash_of(777);
    let resp = HeadersResponse {
        start_block_num: BlockNumber(1000),
        headers: bad,
        peer: PeerId(13),
    };
    assert!(receive_response(&mut st.window, resp).is_some());
    assert_eq!(verify_fork_link(&mut st.window), VerifyOutcome::SliceInvalid(0));
    assert_eq!(st.window.slices[0].status, SliceStatus::Invalid);

    // Nothing is saved while the slice is invalid.
    let saved = save_verified_prefix(&mut st.window);
    assert!(saved.is_empty());
    assert_eq!(st.window.low_block_num(), BlockNumber(1000));

    // The supplying peer is penalized and the slice returns to empty
    // with its peer association cleared.
    let penalized = penalize_next(&mut st.window);
    assert_eq!(penalized, Some((0, PeerId(13))));
    assert_eq!(st.window.slices[0].status, SliceStatus::Empty);
    assert!(st.window.slices[0].from_peer.is_none());
    assert_eq!(penalize_next(&mut st.window), None);

    // A valid re-fetch then goes through.
    let reqs = request_slices(&mut st.window, 5, 1);
    assert_eq!(reqs.len(), 1);
    assert_eq!(reqs[0].start_block_num, BlockNumber(1000));
    let resp = HeadersResponse {
        start_block_num: BlockNumber(1000),
        headers: make_headers(1000, 96),
        peer: PeerId(14),
    };
    assert!(receive_response(&mut st.window, resp).is_some());
    assert_eq!(verify_fork_link(&mut st.window), VerifyOutcome::SliceVerified(0));
    let saved = save_verified_prefix(&mut st.window);
    assert_eq!(saved.len(), 96);
    assert_eq!(st.window.low_block_num(), BlockNumber(1096));
}

#[test]
fn liveness_stop_keeps_partial_report() {
    let mut st = start_run(96, 192, 192);
    let reqs = request_slices(&mut st.window, 0, 10);
    assert_eq!(reqs.len(), 2);
    // Only the first slice arrives before the connection dies.
    let resp = HeadersResponse {
        start_block_num: BlockNumber(1000),
        headers: make_headers(1000, 96),
        peer: PeerId(7),
    };
    assert!(receive_response(&mut st.window, resp).is_some());
    assert_eq!(verify_fork_link(&mut st.window), VerifyOutcome::SliceVerified(0));
    let saved = save_verified_prefix(&mut st.window);
    assert_eq!(saved.len(), 96);

    let ev = StageEvent { stage: StageId::FetchReceive, ok: true, can_proceed: false };
    assert_eq!(run_step(&mut st, ev), RunOutcome::StopNoPeer);
    let rep = run_report(&st);
    assert_eq!(rep.loaded_count, 96);
    assert_eq!(rep.final_block_num, BlockNumber(1096));
}

#[test]
fn stage_error_stops_run() {
    let mut st = start_run(96, 192, 192);
    let ev = StageEvent { stage: StageId::Save, ok: false, can_proceed: true };
    assert_eq!(run_step(&mut st, ev), RunOutcome::StopFailed(StageId::Save));
}

#[test]
fn phase_smaller_than_one_slice_reports_zero() {
    // The phase span rounds down to zero whole slices: the window is
    // empty, the run stops at once and reports no progress.
    let d = DownloaderForky::new(chain_config());
    let mut st = match d.run_start(params(64, 10), checkpoint(), 10000) {
        RunStart::Started(st) => st,
        RunStart::NoOp(_) => panic!("above the phase minimum the run starts"),
    };
    assert_eq!(st.window.slice_count(), 0);
    assert_eq!(run_step(&mut st, event_ok()), RunOutcome::StopAtFrontier);
    let rep = run_report(&st);
    assert_eq!(rep.loaded_count, 0);
    assert_eq!(rep.final_block_num, BlockNumber(1000));
}

#[test]
fn low_boundary_is_monotone() {
    let mut st = start_run(96, 192, 192);
    let mut lows = vec![st.window.low_block_num().0];
    let reqs = request_slices(&mut st.window, 0, 10);
    lows.push(st.window.low_block_num().0);
    for r in &reqs {
        let resp = HeadersResponse {
            start_block_num: r.start_block_num,
            headers: make_headers(r.start_block_num.0, 96),
            peer: PeerId(1),
        };
        receive_response(&mut st.window, resp);
        lows.push(st.window.low_block_num().0);
    }
    verify_fork_link(&mut st.window);
    lows.push(st.window.low_block_num().0);
    verify_next(&mut st.window);
    lows.push(st.window.low_block_num().0);
    save_verified_prefix(&mut st.window);
    lows.push(st.window.low_block_num().0);
    for pair in lows.windows(2) {
        assert!(pair[0] <= pair[1], "the low boundary never decreases");
    }
    assert_eq!(*lows.last().unwrap(), 1192);
}

#[test]
fn default_params_set_the_phase_threshold() {
    let d = DownloaderForky::new(chain_config());
    let defaults = RunParams::forky_defaults();
    match d.run_start(defaults, checkpoint(), 98999) {
        RunStart::NoOp(rep) => {
            assert_eq!(rep.loaded_count, 0);
            assert_eq!(rep.final_block_num, BlockNumber(1000));
        }
        RunStart::Started(_) => panic!("98999 blocks are below the phase minimum"),
    }
    match d.run_start(defaults, checkpoint(), 99000) {
        RunStart::Started(st) => {
            // 99000 blocks in slices of 192: 515 whole slices.
            assert_eq!(st.window.slice_count(), 515);
            assert_eq!(st.window.final_block_num, BlockNumber(1000 + 515 * 192));
        }
        RunStart::NoOp(_) => panic!("99000 blocks reach the phase minimum"),
    }
}
