//! Per-stage behaviour: claims, response matching, retries, checks.

use header_sync::downloader_forky::{DownloaderForky, RunParams, RunStart, RunState};
use header_sync::fetch_receive_stage::{receive_response, HeadersResponse};
use header_sync::fetch_request_stage::request_slices;
use header_sync::header_slices::{HeaderSlices, SliceStatus};
use header_sync::models::{BlockHash, BlockHashAndNumber, BlockNumber, ChainConfig, Header, PeerId};
use header_sync::retry_stage::retry_stalled;
use header_sync::verify_stage_forky_link::verify_fork_link;
use header_sync::verify_stage_linear::{check_slice_chain, verify_next, VerifyOutcome};

fn hash_of(n: u64) -> BlockHash {
    BlockHash { word0: n, word1: 0xAA, word2: 0, word3: 0 }
}

fn chain_config() -> ChainConfig {
    ChainConfig { min_difficulty: 5, max_timestamp: 1000 }
}

fn make_headers(start: u64, count: u64) -> Vec<Header> {
    let mut v = Vec::new();
    for n in start..start + count {
        v.push(Header {
            number: BlockNumber(n),
            hash: hash_of(n),
            parent_hash: hash_of(n - 1),
            difficulty: 10,
            timestamp: 500,
        });
    }
    v
}

fn window(slice_size: usize, phase: usize) -> HeaderSlices {
    let d = DownloaderForky::new(chain_config());
    let cp = BlockHashAndNumber { number: BlockNumber(999), hash: hash_of(999) };
    match d.run_start(
        RunParams { slice_size, mem_limit: 1 << 20, phase_blocks_count: phase },
        cp,
        phase,
    ) {
        RunStart::Started(RunState { window, .. }) => window,
        RunStart::NoOp(_) => panic!("run should start"),
    }
}

#[test]
fn claim_has_one_winner_per_slice() {
    let mut w = window(64, 128);
    // Two claims race for the window: each resolves to a different
    // slice, and once none is empty no claim succeeds.
    let first = w.try_claim_for_request(1);
    let second = w.try_claim_for_request(1);
    assert_eq!(first, Some(0));
    assert_eq!(second, Some(1));
    assert_ne!(first, second);
    assert_eq!(w.try_claim_for_request(1), None);
}

#[test]
fn request_budget_is_respected() {
    let mut w = window(64, 256);
    let reqs = request_slices(&mut w, 0, 3);
    assert_eq!(reqs.len(), 3);
    assert_eq!(w.slices[3].status, SliceStatus::Empty);
    let more = request_slices(&mut w, 0, 10);
    assert_eq!(more.len(), 1);
    assert_eq!(more[0].start_block_num, BlockNumber(1192));
    assert_eq!(more[0].block_count, 64);
}

#[test]
fn stalled_request_resets_within_one_retry_pass() {
    let mut w = window(64, 128);
    request_slices(&mut w, 10, 1);
    assert_eq!(w.slices[0].status, SliceStatus::Requested);
    // Not yet stalled: nothing changes.
    retry_stalled(&mut w, 10 + 29, 30);
    assert_eq!(w.slices[0].status, SliceStatus::Requested);
    // Past the stall timeout the slice is empty again, whatever the
    // peer does.
    retry_stalled(&mut w, 10 + 30, 30);
    assert_eq!(w.slices[0].status, SliceStatus::Empty);
    assert!(w.slices[0].from_peer.is_none());
}

#[test]
fn retry_leaves_fresh_requests_alone() {
    let mut w = window(64, 128);
    request_slices(&mut w, 0, 1);
    request_slices(&mut w, 100, 1);
    retry_stalled(&mut w, 130, 50);
    assert_eq!(w.slices[0].status, SliceStatus::Empty, "claimed at 0, stalled by 130");
    assert_eq!(w.slices[1].status, SliceStatus::Requested, "claimed at 100, still fresh");
}

#[test]
fn response_must_match_a_requested_range() {
    let mut w = window(64, 128);
    // Nothing was requested: any response is dropped.
    let resp = HeadersResponse {
        start_block_num: BlockNumber(1000),
        headers: make_headers(1000, 64),
        peer: PeerId(1),
    };
    assert_eq!(receive_response(&mut w, resp), None);

    request_slices(&mut w, 0, 1);
    // A response for a range nobody requested is dropped.
    let resp = HeadersResponse {
        start_block_num: BlockNumber(1064),
        headers: make_headers(1064, 64),
        peer: PeerId(1),
    };
    assert_eq!(receive_response(&mut w, resp), None);
    // A response that does not fill the slice is dropped.
    let resp = HeadersResponse {
        start_block_num: BlockNumber(1000),
        headers: make_headers(1000, 63),
        peer: PeerId(1),
    };
    assert_eq!(receive_response(&mut w, resp), None);
    assert_eq!(w.slices[0].status, SliceStatus::Requested);
    // The matching response fills it.
    let resp = HeadersResponse {
        start_block_num: BlockNumber(1000),
        headers: make_headers(1000, 64),
        peer: PeerId(9),
    };
    assert_eq!(receive_response(&mut w, resp), Some(0));
    assert_eq!(w.slices[0].status, SliceStatus::Fetched);
    assert_eq!(w.slices[0].from_peer, Some(PeerId(9)));
    // The slice is claimed: a duplicate response for the range loses.
    let resp = HeadersResponse {
        start_block_num: BlockNumber(1000),
        headers: make_headers(1000, 64),
        peer: PeerId(10),
    };
    assert_eq!(receive_response(&mut w, resp), None);
    assert_eq!(w.slices[0].from_peer, Some(PeerId(9)));
}

#[test]
fn consensus_rule_marks_slice_invalid() {
    let mut w = window(64, 128);
    request_slices(&mut w, 0, 1);
    let mut headers = make_headers(1000, 64);
    headers[10].difficulty = 1;  // below the configured minimum
    let resp = HeadersResponse {
        start_block_num: BlockNumber(1000),
        headers,
        peer: PeerId(1),
    };
    receive_response(&mut w, resp);
    assert_eq!(verify_fork_link(&mut w), VerifyOutcome::SliceInvalid(0));
}

#[test]
fn broken_inner_link_marks_slice_invalid() {
    let mut w = window(64, 128);
    request_slices(&mut w, 0, 1);
    let mut headers = make_headers(1000, 64);
    headers[20].parent_hash = hash_of(3);
    let resp = HeadersResponse {
        start_block_num: BlockNumber(1000),
        headers,
        peer: PeerId(1),
    };
    receive_response(&mut w, resp);
    assert_eq!(verify_fork_link(&mut w), VerifyOutcome::SliceInvalid(0));
}

#[test]
fn verify_waits_for_predecessor() {
    let mut w = window(64, 128);
    request_slices(&mut w, 0, 2);
    // Only the second slice arrives: it cannot be verified yet.
    let resp = HeadersResponse {
        start_block_num: BlockNumber(1064),
        headers: make_headers(1064, 64),
        peer: PeerId(1),
    };
    receive_response(&mut w, resp);
    assert_eq!(verify_next(&mut w), VerifyOutcome::NoSliceReady);
    assert_eq!(verify_fork_link(&mut w), VerifyOutcome::NoSliceReady);
    assert_eq!(w.slices[1].status, SliceStatus::Fetched);
}

#[test]
fn check_slice_chain_exact() {
    let cfg = chain_config();
    let good = make_headers(1000, 4);
    assert!(check_slice_chain(&good, &cfg, hash_of(999), 1000));
    assert!(!check_slice_chain(&good, &cfg, hash_of(998), 1000), "wrong anchor");
    assert!(!check_slice_chain(&good, &cfg, hash_of(999), 1001), "wrong start number");
    let mut renumbered = make_headers(1000, 4);
    renumbered[2].number = BlockNumber(1999);
    assert!(!check_slice_chain(&renumbered, &cfg, hash_of(999), 1000));
}

#[test]
fn watch_notification_changes_generation_only() {
    let mut w = window(64, 128);
    let before = w.watch_generation;
    w.notify_status_watchers();
    assert_eq!(w.watch_generation, before + 1);
    assert_eq!(w.low_block_num(), BlockNumber(1000));
}

#[test]
fn empty_at_final_position_tracks_upper_edge() {
    let mut w = window(64, 128);
    assert!(w.is_empty_at_final_position(), "nothing fetched yet");
    request_slices(&mut w, 0, 2);
    assert!(!w.is_empty_at_final_position(), "the edge slice is requested");
}
