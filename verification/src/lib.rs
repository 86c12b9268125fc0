//! Staged concurrent download of a bounded window of block headers.
//!
//! A run pulls a contiguous range of headers, anchored to a known
//! (number, hash) checkpoint, through a pipeline of stages that share a
//! single sliding window of header slices. The window is the only shared
//! state: every stage reads and mutates it through its transition
//! operations, which maintain chain continuity and boundary invariants.

pub mod models;
pub mod header_slices;
pub mod fetch_request_stage;
pub mod fetch_receive_stage;
pub mod retry_stage;
pub mod verify_stage_linear;
pub mod verify_stage_forky_link;
pub mod penalize_stage;
pub mod save_stage;
pub mod downloader_forky;
