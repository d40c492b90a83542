//! Engine for retrieving segmented, encrypted HLS lecture recordings:
//! playlist transformation, mirror selection, retry policy, segment fetch
//! planning, muxer-event interpretation, and concurrent session
//! orchestration with cancellation and progress aggregation.
pub mod decrypt;
pub mod error;
pub mod fetch;
pub mod host;
pub mod manifest;
pub mod mux;
pub mod naming;
pub mod playlist;
pub mod retry;
pub mod session;
pub mod text;
