//! Concurrent fragment download and in-order reassembly of a segmented
//! media stream.
//!
//! The library decides; the caller performs. Network requests, sleeps and
//! writes to the output file are carried out by the caller, which reports
//! their outcomes back as events and receives the next action to take.

pub mod playlist;
pub mod retry;
pub mod session;
pub mod space;
pub mod stream;
pub mod text;
