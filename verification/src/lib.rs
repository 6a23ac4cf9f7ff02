//! Round-based batch upload orchestration.
//!
//! A batch of named binary objects ("blobs") is written to an object-storage
//! bucket in rounds: every pending blob is dispatched concurrently, the
//! outcomes are collected in whatever order they complete, and the blobs whose
//! writes failed form the pending set of the next round. After a fixed number
//! of rounds the batch gives up and reports how many blobs remain unwritten.
//!
//! The crate holds the decision logic of that loop: [`batch::BatchState`]
//! tracks the pending set and the attempt counter, and
//! [`batch::BatchState::round_decision`] says whether the batch is done,
//! retries, or has exhausted its attempts. The caller performs the actual
//! writes and feeds each failure back. The module [`model`] states and proves
//! the laws of the round loop over its mathematical model.

pub mod batch;
pub mod blob;
pub mod model;
