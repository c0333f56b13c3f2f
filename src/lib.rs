//! Bulk file upload orchestration.
//!
//! - `resolver`: turns directory listings into a numbered manifest, one entry
//!   per file and one placeholder per subtree that holds no file.
//! - `body`: builds each entry's metadata request body, with renamed keys and
//!   fixed fields.
//! - `protocol`: decides what follows the metadata request of an entry.
//! - `batch`: the state machine that dispatches entries under a concurrency
//!   limit, takes their completions and reports progress snapshots.
//! - `upload`: submits a batch.
//! - `demo`: the snapshots of a demonstration run, in which nothing is sent.

pub mod batch;
pub mod body;
pub mod demo;
pub mod entry;
mod json;
pub mod params;
pub mod protocol;
pub mod resolver;
pub mod upload;
