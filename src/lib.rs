//! Synchronises third-party package documentation into a local, version-pinned cache.
//!
//! The library holds the decisions of the sync engine: version resolution, the retry and
//! fallback policy of the fetchers, content normalisation, cache layout and pruning, the
//! per-package sync job, and status reconciliation. Network and disk access is left to the
//! caller, which performs what the library asks for and reports back.

pub mod changelog;
pub mod config;
pub mod error;
pub mod fetch;
pub mod freshness;
pub mod html;
pub mod job;
pub mod status;
pub mod storage;
pub mod strings;
pub mod sync;
pub mod text;
pub mod versions;
