//! Core logic of a marketplace download client: paginated catalog listing,
//! case-insensitive filtering, artifact selection, rate-limit-aware retry,
//! bounded-concurrency scheduling, streaming progress accounting, and
//! archive-layout normalization.  All decision logic lives here, verified;
//! the network, filesystem and terminal sit outside, behind plain values.

pub mod archive;
pub mod casefold;
pub mod catalog;
pub mod errors;
pub mod filter;
pub mod paginate;
pub mod pool;
pub mod progress;
pub mod retry;
pub mod selector;
pub mod stream;
pub mod text;
