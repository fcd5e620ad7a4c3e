//! A verified model of a collection-replication engine: documents are read
//! from a source store in ascending `_id` order, gathered into bounded
//! batches, written to a destination store under a concurrency limit, and
//! optionally validated afterwards. The modules here hold the decision and
//! bookkeeping logic with proofs; the driver that talks to the stores lives
//! outside the library.

mod clock;
pub mod accumulator;
pub mod counter;
pub mod engine;
pub mod plan;
pub mod source;
pub mod store;
pub mod validator;
