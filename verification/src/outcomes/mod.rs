//! What the results of each operation satisfy, in terms of its inputs.
//!
//! The laws of these modules are stated of calls: whatever inputs and results a call of an
//! operation can have, the law relates them by what the values hold.
//!
//! - [`fees`]: the tips of transactions and the rewards of a block.
//! - [`blobs`]: the blob fee.
//! - [`entries`]: the entry of a block, and what it predicts for the next one.
//! - [`caching`]: the cache.
//! - [`turns`]: the task that feeds the cache.
//! - [`construction`]: the construction of components.

pub mod blobs;
pub mod caching;
pub mod construction;
pub mod entries;
pub mod fees;
pub mod turns;
