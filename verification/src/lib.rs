//! Fee history caching and component assembly for an Ethereum node.
//!
//! - [`blob`]: blob gas parameters and the blob fee that they imply.
//! - [`block`]: the plain block data that the fee history is computed from.
//! - [`rewards`]: the reward percentiles of a block.
//! - [`entry`]: what is kept of a block.
//! - [`window`]: which block numbers a cache of bounded size keeps.
//! - [`cache`]: the fee history cache.
//! - [`laws`]: what holds of the cache over several operations.
//! - [`task`]: the decisions of the task that feeds new blocks into the cache.
//! - [`run`]: what holds of that task over several turns.
//! - [`outcomes`]: what the results of each operation satisfy, in terms of its inputs.
//! - [`components`]: the assembly of the components of a node.

pub mod blob;
pub mod block;
pub mod cache;
pub mod components;
pub mod entry;
pub mod laws;
pub mod outcomes;
pub mod rewards;
pub mod run;
pub mod task;
pub mod window;
