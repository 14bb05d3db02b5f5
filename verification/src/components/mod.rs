//! Assembly of the components of a node.
//!
//! - [`builder`]: the [`ComponentsBuilder`](builder::ComponentsBuilder), which captures how each
//!   component is built.
//! - [`stages`]: the construction itself, stage by stage.
//! - [`noop`]: placeholder components, and builders for them.

pub mod builder;
pub mod noop;
pub mod stages;
