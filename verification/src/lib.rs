//! Admission-control decision engine.
//!
//! Receives a resource kind tag plus a dynamically typed payload tree,
//! evaluates a fixed set of policy rules over the tree, and returns an
//! allow/deny decision together with a human-readable message.

pub mod collector;
pub mod engine;
pub mod laws;
pub mod lookup;
pub mod messages;
pub mod rules;
pub mod tree;
pub mod typed;
