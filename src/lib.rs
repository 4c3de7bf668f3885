//! Idempotent reconciliation of a file's content and permission bits.
//!
//! The library decides; the caller performs. [`mode`] turns a permission
//! string into its 12-bit value, [`reconcile`] compares a file's current state
//! with the desired one and yields the minimal sequence of filesystem steps,
//! together with a model of what those steps do to the file, and [`params`]
//! reads the desired state out of a YAML parameter mapping. [`set_vars`] holds
//! the variable context and merges a mapping of new variables into it;
//! [`yaml`] is what both know of a YAML node.
pub mod error;
pub mod mode;
pub mod reconcile;
pub mod yaml;
pub mod params;
pub mod set_vars;
