//! Data-access core for a task/project management backend.
//!
//! The crate provides the two correctness-sensitive mechanisms that recur
//! across every resource module of such a backend:
//!
//! * a filter-expression compiler that turns a nested boolean predicate tree
//!   into a parameterized query fragment plus an ordered list of bind values
//!   (caller values never appear as literal text in the fragment), and
//! * a batched relation loader that coalesces per-entity lookups issued
//!   during one logical request into a single deduplicated multi-key fetch.
//!
//! Around them sit the query-statement builder (sort, limit, offset), the
//! row-to-record mapping with its default-on-unknown decoding policy, and a
//! reference executor that gives filters their meaning over in-memory
//! records. Store transport (connection pools, actual statement dispatch)
//! stays outside this crate; it hands rows in and takes statements out as
//! plain values.

pub mod changes;
pub mod commons;
pub mod engine;
pub mod errors;
pub mod members;
pub mod executor;
pub mod filter;
pub mod loader;
pub mod projects;
pub mod query;
pub mod teams;
pub mod tasks;
pub mod text;
