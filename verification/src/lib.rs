//! Verified core of a kubectl-plugin launcher for WebAssembly programs.
//!
//! The library keeps the launcher's decisions: deriving module names,
//! maintaining the on-disk module store model and the filesystem plans that
//! mutate it, computing the single network endpoint a sandboxed program may
//! reach, rewriting literal-IP request URIs, and translating a sandboxed
//! program's termination into a host process outcome.  All I/O — fetching
//! artifacts, touching the filesystem, reading the cluster configuration,
//! and running the WebAssembly engine — lives with the callers, which hand
//! plain values in and carry the computed plans out.

pub mod errors;
pub mod engine;
pub mod text;
pub mod name;
pub mod ip;
pub mod uri;
pub mod mediator;
pub mod store;
pub mod context;
