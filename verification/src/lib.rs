//! Application bootstrap core: a container that assembles independently
//! declared components (configuration sections, singleton services, route
//! handlers), resolves their declared dependencies, and drives their startup
//! without a hand-maintained central registration list.
//!
//! The crate is organised leaves first:
//! - [`errors`]: the error taxonomy shared by every layer.
//! - [`strutil`]: verified string helpers (equality, prefix tests, path joining).
//! - [`config`]: the hierarchical, prefix-addressable configuration store.
//! - [`route`]: route declarations, verb parsing and scope prefixes.
//! - [`component`]: the values a registry can hold.
//! - [`registry`]: the type-keyed singleton store with its one-way seal.
//! - [`inject`]: per-service dependency descriptors and their resolution.
//! - [`lifecycle`]: the state machine that drives scheduled tasks to an outcome.
//! - [`app`]: the builder that stages a run, and the frozen application.
//! - [`catalog`]: the process-wide plugin catalog and its one-pass installation.

pub mod errors;
pub mod strutil;
pub mod config;
pub mod route;
pub mod component;
pub mod registry;
pub mod inject;
pub mod lifecycle;
pub mod app;
pub mod catalog;
