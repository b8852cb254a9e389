//! Container network warp routing: a verified core for a daemon that watches a
//! container runtime and installs routes inside target containers' network
//! namespaces so that selected traffic egresses through a designated "warp"
//! container.
//!
//! The core is pure decision logic: classifying containers, resolving a warp
//! container's gateway address, computing and validating route entries, and
//! bookkeeping the routes installed per container. All runtime, netlink and
//! filesystem I/O lives outside this crate and hands the core plain values.

pub mod classifier;
pub mod config;
pub mod container;
pub mod error;
pub mod events;
pub mod install;
pub mod ip;
pub mod network;
pub mod routing;
pub mod rules;
pub mod text;
