//! Derives host-level firewall rules from the topology of a container host
//! (its running containers and networks) together with a declarative,
//! categorized policy, and reconciles the derived rule set through a
//! pluggable enforcement backend.
//!
//! The core is a pure derivation pipeline: a per-cycle [`process::ProcessContext`]
//! owns a read-only snapshot of the topology, the policy tree implements the
//! [`process::Process`] trait, and one cycle turns the policy into an ordered,
//! backend-neutral list of [`rule::Rule`] records.  Everything the runtime
//! reports (container and network listings, per-network attachment details)
//! enters the library as plain values, so re-running a cycle against an
//! unchanged snapshot and configuration yields an identical rule list.

pub mod errors;
pub mod process;
pub mod rule;
pub mod snapshot;
pub mod types;

pub use crate::errors::DfwError;
pub use crate::process::{ContainerFilter, FirewallBackend, Process, ProcessContext,
    ProcessingOptions};
pub use crate::rule::Rule;
