//! Error kinds shared by every stage of a processing cycle.
//!
//! All errors are terminal for the cycle in which they arise: either a full
//! snapshot is built, a full rule list is derived and applied, or the cycle
//! aborts and the enforced state is left untouched.

use vstd::prelude::*;

verus! {

/// The error kinds a processing cycle can end with.
#[derive(Clone, Copy, Debug, PartialEq, Eq, Structural)]
pub enum DfwError {
    /// The runtime query failed or returned an invalid (for example empty)
    /// topology.
    TopologyError,
    /// A network or container identifier is malformed, for example too short
    /// to derive a host interface name from.
    InvalidIdentifier,
    /// A category entry references an unresolvable network, or a required
    /// defaults field is missing.
    RuleDerivationError,
    /// The enforcement backend rejected or failed to apply the rule set.
    BackendError,
}

impl DfwError {
    /// A human-readable description of the error kind.
    pub fn description(&self) -> (r: &'static str)
        ensures
            self is TopologyError ==> r@ == "runtime query failed or returned an invalid topology"@,
            self is InvalidIdentifier ==> r@ == "malformed network or container identifier"@,
            self is RuleDerivationError ==> r@ == "policy entry references an unresolvable network or a required default is missing"@,
            self is BackendError ==> r@ == "enforcement backend failed to apply the rule set"@,
    {
        match self {
            DfwError::TopologyError => "runtime query failed or returned an invalid topology",
            DfwError::InvalidIdentifier => "malformed network or container identifier",
            DfwError::RuleDerivationError => "policy entry references an unresolvable network or a required default is missing",
            DfwError::BackendError => "enforcement backend failed to apply the rule set",
        }
    }
}

} // verus!
