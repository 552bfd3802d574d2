//! The backend-neutral rule record the derivation engine emits, and the
//! marker scheme that tags every emitted rule for safe replacement.
//!
//! Rules are ordered: order reflects category precedence (defaults first,
//! then the five categories in a fixed sequence) and, within a category,
//! configuration declaration order.  The marker is a deterministic string
//! `DFW-MARKER:<component>;<component>;...` the backend uses as its
//! replace-key, so a later cycle replaces exactly the rules it owns.

use vstd::prelude::*;

use crate::types::RuleAction;

verus! {

/// One backend-neutral derived rule.  Fields the emitting category does not
/// constrain are `None`; the backend renders the record into its own syntax.
pub struct Rule {
    /// The chain the rule belongs to.
    pub chain: String,
    /// Interface the traffic enters through, when constrained.
    pub in_interface: Option<String>,
    /// Interface the traffic leaves through, when constrained.
    pub out_interface: Option<String>,
    /// Source address the rule matches, when constrained.
    pub source: Option<String>,
    /// Destination address the rule matches, when constrained.
    pub destination: Option<String>,
    /// Host-side port the rule matches, when constrained.
    pub host_port: Option<u16>,
    /// Address redirected traffic is sent to, for redirect rules.
    pub dnat_address: Option<String>,
    /// Port redirected traffic is sent to, for redirect rules.
    pub dnat_port: Option<u16>,
    /// The verdict for matching traffic.
    pub action: RuleAction,
    /// The ownership tag identifying the category entry that emitted the rule.
    pub marker: String,
}

/// Spec-level model of a [`Rule`].
pub ghost struct RuleModel {
    /// Model of the chain name.
    pub chain: Seq<char>,
    /// Model of the inbound interface constraint.
    pub in_interface: Option<Seq<char>>,
    /// Model of the outbound interface constraint.
    pub out_interface: Option<Seq<char>>,
    /// Model of the source address constraint.
    pub source: Option<Seq<char>>,
    /// Model of the destination address constraint.
    pub destination: Option<Seq<char>>,
    /// The host-side port constraint.
    pub host_port: Option<u16>,
    /// Model of the redirect address.
    pub dnat_address: Option<Seq<char>>,
    /// The redirect port.
    pub dnat_port: Option<u16>,
    /// The verdict for matching traffic.
    pub action: RuleAction,
    /// Model of the ownership tag.
    pub marker: Seq<char>,
}

impl View for Rule {
    type V = RuleModel;

    open spec fn view(&self) -> RuleModel {
        RuleModel {
            chain: self.chain@,
            in_interface: self.in_interface.deep_view(),
            out_interface: self.out_interface.deep_view(),
            source: self.source.deep_view(),
            destination: self.destination.deep_view(),
            host_port: self.host_port,
            dnat_address: self.dnat_address.deep_view(),
            dnat_port: self.dnat_port,
            action: self.action,
            marker: self.marker@,
        }
    }
}

/// The parts, joined with the given separator; empty when there are no parts.
pub open spec fn join_with(parts: Seq<Seq<char>>, sep: Seq<char>) -> Seq<char>
    decreases parts.len(),
{
    if parts.len() == 0 {
        Seq::empty()
    } else if parts.len() == 1 {
        parts[0]
    } else {
        join_with(parts.drop_last(), sep) + sep + parts.last()
    }
}

/// What [`generate_marker`] returns for the given components.
pub open spec fn marker_model(components: Seq<Seq<char>>) -> Seq<char> {
    "DFW-MARKER:"@ + join_with(components, ";"@)
}

/// Extending the component list by one appends a separator (after the first
/// component) and the new component to the joined text.
proof fn lemma_join_with_push(parts: Seq<Seq<char>>, sep: Seq<char>, i: int)
    requires
        0 <= i < parts.len(),
    ensures
        i == 0 ==> join_with(parts.take(1), sep) == parts[0],
        i > 0 ==> join_with(parts.take(i + 1), sep) == join_with(parts.take(i), sep) + sep
            + parts[i],
{
    let taken = parts.take(i + 1);
    assert(taken.last() == parts[i]);
    assert(taken.drop_last() =~= parts.take(i));
    if i == 0 {
        assert(join_with(parts.take(1), sep) == parts.take(1)[0]);
    }
}

/// The deterministic ownership tag for a rule: the fixed prefix followed by
/// the identifying components joined with `;`.
pub fn generate_marker(components: &[&str]) -> (r: String)
    ensures
        r@ == marker_model(components.deep_view()),
{
    let ghost parts: Seq<Seq<char>> = components.deep_view();
    let mut joined = String::new();
    let mut i: usize = 0;
    while i < components.len()
        invariant
            0 <= i <= components.len(),
            parts == components.deep_view(),
            parts.len() == components@.len(),
            joined@ == join_with(parts.take(i as int), ";"@),
        decreases components.len() - i,
    {
        proof {
            lemma_join_with_push(parts, ";"@, i as int);
        }
        if i > 0 {
            joined.append(";");
        }
        joined.append(components[i]);
        proof {
            assert(parts[i as int] == components@[i as int]@);
        }
        i += 1;
    }
    proof {
        assert(parts.take(parts.len() as int) =~= parts);
    }
    let mut r = String::from_str("DFW-MARKER:");
    r.append(joined.as_str());
    r
}

} // verus!
