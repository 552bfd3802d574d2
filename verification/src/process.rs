//! Configuration processing and rule derivation.
//!
//! A [`ProcessContext`] owns the per-cycle topology snapshot and the policy
//! tree.  Every policy node implements [`Process`]: given the context it
//! yields zero or more ordered rules, and its contract ties the result to a
//! spec-level derivation function, so the derived list is provably a pure
//! function of configuration and snapshot.

use vstd::prelude::*;
use vstd::string::StrSliceExecFns;
use vstd::string::StringExecFns;

use crate::errors::DfwError;
use crate::rule::{marker_model, generate_marker, Rule, RuleModel};
use crate::snapshot::{
    assoc_lookup, clone_string, container_map_model, get_container_map, get_network_map,
    network_map_model, ContainerMap, NetworkMap,
};
use crate::types::{ChainPolicyModel, Container, ContainerModel, ContainerToContainer,
    ContainerToContainerRule, ContainerToHost, ContainerToHostRule, ContainerToWiderWorld,
    ContainerToWiderWorldRule, ContainerDnat, ContainerDnatRule, Dfw, Defaults, ExposePort,
    Network, NetworkAttachment, NetworkAttachmentModel, NetworkModel, RuleAction,
    WiderWorldToContainer, WiderWorldToContainerRule};

verus! {

/// Option to filter the containers a snapshot is built from.
#[derive(Debug, Clone, Copy, PartialEq, Eq, Structural)]
pub enum ContainerFilter {
    /// Take all containers, i.e. don't filter.
    All,
    /// Only take running containers.
    Running,
}

/// Options to configure the processing procedure.
#[derive(Debug, Clone, Copy, PartialEq, Eq, Structural)]
pub struct ProcessingOptions {
    /// Option to filter the containers taken into the snapshot, see
    /// [`ContainerFilter`].
    pub container_filter: ContainerFilter,
}

impl Default for ProcessingOptions {
    /// The default options: take all containers.
    fn default() -> (r: Self)
        ensures
            r == (ProcessingOptions { container_filter: ContainerFilter::All }),
    {
        ProcessingOptions { container_filter: ContainerFilter::All }
    }
}

/// The host-side bridge interface name a network identifier maps to: the
/// fixed prefix `br-` followed by the identifier truncated to twelve
/// characters.
pub open spec fn bridge_name_model(network_id: Seq<char>) -> Seq<char> {
    "br-"@ + network_id.take(12)
}

/// Derives the host-side bridge interface name for the given network
/// identifier.  Fails with [`DfwError::InvalidIdentifier`] when the
/// identifier is shorter than the twelve characters a runtime-assigned
/// identifier at least has.
pub fn get_bridge_name(network_id: &str) -> (r: Result<String, DfwError>)
    ensures
        network_id@.len() < 12 ==> r == Err::<String, DfwError>(DfwError::InvalidIdentifier),
        network_id@.len() >= 12 ==> (r matches Ok(s) && s@ == bridge_name_model(network_id@)),
{
    let n: usize = network_id.unicode_len();
    if n < 12 {
        return Err(DfwError::InvalidIdentifier);
    }
    let prefix = network_id.substring_char(0, 12);
    proof {
        assert(network_id@.subrange(0, 12) =~= network_id@.take(12));
    }
    let mut s = String::from_str("br-");
    s.append(prefix);
    Ok(s)
}

/// The first attachment of the list that belongs to the given container, or
/// `None` when the container is not attached.
pub open spec fn attachment_lookup(
    atts: Seq<NetworkAttachmentModel>,
    container_id: Seq<char>,
) -> Option<NetworkAttachmentModel>
    decreases atts.len(),
{
    if atts.len() == 0 {
        None
    } else if atts[0].container_id == container_id {
        Some(atts[0])
    } else {
        attachment_lookup(atts.drop_first(), container_id)
    }
}

proof fn lemma_attachment_lookup_skip(
    atts: Seq<NetworkAttachmentModel>,
    container_id: Seq<char>,
    i: int,
)
    requires
        0 <= i < atts.len(),
    ensures
        attachment_lookup(atts.skip(i), container_id) == if atts[i].container_id == container_id {
            Some(atts[i])
        } else {
            attachment_lookup(atts.skip(i + 1), container_id)
        },
{
    assert(atts.skip(i)[0] == atts[i]);
    assert(atts.skip(i).drop_first() =~= atts.skip(i + 1));
}

/// The attachment detail of the named container on the given network: the
/// container is resolved through the snapshot's container map, its
/// attachment through the network's attachment list.
pub open spec fn network_for_container_model(
    container_map: Seq<(Seq<char>, ContainerModel)>,
    network: NetworkModel,
    container_name: Seq<char>,
) -> Option<NetworkAttachmentModel> {
    match assoc_lookup(container_map, container_name) {
        None => None,
        Some(c) => attachment_lookup(network.containers, c.id),
    }
}

/// Resolves the named container's attachment on the given network: `None`
/// when the container is not in the snapshot or not attached to the network.
pub fn get_network_for_container(
    container_map: &ContainerMap,
    network: &Network,
    container_name: &str,
) -> (r: Option<NetworkAttachment>)
    ensures
        match r {
            Some(a) => network_for_container_model(container_map@, network@, container_name@)
                == Some(a@),
            None => network_for_container_model(container_map@, network@, container_name@)
                is None,
        },
{
    let container = match container_map.get(container_name) {
        Some(c) => c,
        None => {
            return None;
        },
    };
    let ghost atts: Seq<NetworkAttachmentModel> = network@.containers;
    let mut i: usize = 0;
    proof {
        assert(atts.skip(0) =~= atts);
    }
    while i < network.containers.len()
        invariant
            0 <= i <= network.containers.len(),
            atts == network@.containers,
            atts.len() == network.containers@.len(),
            container_map.spec_get(container_name@) == Some(container@),
            attachment_lookup(atts, container@.id) == attachment_lookup(
                atts.skip(i as int),
                container@.id,
            ),
        decreases network.containers.len() - i,
    {
        proof {
            lemma_attachment_lookup_skip(atts, container@.id, i as int);
        }
        if network.containers[i].container_id == container.id {
            return Some(network.containers[i].clone());
        }
        i += 1;
    }
    None
}

/// The containers that are running, in listing order.
pub open spec fn running_only(cs: Seq<ContainerModel>) -> Seq<ContainerModel>
    decreases cs.len(),
{
    if cs.len() == 0 {
        Seq::empty()
    } else {
        let rest = running_only(cs.drop_last());
        if cs.last().running {
            rest.push(cs.last())
        } else {
            rest
        }
    }
}

proof fn lemma_running_only_take(cs: Seq<ContainerModel>, i: int)
    requires
        0 <= i < cs.len(),
    ensures
        running_only(cs.take(i + 1)) == if cs[i].running {
            running_only(cs.take(i)).push(cs[i])
        } else {
            running_only(cs.take(i))
        },
{
    let taken = cs.take(i + 1);
    assert(taken.last() == cs[i]);
    assert(taken.drop_last() =~= cs.take(i));
}

/// The containers the snapshot is built from under the given filter: all of
/// them, or only the running ones.
pub open spec fn filtered_containers(
    cs: Seq<ContainerModel>,
    filter: ContainerFilter,
) -> Seq<ContainerModel> {
    match filter {
        ContainerFilter::All => cs,
        ContainerFilter::Running => running_only(cs),
    }
}

fn select_containers(containers: Vec<Container>, filter: &ContainerFilter) -> (r: Vec<Container>)
    ensures
        r@.map(|i: int, c: Container| c@) == filtered_containers(
            containers@.map(|i: int, c: Container| c@),
            *filter,
        ),
{
    let ghost cs: Seq<ContainerModel> = containers@.map(|i: int, c: Container| c@);
    match filter {
        ContainerFilter::All => containers,
        ContainerFilter::Running => {
            let mut kept: Vec<Container> = Vec::new();
            let mut i: usize = 0;
            while i < containers.len()
                invariant
                    0 <= i <= containers.len(),
                    cs == containers@.map(|k: int, c: Container| c@),
                    cs.len() == containers@.len(),
                    kept@.map(|k: int, c: Container| c@) =~= running_only(cs.take(i as int)),
                decreases containers.len() - i,
            {
                proof {
                    lemma_running_only_take(cs, i as int);
                    assert(cs[i as int] == containers@[i as int]@);
                }
                if containers[i].running {
                    let ghost prev = kept@.map(|k: int, c: Container| c@);
                    kept.push(containers[i].clone());
                    proof {
                        let f = |k: int, c: Container| c@;
                        assert(kept@.map(f) =~= prev.push(kept@.last()@));
                    }
                }
                i += 1;
            }
            proof {
                assert(cs.take(containers@.len() as int) =~= cs);
            }
            kept
        },
    }
}

/// Enclosing struct to manage rule processing: the per-cycle, read-only view
/// of the topology together with the policy configuration.
pub struct ProcessContext {
    /// The policy configuration driving this cycle.
    pub dfw: Dfw,
    /// Snapshot map from (stripped) container name to container.
    pub container_map: ContainerMap,
    /// Snapshot map from network name to network.
    pub network_map: NetworkMap,
    /// The global default external interfaces, captured from the defaults.
    pub external_network_interfaces: Option<Vec<String>>,
}

impl ProcessContext {
    /// The container the snapshot associates with the given name.
    pub open spec fn spec_container(&self, name: Seq<char>) -> Option<ContainerModel> {
        self.container_map.spec_get(name)
    }

    /// The network the snapshot associates with the given name.
    pub open spec fn spec_network(&self, name: Seq<char>) -> Option<NetworkModel> {
        self.network_map.spec_get(name)
    }

    /// The global default external interfaces, as models.
    pub open spec fn spec_external_interfaces(&self) -> Option<Seq<Seq<char>>> {
        self.external_network_interfaces.deep_view()
    }

    /// The chain forwarding rules go to: the custom forwarding chain of the
    /// defaults, or the conventional one.
    pub open spec fn forward_chain_model(&self) -> Seq<char> {
        match self.dfw.global_defaults@.custom_forward_chain {
            Some(c) => c,
            None => "FORWARD"@,
        }
    }

    /// The chain redirect rules go to: the custom DNAT chain of the
    /// defaults, or the conventional one.
    pub open spec fn dnat_chain_model(&self) -> Seq<char> {
        match self.dfw.global_defaults@.custom_dnat_chain {
            Some(c) => c,
            None => "PREROUTING"@,
        }
    }

    /// The name of the chain forwarding rules go to.
    pub fn forward_chain(&self) -> (r: String)
        ensures
            r@ == self.forward_chain_model(),
    {
        match &self.dfw.global_defaults.custom_forward_chain {
            Some(c) => clone_string(c),
            None => String::from_str("FORWARD"),
        }
    }

    /// The name of the chain redirect rules go to.
    pub fn dnat_chain(&self) -> (r: String)
        ensures
            r@ == self.dnat_chain_model(),
    {
        match &self.dfw.global_defaults.custom_dnat_chain {
            Some(c) => clone_string(c),
            None => String::from_str("PREROUTING"),
        }
    }

    /// The address the named container has on the given network, when the
    /// container is in the snapshot and attached to the network.
    pub open spec fn spec_address_on(
        &self,
        network: NetworkModel,
        name: Seq<char>,
    ) -> Option<Seq<char>> {
        match network_for_container_model(self.container_map@, network, name) {
            None => None,
            Some(a) => Some(a.address),
        }
    }

    fn address_on(&self, network: &Network, name: &str) -> (r: Option<String>)
        ensures
            r.deep_view() == self.spec_address_on(network@, name@),
    {
        match get_network_for_container(&self.container_map, network, name) {
            Some(att) => Some(att.address),
            None => None,
        }
    }

    /// Create a new processing context for one cycle: folds the listed
    /// containers (under the given filter) and networks into the snapshot
    /// maps and captures the global default interfaces.  Fails with
    /// [`DfwError::TopologyError`] when the network list is empty, since a
    /// host without networks is not a valid topology.
    pub fn new(
        dfw: Dfw,
        containers: Vec<Container>,
        networks: Vec<Network>,
        processing_options: &ProcessingOptions,
    ) -> (r: Result<ProcessContext, DfwError>)
        ensures
            networks@.len() == 0 <==> r is Err,
            r matches Err(e) ==> e == DfwError::TopologyError,
            r matches Ok(ctx) ==> {
                &&& ctx.dfw == dfw
                &&& ctx.container_map@ == container_map_model(
                    filtered_containers(
                        containers@.map(|i: int, c: Container| c@),
                        processing_options.container_filter,
                    ),
                )
                &&& ctx.network_map@ == network_map_model(networks@.map(|i: int, n: Network| n@))
                &&& ctx.network_map@.len() > 0
                &&& ctx.external_network_interfaces.deep_view()
                    == dfw.global_defaults@.external_network_interfaces
            },
    {
        let selected = select_containers(containers, &processing_options.container_filter);
        let container_map = get_container_map(&selected);
        let network_map = match get_network_map(&networks) {
            Some(m) => m,
            None => {
                return Err(DfwError::TopologyError);
            },
        };
        let external_network_interfaces = match &dfw.global_defaults.external_network_interfaces {
            Some(v) => Some(crate::snapshot::clone_string_vec(v)),
            None => None,
        };
        Ok(
            ProcessContext {
                dfw,
                container_map,
                network_map,
                external_network_interfaces,
            },
        )
    }
}

/// The sink derived rules are handed to: installs the ordered rule list,
/// replacing any previously installed rules that carry this system's
/// markers, and reports success or failure.  Implemented outside the
/// library, for example by an iptables or nftables adapter, or by a test
/// recorder.
pub trait FirewallBackend {
    /// Apply the ordered rule list to the enforcement surface.  Installing
    /// the same ordered list twice with the same markers must leave the
    /// enforced state unchanged on the second call.
    fn apply(&mut self, rules: &Vec<Rule>) -> Result<(), DfwError>;
}

/// Whether an executable processing result carries exactly the rules of the
/// given spec-level derivation result.
pub open spec fn rules_match(
    r: Result<Option<Vec<Rule>>, DfwError>,
    s: Result<Option<Seq<RuleModel>>, DfwError>,
) -> bool {
    match r {
        Ok(Some(v)) => (s matches Ok(Some(m)) && v@.map(|i: int, x: Rule| x@) == m),
        Ok(None) => (s matches Ok(o) && o is None),
        Err(e) => (s matches Err(se) && se == e),
    }
}

/// This trait allows a type to define its own processing rules: the node
/// yields the ordered list of rules it contributes to the cycle.
pub trait Process {
    /// The spec-level derivation: the rules this node yields, as a pure
    /// function of the node and the context.
    spec fn rules_of(&self, ctx: &ProcessContext) -> Result<Option<Seq<RuleModel>>, DfwError>;

    /// Process the current type within the given [`ProcessContext`],
    /// returning zero or more rules to apply, exactly the rules of
    /// [`Process::rules_of`].
    fn process(&self, ctx: &ProcessContext) -> (r: Result<Option<Vec<Rule>>, DfwError>)
        ensures
            rules_match(r, self.rules_of(ctx)),
    ;
}

impl<T: Process> Process for Option<T> {
    /// An absent node yields no rules and is not an error.
    open spec fn rules_of(&self, ctx: &ProcessContext) -> Result<
        Option<Seq<RuleModel>>,
        DfwError,
    > {
        match self {
            Some(t) => t.rules_of(ctx),
            None => Ok(None),
        }
    }

    fn process(&self, ctx: &ProcessContext) -> (r: Result<Option<Vec<Rule>>, DfwError>) {
        match self {
            Some(t) => t.process(ctx),
            None => Ok(None),
        }
    }
}

/// The rules of a list of nodes: each child's rules in declaration order,
/// concatenated; the first failing child fails the list.
pub open spec fn seq_rules_of<T: Process>(s: Seq<T>, ctx: &ProcessContext) -> Result<
    Option<Seq<RuleModel>>,
    DfwError,
>
    decreases s.len(),
{
    if s.len() == 0 {
        Ok(Some(Seq::empty()))
    } else {
        match seq_rules_of(s.drop_last(), ctx) {
            Err(e) => Err(e),
            Ok(prefix_opt) => {
                let prefix = match prefix_opt {
                    Some(p) => p,
                    None => Seq::empty(),
                };
                match s.last().rules_of(ctx) {
                    Err(e) => Err(e),
                    Ok(Some(rs)) => Ok(Some(prefix + rs)),
                    Ok(None) => Ok(Some(prefix)),
                }
            },
        }
    }
}

proof fn lemma_seq_rules_of_take<T: Process>(s: Seq<T>, ctx: &ProcessContext, i: int)
    requires
        0 <= i < s.len(),
    ensures
        seq_rules_of(s.take(i + 1), ctx) == (match seq_rules_of(s.take(i), ctx) {
            Err(e) => Err::<Option<Seq<RuleModel>>, DfwError>(e),
            Ok(prefix_opt) => {
                let prefix = match prefix_opt {
                    Some(p) => p,
                    None => Seq::empty(),
                };
                match s[i].rules_of(ctx) {
                    Err(e) => Err(e),
                    Ok(Some(rs)) => Ok(Some(prefix + rs)),
                    Ok(None) => Ok(Some(prefix)),
                }
            },
        }),
{
    let taken = s.take(i + 1);
    assert(taken.last() == s[i]);
    assert(taken.drop_last() =~= s.take(i));
}

proof fn lemma_seq_rules_of_err_extends<T: Process>(s: Seq<T>, ctx: &ProcessContext, i: int)
    requires
        0 <= i <= s.len(),
        seq_rules_of(s.take(i), ctx) is Err,
    ensures
        seq_rules_of(s, ctx) == seq_rules_of(s.take(i), ctx),
    decreases s.len() - i,
{
    if i == s.len() {
        assert(s.take(i) =~= s);
    } else {
        lemma_seq_rules_of_take(s, ctx, i);
        lemma_seq_rules_of_err_extends(s, ctx, i + 1);
    }
}

impl<T: Process> Process for Vec<T> {
    /// A list node processes each child in order and concatenates the
    /// results, preserving declaration order.
    open spec fn rules_of(&self, ctx: &ProcessContext) -> Result<
        Option<Seq<RuleModel>>,
        DfwError,
    > {
        seq_rules_of(self@, ctx)
    }

    fn process(&self, ctx: &ProcessContext) -> (r: Result<Option<Vec<Rule>>, DfwError>) {
        let mut rules: Vec<Rule> = Vec::new();
        let mut i: usize = 0;
        proof {
            assert(self@.take(0) =~= Seq::<T>::empty());
            assert(rules@.map(|k: int, x: Rule| x@) =~= Seq::<RuleModel>::empty());
        }
        while i < self.len()
            invariant
                0 <= i <= self.len(),
                seq_rules_of(self@.take(i as int), ctx) == Ok::<Option<Seq<RuleModel>>, DfwError>(
                    Some(rules@.map(|k: int, x: Rule| x@)),
                ),
            decreases self.len() - i,
        {
            proof {
                lemma_seq_rules_of_take(self@, ctx, i as int);
            }
            match self[i].process(ctx) {
                Err(e) => {
                    proof {
                        lemma_seq_rules_of_err_extends(self@, ctx, i + 1);
                    }
                    return Err(e);
                },
                Ok(None) => {},
                Ok(Some(mut sub_rules)) => {
                    let ghost prev = rules@.map(|k: int, x: Rule| x@);
                    let ghost sub = sub_rules@.map(|k: int, x: Rule| x@);
                    rules.append(&mut sub_rules);
                    proof {
                        assert(rules@.map(|k: int, x: Rule| x@) =~= prev + sub);
                    }
                },
            }
            i += 1;
        }
        proof {
            assert(self@.take(self.len() as int) =~= self@);
        }
        Ok(Some(rules))
    }
}

// ---------------------------------------------------------------------------
// Category processing: defaults
// ---------------------------------------------------------------------------

/// The rule a default chain policy of the global defaults expands into.
pub open spec fn default_policy_rule_model(p: ChainPolicyModel) -> RuleModel {
    RuleModel {
        chain: p.chain,
        in_interface: None,
        out_interface: None,
        source: None,
        destination: None,
        host_port: None,
        dnat_address: None,
        dnat_port: None,
        action: p.policy,
        marker: marker_model(seq!["defaults"@, p.chain]),
    }
}

impl Process for Defaults {
    /// The defaults node establishes the default chain policies: one rule
    /// per declared policy, in declaration order.
    open spec fn rules_of(&self, ctx: &ProcessContext) -> Result<
        Option<Seq<RuleModel>>,
        DfwError,
    > {
        match self@.default_policies {
            None => Ok(Some(Seq::empty())),
            Some(ps) => Ok(Some(ps.map(|i: int, p: ChainPolicyModel| default_policy_rule_model(p)))),
        }
    }

    fn process(&self, ctx: &ProcessContext) -> (r: Result<Option<Vec<Rule>>, DfwError>) {
        let ps = match &self.default_policies {
            None => {
                let rules: Vec<Rule> = Vec::new();
                proof {
                    assert(rules@.map(|k: int, x: Rule| x@) =~= Seq::<RuleModel>::empty());
                }
                return Ok(Some(rules));
            },
            Some(ps) => ps,
        };
        let ghost pms: Seq<ChainPolicyModel> = self@.default_policies->Some_0;
        let ghost target: Seq<RuleModel> = pms.map(|k: int, p: ChainPolicyModel| default_policy_rule_model(p));
        let mut rules: Vec<Rule> = Vec::new();
        let mut i: usize = 0;
        while i < ps.len()
            invariant
                0 <= i <= ps.len(),
                pms == ps@.map(|k: int, p: crate::types::ChainPolicy| p@),
                target == pms.map(|k: int, p: ChainPolicyModel| default_policy_rule_model(p)),
                pms.len() == ps@.len(),
                target.len() == pms.len(),
                rules@.map(|k: int, x: Rule| x@) =~= target.take(i as int),
            decreases ps.len() - i,
        {
            let comps: [&str; 2] = ["defaults", ps[i].chain.as_str()];
            let marker = generate_marker(&comps);
            let ghost prev = rules@.map(|k: int, x: Rule| x@);
            let rule = Rule {
                chain: clone_string(&ps[i].chain),
                in_interface: None,
                out_interface: None,
                source: None,
                destination: None,
                host_port: None,
                dnat_address: None,
                dnat_port: None,
                action: ps[i].policy,
                marker,
            };
            proof {
                assert(comps.deep_view() =~= seq!["defaults"@, ps@[i as int]@.chain]);
                assert(pms[i as int] == ps@[i as int]@);
                assert(rule@ == default_policy_rule_model(pms[i as int]));
            }
            rules.push(rule);
            proof {
                assert(rules@.map(|k: int, x: Rule| x@) =~= prev.push(target[i as int]));
                assert(target.take(i + 1) =~= target.take(i as int).push(target[i as int]));
            }
            i += 1;
        }
        proof {
            assert(target.take(pms.len() as int) =~= target);
        }
        Ok(Some(rules))
    }
}

// ---------------------------------------------------------------------------
// Category processing: container to container
// ---------------------------------------------------------------------------

/// Three-way resolution of an optional container reference on a network:
/// `Some(None)` when no container is named (no address constraint),
/// `Some(Some(addr))` when the named container resolves to an address on the
/// network, and `None` when a container is named but absent from the
/// snapshot or not attached (the entry is skipped).
pub open spec fn resolve_optional_address(
    ctx: &ProcessContext,
    net: NetworkModel,
    name: Option<Seq<char>>,
) -> Option<Option<Seq<char>>> {
    match name {
        None => Some(None),
        Some(n) => match ctx.spec_address_on(net, n) {
            None => None,
            Some(a) => Some(Some(a)),
        },
    }
}

fn resolve_optional(ctx: &ProcessContext, network: &Network, name: &Option<String>) -> (r: Option<
    Option<String>,
>)
    ensures
        r.deep_view() == resolve_optional_address(ctx, network@, name.deep_view()),
{
    match name {
        None => Some(None),
        Some(n) => match ctx.address_on(network, n.as_str()) {
            None => None,
            Some(a) => Some(Some(a)),
        },
    }
}

/// The rule a container-to-container entry expands into.
pub open spec fn c2c_rule_model(
    ctx: &ProcessContext,
    net: NetworkModel,
    source: Option<Seq<char>>,
    destination: Option<Seq<char>>,
    action: RuleAction,
    network_name: Seq<char>,
) -> RuleModel {
    RuleModel {
        chain: ctx.forward_chain_model(),
        in_interface: Some(bridge_name_model(net.id)),
        out_interface: Some(bridge_name_model(net.id)),
        source,
        destination,
        host_port: None,
        dnat_address: None,
        dnat_port: None,
        action,
        marker: marker_model(seq!["c2c"@, network_name]),
    }
}

impl Process for ContainerToContainerRule {
    /// One entry scopes its verdict to the bridge interface of its network
    /// and to the source and destination containers' addresses, when named.
    /// An entry whose network or named containers are absent from the
    /// snapshot yields no rules; a network whose identifier is too short to
    /// derive a bridge name fails the cycle.
    open spec fn rules_of(&self, ctx: &ProcessContext) -> Result<
        Option<Seq<RuleModel>>,
        DfwError,
    > {
        let m = self@;
        match ctx.spec_network(m.network) {
            None => Ok(Some(Seq::empty())),
            Some(net) => if net.id.len() < 12 {
                Err(DfwError::RuleDerivationError)
            } else {
                match resolve_optional_address(ctx, net, m.src_container) {
                    None => Ok(Some(Seq::empty())),
                    Some(source) => match resolve_optional_address(ctx, net, m.dst_container) {
                        None => Ok(Some(Seq::empty())),
                        Some(destination) => Ok(
                            Some(
                                seq![
                                    c2c_rule_model(ctx, net, source, destination, m.action, m.network)
                                ],
                            ),
                        ),
                    },
                }
            },
        }
    }

    fn process(&self, ctx: &ProcessContext) -> (r: Result<Option<Vec<Rule>>, DfwError>) {
        let network = match ctx.network_map.get(self.network.as_str()) {
            None => {
                let rules: Vec<Rule> = Vec::new();
                proof {
                    assert(rules@.map(|k: int, x: Rule| x@) =~= Seq::<RuleModel>::empty());
                }
                return Ok(Some(rules));
            },
            Some(n) => n,
        };
        let bridge = match get_bridge_name(network.id.as_str()) {
            Err(_) => {
                return Err(DfwError::RuleDerivationError);
            },
            Ok(b) => b,
        };
        let source = match resolve_optional(ctx, network, &self.src_container) {
            None => {
                let rules: Vec<Rule> = Vec::new();
                proof {
                    assert(rules@.map(|k: int, x: Rule| x@) =~= Seq::<RuleModel>::empty());
                }
                return Ok(Some(rules));
            },
            Some(s) => s,
        };
        let destination = match resolve_optional(ctx, network, &self.dst_container) {
            None => {
                let rules: Vec<Rule> = Vec::new();
                proof {
                    assert(rules@.map(|k: int, x: Rule| x@) =~= Seq::<RuleModel>::empty());
                }
                return Ok(Some(rules));
            },
            Some(d) => d,
        };
        let comps: [&str; 2] = ["c2c", self.network.as_str()];
        let marker = generate_marker(&comps);
        let out_bridge = clone_string(&bridge);
        let rule = Rule {
            chain: ctx.forward_chain(),
            in_interface: Some(bridge),
            out_interface: Some(out_bridge),
            source,
            destination,
            host_port: None,
            dnat_address: None,
            dnat_port: None,
            action: self.action,
            marker,
        };
        proof {
            assert(comps.deep_view() =~= seq!["c2c"@, self@.network]);
            let net = ctx.spec_network(self@.network)->Some_0;
            assert(rule@ == c2c_rule_model(
                ctx,
                net,
                self.rules_of(ctx)->Ok_0->Some_0[0].source,
                self.rules_of(ctx)->Ok_0->Some_0[0].destination,
                self@.action,
                self@.network,
            ));
        }
        let rules = vec![rule];
        proof {
            assert(rules@.map(|k: int, x: Rule| x@) =~= seq![rule@]);
        }
        Ok(Some(rules))
    }
}

/// The rule a category's configured default policy expands into.
pub open spec fn category_policy_rule_model(
    chain: Seq<char>,
    action: RuleAction,
    category: Seq<char>,
) -> RuleModel {
    RuleModel {
        chain,
        in_interface: None,
        out_interface: None,
        source: None,
        destination: None,
        host_port: None,
        dnat_address: None,
        dnat_port: None,
        action,
        marker: marker_model(seq![category, "default"@]),
    }
}

impl Process for ContainerToContainer {
    /// The category emits its configured default policy first, then its
    /// entries' rules in declaration order.
    open spec fn rules_of(&self, ctx: &ProcessContext) -> Result<
        Option<Seq<RuleModel>>,
        DfwError,
    > {
        let own = seq![
            category_policy_rule_model(ctx.forward_chain_model(), self.default_policy, "c2c"@)
        ];
        match self.rules.rules_of(ctx) {
            Err(e) => Err(e),
            Ok(Some(rs)) => Ok(Some(own + rs)),
            Ok(None) => Ok(Some(own)),
        }
    }

    fn process(&self, ctx: &ProcessContext) -> (r: Result<Option<Vec<Rule>>, DfwError>) {
        let comps: [&str; 2] = ["c2c", "default"];
        let marker = generate_marker(&comps);
        let rule = Rule {
            chain: ctx.forward_chain(),
            in_interface: None,
            out_interface: None,
            source: None,
            destination: None,
            host_port: None,
            dnat_address: None,
            dnat_port: None,
            action: self.default_policy,
            marker,
        };
        proof {
            assert(comps.deep_view() =~= seq!["c2c"@, "default"@]);
            assert(rule@ == category_policy_rule_model(
                ctx.forward_chain_model(),
                self.default_policy,
                "c2c"@,
            ));
        }
        let mut rules = vec![rule];
        proof {
            assert(rules@.map(|k: int, x: Rule| x@) =~= seq![rule@]);
        }
        match self.rules.process(ctx) {
            Err(e) => Err(e),
            Ok(None) => Ok(Some(rules)),
            Ok(Some(mut sub_rules)) => {
                let ghost prev = rules@.map(|k: int, x: Rule| x@);
                let ghost sub = sub_rules@.map(|k: int, x: Rule| x@);
                rules.append(&mut sub_rules);
                proof {
                    assert(rules@.map(|k: int, x: Rule| x@) =~= prev + sub);
                }
                Ok(Some(rules))
            },
        }
    }
}

// ---------------------------------------------------------------------------
// Category processing: container to wider world
// ---------------------------------------------------------------------------

/// The external interfaces an egress or ingress entry expands over: the
/// entry's own interface when it names one, else the global default
/// interfaces; `None` when neither is available, which makes the entry fail
/// as a missing required default.
pub open spec fn interfaces_for(
    ctx: &ProcessContext,
    entry_interface: Option<Seq<char>>,
) -> Option<Seq<Seq<char>>> {
    match entry_interface {
        Some(i) => Some(seq![i]),
        None => ctx.spec_external_interfaces(),
    }
}

fn entry_interfaces(ctx: &ProcessContext, entry_interface: &Option<String>) -> (r: Option<
    Vec<String>,
>)
    ensures
        r.deep_view() == interfaces_for(ctx, entry_interface.deep_view()),
{
    match entry_interface {
        Some(i) => {
            let one = vec![clone_string(i)];
            proof {
                assert(one.deep_view() =~= seq![i@]);
            }
            Some(one)
        },
        None => match &ctx.external_network_interfaces {
            Some(v) => Some(crate::snapshot::clone_string_vec(v)),
            None => None,
        },
    }
}

fn clone_opt_string(s: &Option<String>) -> (r: Option<String>)
    ensures
        r.deep_view() == s.deep_view(),
{
    match s {
        Some(x) => Some(clone_string(x)),
        None => None,
    }
}

/// The rule a container-to-wider-world entry emits for one external
/// interface.
pub open spec fn c2ww_rule_model(
    ctx: &ProcessContext,
    iface: Seq<char>,
    in_interface: Option<Seq<char>>,
    source: Option<Seq<char>>,
    action: RuleAction,
) -> RuleModel {
    RuleModel {
        chain: ctx.forward_chain_model(),
        in_interface,
        out_interface: Some(iface),
        source,
        destination: None,
        host_port: None,
        dnat_address: None,
        dnat_port: None,
        action,
        marker: marker_model(seq!["c2ww"@, iface]),
    }
}

fn c2ww_emit(
    ctx: &ProcessContext,
    ifaces: &Vec<String>,
    in_interface: &Option<String>,
    source: &Option<String>,
    action: RuleAction,
) -> (r: Vec<Rule>)
    ensures
        r@.map(|k: int, x: Rule| x@) == ifaces.deep_view().map(
            |k: int, iface: Seq<char>| c2ww_rule_model(
                ctx,
                iface,
                in_interface.deep_view(),
                source.deep_view(),
                action,
            ),
        ),
{
    let ghost ifs: Seq<Seq<char>> = ifaces.deep_view();
    let ghost target: Seq<RuleModel> = ifs.map(
        |k: int, iface: Seq<char>| c2ww_rule_model(
            ctx,
            iface,
            in_interface.deep_view(),
            source.deep_view(),
            action,
        ),
    );
    let mut rules: Vec<Rule> = Vec::new();
    let mut k: usize = 0;
    proof {
        assert(rules@.map(|j: int, x: Rule| x@) =~= target.take(0));
    }
    while k < ifaces.len()
        invariant
            0 <= k <= ifaces.len(),
            ifs == ifaces.deep_view(),
            target == ifs.map(
                |j: int, iface: Seq<char>| c2ww_rule_model(
                    ctx,
                    iface,
                    in_interface.deep_view(),
                    source.deep_view(),
                    action,
                ),
            ),
            ifs.len() == ifaces@.len(),
            target.len() == ifs.len(),
            rules@.map(|j: int, x: Rule| x@) =~= target.take(k as int),
        decreases ifaces.len() - k,
    {
        let comps: [&str; 2] = ["c2ww", ifaces[k].as_str()];
        let marker = generate_marker(&comps);
        let ghost prev = rules@.map(|j: int, x: Rule| x@);
        let rule = Rule {
            chain: ctx.forward_chain(),
            in_interface: clone_opt_string(in_interface),
            out_interface: Some(clone_string(&ifaces[k])),
            source: clone_opt_string(source),
            destination: None,
            host_port: None,
            dnat_address: None,
            dnat_port: None,
            action,
            marker,
        };
        proof {
            assert(comps.deep_view() =~= seq!["c2ww"@, ifs[k as int]]);
            assert(ifs[k as int] == ifaces@[k as int]@);
            assert(rule@ == target[k as int]);
        }
        rules.push(rule);
        proof {
            assert(rules@.map(|j: int, x: Rule| x@) =~= prev.push(target[k as int]));
            assert(target.take(k + 1) =~= target.take(k as int).push(target[k as int]));
        }
        k += 1;
    }
    proof {
        assert(target.take(ifs.len() as int) =~= target);
    }
    rules
}

impl Process for ContainerToWiderWorldRule {
    /// One entry emits its verdict once per external interface, scoped to
    /// the entry's network bridge and source container address when named.
    /// Missing networks or containers skip the entry; a too-short network
    /// identifier, or the lack of any external interface, fails the cycle.
    open spec fn rules_of(&self, ctx: &ProcessContext) -> Result<
        Option<Seq<RuleModel>>,
        DfwError,
    > {
        let m = self@;
        match interfaces_for(ctx, m.external_network_interface) {
            None => Err(DfwError::RuleDerivationError),
            Some(ifs) => match m.network {
                None => Ok(
                    Some(
                        ifs.map(
                            |k: int, iface: Seq<char>| c2ww_rule_model(
                                ctx,
                                iface,
                                None,
                                None,
                                m.action,
                            ),
                        ),
                    ),
                ),
                Some(netname) => match ctx.spec_network(netname) {
                    None => Ok(Some(Seq::empty())),
                    Some(net) => if net.id.len() < 12 {
                        Err(DfwError::RuleDerivationError)
                    } else {
                        match resolve_optional_address(ctx, net, m.src_container) {
                            None => Ok(Some(Seq::empty())),
                            Some(source) => Ok(
                                Some(
                                    ifs.map(
                                        |k: int, iface: Seq<char>| c2ww_rule_model(
                                            ctx,
                                            iface,
                                            Some(bridge_name_model(net.id)),
                                            source,
                                            m.action,
                                        ),
                                    ),
                                ),
                            ),
                        }
                    },
                },
            },
        }
    }

    fn process(&self, ctx: &ProcessContext) -> (r: Result<Option<Vec<Rule>>, DfwError>) {
        let ifaces = match entry_interfaces(ctx, &self.external_network_interface) {
            None => {
                return Err(DfwError::RuleDerivationError);
            },
            Some(v) => v,
        };
        let network = match &self.network {
            None => {
                let none_in: Option<String> = None;
                let none_src: Option<String> = None;
                let rules = c2ww_emit(ctx, &ifaces, &none_in, &none_src, self.action);
                return Ok(Some(rules));
            },
            Some(netname) => match ctx.network_map.get(netname.as_str()) {
                None => {
                    let rules: Vec<Rule> = Vec::new();
                    proof {
                        assert(rules@.map(|k: int, x: Rule| x@) =~= Seq::<RuleModel>::empty());
                    }
                    return Ok(Some(rules));
                },
                Some(n) => n,
            },
        };
        let bridge = match get_bridge_name(network.id.as_str()) {
            Err(_) => {
                return Err(DfwError::RuleDerivationError);
            },
            Ok(b) => b,
        };
        let source = match resolve_optional(ctx, network, &self.src_container) {
            None => {
                let rules: Vec<Rule> = Vec::new();
                proof {
                    assert(rules@.map(|k: int, x: Rule| x@) =~= Seq::<RuleModel>::empty());
                }
                return Ok(Some(rules));
            },
            Some(s) => s,
        };
        let in_interface: Option<String> = Some(bridge);
        let rules = c2ww_emit(ctx, &ifaces, &in_interface, &source, self.action);
        Ok(Some(rules))
    }
}

impl Process for ContainerToWiderWorld {
    /// The category emits its configured default policy first, then its
    /// entries' rules in declaration order.
    open spec fn rules_of(&self, ctx: &ProcessContext) -> Result<
        Option<Seq<RuleModel>>,
        DfwError,
    > {
        let own = seq![
            category_policy_rule_model(ctx.forward_chain_model(), self.default_policy, "c2ww"@)
        ];
        match self.rules.rules_of(ctx) {
            Err(e) => Err(e),
            Ok(Some(rs)) => Ok(Some(own + rs)),
            Ok(None) => Ok(Some(own)),
        }
    }

    fn process(&self, ctx: &ProcessContext) -> (r: Result<Option<Vec<Rule>>, DfwError>) {
        let comps: [&str; 2] = ["c2ww", "default"];
        let marker = generate_marker(&comps);
        let rule = Rule {
            chain: ctx.forward_chain(),
            in_interface: None,
            out_interface: None,
            source: None,
            destination: None,
            host_port: None,
            dnat_address: None,
            dnat_port: None,
            action: self.default_policy,
            marker,
        };
        proof {
            assert(comps.deep_view() =~= seq!["c2ww"@, "default"@]);
            assert(rule@ == category_policy_rule_model(
                ctx.forward_chain_model(),
                self.default_policy,
                "c2ww"@,
            ));
        }
        let mut rules = vec![rule];
        proof {
            assert(rules@.map(|k: int, x: Rule| x@) =~= seq![rule@]);
        }
        match self.rules.process(ctx) {
            Err(e) => Err(e),
            Ok(None) => Ok(Some(rules)),
            Ok(Some(mut sub_rules)) => {
                let ghost prev = rules@.map(|k: int, x: Rule| x@);
                let ghost sub = sub_rules@.map(|k: int, x: Rule| x@);
                rules.append(&mut sub_rules);
                proof {
                    assert(rules@.map(|k: int, x: Rule| x@) =~= prev + sub);
                }
                Ok(Some(rules))
            },
        }
    }
}

// ---------------------------------------------------------------------------
// Category processing: container to host
// ---------------------------------------------------------------------------

/// The rule a container-to-host entry expands into.
pub open spec fn c2h_rule_model(
    net: NetworkModel,
    source: Option<Seq<char>>,
    action: RuleAction,
    network_name: Seq<char>,
) -> RuleModel {
    RuleModel {
        chain: "INPUT"@,
        in_interface: Some(bridge_name_model(net.id)),
        out_interface: None,
        source,
        destination: None,
        host_port: None,
        dnat_address: None,
        dnat_port: None,
        action,
        marker: marker_model(seq!["c2h"@, network_name]),
    }
}

impl Process for ContainerToHostRule {
    /// One entry scopes its verdict to traffic entering the host from its
    /// network's bridge interface, restricted to the source container's
    /// address when one is named.  Missing networks or containers skip the
    /// entry; a too-short network identifier fails the cycle.
    open spec fn rules_of(&self, ctx: &ProcessContext) -> Result<
        Option<Seq<RuleModel>>,
        DfwError,
    > {
        let m = self@;
        match ctx.spec_network(m.network) {
            None => Ok(Some(Seq::empty())),
            Some(net) => if net.id.len() < 12 {
                Err(DfwError::RuleDerivationError)
            } else {
                match resolve_optional_address(ctx, net, m.src_container) {
                    None => Ok(Some(Seq::empty())),
                    Some(source) => Ok(
                        Some(seq![c2h_rule_model(net, source, m.action, m.network)]),
                    ),
                }
            },
        }
    }

    fn process(&self, ctx: &ProcessContext) -> (r: Result<Option<Vec<Rule>>, DfwError>) {
        let network = match ctx.network_map.get(self.network.as_str()) {
            None => {
                let rules: Vec<Rule> = Vec::new();
                proof {
                    assert(rules@.map(|k: int, x: Rule| x@) =~= Seq::<RuleModel>::empty());
                }
                return Ok(Some(rules));
            },
            Some(n) => n,
        };
        let bridge = match get_bridge_name(network.id.as_str()) {
            Err(_) => {
                return Err(DfwError::RuleDerivationError);
            },
            Ok(b) => b,
        };
        let source = match resolve_optional(ctx, network, &self.src_container) {
            None => {
                let rules: Vec<Rule> = Vec::new();
                proof {
                    assert(rules@.map(|k: int, x: Rule| x@) =~= Seq::<RuleModel>::empty());
                }
                return Ok(Some(rules));
            },
            Some(s) => s,
        };
        let comps: [&str; 2] = ["c2h", self.network.as_str()];
        let marker = generate_marker(&comps);
        let rule = Rule {
            chain: String::from_str("INPUT"),
            in_interface: Some(bridge),
            out_interface: None,
            source,
            destination: None,
            host_port: None,
            dnat_address: None,
            dnat_port: None,
            action: self.action,
            marker,
        };
        proof {
            assert(comps.deep_view() =~= seq!["c2h"@, self@.network]);
            let net = ctx.spec_network(self@.network)->Some_0;
            assert(rule@ == c2h_rule_model(
                net,
                self.rules_of(ctx)->Ok_0->Some_0[0].source,
                self@.action,
                self@.network,
            ));
        }
        let rules = vec![rule];
        proof {
            assert(rules@.map(|k: int, x: Rule| x@) =~= seq![rule@]);
        }
        Ok(Some(rules))
    }
}

impl Process for ContainerToHost {
    /// The category emits its configured default policy first, then its
    /// entries' rules in declaration order.
    open spec fn rules_of(&self, ctx: &ProcessContext) -> Result<
        Option<Seq<RuleModel>>,
        DfwError,
    > {
        let own = seq![category_policy_rule_model("INPUT"@, self.default_policy, "c2h"@)];
        match self.rules.rules_of(ctx) {
            Err(e) => Err(e),
            Ok(Some(rs)) => Ok(Some(own + rs)),
            Ok(None) => Ok(Some(own)),
        }
    }

    fn process(&self, ctx: &ProcessContext) -> (r: Result<Option<Vec<Rule>>, DfwError>) {
        let comps: [&str; 2] = ["c2h", "default"];
        let marker = generate_marker(&comps);
        let rule = Rule {
            chain: String::from_str("INPUT"),
            in_interface: None,
            out_interface: None,
            source: None,
            destination: None,
            host_port: None,
            dnat_address: None,
            dnat_port: None,
            action: self.default_policy,
            marker,
        };
        proof {
            assert(comps.deep_view() =~= seq!["c2h"@, "default"@]);
            assert(rule@ == category_policy_rule_model("INPUT"@, self.default_policy, "c2h"@));
        }
        let mut rules = vec![rule];
        proof {
            assert(rules@.map(|k: int, x: Rule| x@) =~= seq![rule@]);
        }
        match self.rules.process(ctx) {
            Err(e) => Err(e),
            Ok(None) => Ok(Some(rules)),
            Ok(Some(mut sub_rules)) => {
                let ghost prev = rules@.map(|k: int, x: Rule| x@);
                let ghost sub = sub_rules@.map(|k: int, x: Rule| x@);
                rules.append(&mut sub_rules);
                proof {
                    assert(rules@.map(|k: int, x: Rule| x@) =~= prev + sub);
                }
                Ok(Some(rules))
            },
        }
    }
}

// ---------------------------------------------------------------------------
// Category processing: wider world to container
// ---------------------------------------------------------------------------

/// The rule a wider-world-to-container entry emits for one external
/// interface and one published port.
pub open spec fn ww2c_rule_model(
    ctx: &ProcessContext,
    iface: Seq<char>,
    port: ExposePort,
    bridge: Seq<char>,
    address: Seq<char>,
    network_name: Seq<char>,
) -> RuleModel {
    RuleModel {
        chain: ctx.forward_chain_model(),
        in_interface: Some(iface),
        out_interface: Some(bridge),
        source: None,
        destination: Some(address),
        host_port: Some(port.host_port),
        dnat_address: None,
        dnat_port: None,
        action: RuleAction::Accept,
        marker: marker_model(seq!["ww2c"@, network_name]),
    }
}

/// The expansion of a wider-world-to-container entry: for every external
/// interface, one rule per published port, interfaces outermost.
pub open spec fn ww2c_expand(
    ctx: &ProcessContext,
    ifs: Seq<Seq<char>>,
    ports: Seq<ExposePort>,
    bridge: Seq<char>,
    address: Seq<char>,
    network_name: Seq<char>,
) -> Seq<RuleModel>
    decreases ifs.len(),
{
    if ifs.len() == 0 {
        Seq::empty()
    } else {
        ww2c_expand(ctx, ifs.drop_last(), ports, bridge, address, network_name) + ports.map(
            |k: int, p: ExposePort| ww2c_rule_model(ctx, ifs.last(), p, bridge, address, network_name),
        )
    }
}

proof fn lemma_ww2c_expand_take(
    ctx: &ProcessContext,
    ifs: Seq<Seq<char>>,
    ports: Seq<ExposePort>,
    bridge: Seq<char>,
    address: Seq<char>,
    network_name: Seq<char>,
    i: int,
)
    requires
        0 <= i < ifs.len(),
    ensures
        ww2c_expand(ctx, ifs.take(i + 1), ports, bridge, address, network_name) == ww2c_expand(
            ctx,
            ifs.take(i),
            ports,
            bridge,
            address,
            network_name,
        ) + ports.map(
            |k: int, p: ExposePort| ww2c_rule_model(ctx, ifs[i], p, bridge, address, network_name),
        ),
{
    let taken = ifs.take(i + 1);
    assert(taken.last() == ifs[i]);
    assert(taken.drop_last() =~= ifs.take(i));
}

fn ww2c_ports_emit(
    ctx: &ProcessContext,
    iface: &String,
    ports: &Vec<ExposePort>,
    bridge: &String,
    address: &String,
    network_name: &String,
) -> (r: Vec<Rule>)
    ensures
        r@.map(|k: int, x: Rule| x@) == ports@.map(
            |k: int, p: ExposePort| ww2c_rule_model(ctx, iface@, p, bridge@, address@, network_name@),
        ),
{
    let ghost target: Seq<RuleModel> = ports@.map(
        |k: int, p: ExposePort| ww2c_rule_model(ctx, iface@, p, bridge@, address@, network_name@),
    );
    let mut rules: Vec<Rule> = Vec::new();
    let mut k: usize = 0;
    proof {
        assert(rules@.map(|j: int, x: Rule| x@) =~= target.take(0));
    }
    while k < ports.len()
        invariant
            0 <= k <= ports.len(),
            target == ports@.map(
                |j: int, p: ExposePort| ww2c_rule_model(
                    ctx,
                    iface@,
                    p,
                    bridge@,
                    address@,
                    network_name@,
                ),
            ),
            target.len() == ports@.len(),
            rules@.map(|j: int, x: Rule| x@) =~= target.take(k as int),
        decreases ports.len() - k,
    {
        let comps: [&str; 2] = ["ww2c", network_name.as_str()];
        let marker = generate_marker(&comps);
        let ghost prev = rules@.map(|j: int, x: Rule| x@);
        let rule = Rule {
            chain: ctx.forward_chain(),
            in_interface: Some(clone_string(iface)),
            out_interface: Some(clone_string(bridge)),
            source: None,
            destination: Some(clone_string(address)),
            host_port: Some(ports[k].host_port),
            dnat_address: None,
            dnat_port: None,
            action: RuleAction::Accept,
            marker,
        };
        proof {
            assert(comps.deep_view() =~= seq!["ww2c"@, network_name@]);
            assert(rule@ == target[k as int]);
        }
        rules.push(rule);
        proof {
            assert(rules@.map(|j: int, x: Rule| x@) =~= prev.push(target[k as int]));
            assert(target.take(k + 1) =~= target.take(k as int).push(target[k as int]));
        }
        k += 1;
    }
    proof {
        assert(target.take(ports@.len() as int) =~= target);
    }
    rules
}

fn ww2c_emit(
    ctx: &ProcessContext,
    ifaces: &Vec<String>,
    ports: &Vec<ExposePort>,
    bridge: &String,
    address: &String,
    network_name: &String,
) -> (r: Vec<Rule>)
    ensures
        r@.map(|k: int, x: Rule| x@) == ww2c_expand(
            ctx,
            ifaces.deep_view(),
            ports@,
            bridge@,
            address@,
            network_name@,
        ),
{
    let ghost ifs: Seq<Seq<char>> = ifaces.deep_view();
    let mut rules: Vec<Rule> = Vec::new();
    let mut i: usize = 0;
    proof {
        assert(ifs.take(0) =~= Seq::<Seq<char>>::empty());
        assert(rules@.map(|j: int, x: Rule| x@) =~= Seq::<RuleModel>::empty());
    }
    while i < ifaces.len()
        invariant
            0 <= i <= ifaces.len(),
            ifs == ifaces.deep_view(),
            ifs.len() == ifaces@.len(),
            rules@.map(|j: int, x: Rule| x@) =~= ww2c_expand(
                ctx,
                ifs.take(i as int),
                ports@,
                bridge@,
                address@,
                network_name@,
            ),
        decreases ifaces.len() - i,
    {
        let mut sub_rules = ww2c_ports_emit(ctx, &ifaces[i], ports, bridge, address, network_name);
        let ghost prev = rules@.map(|j: int, x: Rule| x@);
        let ghost sub = sub_rules@.map(|j: int, x: Rule| x@);
        rules.append(&mut sub_rules);
        proof {
            assert(ifs[i as int] == ifaces@[i as int]@);
            assert(rules@.map(|j: int, x: Rule| x@) =~= prev + sub);
            lemma_ww2c_expand_take(ctx, ifs, ports@, bridge@, address@, network_name@, i as int);
        }
        i += 1;
    }
    proof {
        assert(ifs.take(ifaces@.len() as int) =~= ifs);
    }
    rules
}

impl Process for WiderWorldToContainerRule {
    /// One entry accepts ingress on every external interface for each
    /// published host port, directed to the destination container's address
    /// through its network's bridge interface.  A missing network or
    /// destination container skips the entry; a too-short network
    /// identifier, or the lack of any external interface, fails the cycle.
    open spec fn rules_of(&self, ctx: &ProcessContext) -> Result<
        Option<Seq<RuleModel>>,
        DfwError,
    > {
        let m = self@;
        match interfaces_for(ctx, m.external_network_interface) {
            None => Err(DfwError::RuleDerivationError),
            Some(ifs) => match ctx.spec_network(m.network) {
                None => Ok(Some(Seq::empty())),
                Some(net) => if net.id.len() < 12 {
                    Err(DfwError::RuleDerivationError)
                } else {
                    match ctx.spec_address_on(net, m.dst_container) {
                        None => Ok(Some(Seq::empty())),
                        Some(address) => Ok(
                            Some(
                                ww2c_expand(
                                    ctx,
                                    ifs,
                                    m.expose_port,
                                    bridge_name_model(net.id),
                                    address,
                                    m.network,
                                ),
                            ),
                        ),
                    }
                },
            },
        }
    }

    fn process(&self, ctx: &ProcessContext) -> (r: Result<Option<Vec<Rule>>, DfwError>) {
        let ifaces = match entry_interfaces(ctx, &self.external_network_interface) {
            None => {
                return Err(DfwError::RuleDerivationError);
            },
            Some(v) => v,
        };
        let network = match ctx.network_map.get(self.network.as_str()) {
            None => {
                let rules: Vec<Rule> = Vec::new();
                proof {
                    assert(rules@.map(|k: int, x: Rule| x@) =~= Seq::<RuleModel>::empty());
                }
                return Ok(Some(rules));
            },
            Some(n) => n,
        };
        let bridge = match get_bridge_name(network.id.as_str()) {
            Err(_) => {
                return Err(DfwError::RuleDerivationError);
            },
            Ok(b) => b,
        };
        let address = match ctx.address_on(network, self.dst_container.as_str()) {
            None => {
                let rules: Vec<Rule> = Vec::new();
                proof {
                    assert(rules@.map(|k: int, x: Rule| x@) =~= Seq::<RuleModel>::empty());
                }
                return Ok(Some(rules));
            },
            Some(a) => a,
        };
        let rules = ww2c_emit(ctx, &ifaces, &self.expose_port, &bridge, &address, &self.network);
        Ok(Some(rules))
    }
}

impl Process for WiderWorldToContainer {
    /// The category has no default policy of its own: it yields exactly its
    /// entries' rules, in declaration order.
    open spec fn rules_of(&self, ctx: &ProcessContext) -> Result<
        Option<Seq<RuleModel>>,
        DfwError,
    > {
        self.rules.rules_of(ctx)
    }

    fn process(&self, ctx: &ProcessContext) -> (r: Result<Option<Vec<Rule>>, DfwError>) {
        self.rules.process(ctx)
    }
}

// ---------------------------------------------------------------------------
// Category processing: container DNAT
// ---------------------------------------------------------------------------

/// The redirect rule a container-DNAT entry emits for one published port:
/// host-facing traffic on the host port is redirected to the destination
/// container's address, on the container port when one is published.
pub open spec fn dnat_rule_model(
    ctx: &ProcessContext,
    port: ExposePort,
    in_interface: Option<Seq<char>>,
    source: Option<Seq<char>>,
    dst_address: Seq<char>,
    dst_network_name: Seq<char>,
    dst_container_name: Seq<char>,
) -> RuleModel {
    RuleModel {
        chain: ctx.dnat_chain_model(),
        in_interface,
        out_interface: None,
        source,
        destination: None,
        host_port: Some(port.host_port),
        dnat_address: Some(dst_address),
        dnat_port: Some(
            match port.container_port {
                Some(cp) => cp,
                None => port.host_port,
            },
        ),
        action: RuleAction::Dnat,
        marker: marker_model(seq!["dnat"@, dst_network_name, dst_container_name]),
    }
}

fn dnat_ports_emit(
    ctx: &ProcessContext,
    ports: &Vec<ExposePort>,
    in_interface: &Option<String>,
    source: &Option<String>,
    dst_address: &String,
    dst_network_name: &String,
    dst_container_name: &String,
) -> (r: Vec<Rule>)
    ensures
        r@.map(|k: int, x: Rule| x@) == ports@.map(
            |k: int, p: ExposePort| dnat_rule_model(
                ctx,
                p,
                in_interface.deep_view(),
                source.deep_view(),
                dst_address@,
                dst_network_name@,
                dst_container_name@,
            ),
        ),
{
    let ghost target: Seq<RuleModel> = ports@.map(
        |k: int, p: ExposePort| dnat_rule_model(
            ctx,
            p,
            in_interface.deep_view(),
            source.deep_view(),
            dst_address@,
            dst_network_name@,
            dst_container_name@,
        ),
    );
    let mut rules: Vec<Rule> = Vec::new();
    let mut k: usize = 0;
    proof {
        assert(rules@.map(|j: int, x: Rule| x@) =~= target.take(0));
    }
    while k < ports.len()
        invariant
            0 <= k <= ports.len(),
            target == ports@.map(
                |j: int, p: ExposePort| dnat_rule_model(
                    ctx,
                    p,
                    in_interface.deep_view(),
                    source.deep_view(),
                    dst_address@,
                    dst_network_name@,
                    dst_container_name@,
                ),
            ),
            target.len() == ports@.len(),
            rules@.map(|j: int, x: Rule| x@) =~= target.take(k as int),
        decreases ports.len() - k,
    {
        let comps: [&str; 3] = ["dnat", dst_network_name.as_str(), dst_container_name.as_str()];
        let marker = generate_marker(&comps);
        let dnat_port: u16 = match ports[k].container_port {
            Some(cp) => cp,
            None => ports[k].host_port,
        };
        let ghost prev = rules@.map(|j: int, x: Rule| x@);
        let rule = Rule {
            chain: ctx.dnat_chain(),
            in_interface: clone_opt_string(in_interface),
            out_interface: None,
            source: clone_opt_string(source),
            destination: None,
            host_port: Some(ports[k].host_port),
            dnat_address: Some(clone_string(dst_address)),
            dnat_port: Some(dnat_port),
            action: RuleAction::Dnat,
            marker,
        };
        proof {
            assert(comps.deep_view() =~= seq!["dnat"@, dst_network_name@, dst_container_name@]);
            assert(rule@ == target[k as int]);
        }
        rules.push(rule);
        proof {
            assert(rules@.map(|j: int, x: Rule| x@) =~= prev.push(target[k as int]));
            assert(target.take(k + 1) =~= target.take(k as int).push(target[k as int]));
        }
        k += 1;
    }
    proof {
        assert(target.take(ports@.len() as int) =~= target);
    }
    rules
}

impl Process for ContainerDnatRule {
    /// One entry redirects host-facing traffic, per published port, to the
    /// destination container's current address on its network, optionally
    /// scoped to a source network's bridge interface and source container
    /// address.  Missing networks or containers skip the entry; a source
    /// network whose identifier is too short fails the cycle.
    open spec fn rules_of(&self, ctx: &ProcessContext) -> Result<
        Option<Seq<RuleModel>>,
        DfwError,
    > {
        let m = self@;
        match ctx.spec_network(m.dst_network) {
            None => Ok(Some(Seq::empty())),
            Some(dnet) => match ctx.spec_address_on(dnet, m.dst_container) {
                None => Ok(Some(Seq::empty())),
                Some(dst_address) => match m.src_network {
                    None => Ok(
                        Some(
                            m.expose_port.map(
                                |k: int, p: ExposePort| dnat_rule_model(
                                    ctx,
                                    p,
                                    None,
                                    None,
                                    dst_address,
                                    m.dst_network,
                                    m.dst_container,
                                ),
                            ),
                        ),
                    ),
                    Some(snetname) => match ctx.spec_network(snetname) {
                        None => Ok(Some(Seq::empty())),
                        Some(snet) => if snet.id.len() < 12 {
                            Err(DfwError::RuleDerivationError)
                        } else {
                            match resolve_optional_address(ctx, snet, m.src_container) {
                                None => Ok(Some(Seq::empty())),
                                Some(source) => Ok(
                                    Some(
                                        m.expose_port.map(
                                            |k: int, p: ExposePort| dnat_rule_model(
                                                ctx,
                                                p,
                                                Some(bridge_name_model(snet.id)),
                                                source,
                                                dst_address,
                                                m.dst_network,
                                                m.dst_container,
                                            ),
                                        ),
                                    ),
                                ),
                            }
                        },
                    },
                },
            },
        }
    }

    fn process(&self, ctx: &ProcessContext) -> (r: Result<Option<Vec<Rule>>, DfwError>) {
        let dst_network = match ctx.network_map.get(self.dst_network.as_str()) {
            None => {
                let rules: Vec<Rule> = Vec::new();
                proof {
                    assert(rules@.map(|k: int, x: Rule| x@) =~= Seq::<RuleModel>::empty());
                }
                return Ok(Some(rules));
            },
            Some(n) => n,
        };
        let dst_address = match ctx.address_on(dst_network, self.dst_container.as_str()) {
            None => {
                let rules: Vec<Rule> = Vec::new();
                proof {
                    assert(rules@.map(|k: int, x: Rule| x@) =~= Seq::<RuleModel>::empty());
                }
                return Ok(Some(rules));
            },
            Some(a) => a,
        };
        let src_network = match &self.src_network {
            None => {
                let none_in: Option<String> = None;
                let none_src: Option<String> = None;
                let rules = dnat_ports_emit(
                    ctx,
                    &self.expose_port,
                    &none_in,
                    &none_src,
                    &dst_address,
                    &self.dst_network,
                    &self.dst_container,
                );
                return Ok(Some(rules));
            },
            Some(snetname) => match ctx.network_map.get(snetname.as_str()) {
                None => {
                    let rules: Vec<Rule> = Vec::new();
                    proof {
                        assert(rules@.map(|k: int, x: Rule| x@) =~= Seq::<RuleModel>::empty());
                    }
                    return Ok(Some(rules));
                },
                Some(n) => n,
            },
        };
        let bridge = match get_bridge_name(src_network.id.as_str()) {
            Err(_) => {
                return Err(DfwError::RuleDerivationError);
            },
            Ok(b) => b,
        };
        let source = match resolve_optional(ctx, src_network, &self.src_container) {
            None => {
                let rules: Vec<Rule> = Vec::new();
                proof {
                    assert(rules@.map(|k: int, x: Rule| x@) =~= Seq::<RuleModel>::empty());
                }
                return Ok(Some(rules));
            },
            Some(s) => s,
        };
        let in_interface: Option<String> = Some(bridge);
        let rules = dnat_ports_emit(
            ctx,
            &self.expose_port,
            &in_interface,
            &source,
            &dst_address,
            &self.dst_network,
            &self.dst_container,
        );
        Ok(Some(rules))
    }
}

impl Process for ContainerDnat {
    /// The category has no default policy of its own: it yields exactly its
    /// entries' rules, in declaration order.
    open spec fn rules_of(&self, ctx: &ProcessContext) -> Result<
        Option<Seq<RuleModel>>,
        DfwError,
    > {
        self.rules.rules_of(ctx)
    }

    fn process(&self, ctx: &ProcessContext) -> (r: Result<Option<Vec<Rule>>, DfwError>) {
        self.rules.process(ctx)
    }
}

// ---------------------------------------------------------------------------
// The top-level policy node and the orchestrator
// ---------------------------------------------------------------------------

/// The rules an optional child contributed: its list, or nothing.
pub open spec fn opt_rules(o: Option<Seq<RuleModel>>) -> Seq<RuleModel> {
    match o {
        Some(s) => s,
        None => Seq::empty(),
    }
}

impl Process for Dfw {
    /// The top-level policy processes, in fixed sequence: the global
    /// defaults, then container-to-container, container-to-wider-world,
    /// container-to-host, wider-world-to-container and container-DNAT,
    /// concatenating their rules; the first failing category fails the
    /// cycle, so partial rule sets are never produced.
    open spec fn rules_of(&self, ctx: &ProcessContext) -> Result<
        Option<Seq<RuleModel>>,
        DfwError,
    > {
        match self.global_defaults.rules_of(ctx) {
            Err(e) => Err(e),
            Ok(r0) => match self.container_to_container.rules_of(ctx) {
                Err(e) => Err(e),
                Ok(r1) => match self.container_to_wider_world.rules_of(ctx) {
                    Err(e) => Err(e),
                    Ok(r2) => match self.container_to_host.rules_of(ctx) {
                        Err(e) => Err(e),
                        Ok(r3) => match self.wider_world_to_container.rules_of(ctx) {
                            Err(e) => Err(e),
                            Ok(r4) => match self.container_dnat.rules_of(ctx) {
                                Err(e) => Err(e),
                                Ok(r5) => Ok(
                                    Some(
                                        opt_rules(r0) + opt_rules(r1) + opt_rules(r2) + opt_rules(
                                            r3,
                                        ) + opt_rules(r4) + opt_rules(r5),
                                    ),
                                ),
                            },
                        },
                    },
                },
            },
        }
    }

    fn process(&self, ctx: &ProcessContext) -> (r: Result<Option<Vec<Rule>>, DfwError>) {
        let mut rules: Vec<Rule> = Vec::new();
        proof {
            assert(rules@.map(|k: int, x: Rule| x@) =~= Seq::<RuleModel>::empty());
        }
        match self.global_defaults.process(ctx) {
            Err(e) => {
                return Err(e);
            },
            Ok(None) => {},
            Ok(Some(mut sub_rules)) => {
                let ghost prev = rules@.map(|k: int, x: Rule| x@);
                let ghost sub = sub_rules@.map(|k: int, x: Rule| x@);
                rules.append(&mut sub_rules);
                proof {
                    assert(rules@.map(|k: int, x: Rule| x@) =~= prev + sub);
                }
            },
        }
        match self.container_to_container.process(ctx) {
            Err(e) => {
                return Err(e);
            },
            Ok(None) => {},
            Ok(Some(mut sub_rules)) => {
                let ghost prev = rules@.map(|k: int, x: Rule| x@);
                let ghost sub = sub_rules@.map(|k: int, x: Rule| x@);
                rules.append(&mut sub_rules);
                proof {
                    assert(rules@.map(|k: int, x: Rule| x@) =~= prev + sub);
                }
            },
        }
        match self.container_to_wider_world.process(ctx) {
            Err(e) => {
                return Err(e);
            },
            Ok(None) => {},
            Ok(Some(mut sub_rules)) => {
                let ghost prev = rules@.map(|k: int, x: Rule| x@);
                let ghost sub = sub_rules@.map(|k: int, x: Rule| x@);
                rules.append(&mut sub_rules);
                proof {
                    assert(rules@.map(|k: int, x: Rule| x@) =~= prev + sub);
                }
            },
        }
        match self.container_to_host.process(ctx) {
            Err(e) => {
                return Err(e);
            },
            Ok(None) => {},
            Ok(Some(mut sub_rules)) => {
                let ghost prev = rules@.map(|k: int, x: Rule| x@);
                let ghost sub = sub_rules@.map(|k: int, x: Rule| x@);
                rules.append(&mut sub_rules);
                proof {
                    assert(rules@.map(|k: int, x: Rule| x@) =~= prev + sub);
                }
            },
        }
        match self.wider_world_to_container.process(ctx) {
            Err(e) => {
                return Err(e);
            },
            Ok(None) => {},
            Ok(Some(mut sub_rules)) => {
                let ghost prev = rules@.map(|k: int, x: Rule| x@);
                let ghost sub = sub_rules@.map(|k: int, x: Rule| x@);
                rules.append(&mut sub_rules);
                proof {
                    assert(rules@.map(|k: int, x: Rule| x@) =~= prev + sub);
                }
            },
        }
        match self.container_dnat.process(ctx) {
            Err(e) => {
                return Err(e);
            },
            Ok(None) => {},
            Ok(Some(mut sub_rules)) => {
                let ghost prev = rules@.map(|k: int, x: Rule| x@);
                let ghost sub = sub_rules@.map(|k: int, x: Rule| x@);
                rules.append(&mut sub_rules);
                proof {
                    assert(rules@.map(|k: int, x: Rule| x@) =~= prev + sub);
                }
            },
        }
        Ok(Some(rules))
    }
}

impl ProcessContext {
    /// Start the processing using the configuration given at creation:
    /// derives the full ordered rule list and, unless `dry_run` is set,
    /// hands it to the backend's `apply`.  The derived rules are returned
    /// in either mode, so a dry run reports exactly what a normal run would
    /// install; a backend failure surfaces as
    /// [`DfwError::BackendError`], and a cycle deriving no rules is a legal
    /// no-op.
    pub fn process<B: FirewallBackend>(&self, backend: &mut B, dry_run: bool) -> (r: Result<
        Option<Vec<Rule>>,
        DfwError,
    >)
        ensures
            dry_run ==> rules_match(r, self.dfw.rules_of(self)),
            self.dfw.rules_of(self) matches Err(e) ==> r == Err::<Option<Vec<Rule>>, DfwError>(e),
            !dry_run ==> (rules_match(r, self.dfw.rules_of(self)) || (r == Err::<
                Option<Vec<Rule>>,
                DfwError,
            >(DfwError::BackendError) && self.dfw.rules_of(self) matches Ok(Some(_)))),
    {
        let rules = match self.dfw.process(self) {
            Err(e) => {
                return Err(e);
            },
            Ok(None) => {
                return Ok(None);
            },
            Ok(Some(rules)) => rules,
        };
        if !dry_run {
            match backend.apply(&rules) {
                Err(_) => {
                    return Err(DfwError::BackendError);
                },
                Ok(()) => {},
            }
        }
        Ok(Some(rules))
    }
}

// ---------------------------------------------------------------------------
// Laws of the derivation
// ---------------------------------------------------------------------------

/// Whether two processing results carry identical ordered rule lists, or
/// agree on the same absence or the same error.
pub open spec fn results_agree(
    r1: Result<Option<Vec<Rule>>, DfwError>,
    r2: Result<Option<Vec<Rule>>, DfwError>,
) -> bool {
    match r1 {
        Ok(Some(v1)) => (r2 matches Ok(Some(v2)) && v1@.map(|i: int, x: Rule| x@) == v2@.map(
            |i: int, x: Rule| x@,
        )),
        Ok(None) => (r2 matches Ok(o) && o is None),
        Err(e) => (r2 matches Err(e2) && e2 == e),
    }
}

/// Idempotence and determinism of derivation: two processing runs of the
/// same policy against the same context yield identical ordered rule lists
/// (or the same error), since both are pinned to the same pure derivation
/// function of configuration and snapshot.
pub proof fn lemma_derivation_deterministic(
    ctx: &ProcessContext,
    r1: Result<Option<Vec<Rule>>, DfwError>,
    r2: Result<Option<Vec<Rule>>, DfwError>,
)
    requires
        rules_match(r1, ctx.dfw.rules_of(ctx)),
        rules_match(r2, ctx.dfw.rules_of(ctx)),
    ensures
        results_agree(r1, r2),
{
}

/// Dry-run fidelity: a dry-run cycle derives exactly the list a normal
/// cycle derives against the same context, whenever the normal cycle's
/// backend accepted the rules; the enforcement decision never skews
/// derivation.
pub proof fn lemma_dry_run_rules_identical(
    ctx: &ProcessContext,
    r_dry: Result<Option<Vec<Rule>>, DfwError>,
    r_normal: Result<Option<Vec<Rule>>, DfwError>,
)
    requires
        rules_match(r_dry, ctx.dfw.rules_of(ctx)),
        rules_match(r_normal, ctx.dfw.rules_of(ctx)) || (r_normal == Err::<
            Option<Vec<Rule>>,
            DfwError,
        >(DfwError::BackendError) && ctx.dfw.rules_of(ctx) matches Ok(Some(_))),
    ensures
        !(r_normal is Err && r_normal->Err_0 is BackendError) ==> results_agree(r_dry, r_normal),
{
}

/// Whether two contexts agree on everything rule derivation reads besides
/// the policy tree itself: the snapshot maps, the captured external
/// interfaces, and the global defaults.
pub open spec fn same_derivation_inputs(ctx1: &ProcessContext, ctx2: &ProcessContext) -> bool {
    &&& ctx1.container_map@ == ctx2.container_map@
    &&& ctx1.network_map@ == ctx2.network_map@
    &&& ctx1.external_network_interfaces.deep_view() == ctx2.external_network_interfaces.deep_view()
    &&& ctx1.dfw.global_defaults@ == ctx2.dfw.global_defaults@
}

proof fn lemma_seq_rules_same_inputs_c2c(
    s: Seq<ContainerToContainerRule>,
    ctx1: &ProcessContext,
    ctx2: &ProcessContext,
)
    requires
        same_derivation_inputs(ctx1, ctx2),
    ensures
        seq_rules_of(s, ctx1) == seq_rules_of(s, ctx2),
    decreases s.len(),
{
    if s.len() > 0 {
        lemma_seq_rules_same_inputs_c2c(s.drop_last(), ctx1, ctx2);
        assert(s.last().rules_of(ctx1) == s.last().rules_of(ctx2));
    }
}

/// Category independence, container-to-container: the category's output is
/// a function of its own entries, the snapshot and the global defaults
/// alone, so changing any other category never changes it.
pub proof fn lemma_c2c_independent(
    x: &ContainerToContainer,
    ctx1: &ProcessContext,
    ctx2: &ProcessContext,
)
    requires
        same_derivation_inputs(ctx1, ctx2),
    ensures
        x.rules_of(ctx1) == x.rules_of(ctx2),
{
    match x.rules {
        Some(v) => lemma_seq_rules_same_inputs_c2c(v@, ctx1, ctx2),
        None => {},
    }
}

proof fn lemma_seq_rules_same_inputs_c2ww(
    s: Seq<ContainerToWiderWorldRule>,
    ctx1: &ProcessContext,
    ctx2: &ProcessContext,
)
    requires
        same_derivation_inputs(ctx1, ctx2),
    ensures
        seq_rules_of(s, ctx1) == seq_rules_of(s, ctx2),
    decreases s.len(),
{
    if s.len() > 0 {
        lemma_seq_rules_same_inputs_c2ww(s.drop_last(), ctx1, ctx2);
        let m = s.last()@;
        match interfaces_for(ctx1, m.external_network_interface) {
            None => {},
            Some(ifs) => match m.network {
                None => {
                    let t1 = ifs.map(
                        |k: int, iface: Seq<char>| c2ww_rule_model(ctx1, iface, None, None, m.action),
                    );
                    let t2 = ifs.map(
                        |k: int, iface: Seq<char>| c2ww_rule_model(ctx2, iface, None, None, m.action),
                    );
                    assert(t1 =~= t2);
                },
                Some(netname) => match ctx1.spec_network(netname) {
                    None => {},
                    Some(net) => match resolve_optional_address(ctx1, net, m.src_container) {
                        None => {},
                        Some(source) => {
                            let t1 = ifs.map(
                                |k: int, iface: Seq<char>| c2ww_rule_model(
                                    ctx1,
                                    iface,
                                    Some(bridge_name_model(net.id)),
                                    source,
                                    m.action,
                                ),
                            );
                            let t2 = ifs.map(
                                |k: int, iface: Seq<char>| c2ww_rule_model(
                                    ctx2,
                                    iface,
                                    Some(bridge_name_model(net.id)),
                                    source,
                                    m.action,
                                ),
                            );
                            assert(t1 =~= t2);
                        },
                    },
                },
            },
        }
        assert(s.last().rules_of(ctx1) == s.last().rules_of(ctx2));
    }
}

/// Category independence, container-to-wider-world.
pub proof fn lemma_c2ww_independent(
    x: &ContainerToWiderWorld,
    ctx1: &ProcessContext,
    ctx2: &ProcessContext,
)
    requires
        same_derivation_inputs(ctx1, ctx2),
    ensures
        x.rules_of(ctx1) == x.rules_of(ctx2),
{
    match x.rules {
        Some(v) => lemma_seq_rules_same_inputs_c2ww(v@, ctx1, ctx2),
        None => {},
    }
}

proof fn lemma_seq_rules_same_inputs_c2h(
    s: Seq<ContainerToHostRule>,
    ctx1: &ProcessContext,
    ctx2: &ProcessContext,
)
    requires
        same_derivation_inputs(ctx1, ctx2),
    ensures
        seq_rules_of(s, ctx1) == seq_rules_of(s, ctx2),
    decreases s.len(),
{
    if s.len() > 0 {
        lemma_seq_rules_same_inputs_c2h(s.drop_last(), ctx1, ctx2);
        assert(s.last().rules_of(ctx1) == s.last().rules_of(ctx2));
    }
}

/// Category independence, container-to-host.
pub proof fn lemma_c2h_independent(
    x: &ContainerToHost,
    ctx1: &ProcessContext,
    ctx2: &ProcessContext,
)
    requires
        same_derivation_inputs(ctx1, ctx2),
    ensures
        x.rules_of(ctx1) == x.rules_of(ctx2),
{
    match x.rules {
        Some(v) => lemma_seq_rules_same_inputs_c2h(v@, ctx1, ctx2),
        None => {},
    }
}

proof fn lemma_ww2c_expand_same_inputs(
    ctx1: &ProcessContext,
    ctx2: &ProcessContext,
    ifs: Seq<Seq<char>>,
    ports: Seq<ExposePort>,
    bridge: Seq<char>,
    address: Seq<char>,
    network_name: Seq<char>,
)
    requires
        same_derivation_inputs(ctx1, ctx2),
    ensures
        ww2c_expand(ctx1, ifs, ports, bridge, address, network_name) == ww2c_expand(
            ctx2,
            ifs,
            ports,
            bridge,
            address,
            network_name,
        ),
    decreases ifs.len(),
{
    if ifs.len() > 0 {
        lemma_ww2c_expand_same_inputs(ctx1, ctx2, ifs.drop_last(), ports, bridge, address, network_name);
        let tail1 = ports.map(
            |k: int, p: ExposePort| ww2c_rule_model(ctx1, ifs.last(), p, bridge, address, network_name),
        );
        let tail2 = ports.map(
            |k: int, p: ExposePort| ww2c_rule_model(ctx2, ifs.last(), p, bridge, address, network_name),
        );
        assert(tail1 =~= tail2);
    }
}

proof fn lemma_seq_rules_same_inputs_ww2c(
    s: Seq<WiderWorldToContainerRule>,
    ctx1: &ProcessContext,
    ctx2: &ProcessContext,
)
    requires
        same_derivation_inputs(ctx1, ctx2),
    ensures
        seq_rules_of(s, ctx1) == seq_rules_of(s, ctx2),
    decreases s.len(),
{
    if s.len() > 0 {
        lemma_seq_rules_same_inputs_ww2c(s.drop_last(), ctx1, ctx2);
        let m = s.last()@;
        match interfaces_for(ctx1, m.external_network_interface) {
            None => {},
            Some(ifs) => match ctx1.spec_network(m.network) {
                None => {},
                Some(net) => match ctx1.spec_address_on(net, m.dst_container) {
                    None => {},
                    Some(address) => {
                        lemma_ww2c_expand_same_inputs(
                            ctx1,
                            ctx2,
                            ifs,
                            m.expose_port,
                            bridge_name_model(net.id),
                            address,
                            m.network,
                        );
                    },
                },
            },
        }
        assert(s.last().rules_of(ctx1) == s.last().rules_of(ctx2));
    }
}

/// Category independence, wider-world-to-container.
pub proof fn lemma_ww2c_independent(
    x: &WiderWorldToContainer,
    ctx1: &ProcessContext,
    ctx2: &ProcessContext,
)
    requires
        same_derivation_inputs(ctx1, ctx2),
    ensures
        x.rules_of(ctx1) == x.rules_of(ctx2),
{
    match x.rules {
        Some(v) => lemma_seq_rules_same_inputs_ww2c(v@, ctx1, ctx2),
        None => {},
    }
}

proof fn lemma_seq_rules_same_inputs_dnat(
    s: Seq<ContainerDnatRule>,
    ctx1: &ProcessContext,
    ctx2: &ProcessContext,
)
    requires
        same_derivation_inputs(ctx1, ctx2),
    ensures
        seq_rules_of(s, ctx1) == seq_rules_of(s, ctx2),
    decreases s.len(),
{
    if s.len() > 0 {
        lemma_seq_rules_same_inputs_dnat(s.drop_last(), ctx1, ctx2);
        let m = s.last()@;
        match ctx1.spec_network(m.dst_network) {
            None => {},
            Some(dnet) => match ctx1.spec_address_on(dnet, m.dst_container) {
                None => {},
                Some(dst_address) => match m.src_network {
                    None => {
                        let tail1 = m.expose_port.map(
                            |k: int, p: ExposePort| dnat_rule_model(
                                ctx1,
                                p,
                                None,
                                None,
                                dst_address,
                                m.dst_network,
                                m.dst_container,
                            ),
                        );
                        let tail2 = m.expose_port.map(
                            |k: int, p: ExposePort| dnat_rule_model(
                                ctx2,
                                p,
                                None,
                                None,
                                dst_address,
                                m.dst_network,
                                m.dst_container,
                            ),
                        );
                        assert(tail1 =~= tail2);
                    },
                    Some(snetname) => match ctx1.spec_network(snetname) {
                        None => {},
                        Some(snet) => match resolve_optional_address(ctx1, snet, m.src_container) {
                            None => {},
                            Some(source) => {
                                let tail1 = m.expose_port.map(
                                    |k: int, p: ExposePort| dnat_rule_model(
                                        ctx1,
                                        p,
                                        Some(bridge_name_model(snet.id)),
                                        source,
                                        dst_address,
                                        m.dst_network,
                                        m.dst_container,
                                    ),
                                );
                                let tail2 = m.expose_port.map(
                                    |k: int, p: ExposePort| dnat_rule_model(
                                        ctx2,
                                        p,
                                        Some(bridge_name_model(snet.id)),
                                        source,
                                        dst_address,
                                        m.dst_network,
                                        m.dst_container,
                                    ),
                                );
                                assert(tail1 =~= tail2);
                            },
                        },
                    },
                },
            },
        }
        assert(s.last().rules_of(ctx1) == s.last().rules_of(ctx2));
    }
}

/// Category independence, container-DNAT.
pub proof fn lemma_dnat_independent(
    x: &ContainerDnat,
    ctx1: &ProcessContext,
    ctx2: &ProcessContext,
)
    requires
        same_derivation_inputs(ctx1, ctx2),
    ensures
        x.rules_of(ctx1) == x.rules_of(ctx2),
{
    match x.rules {
        Some(v) => lemma_seq_rules_same_inputs_dnat(v@, ctx1, ctx2),
        None => {},
    }
}

/// Category independence, global defaults: the defaults node's rules are a
/// function of the node alone.
pub proof fn lemma_defaults_independent(
    x: &Defaults,
    ctx1: &ProcessContext,
    ctx2: &ProcessContext,
)
    ensures
        x.rules_of(ctx1) == x.rules_of(ctx2),
{
    match x@.default_policies {
        None => {},
        Some(ps) => {
            let t1 = ps.map(|i: int, p: ChainPolicyModel| default_policy_rule_model(p));
            let t2 = ps.map(|i: int, p: ChainPolicyModel| default_policy_rule_model(p));
            assert(t1 =~= t2);
        },
    }
}

/// Derivation is a pure function of the policy tree, the snapshot maps, the
/// captured external interfaces and the global defaults: two contexts that
/// agree on those derive the same result, however else they came about.
/// Together with the contract of [`Process::process`] this gives the
/// idempotence of a cycle: re-running against an unchanged snapshot and
/// configuration yields an identical ordered rule list.
pub proof fn lemma_derivation_pure(ctx1: &ProcessContext, ctx2: &ProcessContext)
    requires
        same_derivation_inputs(ctx1, ctx2),
        ctx1.dfw == ctx2.dfw,
    ensures
        ctx1.dfw.rules_of(ctx1) == ctx2.dfw.rules_of(ctx2),
{
    lemma_defaults_independent(&ctx1.dfw.global_defaults, ctx1, ctx2);
    match ctx1.dfw.container_to_container {
        Some(x) => lemma_c2c_independent(&x, ctx1, ctx2),
        None => {},
    }
    match ctx1.dfw.container_to_wider_world {
        Some(x) => lemma_c2ww_independent(&x, ctx1, ctx2),
        None => {},
    }
    match ctx1.dfw.container_to_host {
        Some(x) => lemma_c2h_independent(&x, ctx1, ctx2),
        None => {},
    }
    match ctx1.dfw.wider_world_to_container {
        Some(x) => lemma_ww2c_independent(&x, ctx1, ctx2),
        None => {},
    }
    match ctx1.dfw.container_dnat {
        Some(x) => lemma_dnat_independent(&x, ctx1, ctx2),
        None => {},
    }
}

} // verus!
