//! The data model: the topology types a snapshot is built from, and the
//! policy configuration tree the rule derivation engine walks.
//!
//! Every executable type has a spec-level model (its [`View`]) over which the
//! contracts of the derivation engine are stated: strings become `Seq<char>`,
//! vectors become `Seq` of models.

use vstd::prelude::*;

verus! {

// ---------------------------------------------------------------------------
// Topology types
// ---------------------------------------------------------------------------

/// One container's attachment to one network, as the runtime reports it:
/// which container it is and the address it was assigned on that network.
pub struct NetworkAttachment {
    /// Runtime identifier of the attached container.
    pub container_id: String,
    /// The address assigned to the container on this network.
    pub address: String,
}

/// Spec-level model of a [`NetworkAttachment`].
pub ghost struct NetworkAttachmentModel {
    /// Model of the attached container's identifier.
    pub container_id: Seq<char>,
    /// Model of the assigned address.
    pub address: Seq<char>,
}

impl View for NetworkAttachment {
    type V = NetworkAttachmentModel;

    open spec fn view(&self) -> NetworkAttachmentModel {
        NetworkAttachmentModel { container_id: self.container_id@, address: self.address@ }
    }
}

/// One network of the host, immutable for the duration of a cycle.
pub struct Network {
    /// Runtime identifier of the network.
    pub id: String,
    /// Human-readable name of the network.
    pub name: String,
    /// Driver backing the network (for example a bridge driver).
    pub driver: String,
    /// The containers attached to this network, with their addresses.
    pub containers: Vec<NetworkAttachment>,
}

/// Spec-level model of a [`Network`].
pub ghost struct NetworkModel {
    /// Model of the network identifier.
    pub id: Seq<char>,
    /// Model of the network name.
    pub name: Seq<char>,
    /// Model of the driver name.
    pub driver: Seq<char>,
    /// Models of the attachments, in the order the runtime listed them.
    pub containers: Seq<NetworkAttachmentModel>,
}

impl View for Network {
    type V = NetworkModel;

    open spec fn view(&self) -> NetworkModel {
        NetworkModel {
            id: self.id@,
            name: self.name@,
            driver: self.driver@,
            containers: self.containers@.map(|i: int, a: NetworkAttachment| a@),
        }
    }
}

/// One container of the host, immutable for the duration of a cycle.
pub struct Container {
    /// Runtime identifier of the container.
    pub id: String,
    /// The names the runtime knows the container under, possibly carrying a
    /// leading `/` prefix imposed by the runtime.
    pub names: Vec<String>,
    /// Whether the container is currently running.
    pub running: bool,
}

/// Spec-level model of a [`Container`].
pub ghost struct ContainerModel {
    /// Model of the container identifier.
    pub id: Seq<char>,
    /// Models of the container's names.
    pub names: Seq<Seq<char>>,
    /// Whether the container is currently running.
    pub running: bool,
}

impl View for Container {
    type V = ContainerModel;

    open spec fn view(&self) -> ContainerModel {
        ContainerModel { id: self.id@, names: self.names.deep_view(), running: self.running }
    }
}

// ---------------------------------------------------------------------------
// Policy configuration
// ---------------------------------------------------------------------------

/// The verdict a derived rule asks the backend to enforce.
#[derive(Clone, Copy, Debug, PartialEq, Eq, Structural)]
pub enum RuleAction {
    /// Let matching traffic pass.
    Accept,
    /// Silently discard matching traffic.
    Drop,
    /// Discard matching traffic and signal the rejection.
    Reject,
    /// Redirect matching traffic by destination network address translation.
    Dnat,
}

/// A default policy for one chain, part of the global defaults.
pub struct ChainPolicy {
    /// Name of the chain the policy applies to.
    pub chain: String,
    /// The policy verdict for traffic not matched by any rule of the chain.
    pub policy: RuleAction,
}

/// Spec-level model of a [`ChainPolicy`].
pub ghost struct ChainPolicyModel {
    /// Model of the chain name.
    pub chain: Seq<char>,
    /// The policy verdict.
    pub policy: RuleAction,
}

impl View for ChainPolicy {
    type V = ChainPolicyModel;

    open spec fn view(&self) -> ChainPolicyModel {
        ChainPolicyModel { chain: self.chain@, policy: self.policy }
    }
}

/// The global defaults: fallback values the other categories draw on.
pub struct Defaults {
    /// Default chain policies to establish before any category emits rules.
    pub default_policies: Option<Vec<ChainPolicy>>,
    /// The host's external network interfaces, used by the egress and ingress
    /// categories when an entry does not name an interface itself.
    pub external_network_interfaces: Option<Vec<String>>,
    /// Custom chain receiving forwarding rules instead of the built-in one.
    pub custom_forward_chain: Option<String>,
    /// Custom chain receiving DNAT rules instead of the built-in one.
    pub custom_dnat_chain: Option<String>,
}

/// Spec-level model of [`Defaults`].
pub ghost struct DefaultsModel {
    /// Models of the default chain policies.
    pub default_policies: Option<Seq<ChainPolicyModel>>,
    /// Models of the external interface names.
    pub external_network_interfaces: Option<Seq<Seq<char>>>,
    /// Model of the custom forwarding chain name.
    pub custom_forward_chain: Option<Seq<char>>,
    /// Model of the custom DNAT chain name.
    pub custom_dnat_chain: Option<Seq<char>>,
}

impl View for Defaults {
    type V = DefaultsModel;

    open spec fn view(&self) -> DefaultsModel {
        DefaultsModel {
            default_policies: match self.default_policies {
                Some(ps) => Some(ps@.map(|i: int, p: ChainPolicy| p@)),
                None => None,
            },
            external_network_interfaces: self.external_network_interfaces.deep_view(),
            custom_forward_chain: self.custom_forward_chain.deep_view(),
            custom_dnat_chain: self.custom_dnat_chain.deep_view(),
        }
    }
}

/// One published port of an ingress or DNAT entry.
#[derive(Clone, Copy, Debug, PartialEq, Eq, Structural)]
pub struct ExposePort {
    /// The host-side port the traffic arrives on.
    pub host_port: u16,
    /// The container-side port the traffic is directed to; the host port is
    /// reused when absent.
    pub container_port: Option<u16>,
}

/// One entry of the container-to-container category.
pub struct ContainerToContainerRule {
    /// Name of the network the rule is scoped to.
    pub network: String,
    /// Source container name; absent means any container on the network.
    pub src_container: Option<String>,
    /// Destination container name; absent means any container on the network.
    pub dst_container: Option<String>,
    /// The verdict for matching traffic.
    pub action: RuleAction,
}

/// Spec-level model of a [`ContainerToContainerRule`].
pub ghost struct ContainerToContainerRuleModel {
    /// Model of the network name.
    pub network: Seq<char>,
    /// Model of the source container name.
    pub src_container: Option<Seq<char>>,
    /// Model of the destination container name.
    pub dst_container: Option<Seq<char>>,
    /// The verdict for matching traffic.
    pub action: RuleAction,
}

impl View for ContainerToContainerRule {
    type V = ContainerToContainerRuleModel;

    open spec fn view(&self) -> ContainerToContainerRuleModel {
        ContainerToContainerRuleModel {
            network: self.network@,
            src_container: self.src_container.deep_view(),
            dst_container: self.dst_container.deep_view(),
            action: self.action,
        }
    }
}

/// The container-to-container category: traffic between containers, possibly
/// across networks.
pub struct ContainerToContainer {
    /// The verdict for container-to-container traffic no entry matches.
    pub default_policy: RuleAction,
    /// The declared entries, in declaration order.
    pub rules: Option<Vec<ContainerToContainerRule>>,
}

/// One entry of the container-to-wider-world category.
pub struct ContainerToWiderWorldRule {
    /// Name of the network the rule is scoped to; absent means any source.
    pub network: Option<String>,
    /// Source container name; only meaningful together with a network.
    pub src_container: Option<String>,
    /// The verdict for matching traffic.
    pub action: RuleAction,
    /// External interface the traffic leaves through; the global default
    /// interfaces are used when absent.
    pub external_network_interface: Option<String>,
}

/// Spec-level model of a [`ContainerToWiderWorldRule`].
pub ghost struct ContainerToWiderWorldRuleModel {
    /// Model of the network name.
    pub network: Option<Seq<char>>,
    /// Model of the source container name.
    pub src_container: Option<Seq<char>>,
    /// The verdict for matching traffic.
    pub action: RuleAction,
    /// Model of the interface override.
    pub external_network_interface: Option<Seq<char>>,
}

impl View for ContainerToWiderWorldRule {
    type V = ContainerToWiderWorldRuleModel;

    open spec fn view(&self) -> ContainerToWiderWorldRuleModel {
        ContainerToWiderWorldRuleModel {
            network: self.network.deep_view(),
            src_container: self.src_container.deep_view(),
            action: self.action,
            external_network_interface: self.external_network_interface.deep_view(),
        }
    }
}

/// The container-to-wider-world category: egress from containers through the
/// host's outbound path.
pub struct ContainerToWiderWorld {
    /// The verdict for egress traffic no entry matches.
    pub default_policy: RuleAction,
    /// The declared entries, in declaration order.
    pub rules: Option<Vec<ContainerToWiderWorldRule>>,
}

/// One entry of the container-to-host category.
pub struct ContainerToHostRule {
    /// Name of the network the rule is scoped to.
    pub network: String,
    /// Source container name; absent means any container on the network.
    pub src_container: Option<String>,
    /// The verdict for matching traffic.
    pub action: RuleAction,
}

/// Spec-level model of a [`ContainerToHostRule`].
pub ghost struct ContainerToHostRuleModel {
    /// Model of the network name.
    pub network: Seq<char>,
    /// Model of the source container name.
    pub src_container: Option<Seq<char>>,
    /// The verdict for matching traffic.
    pub action: RuleAction,
}

impl View for ContainerToHostRule {
    type V = ContainerToHostRuleModel;

    open spec fn view(&self) -> ContainerToHostRuleModel {
        ContainerToHostRuleModel {
            network: self.network@,
            src_container: self.src_container.deep_view(),
            action: self.action,
        }
    }
}

/// The container-to-host category: ingress from containers to host-local
/// services.
pub struct ContainerToHost {
    /// The verdict for container-to-host traffic no entry matches.
    pub default_policy: RuleAction,
    /// The declared entries, in declaration order.
    pub rules: Option<Vec<ContainerToHostRule>>,
}

/// One entry of the wider-world-to-container category.
pub struct WiderWorldToContainerRule {
    /// Name of the network the destination container is looked up on.
    pub network: String,
    /// Name of the destination container.
    pub dst_container: String,
    /// The published ports, each expanding into one rule per interface.
    pub expose_port: Vec<ExposePort>,
    /// External interface the traffic arrives on; the global default
    /// interfaces are used when absent.
    pub external_network_interface: Option<String>,
}

/// Spec-level model of a [`WiderWorldToContainerRule`].
pub ghost struct WiderWorldToContainerRuleModel {
    /// Model of the network name.
    pub network: Seq<char>,
    /// Model of the destination container name.
    pub dst_container: Seq<char>,
    /// The published ports.
    pub expose_port: Seq<ExposePort>,
    /// Model of the interface override.
    pub external_network_interface: Option<Seq<char>>,
}

impl View for WiderWorldToContainerRule {
    type V = WiderWorldToContainerRuleModel;

    open spec fn view(&self) -> WiderWorldToContainerRuleModel {
        WiderWorldToContainerRuleModel {
            network: self.network@,
            dst_container: self.dst_container@,
            expose_port: self.expose_port@,
            external_network_interface: self.external_network_interface.deep_view(),
        }
    }
}

/// The wider-world-to-container category: ingress from outside the host to a
/// container, keyed by published host ports.
pub struct WiderWorldToContainer {
    /// The declared entries, in declaration order.
    pub rules: Option<Vec<WiderWorldToContainerRule>>,
}

/// One entry of the container-DNAT category.
pub struct ContainerDnatRule {
    /// Network the source is scoped to; absent means any source network.
    pub src_network: Option<String>,
    /// Source container name; only meaningful together with a source network.
    pub src_container: Option<String>,
    /// Name of the network the destination container is looked up on.
    pub dst_network: String,
    /// Name of the destination container.
    pub dst_container: String,
    /// The published ports, each expanding into one redirect rule.
    pub expose_port: Vec<ExposePort>,
}

/// Spec-level model of a [`ContainerDnatRule`].
pub ghost struct ContainerDnatRuleModel {
    /// Model of the source network name.
    pub src_network: Option<Seq<char>>,
    /// Model of the source container name.
    pub src_container: Option<Seq<char>>,
    /// Model of the destination network name.
    pub dst_network: Seq<char>,
    /// Model of the destination container name.
    pub dst_container: Seq<char>,
    /// The published ports.
    pub expose_port: Seq<ExposePort>,
}

impl View for ContainerDnatRule {
    type V = ContainerDnatRuleModel;

    open spec fn view(&self) -> ContainerDnatRuleModel {
        ContainerDnatRuleModel {
            src_network: self.src_network.deep_view(),
            src_container: self.src_container.deep_view(),
            dst_network: self.dst_network@,
            dst_container: self.dst_container@,
            expose_port: self.expose_port@,
        }
    }
}

/// The container-DNAT category: destination network address translation
/// redirecting host-facing traffic to a container's internal address.
pub struct ContainerDnat {
    /// The declared entries, in declaration order.
    pub rules: Option<Vec<ContainerDnatRule>>,
}

/// The top-level policy configuration: global defaults plus the five ordered
/// category sections, processed in this fixed sequence.
pub struct Dfw {
    /// Global fallbacks for the other categories.
    pub global_defaults: Defaults,
    /// Traffic between containers.
    pub container_to_container: Option<ContainerToContainer>,
    /// Egress from containers to the wider world.
    pub container_to_wider_world: Option<ContainerToWiderWorld>,
    /// Ingress from containers to the host.
    pub container_to_host: Option<ContainerToHost>,
    /// Ingress from the wider world to containers.
    pub wider_world_to_container: Option<WiderWorldToContainer>,
    /// Destination network address translation between containers.
    pub container_dnat: Option<ContainerDnat>,
}

} // verus!
