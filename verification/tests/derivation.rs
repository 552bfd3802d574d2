//! End-to-end tests of snapshot construction and rule derivation.

use dfw::errors::DfwError;
use dfw::process::{
    get_bridge_name, get_network_for_container, ContainerFilter, FirewallBackend, Process,
    ProcessContext, ProcessingOptions,
};
use dfw::rule::{generate_marker, Rule};
use dfw::snapshot::{get_container_map, get_network_map};
use dfw::types::{
    ChainPolicy, Container, ContainerDnat, ContainerDnatRule, ContainerToContainer,
    ContainerToContainerRule, ContainerToHost, ContainerToHostRule, ContainerToWiderWorld,
    ContainerToWiderWorldRule, Defaults, Dfw, ExposePort, Network, NetworkAttachment, RuleAction,
    WiderWorldToContainer, WiderWorldToContainerRule,
};

const NET_ID: &str = "0123456789abcdef0123456789abcdef";

fn container(id: &str, name: &str, running: bool) -> Container {
    Container {
        id: id.to_string(),
        names: vec![name.to_string()],
        running,
    }
}

fn network(id: &str, name: &str, attachments: Vec<(&str, &str)>) -> Network {
    Network {
        id: id.to_string(),
        name: name.to_string(),
        driver: "bridge".to_string(),
        containers: attachments
            .into_iter()
            .map(|(cid, addr)| NetworkAttachment {
                container_id: cid.to_string(),
                address: addr.to_string(),
            })
            .collect(),
    }
}

fn empty_defaults() -> Defaults {
    Defaults {
        default_policies: None,
        external_network_interfaces: None,
        custom_forward_chain: None,
        custom_dnat_chain: None,
    }
}

fn empty_dfw() -> Dfw {
    Dfw {
        global_defaults: empty_defaults(),
        container_to_container: None,
        container_to_wider_world: None,
        container_to_host: None,
        wider_world_to_container: None,
        container_dnat: None,
    }
}

fn clone_rule(r: &Rule) -> (String, String) {
    (format!("{:?}|{:?}|{:?}|{:?}|{:?}|{:?}|{:?}|{:?}",
        r.chain, r.in_interface, r.out_interface, r.source, r.destination,
        r.host_port, r.dnat_address, r.dnat_port), r.marker.clone())
}

/// A backend that mimics marker-based replacement: applying a list removes
/// previously installed rules bearing any of the incoming markers, then
/// appends the incoming rules.
struct RecordingBackend {
    state: Vec<(String, String)>,
    applies: usize,
}

impl RecordingBackend {
    fn new() -> Self {
        RecordingBackend { state: Vec::new(), applies: 0 }
    }
}

impl FirewallBackend for RecordingBackend {
    fn apply(&mut self, rules: &Vec<Rule>) -> Result<(), DfwError> {
        self.applies += 1;
        let markers: Vec<String> = rules.iter().map(|r| r.marker.clone()).collect();
        self.state.retain(|(_, m)| !markers.contains(m));
        for r in rules {
            self.state.push(clone_rule(r));
        }
        Ok(())
    }
}

/// A backend that always refuses the rule set.
struct FailingBackend;

impl FirewallBackend for FailingBackend {
    fn apply(&mut self, _rules: &Vec<Rule>) -> Result<(), DfwError> {
        Err(DfwError::BackendError)
    }
}

#[test]
fn bridge_name_of_twelve_character_id() {
    assert_eq!(get_bridge_name("1234567890ab").unwrap(), "br-1234567890ab");
}

#[test]
fn bridge_name_truncates_longer_id() {
    assert_eq!(get_bridge_name(NET_ID).unwrap(), "br-0123456789ab");
}

#[test]
fn bridge_name_of_short_id_is_invalid() {
    assert_eq!(get_bridge_name("short"), Err(DfwError::InvalidIdentifier));
}

#[test]
fn marker_joins_components_after_prefix() {
    assert_eq!(generate_marker(&["c2c", "default"]), "DFW-MARKER:c2c;default");
    assert_eq!(generate_marker(&["defaults"]), "DFW-MARKER:defaults");
    assert_eq!(generate_marker(&[]), "DFW-MARKER:");
}

#[test]
fn container_map_strips_leading_separator() {
    let containers = vec![container("c1", "/web", true), container("c2", "/db", true)];
    let map = get_container_map(&containers);
    assert_eq!(map.get("web").unwrap().id, "c1");
    assert_eq!(map.get("db").unwrap().id, "c2");
    assert!(map.get("/web").is_none());
    assert!(map.get("ghost").is_none());
}

#[test]
fn container_map_duplicate_name_overwrites() {
    let containers = vec![container("c1", "/web", true), container("c2", "/web", true)];
    let map = get_container_map(&containers);
    assert_eq!(map.get("web").unwrap().id, "c2");
}

#[test]
fn network_map_of_empty_list_is_none() {
    assert!(get_network_map(&Vec::new()).is_none());
}

#[test]
fn network_map_of_nonempty_list_has_every_network() {
    let networks = vec![network(NET_ID, "common", vec![])];
    let map = get_network_map(&networks).unwrap();
    assert_eq!(map.get("common").unwrap().id, NET_ID);
    assert!(map.get("absent").is_none());
}

#[test]
fn snapshot_with_no_networks_is_a_topology_error() {
    let r = ProcessContext::new(empty_dfw(), Vec::new(), Vec::new(), &ProcessingOptions::default());
    assert!(matches!(r, Err(DfwError::TopologyError)));
}

#[test]
fn snapshot_with_networks_succeeds() {
    let networks = vec![network(NET_ID, "common", vec![])];
    let r = ProcessContext::new(empty_dfw(), Vec::new(), networks, &ProcessingOptions::default());
    assert!(r.is_ok());
}

#[test]
fn processing_options_default_takes_all_containers() {
    assert_eq!(
        ProcessingOptions::default(),
        ProcessingOptions { container_filter: ContainerFilter::All }
    );
}

#[test]
fn network_for_container_resolves_attachment() {
    let containers = vec![container("c1", "/web", true)];
    let map = get_container_map(&containers);
    let net = network(NET_ID, "common", vec![("c1", "172.18.0.2")]);
    let att = get_network_for_container(&map, &net, "web").unwrap();
    assert_eq!(att.address, "172.18.0.2");
    assert!(get_network_for_container(&map, &net, "ghost").is_none());
    let other = network(NET_ID, "common", vec![("c9", "172.18.0.9")]);
    assert!(get_network_for_container(&map, &other, "web").is_none());
}

fn web_topology() -> (Vec<Container>, Vec<Network>) {
    let containers = vec![container("c1", "/web", true), container("c2", "/db", false)];
    let networks = vec![network(
        NET_ID,
        "common",
        vec![("c1", "172.18.0.2"), ("c2", "172.18.0.3")],
    )];
    (containers, networks)
}

fn c2c_dfw(src: &str) -> Dfw {
    let mut dfw = empty_dfw();
    dfw.container_to_container = Some(ContainerToContainer {
        default_policy: RuleAction::Drop,
        rules: Some(vec![ContainerToContainerRule {
            network: "common".to_string(),
            src_container: Some(src.to_string()),
            dst_container: None,
            action: RuleAction::Accept,
        }]),
    });
    dfw
}

#[test]
fn derived_rules_follow_category_and_declaration_order() {
    let (containers, networks) = web_topology();
    let mut dfw = c2c_dfw("web");
    dfw.global_defaults.default_policies = Some(vec![ChainPolicy {
        chain: "INPUT".to_string(),
        policy: RuleAction::Drop,
    }]);
    dfw.container_to_host = Some(ContainerToHost {
        default_policy: RuleAction::Accept,
        rules: None,
    });
    let ctx =
        ProcessContext::new(dfw, containers, networks, &ProcessingOptions::default()).unwrap();
    let rules = ctx.dfw.process(&ctx).unwrap().unwrap();
    let markers: Vec<&str> = rules.iter().map(|r| r.marker.as_str()).collect();
    assert_eq!(
        markers,
        vec![
            "DFW-MARKER:defaults;INPUT",
            "DFW-MARKER:c2c;default",
            "DFW-MARKER:c2c;common",
            "DFW-MARKER:c2h;default",
        ]
    );
}

#[test]
fn c2c_entry_scopes_to_bridge_and_addresses() {
    let (containers, networks) = web_topology();
    let ctx = ProcessContext::new(c2c_dfw("web"), containers, networks,
        &ProcessingOptions::default()).unwrap();
    let rules = ctx.dfw.process(&ctx).unwrap().unwrap();
    let entry = &rules[1];
    assert_eq!(entry.chain, "FORWARD");
    assert_eq!(entry.in_interface.as_deref(), Some("br-0123456789ab"));
    assert_eq!(entry.out_interface.as_deref(), Some("br-0123456789ab"));
    assert_eq!(entry.source.as_deref(), Some("172.18.0.2"));
    assert_eq!(entry.destination, None);
    assert_eq!(entry.action, RuleAction::Accept);
}

#[test]
fn running_filter_excludes_stopped_containers_from_rules() {
    let (containers, networks) = web_topology();
    let options = ProcessingOptions { container_filter: ContainerFilter::Running };
    let ctx = ProcessContext::new(c2c_dfw("db"), containers, networks, &options).unwrap();
    let rules = ctx.dfw.process(&ctx).unwrap().unwrap();
    // the stopped container resolves to nothing, so its entry is skipped
    assert_eq!(rules.len(), 1);
    assert_eq!(rules[0].marker, "DFW-MARKER:c2c;default");
}

#[test]
fn all_filter_keeps_stopped_containers_in_rules() {
    let (containers, networks) = web_topology();
    let ctx = ProcessContext::new(c2c_dfw("db"), containers, networks,
        &ProcessingOptions::default()).unwrap();
    let rules = ctx.dfw.process(&ctx).unwrap().unwrap();
    assert_eq!(rules.len(), 2);
    assert_eq!(rules[1].source.as_deref(), Some("172.18.0.3"));
}

#[test]
fn entry_with_unknown_container_contributes_nothing() {
    let (containers, networks) = web_topology();
    let ctx = ProcessContext::new(c2c_dfw("ghost"), containers, networks,
        &ProcessingOptions::default()).unwrap();
    let rules = ctx.dfw.process(&ctx).unwrap().unwrap();
    assert_eq!(rules.len(), 1);
    assert_eq!(rules[0].marker, "DFW-MARKER:c2c;default");
}

#[test]
fn entry_with_unknown_network_contributes_nothing() {
    let (containers, networks) = web_topology();
    let mut dfw = c2c_dfw("web");
    if let Some(ref mut c2c) = dfw.container_to_container {
        if let Some(ref mut rules) = c2c.rules {
            rules[0].network = "elsewhere".to_string();
        }
    }
    let ctx =
        ProcessContext::new(dfw, containers, networks, &ProcessingOptions::default()).unwrap();
    let rules = ctx.dfw.process(&ctx).unwrap().unwrap();
    assert_eq!(rules.len(), 1);
}

#[test]
fn entry_with_short_network_id_fails_derivation() {
    let containers = vec![container("c1", "/web", true)];
    let networks = vec![network("short", "common", vec![("c1", "172.18.0.2")])];
    let ctx = ProcessContext::new(c2c_dfw("web"), containers, networks,
        &ProcessingOptions::default()).unwrap();
    assert!(matches!(ctx.dfw.process(&ctx), Err(DfwError::RuleDerivationError)));
}

#[test]
fn c2ww_without_any_external_interface_fails_derivation() {
    let (containers, networks) = web_topology();
    let mut dfw = empty_dfw();
    dfw.container_to_wider_world = Some(ContainerToWiderWorld {
        default_policy: RuleAction::Accept,
        rules: Some(vec![ContainerToWiderWorldRule {
            network: None,
            src_container: None,
            action: RuleAction::Accept,
            external_network_interface: None,
        }]),
    });
    let ctx =
        ProcessContext::new(dfw, containers, networks, &ProcessingOptions::default()).unwrap();
    assert!(matches!(ctx.dfw.process(&ctx), Err(DfwError::RuleDerivationError)));
}

#[test]
fn c2ww_expands_over_default_interfaces() {
    let (containers, networks) = web_topology();
    let mut dfw = empty_dfw();
    dfw.global_defaults.external_network_interfaces =
        Some(vec!["eth0".to_string(), "eth1".to_string()]);
    dfw.container_to_wider_world = Some(ContainerToWiderWorld {
        default_policy: RuleAction::Drop,
        rules: Some(vec![ContainerToWiderWorldRule {
            network: Some("common".to_string()),
            src_container: Some("web".to_string()),
            action: RuleAction::Accept,
            external_network_interface: None,
        }]),
    });
    let ctx =
        ProcessContext::new(dfw, containers, networks, &ProcessingOptions::default()).unwrap();
    let rules = ctx.dfw.process(&ctx).unwrap().unwrap();
    assert_eq!(rules.len(), 3);
    assert_eq!(rules[1].out_interface.as_deref(), Some("eth0"));
    assert_eq!(rules[2].out_interface.as_deref(), Some("eth1"));
    assert_eq!(rules[1].in_interface.as_deref(), Some("br-0123456789ab"));
    assert_eq!(rules[1].source.as_deref(), Some("172.18.0.2"));
}

#[test]
fn c2ww_entry_interface_overrides_defaults() {
    let (containers, networks) = web_topology();
    let mut dfw = empty_dfw();
    dfw.global_defaults.external_network_interfaces = Some(vec!["eth0".to_string()]);
    dfw.container_to_wider_world = Some(ContainerToWiderWorld {
        default_policy: RuleAction::Drop,
        rules: Some(vec![ContainerToWiderWorldRule {
            network: None,
            src_container: None,
            action: RuleAction::Reject,
            external_network_interface: Some("ppp0".to_string()),
        }]),
    });
    let ctx =
        ProcessContext::new(dfw, containers, networks, &ProcessingOptions::default()).unwrap();
    let rules = ctx.dfw.process(&ctx).unwrap().unwrap();
    assert_eq!(rules.len(), 2);
    assert_eq!(rules[1].out_interface.as_deref(), Some("ppp0"));
    assert_eq!(rules[1].action, RuleAction::Reject);
}

#[test]
fn c2h_entry_scopes_to_input_chain() {
    let (containers, networks) = web_topology();
    let mut dfw = empty_dfw();
    dfw.container_to_host = Some(ContainerToHost {
        default_policy: RuleAction::Drop,
        rules: Some(vec![ContainerToHostRule {
            network: "common".to_string(),
            src_container: Some("web".to_string()),
            action: RuleAction::Accept,
        }]),
    });
    let ctx =
        ProcessContext::new(dfw, containers, networks, &ProcessingOptions::default()).unwrap();
    let rules = ctx.dfw.process(&ctx).unwrap().unwrap();
    assert_eq!(rules.len(), 2);
    assert_eq!(rules[0].chain, "INPUT");
    assert_eq!(rules[1].chain, "INPUT");
    assert_eq!(rules[1].in_interface.as_deref(), Some("br-0123456789ab"));
    assert_eq!(rules[1].source.as_deref(), Some("172.18.0.2"));
}

#[test]
fn ww2c_expands_interfaces_and_ports() {
    let (containers, networks) = web_topology();
    let mut dfw = empty_dfw();
    dfw.global_defaults.external_network_interfaces =
        Some(vec!["eth0".to_string(), "eth1".to_string()]);
    dfw.wider_world_to_container = Some(WiderWorldToContainer {
        rules: Some(vec![WiderWorldToContainerRule {
            network: "common".to_string(),
            dst_container: "web".to_string(),
            expose_port: vec![
                ExposePort { host_port: 80, container_port: None },
                ExposePort { host_port: 443, container_port: None },
            ],
            external_network_interface: None,
        }]),
    });
    let ctx =
        ProcessContext::new(dfw, containers, networks, &ProcessingOptions::default()).unwrap();
    let rules = ctx.dfw.process(&ctx).unwrap().unwrap();
    assert_eq!(rules.len(), 4);
    let seen: Vec<(Option<&str>, Option<u16>)> = rules
        .iter()
        .map(|r| (r.in_interface.as_deref(), r.host_port))
        .collect();
    assert_eq!(
        seen,
        vec![
            (Some("eth0"), Some(80)),
            (Some("eth0"), Some(443)),
            (Some("eth1"), Some(80)),
            (Some("eth1"), Some(443)),
        ]
    );
    assert_eq!(rules[0].destination.as_deref(), Some("172.18.0.2"));
    assert_eq!(rules[0].action, RuleAction::Accept);
}

#[test]
fn dnat_entry_redirects_to_container_port() {
    let (containers, networks) = web_topology();
    let mut dfw = empty_dfw();
    dfw.container_dnat = Some(ContainerDnat {
        rules: Some(vec![ContainerDnatRule {
            src_network: None,
            src_container: None,
            dst_network: "common".to_string(),
            dst_container: "web".to_string(),
            expose_port: vec![
                ExposePort { host_port: 8080, container_port: Some(80) },
                ExposePort { host_port: 53, container_port: None },
            ],
        }]),
    });
    let ctx =
        ProcessContext::new(dfw, containers, networks, &ProcessingOptions::default()).unwrap();
    let rules = ctx.dfw.process(&ctx).unwrap().unwrap();
    assert_eq!(rules.len(), 2);
    assert_eq!(rules[0].chain, "PREROUTING");
    assert_eq!(rules[0].host_port, Some(8080));
    assert_eq!(rules[0].dnat_port, Some(80));
    assert_eq!(rules[0].dnat_address.as_deref(), Some("172.18.0.2"));
    assert_eq!(rules[0].action, RuleAction::Dnat);
    assert_eq!(rules[1].dnat_port, Some(53));
    assert_eq!(rules[1].marker, "DFW-MARKER:dnat;common;web");
}

#[test]
fn custom_chains_replace_conventional_ones() {
    let (containers, networks) = web_topology();
    let mut dfw = c2c_dfw("web");
    dfw.global_defaults.custom_forward_chain = Some("DFWRS_FORWARD".to_string());
    let ctx =
        ProcessContext::new(dfw, containers, networks, &ProcessingOptions::default()).unwrap();
    let rules = ctx.dfw.process(&ctx).unwrap().unwrap();
    assert_eq!(rules[0].chain, "DFWRS_FORWARD");
    assert_eq!(rules[1].chain, "DFWRS_FORWARD");
}

#[test]
fn dry_run_never_invokes_the_backend() {
    let (containers, networks) = web_topology();
    let ctx = ProcessContext::new(c2c_dfw("web"), containers, networks,
        &ProcessingOptions::default()).unwrap();
    let mut backend = RecordingBackend::new();
    let dry = ctx.process(&mut backend, true).unwrap().unwrap();
    assert_eq!(backend.applies, 0);
    assert!(backend.state.is_empty());
    let wet = ctx.process(&mut backend, false).unwrap().unwrap();
    assert_eq!(backend.applies, 1);
    // the dry run derived exactly what the normal run installed
    let dry_rules: Vec<(String, String)> = dry.iter().map(clone_rule).collect();
    let wet_rules: Vec<(String, String)> = wet.iter().map(clone_rule).collect();
    assert_eq!(dry_rules, wet_rules);
    assert_eq!(backend.state, wet_rules);
}

#[test]
fn two_cycles_leave_backend_state_unchanged() {
    let (containers, networks) = web_topology();
    let ctx = ProcessContext::new(c2c_dfw("web"), containers, networks,
        &ProcessingOptions::default()).unwrap();
    let mut backend = RecordingBackend::new();
    let first = ctx.process(&mut backend, false).unwrap().unwrap();
    let state_after_first = backend.state.clone();
    let second = ctx.process(&mut backend, false).unwrap().unwrap();
    let r1: Vec<(String, String)> = first.iter().map(clone_rule).collect();
    let r2: Vec<(String, String)> = second.iter().map(clone_rule).collect();
    assert_eq!(r1, r2);
    assert_eq!(backend.applies, 2);
    assert_eq!(backend.state, state_after_first);
}

#[test]
fn backend_failure_surfaces_as_backend_error() {
    let (containers, networks) = web_topology();
    let ctx = ProcessContext::new(c2c_dfw("web"), containers, networks,
        &ProcessingOptions::default()).unwrap();
    let mut backend = FailingBackend;
    assert!(matches!(ctx.process(&mut backend, false), Err(DfwError::BackendError)));
    // a dry run still succeeds against a failing backend
    assert!(ctx.process(&mut backend, true).is_ok());
}

#[test]
fn shuffling_one_category_leaves_another_unchanged() {
    let (containers, networks) = web_topology();
    let ports = |p: u16| ExposePort { host_port: p, container_port: None };
    let dnat_rule = |p: u16, name: &str| ContainerDnatRule {
        src_network: None,
        src_container: None,
        dst_network: "common".to_string(),
        dst_container: name.to_string(),
        expose_port: vec![ports(p)],
    };
    let mut dfw_a = c2c_dfw("web");
    dfw_a.container_dnat = Some(ContainerDnat {
        rules: Some(vec![dnat_rule(80, "web"), dnat_rule(53, "db")]),
    });
    let mut dfw_b = c2c_dfw("web");
    dfw_b.container_dnat = Some(ContainerDnat {
        rules: Some(vec![dnat_rule(53, "db"), dnat_rule(80, "web")]),
    });
    let ctx_a = ProcessContext::new(dfw_a, containers.clone(), networks.clone(),
        &ProcessingOptions::default()).unwrap();
    let ctx_b = ProcessContext::new(dfw_b, containers, networks,
        &ProcessingOptions::default()).unwrap();
    let a = ctx_a.dfw.process(&ctx_a).unwrap().unwrap();
    let b = ctx_b.dfw.process(&ctx_b).unwrap().unwrap();
    let c2c_a: Vec<(String, String)> = a.iter()
        .filter(|r| r.marker.starts_with("DFW-MARKER:c2c"))
        .map(clone_rule)
        .collect();
    let c2c_b: Vec<(String, String)> = b.iter()
        .filter(|r| r.marker.starts_with("DFW-MARKER:c2c"))
        .map(clone_rule)
        .collect();
    assert_eq!(c2c_a, c2c_b);
}

#[test]
fn empty_configuration_derives_no_rules() {
    let (containers, networks) = web_topology();
    let ctx = ProcessContext::new(empty_dfw(), containers, networks,
        &ProcessingOptions::default()).unwrap();
    let mut backend = RecordingBackend::new();
    let rules = ctx.process(&mut backend, false).unwrap().unwrap();
    assert!(rules.is_empty());
}

#[test]
fn default_policies_become_tagged_rules() {
    let (containers, networks) = web_topology();
    let mut dfw = empty_dfw();
    dfw.global_defaults.default_policies = Some(vec![
        ChainPolicy { chain: "INPUT".to_string(), policy: RuleAction::Drop },
        ChainPolicy { chain: "FORWARD".to_string(), policy: RuleAction::Drop },
    ]);
    let ctx =
        ProcessContext::new(dfw, containers, networks, &ProcessingOptions::default()).unwrap();
    let rules = ctx.dfw.process(&ctx).unwrap().unwrap();
    assert_eq!(rules.len(), 2);
    assert_eq!(rules[0].chain, "INPUT");
    assert_eq!(rules[0].action, RuleAction::Drop);
    assert_eq!(rules[0].marker, "DFW-MARKER:defaults;INPUT");
    assert_eq!(rules[1].marker, "DFW-MARKER:defaults;FORWARD");
}

#[test]
fn error_descriptions_name_the_failure() {
    assert!(DfwError::TopologyError.description().contains("topology"));
    assert!(DfwError::InvalidIdentifier.description().contains("identifier"));
    assert!(DfwError::RuleDerivationError.description().contains("policy entry"));
    assert!(DfwError::BackendError.description().contains("backend"));
}
