use unifi_mcp::error::ErrorKind;
use unifi_mcp::firewall::{
    depends_on_generation, firewall_read, generation_specific, policies_section,
    port_forwards_section, require_readable_generation, require_zone_based_firewall,
    validate_section_offset, wants_section, zone_based_sections, FirewallGeneration,
    FirewallPolicy, FirewallReadInput, FirewallReadOutput, FirewallSection, PolicySide,
    PolicyView, PortForward, ZoneView,
};
use unifi_mcp::networks::{
    check_disclosure, networks_read, wants_wlans, NetworkConf, NetworksReadInput, NetworksSection,
    WlanConf,
};
use unifi_mcp::scan::{begin_scan, gather_page, Scan, ScanStep, POLICY_SCAN_CEILING};
use unifi_mcp::{IdentityPrincipal, MCP_ADMIN_GROUP};

const WIFI_PASSPHRASE: &str = "correct horse battery";

fn some(text: &str) -> Option<String> {
    Some(text.to_owned())
}

fn policy(id: &str) -> FirewallPolicy {
    FirewallPolicy {
        id: id.to_owned(),
        name: None,
        enabled: None,
        action: None,
        index: None,
        ip_protocol_scope: None,
        source: None,
        destination: None,
    }
}

fn views(from: usize, count: usize) -> Vec<PolicyView> {
    policies_section((from..from + count).map(|i| policy(&format!("policy-{i}"))).collect())
}

fn zone(id: &str, name: &str) -> ZoneView {
    ZoneView {
        id: id.to_owned(),
        name: some(name),
    }
}

fn read(
    section: Option<FirewallSection>,
    section_offset: Option<u64>,
    zones: Vec<ZoneView>,
    zones_truncated: bool,
    policies: Vec<PolicyView>,
    policies_truncated: bool,
) -> FirewallReadOutput {
    let input = FirewallReadInput { section, section_offset };
    let start = validate_section_offset(&input).expect("accepted offset");
    let scan = zone_based_sections(
        section,
        start,
        zones,
        zones_truncated,
        policies,
        policies_truncated,
    );
    firewall_read(&input, scan, Vec::new(), Vec::new(), Vec::new())
}

#[test]
fn firewall_read_labels_a_zone_based_console() {
    let mut allow = policy("policy-1");
    allow.action = some("ALLOW");
    allow.index = Some(3);
    allow.source = Some(PolicySide {
        zone_id: some("zone-internal"),
        port: some("1024-65535"),
    });
    allow.destination = Some(PolicySide {
        zone_id: some("zone-external"),
        port: some("443"),
    });
    let output = read(
        None,
        None,
        vec![zone("zone-internal", "Internal"), zone("zone-external", "External")],
        false,
        policies_section(vec![allow]),
        false,
    );
    assert_eq!(output.generation, Some("zoneBased"));
    assert!(output.generation_note.expect("note").contains("classic console is refused"));
    assert_eq!(output.zones.len(), 2);
    assert_eq!(output.policies[0].action.as_deref(), Some("ALLOW"));
    assert_eq!(output.policies[0].source_zone_id.as_deref(), Some("zone-internal"));
    assert_eq!(output.policies[0].source_port.as_deref(), Some("1024-65535"));
    assert_eq!(output.policies[0].destination_zone_id.as_deref(), Some("zone-external"));
    assert_eq!(output.policies[0].destination_port.as_deref(), Some("443"));
    assert_eq!(output.policies[0].index, Some(3));
    assert!(output.sections_truncated.is_none());
    assert!(output.section.is_none());
}

#[test]
fn an_over_ceiling_policy_inventory_returns_bounded_and_truncated() {
    let mut scan: Scan<PolicyView> = begin_scan(0, POLICY_SCAN_CEILING);
    let step = gather_page(&mut scan, views(0, 200), 1500);
    assert_eq!(step, ScanStep::Truncated);
    let output = read(None, None, vec![zone("z", "Internal")], false, scan.items, true);
    assert_eq!(output.sections_truncated, Some(true));
    assert_eq!(output.policies.len(), 200);
    assert!(output.next_section_offset.is_none());
    assert_eq!(
        output.truncation_note.as_deref(),
        Some("policies reached the response bound for this read; narrow with section and continue with sectionOffset to read the rest")
    );
    let both = read(None, None, vec![zone("z", "Internal")], true, views(0, 1), true);
    assert!(both
        .truncation_note
        .expect("note")
        .starts_with("zones and policies reached the response bound"));
}

#[test]
fn a_classic_console_is_refused_by_name_rather_than_read_as_an_open_network() {
    for narrowing in [None, Some(FirewallSection::Zones), Some(FirewallSection::Policies)] {
        assert!(depends_on_generation(narrowing));
        let error = require_readable_generation(narrowing, FirewallGeneration::Classic)
            .expect_err("classic console refused");
        assert_eq!(error.kind, ErrorKind::InvalidParams);
        assert!(error.message.contains("classic firewall"));
        assert!(error.message.contains("portForwards"));
        require_readable_generation(narrowing, FirewallGeneration::ZoneBased).expect("readable");
    }
}

#[test]
fn a_classic_console_is_refused_by_name_rather_than_by_a_failed_read() {
    let error = require_zone_based_firewall(FirewallGeneration::Classic).expect_err("refused");
    assert!(error.message.contains("classic firewall"));
    assert!(error.message.contains("no zone-based policies"));
    require_zone_based_firewall(FirewallGeneration::ZoneBased).expect("accepted");
}

#[test]
fn a_truncated_policy_section_is_continuable_by_offset() {
    let section = Some(FirewallSection::Policies);
    let mut scan: Scan<PolicyView> = begin_scan(0, POLICY_SCAN_CEILING);
    assert_eq!(gather_page(&mut scan, views(0, 200), 300), ScanStep::Truncated);
    let output = read(section, None, Vec::new(), false, scan.items, true);
    assert_eq!(output.section, Some("policies"));
    assert_eq!(output.policies.len(), 200);
    assert_eq!(output.sections_truncated, Some(true));
    assert_eq!(output.next_section_offset, Some(200));

    let mut scan: Scan<PolicyView> = begin_scan(200, POLICY_SCAN_CEILING);
    assert_eq!(gather_page(&mut scan, views(200, 100), 300), ScanStep::Complete);
    let output = read(section, Some(200), Vec::new(), false, scan.items, false);
    assert_eq!(output.policies.len(), 100);
    assert_eq!(output.policies[0].id, "policy-200");
    assert!(output.sections_truncated.is_none());
    assert!(output.next_section_offset.is_none());
}

#[test]
fn section_offset_is_rejected_outside_the_paginated_sections() {
    for section in [
        None,
        Some(FirewallSection::PortForwards),
        Some(FirewallSection::TrafficRules),
        Some(FirewallSection::TrafficRoutes),
    ] {
        let input = FirewallReadInput { section, section_offset: Some(10) };
        let error = validate_section_offset(&input).expect_err("unsupported section offset");
        assert_eq!(error.message, "sectionOffset requires section zones or policies");
        let input = FirewallReadInput { section, section_offset: None };
        assert_eq!(validate_section_offset(&input).expect("absent"), 0);
    }
    for section in [FirewallSection::Zones, FirewallSection::Policies] {
        let at = |offset| FirewallReadInput {
            section: Some(section),
            section_offset: Some(offset),
        };
        let error = validate_section_offset(&at(200_000)).expect_err("offset ceiling");
        assert_eq!(error.message, "sectionOffset must not exceed 100000");
        assert_eq!(validate_section_offset(&at(100_000)).expect("at the bound"), 100_000);
        assert!(validate_section_offset(&at(100_001)).is_err());
    }
}

#[test]
fn a_continuation_past_the_offset_bound_explains_instead_of_lying() {
    let section = Some(FirewallSection::Policies);
    let output = read(section, Some(100_000), Vec::new(), false, views(100_000, 200), true);
    assert_eq!(output.sections_truncated, Some(true));
    assert!(output.next_section_offset.is_none());
    assert_eq!(
        output.truncation_note.as_deref(),
        Some("continuation stops at the sectionOffset bound of 100000; narrow the query instead")
    );
    let output = read(section, Some(99_800), Vec::new(), false, views(99_800, 200), true);
    assert_eq!(output.next_section_offset, Some(100_000));
    assert!(output.truncation_note.is_none());
}

#[test]
fn a_generation_agnostic_narrowing_needs_no_integration_call() {
    for section in [
        FirewallSection::PortForwards,
        FirewallSection::TrafficRules,
        FirewallSection::TrafficRoutes,
    ] {
        assert!(!generation_specific(section));
        assert!(!depends_on_generation(Some(section)));
        require_readable_generation(Some(section), FirewallGeneration::Classic).expect("readable");
        let output = read(Some(section), None, Vec::new(), false, Vec::new(), false);
        assert!(output.generation.is_none());
        assert!(output.generation_note.is_none());
    }
}

#[test]
fn narrowing_isolates_a_section_from_the_others() {
    let all = [
        (FirewallSection::Zones, "zones"),
        (FirewallSection::Policies, "policies"),
        (FirewallSection::PortForwards, "portForwards"),
        (FirewallSection::TrafficRules, "trafficRules"),
        (FirewallSection::TrafficRoutes, "trafficRoutes"),
    ];
    for (narrowed, word) in all {
        for (section, _) in all {
            assert_eq!(wants_section(Some(narrowed), section), narrowed == section);
            assert!(wants_section(None, section));
        }
        let output = read(Some(narrowed), None, Vec::new(), false, Vec::new(), false);
        assert_eq!(output.section, Some(word));
    }
}

#[test]
fn a_port_forward_is_shown_under_the_names_of_the_read() {
    let shown = port_forwards_section(vec![PortForward {
        id: "pf-1".to_owned(),
        name: some("plex"),
        enabled: Some(true),
        src: some("any"),
        fwd: some("192.168.1.10"),
        fwd_port: some("32400"),
        dst_port: some("32401"),
        proto: some("tcp"),
    }]);
    assert_eq!(shown[0].id, "pf-1");
    assert_eq!(shown[0].source.as_deref(), Some("any"));
    assert_eq!(shown[0].forward_to.as_deref(), Some("192.168.1.10"));
    assert_eq!(shown[0].forward_port.as_deref(), Some("32400"));
    assert_eq!(shown[0].destination_port.as_deref(), Some("32401"));
    assert_eq!(shown[0].protocol.as_deref(), Some("tcp"));
}

// ---------------------------------------------------------------------------
// Networks
// ---------------------------------------------------------------------------

fn network(id: &str, name: Option<&str>) -> NetworkConf {
    NetworkConf {
        id: id.to_owned(),
        name: name.map(str::to_owned),
        purpose: some("corporate"),
        vlan: Some(10),
        ip_subnet: some("192.168.10.1/24"),
        enabled: Some(true),
        dhcpd_enabled: Some(true),
        dhcpd_start: some("192.168.10.100"),
        dhcpd_stop: some("192.168.10.200"),
    }
}

fn wlan(passphrase: Option<&str>, backing: Option<&str>) -> WlanConf {
    WlanConf {
        id: "wlan-1".to_owned(),
        name: some("HomeNet"),
        enabled: Some(true),
        security: some("wpapsk"),
        hide_ssid: Some(false),
        networkconf_id: backing.map(str::to_owned),
        x_passphrase: passphrase.map(str::to_owned),
    }
}

fn principal(groups: &[&str]) -> IdentityPrincipal {
    IdentityPrincipal {
        subject: "caller".to_owned(),
        groups: groups.iter().map(|group| (*group).to_owned()).collect(),
    }
}

fn asking(include_secrets: bool, section: Option<NetworksSection>) -> NetworksReadInput {
    NetworksReadInput { include_secrets, section }
}

#[test]
fn networks_read_redacts_passphrases_by_default() {
    let output = networks_read(
        &asking(false, None),
        Some(&principal(&["mcp-admins"])),
        vec![network("net-1", Some("LAN"))],
        vec![wlan(Some(WIFI_PASSPHRASE), Some("net-1")), wlan(None, None)],
    )
    .unwrap_or_else(|_| panic!("read"));
    assert_eq!(output.networks[0].vlan, Some(10));
    assert_eq!(output.networks[0].dhcp_start.as_deref(), Some("192.168.10.100"));
    assert_eq!(output.wlans[0].ssid.as_deref(), Some("HomeNet"));
    assert_eq!(output.wlans[0].network.as_deref(), Some("LAN"));
    assert_eq!(output.wlans[0].passphrase.as_deref(), Some("[redacted]"));
    // A network without a passphrase shows none.
    assert!(output.wlans[1].passphrase.is_none());
    assert!(output.wlans[1].network.is_none());
}

#[test]
fn the_section_filter_narrows_the_response() {
    let output = networks_read(
        &asking(false, Some(NetworksSection::Wlans)),
        None,
        vec![network("net-1", Some("LAN"))],
        vec![wlan(None, Some("net-1"))],
    )
    .unwrap_or_else(|_| panic!("read"));
    assert!(output.networks.is_empty());
    // Name resolution still works in the narrowed section.
    assert_eq!(output.wlans[0].network.as_deref(), Some("LAN"));
    assert!(wants_wlans(Some(NetworksSection::Wlans)));
    assert!(wants_wlans(None));

    assert!(!wants_wlans(Some(NetworksSection::Networks)));
    let output = networks_read(
        &asking(false, Some(NetworksSection::Networks)),
        None,
        vec![network("net-1", Some("LAN"))],
        Vec::new(),
    )
    .unwrap_or_else(|_| panic!("read"));
    assert!(output.wlans.is_empty());
    assert_eq!(output.networks[0].vlan, Some(10));
}

#[test]
fn secret_disclosure_requires_the_admin_group() {
    for caller in [None, Some(principal(&["unifi"])), Some(principal(&["mcp-admin", "MCP-ADMINS"]))] {
        let error = check_disclosure(true, caller.as_ref()).expect_err("refused");
        assert_eq!(
            error.message,
            "includeSecrets requires membership in the mcp-admins group"
        );
        check_disclosure(false, caller.as_ref()).expect("nothing asked for");
        assert!(networks_read(&asking(true, None), caller.as_ref(), Vec::new(), Vec::new()).is_err());
    }
    let admin = principal(&["unifi", MCP_ADMIN_GROUP]);
    let output = networks_read(
        &asking(true, None),
        Some(&admin),
        vec![network("net-1", Some("LAN"))],
        vec![wlan(Some(WIFI_PASSPHRASE), Some("net-1"))],
    )
    .unwrap_or_else(|_| panic!("admin disclosure"));
    assert_eq!(output.wlans[0].passphrase.as_deref(), Some(WIFI_PASSPHRASE));
}

#[test]
fn the_last_network_of_an_id_names_it() {
    let output = networks_read(
        &asking(false, None),
        None,
        vec![network("net-1", Some("old")), network("net-1", Some("new")), network("net-2", None)],
        vec![wlan(None, Some("net-1")), wlan(None, Some("net-2")), wlan(None, Some("gone"))],
    )
    .unwrap_or_else(|_| panic!("read"));
    assert_eq!(output.wlans[0].network.as_deref(), Some("new"));
    assert!(output.wlans[1].network.is_none());
    assert!(output.wlans[2].network.is_none());
}
