use unifi_mcp::catalog::{action_metadata, server_instructions, ACTION_METADATA_KEY};
use unifi_mcp::error::ErrorKind;
use unifi_mcp::json::{get, render};
use unifi_mcp::registry::find_tool;
use unifi_mcp::tree::Json;
use unifi_mcp::{tool_registry, tools_for_surface, ToolBehavior, ToolKind, ToolSurface};

const ALL_KINDS: &[ToolKind] = &[
    ToolKind::NetworkOverview,
    ToolKind::ClientsSearch,
    ToolKind::ClientsContext,
    ToolKind::DevicesSearch,
    ToolKind::DevicesStatus,
    ToolKind::FirewallRead,
    ToolKind::NetworksRead,
    ToolKind::CamerasSearch,
    ToolKind::CamerasStatus,
    ToolKind::ProtectOverview,
    ToolKind::ProtectEvents,
    ToolKind::WifiDiagnose,
    ToolKind::EventsSearch,
    ToolKind::StatsQuery,
    ToolKind::WlansUpdate,
    ToolKind::ClientsControl,
    ToolKind::DevicesControl,
    ToolKind::GuestsAuthorize,
    ToolKind::PortForwardsUpdate,
    ToolKind::FirewallPoliciesUpdate,
    ToolKind::VouchersCreate,
];

#[test]
fn every_kind_is_registered_exactly_once_with_a_unique_name() {
    let registry = tool_registry();
    for kind in ALL_KINDS {
        // A new variant must be added here or the compiler flags this match.
        match kind {
            ToolKind::NetworkOverview
            | ToolKind::ClientsSearch
            | ToolKind::ClientsContext
            | ToolKind::DevicesSearch
            | ToolKind::DevicesStatus
            | ToolKind::FirewallRead
            | ToolKind::NetworksRead
            | ToolKind::CamerasSearch
            | ToolKind::CamerasStatus
            | ToolKind::ProtectOverview
            | ToolKind::ProtectEvents
            | ToolKind::WifiDiagnose
            | ToolKind::EventsSearch
            | ToolKind::StatsQuery
            | ToolKind::WlansUpdate
            | ToolKind::ClientsControl
            | ToolKind::DevicesControl
            | ToolKind::GuestsAuthorize
            | ToolKind::PortForwardsUpdate
            | ToolKind::FirewallPoliciesUpdate
            | ToolKind::VouchersCreate => {}
        }
        assert_eq!(
            registry.iter().filter(|spec| spec.kind == *kind).count(),
            1,
            "{kind:?}"
        );
    }
    assert_eq!(registry.len(), ALL_KINDS.len());
    let mut names: Vec<&str> = registry.iter().map(|spec| spec.name).collect();
    names.dedup();
    assert_eq!(names.len(), registry.len());
    names.sort();
    names.dedup();
    assert_eq!(names.len(), registry.len());
}

#[test]
fn runtime_surfaces_are_disjoint_and_cover_the_registry() {
    let network: Vec<_> = tools_for_surface(ToolSurface::Network)
        .into_iter()
        .map(|spec| spec.name)
        .collect();
    let protect: Vec<_> = tools_for_surface(ToolSurface::Protect)
        .into_iter()
        .map(|spec| spec.name)
        .collect();
    assert_eq!(network.len() + protect.len(), tool_registry().len());
    assert!(network.iter().all(|name| !protect.contains(name)));
    assert_eq!(
        protect,
        [
            "cameras.search",
            "cameras.status",
            "protect.overview",
            "protect.events"
        ]
    );
}

#[test]
fn a_catalog_description_names_the_selector_its_schema_accepts() {
    let registry = tool_registry();
    for (name, selector) in [
        ("guests.authorize", "MAC address"),
        ("clients.control", "MAC address"),
        ("wlans.update", "id"),
    ] {
        let spec = registry
            .iter()
            .find(|spec| spec.name == name)
            .unwrap_or_else(|| panic!("{name} is not in the catalog"));
        assert!(
            spec.description.contains(selector),
            "{name} does not name {selector}"
        );
    }
}

/// Name, idempotent, sensitive input, sensitive result.
const EXPECTED_WRITE_CLASSIFICATION: &[(&str, bool, bool, bool)] = &[
    ("wlans.update", true, true, true),
    ("clients.control", false, false, false),
    ("devices.control", false, false, false),
    ("guests.authorize", true, false, false),
    ("port_forwards.update", true, false, true),
    ("firewall.policies.update", true, false, true),
    ("vouchers.create", false, false, true),
];

#[test]
fn every_write_tool_is_classified_for_the_gateway_as_a_write() {
    let registry = tool_registry();
    for (name, idempotent, input_sensitive, result_sensitive) in EXPECTED_WRITE_CLASSIFICATION {
        let write = registry
            .iter()
            .find(|spec| spec.name == *name)
            .unwrap_or_else(|| panic!("{name} is not in the catalog"));
        assert!(!write.behavior.read_only, "{name}");
        assert!(write.behavior.destructive, "{name}");
        assert!(write.behavior.requires_review, "{name}");
        assert_eq!(write.behavior.idempotent, *idempotent, "{name}");
        assert_eq!(write.behavior.input_sensitive, *input_sensitive, "{name}");
        assert_eq!(write.behavior.result_sensitive, *result_sensitive, "{name}");
        assert_eq!(write.risk, "high", "{name}");
        assert!(write.kind.requires_write_access(), "{name}");
    }
    let writes = registry.iter().filter(|spec| !spec.behavior.read_only).count();
    assert_eq!(writes, EXPECTED_WRITE_CLASSIFICATION.len());
}

#[test]
fn only_minted_credentials_are_irreplaceable() {
    for spec in tool_registry() {
        assert_eq!(
            spec.behavior.result_irreplaceable,
            spec.name == "vouchers.create",
            "{}",
            spec.name
        );
    }
}

#[test]
fn a_surface_serves_its_own_tools_only() {
    let found = find_tool(ToolSurface::Network, "clients.search").expect("served");
    assert_eq!(found.kind, ToolKind::ClientsSearch);
    let refused = find_tool(ToolSurface::Protect, "clients.search").expect_err("not served");
    assert_eq!(refused.kind, ErrorKind::InvalidParams);
    assert_eq!(
        refused.message,
        "unknown tool \"clients.search\"; tools/list is the catalog"
    );
    let odd = find_tool(ToolSurface::Network, "a\"b\n").expect_err("unknown");
    assert_eq!(
        odd.message,
        format!("unknown tool {:?}; tools/list is the catalog", "a\"b\n")
    );
}

#[test]
fn the_surfaces_name_themselves() {
    assert_eq!(ToolSurface::Network.server_name(), "unifi");
    assert_eq!(ToolSurface::Protect.server_name(), "unifi-protect");
    assert!(server_instructions(ToolSurface::Network).contains("Network controller"));
    assert!(server_instructions(ToolSurface::Protect).contains("read-only"));
}

#[test]
fn action_metadata_states_the_declared_behavior() {
    let meta = Json::Object(action_metadata(ToolBehavior::read()));
    assert_eq!(
        render(get(&meta, ACTION_METADATA_KEY).expect("metadata")),
        concat_lines(&[
            r#"{"inputMetadata":{"destination":"internal","sensitivity":"operational"},"#,
            r#""outcome":"benign","requiresReview":false,"#,
            r#""returnMetadata":{"sensitivity":"operational","source":"first-party"}}"#,
        ])
    );
    let write = ToolBehavior::write(true).input_sensitive().result_sensitive();
    let meta = Json::Object(action_metadata(write));
    let text = render(&meta);
    assert!(text.contains(r#""requiresReview":true"#), "{text}");
    assert!(text.contains(r#"{"destination":"internal","sensitivity":"sensitive"}"#), "{text}");
    assert!(text.contains(r#"{"sensitivity":"sensitive","source":"first-party"}"#), "{text}");
}

fn concat_lines(parts: &[&str]) -> String {
    parts.join("")
}
