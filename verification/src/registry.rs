//! The executable tool registry: the single source of `tools/list`, MCP
//! behavior annotations, gateway classification data, and dispatch. A tool
//! exists only by being registered here with a [`ToolKind`] variant, so the
//! catalog, annotations, manifest, and handlers can never disagree.

use vstd::prelude::*;
use vstd::string::*;

use crate::error::{is_invalid_params, ErrorKind, ToolError};
use crate::text::{join3, same_text};

verus! {

/// The one console family served by a process.
///
/// Network and Protect are separate trust and deployment boundaries. A
/// process advertises exactly one surface, never a union assembled from
/// whichever credentials happened to be present.
#[derive(Debug, Clone, Copy, PartialEq, Eq, Structural)]
pub enum ToolSurface {
    Network,
    Protect,
}

impl ToolSurface {
    /// The name a server of this surface gives itself.
    pub open spec fn name(self) -> &'static str {
        match self {
            ToolSurface::Network => "unifi",
            ToolSurface::Protect => "unifi-protect",
        }
    }

    /// The name a server of this surface gives itself.
    #[must_use]
    pub fn server_name(self) -> (name: &'static str)
        ensures
            name == self.name(),
    {
        match self {
            ToolSurface::Network => "unifi",
            ToolSurface::Protect => "unifi-protect",
        }
    }
}

/// Dispatch identity for every registered tool.
#[derive(Debug, Clone, Copy, PartialEq, Eq, Structural)]
pub enum ToolKind {
    NetworkOverview,
    ClientsSearch,
    ClientsContext,
    DevicesSearch,
    DevicesStatus,
    FirewallRead,
    NetworksRead,
    CamerasSearch,
    CamerasStatus,
    ProtectOverview,
    ProtectEvents,
    WifiDiagnose,
    EventsSearch,
    StatsQuery,
    WlansUpdate,
    ClientsControl,
    DevicesControl,
    GuestsAuthorize,
    PortForwardsUpdate,
    FirewallPoliciesUpdate,
    VouchersCreate,
}

impl ToolKind {
    /// Whether the tool changes anything on a controller.
    pub open spec fn writes(self) -> bool {
        match self {
            ToolKind::WlansUpdate
            | ToolKind::ClientsControl
            | ToolKind::DevicesControl
            | ToolKind::GuestsAuthorize
            | ToolKind::PortForwardsUpdate
            | ToolKind::FirewallPoliciesUpdate
            | ToolKind::VouchersCreate => true,
            _ => false,
        }
    }

    /// The surface that serves the tool.
    pub open spec fn served_by(self) -> ToolSurface {
        match self {
            ToolKind::CamerasSearch
            | ToolKind::CamerasStatus
            | ToolKind::ProtectOverview
            | ToolKind::ProtectEvents => ToolSurface::Protect,
            _ => ToolSurface::Network,
        }
    }

    /// Explicit authorization classification, independent of advisory
    /// annotations.
    #[must_use]
    pub fn requires_write_access(self) -> (result: bool)
        ensures
            result == self.writes(),
    {
        match self {
            ToolKind::WlansUpdate
            | ToolKind::ClientsControl
            | ToolKind::DevicesControl
            | ToolKind::GuestsAuthorize
            | ToolKind::PortForwardsUpdate
            | ToolKind::FirewallPoliciesUpdate
            | ToolKind::VouchersCreate => true,
            ToolKind::NetworkOverview
            | ToolKind::ClientsSearch
            | ToolKind::ClientsContext
            | ToolKind::DevicesSearch
            | ToolKind::DevicesStatus
            | ToolKind::FirewallRead
            | ToolKind::NetworksRead
            | ToolKind::CamerasSearch
            | ToolKind::CamerasStatus
            | ToolKind::ProtectOverview
            | ToolKind::ProtectEvents
            | ToolKind::WifiDiagnose
            | ToolKind::EventsSearch
            | ToolKind::StatsQuery => false,
        }
    }

    /// The surface that serves the tool.
    #[must_use]
    pub fn surface(self) -> (surface: ToolSurface)
        ensures
            surface == self.served_by(),
    {
        match self {
            ToolKind::CamerasSearch
            | ToolKind::CamerasStatus
            | ToolKind::ProtectOverview
            | ToolKind::ProtectEvents => ToolSurface::Protect,
            ToolKind::NetworkOverview
            | ToolKind::ClientsSearch
            | ToolKind::ClientsContext
            | ToolKind::DevicesSearch
            | ToolKind::DevicesStatus
            | ToolKind::FirewallRead
            | ToolKind::NetworksRead
            | ToolKind::WifiDiagnose
            | ToolKind::EventsSearch
            | ToolKind::StatsQuery
            | ToolKind::WlansUpdate
            | ToolKind::ClientsControl
            | ToolKind::DevicesControl
            | ToolKind::GuestsAuthorize
            | ToolKind::PortForwardsUpdate
            | ToolKind::FirewallPoliciesUpdate
            | ToolKind::VouchersCreate => ToolSurface::Network,
        }
    }
}

/// MCP behavior hints and gateway trust labels for one tool.
#[derive(Debug, Clone, Copy, PartialEq, Eq)]
pub struct ToolBehavior {
    pub read_only: bool,
    pub destructive: bool,
    pub idempotent: bool,
    pub open_world: bool,
    pub outcome: &'static str,
    pub requires_review: bool,
    pub input_sensitive: bool,
    pub result_sensitive: bool,
    pub result_untrusted: bool,
    pub result_irreplaceable: bool,
}

/// The behavior of a bounded idempotent read.
pub open spec fn read_behavior() -> ToolBehavior {
    ToolBehavior {
        read_only: true,
        destructive: false,
        idempotent: true,
        open_world: false,
        outcome: "benign",
        requires_review: false,
        input_sensitive: false,
        result_sensitive: false,
        result_untrusted: true,
        result_irreplaceable: false,
    }
}

/// The behavior of a write.
pub open spec fn write_behavior(idempotent: bool) -> ToolBehavior {
    ToolBehavior {
        read_only: false,
        destructive: true,
        idempotent,
        open_world: false,
        outcome: "impactful",
        requires_review: true,
        input_sensitive: false,
        result_sensitive: false,
        result_untrusted: true,
        result_irreplaceable: false,
    }
}

impl ToolBehavior {
    /// The same behavior, with results marked sensitive.
    pub open spec fn with_sensitive_result(self) -> ToolBehavior {
        ToolBehavior { result_sensitive: true, ..self }
    }

    /// The same behavior, with the result marked irreplaceable.
    pub open spec fn with_irreplaceable_result(self) -> ToolBehavior {
        ToolBehavior { result_irreplaceable: true, ..self }
    }

    /// The same behavior, with inputs marked sensitive.
    pub open spec fn with_sensitive_input(self) -> ToolBehavior {
        ToolBehavior { input_sensitive: true, ..self }
    }

    /// Mark results sensitive: bounded configuration data whose disclosure
    /// still matters, labeled so the gateway can treat it accordingly.
    pub fn result_sensitive(self) -> (behavior: Self)
        ensures
            behavior == self.with_sensitive_result(),
    {
        let mut behavior = self;
        behavior.result_sensitive = true;
        behavior
    }

    /// Mark the result irreplaceable: it carries values this call created that
    /// no read reproduces. Such a result is exempt from the response budget,
    /// because refusing or trimming it destroys them and leaves the caller
    /// nothing to narrow.
    ///
    /// A tool claiming this must bound every caller-supplied value it echoes,
    /// before the call that creates anything.
    pub fn result_irreplaceable(self) -> (behavior: Self)
        ensures
            behavior == self.with_irreplaceable_result(),
    {
        let mut behavior = self;
        behavior.result_irreplaceable = true;
        behavior
    }

    /// A write. The annotations describe a confirmed call, not the preview
    /// default. `idempotent` is stated per tool because it is a property of
    /// the operation: applying the same configuration twice leaves the same
    /// state, while disconnecting a client twice disconnects it twice, and a
    /// caller deciding whether a retry is safe reads this.
    pub fn write(idempotent: bool) -> (behavior: Self)
        ensures
            behavior == write_behavior(idempotent),
    {
        ToolBehavior {
            read_only: false,
            destructive: true,
            idempotent,
            open_world: false,
            outcome: "impactful",
            requires_review: true,
            input_sensitive: false,
            result_sensitive: false,
            result_untrusted: true,
            result_irreplaceable: false,
        }
    }

    /// Mark inputs sensitive: the caller can supply secret material.
    pub fn input_sensitive(self) -> (behavior: Self)
        ensures
            behavior == self.with_sensitive_input(),
    {
        let mut behavior = self;
        behavior.input_sensitive = true;
        behavior
    }

    /// A bounded idempotent read. Controller-reported names and counters are
    /// attacker-influenceable, so every result stays untrusted.
    pub fn read() -> (behavior: Self)
        ensures
            behavior == read_behavior(),
    {
        ToolBehavior {
            read_only: true,
            destructive: false,
            idempotent: true,
            open_world: false,
            outcome: "benign",
            requires_review: false,
            input_sensitive: false,
            result_sensitive: false,
            result_untrusted: true,
            result_irreplaceable: false,
        }
    }
}

/// One registered tool with its gateway-owned risk classification.
#[derive(Debug, Clone, Copy, PartialEq, Eq)]
pub struct ToolSpec {
    pub name: &'static str,
    /// Gateway-owned risk label projected into the manifest scaffold.
    pub risk: &'static str,
    pub behavior: ToolBehavior,
    pub description: &'static str,
    pub kind: ToolKind,
}

/// The registration of a read.
pub open spec fn read_entry(
    kind: ToolKind,
    name: &'static str,
    description: &'static str,
) -> ToolSpec {
    ToolSpec { name, risk: "low", behavior: read_behavior(), description, kind }
}

/// The registration of a read with a sensitive result.
pub open spec fn sensitive_read_entry(
    kind: ToolKind,
    name: &'static str,
    description: &'static str,
) -> ToolSpec {
    ToolSpec {
        name,
        risk: "low",
        behavior: read_behavior().with_sensitive_result(),
        description,
        kind,
    }
}

/// The registration of a write.
pub open spec fn write_entry(
    kind: ToolKind,
    name: &'static str,
    description: &'static str,
    behavior: ToolBehavior,
) -> ToolSpec {
    ToolSpec { name, risk: "high", behavior, description, kind }
}

/// A read whose bounded output carries network configuration worth treating
/// as sensitive even with secrets redacted.
fn sensitive_read_spec(
    kind: ToolKind,
    name: &'static str,
    description: &'static str,
) -> (spec: ToolSpec)
    ensures
        spec == sensitive_read_entry(kind, name, description),
{
    ToolSpec {
        name,
        risk: "low",
        behavior: ToolBehavior::read().result_sensitive(),
        description,
        kind,
    }
}

/// A configuration write, classified high risk so the gateway gates it
/// separately from the read surface.
fn write_spec(
    kind: ToolKind,
    name: &'static str,
    description: &'static str,
    behavior: ToolBehavior,
) -> (spec: ToolSpec)
    ensures
        spec == write_entry(kind, name, description, behavior),
{
    ToolSpec { name, risk: "high", behavior, description, kind }
}

/// An ordinary read.
fn read_spec(
    kind: ToolKind,
    name: &'static str,
    description: &'static str,
) -> (spec: ToolSpec)
    ensures
        spec == read_entry(kind, name, description),
{
    ToolSpec { name, risk: "low", behavior: ToolBehavior::read(), description, kind }
}

/// What the catalog says of `network.overview`.
pub const NETWORK_OVERVIEW_TEXT: &'static str = "One bounded controller snapshot: application version, per-subsystem \
         health, active alarm count, and device and client totals. Cheap enough \
         for monitoring loops; never returns raw controller records.";

/// What the catalog says of `clients.search`.
pub const CLIENTS_SEARCH_TEXT: &'static str = "Find currently connected clients by name, hostname, MAC, IP, SSID, \
         VLAN, or wired/wireless, with pagination and a concise or full \
         detail level. Returns semantic fields such as hostnames and access \
         point names, never raw controller records.";

/// What the catalog says of `clients.context`.
pub const CLIENTS_CONTEXT_TEXT: &'static str = "One connected client end to end: identity, connection and access \
         point, signal, addressing including fixed-IP, usage, and its recent \
         controller events, selected by MAC, name, or hostname.";

/// What the catalog says of `devices.search`.
pub const DEVICES_SEARCH_TEXT: &'static str = "Find adopted devices by name, model, MAC, or IP, optionally filtered \
         by state, with pagination. Returns the bounded inventory row per \
         device, never the raw controller record.";

/// What the catalog says of `devices.status`.
pub const DEVICES_STATUS_TEXT: &'static str = "One device's bounded status: identity, state, firmware, uptime, CPU \
         and memory utilization, uplink rates, and summarized port and radio \
         tables, selected by id, MAC, or name.";

/// What the catalog says of `firewall.read`.
pub const FIREWALL_READ_TEXT: &'static str = "The normalized firewall audit view: zone-based zones and policies \
         with their match semantics, plus port forwards, traffic rules, and \
         traffic routes. Reads the zone-based firewall only; a console running \
         the classic firewall is refused by name rather than reported as \
         having no firewall, and the refusal names the sections that read the \
         same on either generation. Narrow with section, and continue a \
         truncated zone or policy section with sectionOffset.";

/// What the catalog says of `cameras.search`.
pub const CAMERAS_SEARCH_TEXT: &'static str = "Cameras on the Protect console by id, name, reported state, hardware \
         model, or functional class. Public inventory is enriched with bounded \
         local device, connection, recording, audio, and feature state when a \
         local session is configured. Paged and bounded. Hardware-model and \
         class filters fail explicitly when their source is unavailable. A \
         console with no Protect integration API is \
         refused rather than reported as having no cameras.";

/// What the catalog says of `cameras.status`.
pub const CAMERAS_STATUS_TEXT: &'static str = "One camera on the Protect console, selected by id or exact reported \
         display name. Public identity and state remain authoritative; bounded \
         local enrichment supplies hardware, connection, firmware, recording, \
         audio, and feature facts. Returns no image, stream, or talkback.";

/// What the catalog says of `protect.overview`.
pub const PROTECT_OVERVIEW_TEXT: &'static str = "One Protect console snapshot: the application version, how many \
         cameras are in each reported state, the official single recorder, \
         and explicit public/local capability status. A configured local \
         session supplies recording, hardware, health, capacity, and aggregate \
         storage facts; unavailable facts remain absent. The place to start on \
         a camera question.";

/// What the catalog says of `protect.events`.
pub const PROTECT_EVENTS_TEXT: &'static str = "Search historical Protect detections in a bounded window, filtered \
         by camera or detection kind, newest first with pagination. Returns \
         typed event metadata only: never thumbnails, snapshots, or raw \
         detection payloads.";

/// What the catalog says of `wifi.diagnose`.
pub const WIFI_DIAGNOSE_TEXT: &'static str = "One bounded wireless health snapshot: per-access-point radios and \
         client load, the weakest-signal clients with their access points, \
         and neighboring rogue access points. The place to start on \
         slow-wifi questions.";

/// What the catalog says of `events.search`.
pub const EVENTS_SEARCH_TEXT: &'static str = "Search recent controller events and active alarms in one bounded \
         window, filtered by time, category, or client MAC, newest first \
         with pagination.";

/// What the catalog says of `stats.query`.
pub const STATS_QUERY_TEXT: &'static str = "Bounded historical statistics: hourly WAN throughput over a chosen \
         window up to seven days, or top applications by deep packet \
         inspection volume (numeric application ids).";

/// What the catalog says of `networks.read`.
pub const NETWORKS_READ_TEXT: &'static str = "Configured networks and wireless networks: VLANs, subnets, DHCP \
         scopes, SSIDs, and security modes. Passphrases are redacted by \
         default; includeSecrets discloses them and requires the mcp-admins \
         group.";

/// What the catalog says of `wlans.update`.
pub const WLANS_UPDATE_TEXT: &'static str = "Change one wireless network by id: rename, enable or disable, hide, \
         set the security mode, or set the passphrase. Previews the change \
         and its consequences unless confirm is true; a confirmed change is \
         read back and each field reported as persisted, dropped, or \
         coerced.";

/// What the catalog says of `clients.control`.
pub const CLIENTS_CONTROL_TEXT: &'static str = "Block, unblock, or disconnect one client by MAC address. Previews \
         the action and its consequences unless confirm is true; a confirmed \
         action reports whether the client is in the connected list before \
         and after.";

/// What the catalog says of `devices.control`.
pub const DEVICES_CONTROL_TEXT: &'static str = "Restart one adopted device, flash or stop its locate LED, or \
         power-cycle one of its switch ports. Previews the action and its \
         consequences unless confirm is true; a confirmed action reports the \
         controller-reported state before and after.";

/// What the catalog says of `guests.authorize`.
pub const GUESTS_AUTHORIZE_TEXT: &'static str = "Authorize one client for guest access by MAC address, as \
         clients.search reports it. Previews the action and its consequence \
         unless confirm is true. The controller exposes no authorization \
         field on a client, so the result says the effect cannot be read back \
         rather than implying it was checked.";

/// What the catalog says of `port_forwards.update`.
pub const PORT_FORWARDS_UPDATE_TEXT: &'static str = "Enable, disable, or rename one port forward by id, as firewall.read \
         reports it. Previews the change and its consequences unless confirm \
         is true; a confirmed change is read back and each field reported as \
         persisted, dropped, or coerced. Where the rule points is not settable \
         here.";

/// What the catalog says of `firewall.policies.update`.
pub const FIREWALL_POLICIES_UPDATE_TEXT: &'static str = "Enable or disable one zone-based firewall policy by id, as \
         firewall.read reports it under policies. Previews the change and \
         what it permits or blocks unless confirm is true; a confirmed change \
         is read back and verified. The upstream interface has no partial \
         update for this, so the whole policy is resent exactly as read with \
         only the switch altered, and an edit made elsewhere in between is \
         overwritten. What the policy matches is not settable here.";

/// What the catalog says of `vouchers.create`.
pub const VOUCHERS_CREATE_TEXT: &'static str = "Mint hotspot vouchers for the guest network. Previews the batch and \
         its consequences unless confirm is true. The controller returns each \
         code once and no read reproduces it, so the result is the only copy: \
         the batch is judged on its own shape rather than by reading back, and \
         the codes are returned whatever that judgement says. The one exception \
         is a code that would disclose a configured controller credential: it \
         is redacted, reported, and its voucher identified so it can be revoked \
         and replaced.";

/// Every tool this server serves, in the stable catalog order.
pub open spec fn registry() -> Seq<ToolSpec> {
    seq![
        read_entry(ToolKind::NetworkOverview, "network.overview", NETWORK_OVERVIEW_TEXT),
        read_entry(ToolKind::ClientsSearch, "clients.search", CLIENTS_SEARCH_TEXT),
        read_entry(ToolKind::ClientsContext, "clients.context", CLIENTS_CONTEXT_TEXT),
        read_entry(ToolKind::DevicesSearch, "devices.search", DEVICES_SEARCH_TEXT),
        read_entry(ToolKind::DevicesStatus, "devices.status", DEVICES_STATUS_TEXT),
        sensitive_read_entry(ToolKind::FirewallRead, "firewall.read", FIREWALL_READ_TEXT),
        sensitive_read_entry(ToolKind::CamerasSearch, "cameras.search", CAMERAS_SEARCH_TEXT),
        sensitive_read_entry(ToolKind::CamerasStatus, "cameras.status", CAMERAS_STATUS_TEXT),
        sensitive_read_entry(ToolKind::ProtectOverview, "protect.overview", PROTECT_OVERVIEW_TEXT),
        sensitive_read_entry(ToolKind::ProtectEvents, "protect.events", PROTECT_EVENTS_TEXT),
        read_entry(ToolKind::WifiDiagnose, "wifi.diagnose", WIFI_DIAGNOSE_TEXT),
        read_entry(ToolKind::EventsSearch, "events.search", EVENTS_SEARCH_TEXT),
        read_entry(ToolKind::StatsQuery, "stats.query", STATS_QUERY_TEXT),
        sensitive_read_entry(ToolKind::NetworksRead, "networks.read", NETWORKS_READ_TEXT),
        write_entry(
            ToolKind::WlansUpdate,
            "wlans.update",
            WLANS_UPDATE_TEXT,
            write_behavior(true).with_sensitive_input().with_sensitive_result(),
        ),
        write_entry(
            ToolKind::ClientsControl,
            "clients.control",
            CLIENTS_CONTROL_TEXT,
            write_behavior(false),
        ),
        write_entry(
            ToolKind::DevicesControl,
            "devices.control",
            DEVICES_CONTROL_TEXT,
            write_behavior(false),
        ),
        write_entry(
            ToolKind::GuestsAuthorize,
            "guests.authorize",
            GUESTS_AUTHORIZE_TEXT,
            write_behavior(true),
        ),
        write_entry(
            ToolKind::PortForwardsUpdate,
            "port_forwards.update",
            PORT_FORWARDS_UPDATE_TEXT,
            write_behavior(true).with_sensitive_result(),
        ),
        write_entry(
            ToolKind::FirewallPoliciesUpdate,
            "firewall.policies.update",
            FIREWALL_POLICIES_UPDATE_TEXT,
            write_behavior(true).with_sensitive_result(),
        ),
        write_entry(
            ToolKind::VouchersCreate,
            "vouchers.create",
            VOUCHERS_CREATE_TEXT,
            write_behavior(false).with_sensitive_result().with_irreplaceable_result(),
        ),
    ]
}

/// Every tool this server serves, in the stable catalog order.
pub fn tool_registry() -> (list: Vec<ToolSpec>)
    ensures
        list@ == registry(),
{
    let list: Vec<ToolSpec> = vec![
        read_spec(ToolKind::NetworkOverview, "network.overview", NETWORK_OVERVIEW_TEXT),
        read_spec(ToolKind::ClientsSearch, "clients.search", CLIENTS_SEARCH_TEXT),
        read_spec(ToolKind::ClientsContext, "clients.context", CLIENTS_CONTEXT_TEXT),
        read_spec(ToolKind::DevicesSearch, "devices.search", DEVICES_SEARCH_TEXT),
        read_spec(ToolKind::DevicesStatus, "devices.status", DEVICES_STATUS_TEXT),
        sensitive_read_spec(ToolKind::FirewallRead, "firewall.read", FIREWALL_READ_TEXT),
        sensitive_read_spec(ToolKind::CamerasSearch, "cameras.search", CAMERAS_SEARCH_TEXT),
        sensitive_read_spec(ToolKind::CamerasStatus, "cameras.status", CAMERAS_STATUS_TEXT),
        sensitive_read_spec(ToolKind::ProtectOverview, "protect.overview", PROTECT_OVERVIEW_TEXT),
        sensitive_read_spec(ToolKind::ProtectEvents, "protect.events", PROTECT_EVENTS_TEXT),
        read_spec(ToolKind::WifiDiagnose, "wifi.diagnose", WIFI_DIAGNOSE_TEXT),
        read_spec(ToolKind::EventsSearch, "events.search", EVENTS_SEARCH_TEXT),
        read_spec(ToolKind::StatsQuery, "stats.query", STATS_QUERY_TEXT),
        sensitive_read_spec(ToolKind::NetworksRead, "networks.read", NETWORKS_READ_TEXT),
        write_spec(
            ToolKind::WlansUpdate,
            "wlans.update",
            WLANS_UPDATE_TEXT,
            ToolBehavior::write(true).input_sensitive().result_sensitive(),
        ),
        write_spec(
            ToolKind::ClientsControl,
            "clients.control",
            CLIENTS_CONTROL_TEXT,
            ToolBehavior::write(false),
        ),
        write_spec(
            ToolKind::DevicesControl,
            "devices.control",
            DEVICES_CONTROL_TEXT,
            ToolBehavior::write(false),
        ),
        write_spec(
            ToolKind::GuestsAuthorize,
            "guests.authorize",
            GUESTS_AUTHORIZE_TEXT,
            ToolBehavior::write(true),
        ),
        write_spec(
            ToolKind::PortForwardsUpdate,
            "port_forwards.update",
            PORT_FORWARDS_UPDATE_TEXT,
            ToolBehavior::write(true).result_sensitive(),
        ),
        write_spec(
            ToolKind::FirewallPoliciesUpdate,
            "firewall.policies.update",
            FIREWALL_POLICIES_UPDATE_TEXT,
            ToolBehavior::write(true).result_sensitive(),
        ),
        write_spec(
            ToolKind::VouchersCreate,
            "vouchers.create",
            VOUCHERS_CREATE_TEXT,
            ToolBehavior::write(false).result_sensitive().result_irreplaceable(),
        ),
    ];
    assert(list@ =~= registry());
    list
}

/// The registered tools one surface serves, in catalog order.
pub open spec fn surface_tools(surface: ToolSurface) -> Seq<ToolSpec> {
    registry().filter(|spec: ToolSpec| spec.kind.served_by() == surface)
}

/// Registered tools for one deployable console surface, preserving registry
/// order so catalog and manifest output remain deterministic.
pub fn tools_for_surface(surface: ToolSurface) -> (list: Vec<ToolSpec>)
    ensures
        list@ == surface_tools(surface),
{
    let all = tool_registry();
    let mut list: Vec<ToolSpec> = Vec::new();
    let mut i: usize = 0;
    let ghost pred = |spec: ToolSpec| spec.kind.served_by() == surface;
    while i < all.len()
        invariant
            i <= all@.len(),
            all@ == registry(),
            pred == (|spec: ToolSpec| spec.kind.served_by() == surface),
            list@ == registry().take(i as int).filter(pred),
        decreases all@.len() - i,
    {
        reveal(Seq::filter);
        assert(registry().take(i + 1).drop_last() =~= registry().take(i as int));
        if all[i].kind.surface() == surface {
            list.push(all[i]);
        }
        i += 1;
    }
    assert(registry().take(i as int) =~= registry());
    list
}

// ---------------------------------------------------------------------------
// Dispatch
// ---------------------------------------------------------------------------

/// What `format!("{:?}", ..)` writes for a text: the text in double quotes
/// with Rust's debug escapes.
pub uninterp spec fn debug_quoted(text: Seq<char>) -> Seq<char>;

/// Calls `format!` with the debug form of a string slice. The result is a
/// function of the characters alone; which escapes it holds is not stated.
#[verifier::external_body]
fn debug_quote(text: &str) -> (result: String)
    ensures
        result@ == debug_quoted(text@),
{
    format!("{:?}", text)
}

/// The refusal of a name the catalog does not hold.
pub open spec fn unknown_tool_message(name: Seq<char>) -> Seq<char> {
    "unknown tool "@ + debug_quoted(name) + "; tools/list is the catalog"@
}

/// The tool a surface serves under a name.
///
/// The name is the catalog's whole identity for a tool, so a name registered
/// for the other surface is as unknown as one that was never registered.
pub fn find_tool(surface: ToolSurface, name: &str) -> (result: Result<ToolSpec, ToolError>)
    ensures
        match result {
            Ok(spec) => registry().contains(spec) && spec.kind.served_by() == surface
                && spec.name@ == name@,
            Err(error) => is_invalid_params(error, unknown_tool_message(name@)) && forall|i: int|
                0 <= i < registry().len() && (#[trigger] registry()[i]).kind.served_by() == surface
                    ==> registry()[i].name@ != name@,
        },
{
    let all = tool_registry();
    let mut i: usize = 0;
    while i < all.len()
        invariant
            i <= all@.len(),
            all@ == registry(),
            forall|k: int|
                0 <= k < i && (#[trigger] registry()[k]).kind.served_by() == surface
                    ==> registry()[k].name@ != name@,
        decreases all@.len() - i,
    {
        let spec = all[i];
        if spec.kind.surface() == surface && same_text(spec.name, name) {
            assert(registry()[i as int] == spec);
            return Ok(spec);
        }
        i += 1;
    }
    let quoted = debug_quote(name);
    let message = join3("unknown tool ", quoted.as_str(), "; tools/list is the catalog");
    Err(ToolError { kind: ErrorKind::InvalidParams, message })
}

// ---------------------------------------------------------------------------
// Laws
// ---------------------------------------------------------------------------

/// Where a kind stands in the catalog.
pub open spec fn catalog_position(kind: ToolKind) -> int {
    match kind {
        ToolKind::NetworkOverview => 0,
        ToolKind::ClientsSearch => 1,
        ToolKind::ClientsContext => 2,
        ToolKind::DevicesSearch => 3,
        ToolKind::DevicesStatus => 4,
        ToolKind::FirewallRead => 5,
        ToolKind::NetworksRead => 13,
        ToolKind::CamerasSearch => 6,
        ToolKind::CamerasStatus => 7,
        ToolKind::ProtectOverview => 8,
        ToolKind::ProtectEvents => 9,
        ToolKind::WifiDiagnose => 10,
        ToolKind::EventsSearch => 11,
        ToolKind::StatsQuery => 12,
        ToolKind::WlansUpdate => 14,
        ToolKind::ClientsControl => 15,
        ToolKind::DevicesControl => 16,
        ToolKind::GuestsAuthorize => 17,
        ToolKind::PortForwardsUpdate => 18,
        ToolKind::FirewallPoliciesUpdate => 19,
        ToolKind::VouchersCreate => 20,
    }
}

/// Every kind is registered exactly once: the entry at its catalog position
/// has that kind, and no other entry has it.
pub proof fn law_every_kind_is_registered_once(kind: ToolKind)
    ensures
        registry().len() == 21,
        0 <= catalog_position(kind) < registry().len(),
        registry()[catalog_position(kind)].kind == kind,
        forall|i: int|
            0 <= i < registry().len() && (#[trigger] registry()[i]).kind == kind ==> i
                == catalog_position(kind),
{
}

/// Where a name stands in the catalog, or -1.
pub open spec fn name_position(name: Seq<char>) -> int {
    if name == "network.overview"@ {
        0
    } else if name == "clients.search"@ {
        1
    } else if name == "clients.context"@ {
        2
    } else if name == "devices.search"@ {
        3
    } else if name == "devices.status"@ {
        4
    } else if name == "firewall.read"@ {
        5
    } else if name == "cameras.search"@ {
        6
    } else if name == "cameras.status"@ {
        7
    } else if name == "protect.overview"@ {
        8
    } else if name == "protect.events"@ {
        9
    } else if name == "wifi.diagnose"@ {
        10
    } else if name == "events.search"@ {
        11
    } else if name == "stats.query"@ {
        12
    } else if name == "networks.read"@ {
        13
    } else if name == "wlans.update"@ {
        14
    } else if name == "clients.control"@ {
        15
    } else if name == "devices.control"@ {
        16
    } else if name == "guests.authorize"@ {
        17
    } else if name == "port_forwards.update"@ {
        18
    } else if name == "firewall.policies.update"@ {
        19
    } else if name == "vouchers.create"@ {
        20
    } else {
        -1
    }
}

proof fn lemma_name_position(i: int)
    requires
        0 <= i < registry().len(),
    ensures
        name_position(registry()[i].name@) == i,
{
    reveal_strlit("network.overview");
    reveal_strlit("clients.search");
    reveal_strlit("clients.context");
    reveal_strlit("devices.search");
    reveal_strlit("devices.status");
    reveal_strlit("firewall.read");
    reveal_strlit("cameras.search");
    reveal_strlit("cameras.status");
    reveal_strlit("protect.overview");
    reveal_strlit("protect.events");
    reveal_strlit("wifi.diagnose");
    reveal_strlit("events.search");
    reveal_strlit("stats.query");
    reveal_strlit("networks.read");
    reveal_strlit("wlans.update");
    reveal_strlit("clients.control");
    reveal_strlit("devices.control");
    reveal_strlit("guests.authorize");
    reveal_strlit("port_forwards.update");
    reveal_strlit("firewall.policies.update");
    reveal_strlit("vouchers.create");
    assert("network.overview"@.len() == 16);
    assert("clients.search"@.len() == 14);
    assert("clients.context"@.len() == 15);
    assert("devices.search"@.len() == 14);
    assert("devices.status"@.len() == 14);
    assert("firewall.read"@.len() == 13);
    assert("cameras.search"@.len() == 14);
    assert("cameras.status"@.len() == 14);
    assert("protect.overview"@.len() == 16);
    assert("protect.events"@.len() == 14);
    assert("wifi.diagnose"@.len() == 13);
    assert("events.search"@.len() == 13);
    assert("stats.query"@.len() == 11);
    assert("networks.read"@.len() == 13);
    assert("wlans.update"@.len() == 12);
    assert("clients.control"@.len() == 15);
    assert("devices.control"@.len() == 15);
    assert("guests.authorize"@.len() == 16);
    assert("port_forwards.update"@.len() == 20);
    assert("firewall.policies.update"@.len() == 24);
    assert("vouchers.create"@.len() == 15);
    assert("network.overview"@[0] != "protect.overview"@[0]);
    assert("network.overview"@[0] != "guests.authorize"@[0]);
    assert("clients.search"@[0] != "devices.search"@[0]);
    assert("clients.search"@[0] != "devices.status"@[0]);
    assert("clients.search"@[1] != "cameras.search"@[1]);
    assert("clients.search"@[1] != "cameras.status"@[1]);
    assert("clients.search"@[0] != "protect.events"@[0]);
    assert("clients.context"@[12] != "clients.control"@[12]);
    assert("clients.context"@[0] != "devices.control"@[0]);
    assert("clients.context"@[0] != "vouchers.create"@[0]);
    assert("devices.search"@[9] != "devices.status"@[9]);
    assert("devices.search"@[0] != "cameras.search"@[0]);
    assert("devices.search"@[0] != "cameras.status"@[0]);
    assert("devices.search"@[0] != "protect.events"@[0]);
    assert("devices.status"@[0] != "cameras.search"@[0]);
    assert("devices.status"@[0] != "cameras.status"@[0]);
    assert("devices.status"@[0] != "protect.events"@[0]);
    assert("firewall.read"@[0] != "wifi.diagnose"@[0]);
    assert("firewall.read"@[0] != "events.search"@[0]);
    assert("firewall.read"@[0] != "networks.read"@[0]);
    assert("cameras.search"@[9] != "cameras.status"@[9]);
    assert("cameras.search"@[0] != "protect.events"@[0]);
    assert("cameras.status"@[0] != "protect.events"@[0]);
    assert("protect.overview"@[0] != "guests.authorize"@[0]);
    assert("wifi.diagnose"@[0] != "events.search"@[0]);
    assert("wifi.diagnose"@[0] != "networks.read"@[0]);
    assert("events.search"@[0] != "networks.read"@[0]);
    assert("clients.control"@[0] != "devices.control"@[0]);
    assert("clients.control"@[0] != "vouchers.create"@[0]);
    assert("devices.control"@[0] != "vouchers.create"@[0]);
    if i == 0 {
        assert(registry()[0].name@ == "network.overview"@);
    } else if i == 1 {
        assert(registry()[1].name@ == "clients.search"@);
    } else if i == 2 {
        assert(registry()[2].name@ == "clients.context"@);
    } else if i == 3 {
        assert(registry()[3].name@ == "devices.search"@);
    } else if i == 4 {
        assert(registry()[4].name@ == "devices.status"@);
    } else if i == 5 {
        assert(registry()[5].name@ == "firewall.read"@);
    } else if i == 6 {
        assert(registry()[6].name@ == "cameras.search"@);
    } else if i == 7 {
        assert(registry()[7].name@ == "cameras.status"@);
    } else if i == 8 {
        assert(registry()[8].name@ == "protect.overview"@);
    } else if i == 9 {
        assert(registry()[9].name@ == "protect.events"@);
    } else if i == 10 {
        assert(registry()[10].name@ == "wifi.diagnose"@);
    } else if i == 11 {
        assert(registry()[11].name@ == "events.search"@);
    } else if i == 12 {
        assert(registry()[12].name@ == "stats.query"@);
    } else if i == 13 {
        assert(registry()[13].name@ == "networks.read"@);
    } else if i == 14 {
        assert(registry()[14].name@ == "wlans.update"@);
    } else if i == 15 {
        assert(registry()[15].name@ == "clients.control"@);
    } else if i == 16 {
        assert(registry()[16].name@ == "devices.control"@);
    } else if i == 17 {
        assert(registry()[17].name@ == "guests.authorize"@);
    } else if i == 18 {
        assert(registry()[18].name@ == "port_forwards.update"@);
    } else if i == 19 {
        assert(registry()[19].name@ == "firewall.policies.update"@);
    } else if i == 20 {
        assert(registry()[20].name@ == "vouchers.create"@);
    }
}

/// No two registered tools share a name.
pub proof fn law_names_are_unique(i: int, j: int)
    requires
        0 <= i < j < registry().len(),
    ensures
        registry()[i].name@ != registry()[j].name@,
{
    lemma_name_position(i);
    lemma_name_position(j);
}

/// A tool that requires write access is annotated as a destructive, reviewed
/// write of high risk, and every other tool as a benign read of low risk that
/// changes nothing; no result is ever trusted.
pub proof fn law_annotations_match_write_access(i: int)
    requires
        0 <= i < registry().len(),
    ensures
        ({
            let spec = registry()[i];
            &&& spec.kind.writes() <==> !spec.behavior.read_only
            &&& spec.kind.writes() ==> spec.risk == "high" && spec.behavior.destructive
                && spec.behavior.requires_review && spec.behavior.outcome == "impactful"
            &&& !spec.kind.writes() ==> spec.risk == "low" && !spec.behavior.destructive
                && !spec.behavior.requires_review && spec.behavior.outcome == "benign"
                && spec.behavior.idempotent
            &&& spec.behavior.result_untrusted
            &&& !spec.behavior.open_world
            &&& spec.behavior.result_irreplaceable <==> spec.kind == ToolKind::VouchersCreate
            &&& spec.behavior.input_sensitive <==> spec.kind == ToolKind::WlansUpdate
        }),
{
}

/// The two surfaces split the registry: each registered tool is served by
/// exactly one of them, and together they serve all.
pub proof fn law_surfaces_split_the_registry(spec: ToolSpec)
    ensures
        registry().contains(spec) <==> surface_tools(ToolSurface::Network).contains(spec)
            || surface_tools(ToolSurface::Protect).contains(spec),
        !(surface_tools(ToolSurface::Network).contains(spec) && surface_tools(
            ToolSurface::Protect,
        ).contains(spec)),
        surface_tools(ToolSurface::Network).len() + surface_tools(ToolSurface::Protect).len()
            == registry().len(),
{
    let network = |s: ToolSpec| s.kind.served_by() == ToolSurface::Network;
    let protect = |s: ToolSpec| s.kind.served_by() == ToolSurface::Protect;
    crate::rows::lemma_filter_contains(registry(), network, spec);
    crate::rows::lemma_filter_contains(registry(), protect, spec);
    lemma_split_lengths(registry(), network, protect);
}

proof fn lemma_split_lengths(
    list: Seq<ToolSpec>,
    a: spec_fn(ToolSpec) -> bool,
    b: spec_fn(ToolSpec) -> bool,
)
    requires
        forall|s: ToolSpec| #[trigger] a(s) <==> !b(s),
    ensures
        list.filter(a).len() + list.filter(b).len() == list.len(),
    decreases list.len(),
{
    reveal(Seq::filter);
    if list.len() > 0 {
        lemma_split_lengths(list.drop_last(), a, b);
        let last = list.last();
        assert(a(last) <==> !b(last));
    }
}

} // verus!
