//! Configured networks and wireless networks, with passphrases redacted by
//! default.

use vstd::prelude::*;
use vstd::string::*;

use crate::encode::{
    encode_flag,
    encode_text,
    flag_or_null,
    maybe_text,
    present,
    push_field,
    push_present,
    some_text,
    text_or_null,
};
use crate::error::{invalid_params, is_invalid_params, ToolError};
use crate::mutation::REDACTION_MARKER;
use crate::rows::convert;
use crate::text::{listed, opt_string, same_text, texts};
use crate::tree::{fields, Json, Member, Tree};

verus! {

broadcast use crate::tree::group_json_view;

/// Group whose members may use privileged tool options such as secret
/// disclosure opt-ins.
pub const MCP_ADMIN_GROUP: &'static str = "mcp-admins";

/// Verified caller identity propagated by the gateway ingress into request
/// extensions; the group gate for privileged tool options reads it.
#[derive(Debug, Clone)]
pub struct IdentityPrincipal {
    pub subject: String,
    pub groups: Vec<String>,
}

/// A network as the controller stores it.
pub struct NetworkConf {
    pub id: String,
    pub name: Option<String>,
    pub purpose: Option<String>,
    pub vlan: Option<u16>,
    pub ip_subnet: Option<String>,
    pub enabled: Option<bool>,
    pub dhcpd_enabled: Option<bool>,
    pub dhcpd_start: Option<String>,
    pub dhcpd_stop: Option<String>,
}

/// A wireless network as the controller stores it.
pub struct WlanConf {
    pub id: String,
    pub name: Option<String>,
    pub enabled: Option<bool>,
    pub security: Option<String>,
    pub hide_ssid: Option<bool>,
    pub networkconf_id: Option<String>,
    pub x_passphrase: Option<String>,
}

/// One section of the configuration.
#[derive(Debug, Clone, Copy, PartialEq, Eq, Structural)]
pub enum NetworksSection {
    Networks,
    Wlans,
}

/// What a configuration read asks for.
#[derive(Debug, Clone, Copy, PartialEq, Eq, Structural)]
pub struct NetworksReadInput {
    pub include_secrets: bool,
    pub section: Option<NetworksSection>,
}

/// One network.
pub struct NetworkView {
    pub name: Option<String>,
    pub purpose: Option<String>,
    pub vlan: Option<u16>,
    pub subnet: Option<String>,
    pub enabled: Option<bool>,
    pub dhcp_enabled: Option<bool>,
    pub dhcp_start: Option<String>,
    pub dhcp_stop: Option<String>,
}

/// One wireless network.
pub struct WlanView {
    pub id: String,
    pub ssid: Option<String>,
    pub enabled: Option<bool>,
    pub security: Option<String>,
    pub hidden: Option<bool>,
    pub network: Option<String>,
    pub passphrase: Option<String>,
}

/// The configured networks.
pub struct NetworksReadOutput {
    pub networks: Vec<NetworkView>,
    pub wlans: Vec<WlanView>,
}

// ---------------------------------------------------------------------------
// Disclosure
// ---------------------------------------------------------------------------

/// Whether a caller is in the admin group. A caller without an identity is
/// not.
pub open spec fn is_admin(principal: Option<&IdentityPrincipal>) -> bool {
    match principal {
        Some(identity) => texts(identity.groups@).contains(MCP_ADMIN_GROUP@),
        None => false,
    }
}

/// The refusal of a disclosure.
pub open spec fn disclosure_message() -> Seq<char> {
    "includeSecrets requires membership in the mcp-admins group"@
}

/// Refuses the disclosure of secrets to a caller outside the admin group.
pub fn check_disclosure(include_secrets: bool, principal: Option<&IdentityPrincipal>) -> (result:
    Result<(), ToolError>)
    ensures
        result is Err <==> include_secrets && !is_admin(principal),
        result matches Err(error) ==> is_invalid_params(error, disclosure_message()),
{
    if include_secrets {
        let authorized = match principal {
            Some(identity) => listed(&identity.groups, MCP_ADMIN_GROUP),
            None => false,
        };
        if !authorized {
            return Err(
                invalid_params("includeSecrets requires membership in the mcp-admins group"),
            );
        }
    }
    Ok(())
}

// ---------------------------------------------------------------------------
// Views
// ---------------------------------------------------------------------------

/// The name of the network with an id: the last one with it counts, and one
/// without a name has none.
pub open spec fn network_name(networks: Seq<NetworkConf>, id: Seq<char>) -> Option<String>
    decreases networks.len(),
{
    if networks.len() == 0 {
        None
    } else if networks.last().id@ == id {
        networks.last().name
    } else {
        network_name(networks.drop_last(), id)
    }
}

/// The name of the network a wireless one is backed by.
pub open spec fn backing_network(networks: Seq<NetworkConf>, wlan: WlanConf) -> Option<String> {
    match wlan.networkconf_id {
        Some(id) => network_name(networks, id@),
        None => None,
    }
}

fn find_network_name(networks: &Vec<NetworkConf>, id: &str) -> (name: Option<String>)
    ensures
        name == network_name(networks@, id@),
{
    let mut left: usize = networks.len();
    assert(networks@.take(left as int) =~= networks@);
    while left > 0
        invariant
            left <= networks@.len(),
            network_name(networks@, id@) == network_name(networks@.take(left as int), id@),
        decreases left,
    {
        let ghost here = networks@.take(left as int);
        assert(here.last() == networks@[left - 1]);
        if same_text(networks[left - 1].id.as_str(), id) {
            return networks[left - 1].name.clone();
        }
        assert(here.drop_last() =~= networks@.take(left - 1));
        left -= 1;
    }
    None
}

/// The passphrase a view shows: the marker in place of one, unless secrets
/// are disclosed.
pub open spec fn shown_passphrase(passphrase: Option<Seq<char>>, disclose: bool) -> Option<Seq<char>> {
    match passphrase {
        Some(secret) => if disclose {
            Some(secret)
        } else {
            Some(REDACTION_MARKER@)
        },
        None => None,
    }
}

/// Whether a view shows a wireless network.
pub open spec fn shows_wlan(
    view: WlanView,
    wlan: WlanConf,
    networks: Seq<NetworkConf>,
    disclose: bool,
) -> bool {
    &&& view.id == wlan.id
    &&& view.ssid == wlan.name
    &&& view.enabled == wlan.enabled
    &&& view.security == wlan.security
    &&& view.hidden == wlan.hide_ssid
    &&& view.network == backing_network(networks, wlan)
    &&& opt_string(view.passphrase) == shown_passphrase(opt_string(wlan.x_passphrase), disclose)
}

/// The view of a wireless network.
pub fn wlan_view(wlan: WlanConf, networks: &Vec<NetworkConf>, disclose: bool) -> (view: WlanView)
    ensures
        shows_wlan(view, wlan, networks@, disclose),
{
    let network = match &wlan.networkconf_id {
        Some(id) => find_network_name(networks, id.as_str()),
        None => None,
    };
    let passphrase = match wlan.x_passphrase {
        Some(secret) => if disclose {
            Some(secret)
        } else {
            Some(REDACTION_MARKER.to_owned())
        },
        None => None,
    };
    WlanView {
        id: wlan.id,
        ssid: wlan.name,
        enabled: wlan.enabled,
        security: wlan.security,
        hidden: wlan.hide_ssid,
        network,
        passphrase,
    }
}

/// The view of a wireless network as a value. A network without a passphrase
/// has no such property.
pub open spec fn wlan_view_fields(view: WlanView) -> Seq<(Seq<char>, Tree)> {
    seq![
        ("enabled"@, flag_or_null(view.enabled)),
        ("hidden"@, flag_or_null(view.hidden)),
        ("id"@, Tree::Text(view.id@)),
        ("network"@, text_or_null(opt_string(view.network))),
    ] + present("passphrase"@, some_text(opt_string(view.passphrase))) + seq![
        ("security"@, text_or_null(opt_string(view.security))),
        ("ssid"@, text_or_null(opt_string(view.ssid))),
    ]
}

/// The view of a wireless network as a value.
pub fn encode_wlan_view(view: &WlanView) -> (value: Json)
    ensures
        value@ == Tree::Object(wlan_view_fields(*view)),
{
    let mut members: Vec<Member> = Vec::new();
    push_field(&mut members, "enabled", encode_flag(view.enabled));
    push_field(&mut members, "hidden", encode_flag(view.hidden));
    push_field(&mut members, "id", Json::Text(view.id.clone()));
    push_field(&mut members, "network", encode_text(&view.network));
    push_present(&mut members, "passphrase", maybe_text(&view.passphrase));
    push_field(&mut members, "security", encode_text(&view.security));
    push_field(&mut members, "ssid", encode_text(&view.ssid));
    assert(fields(members@) =~= wlan_view_fields(*view));
    Json::Object(members)
}

/// The view of a network.
pub open spec fn network_view_of(network: NetworkConf) -> NetworkView {
    NetworkView {
        name: network.name,
        purpose: network.purpose,
        vlan: network.vlan,
        subnet: network.ip_subnet,
        enabled: network.enabled,
        dhcp_enabled: network.dhcpd_enabled,
        dhcp_start: network.dhcpd_start,
        dhcp_stop: network.dhcpd_stop,
    }
}

/// The views of a list of networks.
pub fn network_views(networks: Vec<NetworkConf>) -> (views: Vec<NetworkView>)
    ensures
        views@ == networks@.map_values(|network: NetworkConf| network_view_of(network)),
{
    let ghost all = networks@;
    let conversion = |network: NetworkConf| -> (view: NetworkView)
        ensures
            view == network_view_of(network)
    {
        NetworkView {
            name: network.name,
            purpose: network.purpose,
            vlan: network.vlan,
            subnet: network.ip_subnet,
            enabled: network.enabled,
            dhcp_enabled: network.dhcpd_enabled,
            dhcp_start: network.dhcpd_start,
            dhcp_stop: network.dhcpd_stop,
        }
    };
    let views = convert(networks, conversion);
    assert(views@ =~= all.map_values(|network: NetworkConf| network_view_of(network)));
    views
}

/// Whether a read shows the wireless networks.
pub open spec fn shows_wlans(section: Option<NetworksSection>) -> bool {
    section != Some(NetworksSection::Networks)
}

/// Whether a read shows the networks.
pub open spec fn shows_networks(section: Option<NetworksSection>) -> bool {
    section != Some(NetworksSection::Wlans)
}

/// Whether a read fetches the wireless networks. The networks are always
/// fetched: they back the wireless names.
pub fn wants_wlans(section: Option<NetworksSection>) -> (result: bool)
    ensures
        result == shows_wlans(section),
{
    match section {
        Some(narrowed) => narrowed != NetworksSection::Networks,
        None => true,
    }
}

/// The configured networks as a caller may see them, or the refusal of the
/// disclosure asked for. The section narrows only what is shown.
pub fn networks_read(
    input: &NetworksReadInput,
    principal: Option<&IdentityPrincipal>,
    networks: Vec<NetworkConf>,
    wlans: Vec<WlanConf>,
) -> (result: Result<NetworksReadOutput, ToolError>)
    ensures
        result is Err <==> input.include_secrets && !is_admin(principal),
        result matches Err(error) ==> is_invalid_params(error, disclosure_message()),
        result matches Ok(output) ==> {
            &&& output.networks@ == if shows_networks(input.section) {
                networks@.map_values(|network: NetworkConf| network_view_of(network))
            } else {
                Seq::empty()
            }
            &&& output.wlans@.len() == (if shows_wlans(input.section) {
                wlans@.len()
            } else {
                0
            })
            &&& forall|i: int|
                0 <= i < output.wlans@.len() ==> shows_wlan(
                    #[trigger] output.wlans@[i],
                    wlans@[i],
                    networks@,
                    input.include_secrets,
                )
        },
{
    if let Err(error) = check_disclosure(input.include_secrets, principal) {
        return Err(error);
    }
    let ghost configured = networks@;
    let disclose = input.include_secrets;
    let mut wlan_views: Vec<WlanView> = Vec::new();
    if wants_wlans(input.section) {
        let known = &networks;
        let conversion = |wlan: WlanConf| -> (view: WlanView)
            ensures
                shows_wlan(view, wlan, known@, disclose)
        {
            wlan_view(wlan, known, disclose)
        };
        wlan_views = convert(wlans, conversion);
    }
    let hide_networks = match input.section {
        Some(narrowed) => narrowed == NetworksSection::Wlans,
        None => false,
    };
    let views: Vec<NetworkView> = if hide_networks {
        Vec::new()
    } else {
        network_views(networks)
    };
    Ok(NetworksReadOutput { networks: views, wlans: wlan_views })
}

/// Of a read that was not refused: a stored passphrase is shown as it is only
/// where the caller is in the admin group and asked for it, and else shows as
/// the marker.
pub proof fn law_passphrases_are_disclosed_to_admins_only(
    input: NetworksReadInput,
    principal: Option<&IdentityPrincipal>,
    view: WlanView,
    wlan: WlanConf,
    networks: Seq<NetworkConf>,
)
    requires
        shows_wlan(view, wlan, networks, input.include_secrets),
        !(input.include_secrets && !is_admin(principal)),
    ensures
        view.passphrase matches Some(shown) ==> shown@ == REDACTION_MARKER@ || (is_admin(principal)
            && input.include_secrets),
        view.passphrase is Some <==> wlan.x_passphrase is Some,
{
}

} // verus!
