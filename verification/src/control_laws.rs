//! What holds of the firewall reads, the system log and the control actions.

use vstd::prelude::*;
use vstd::string::*;

use crate::clients::ActiveClient;
use crate::control::{
    client_address, client_control_warnings, client_step, clients_control, device_command,
    device_control_warnings, devices_control, guest_address, guest_step, guests_authorize,
    integration_client_id, is_client_address, is_confirmed, names_one_client, validated_port,
    ClientControl, ClientStep, ClientsControlInput, ClientsControlOutput, DeviceCommand,
    DeviceControl, DevicesControlInput, DevicesControlOutput, GuestStep, GuestsAuthorizeInput,
    GuestsAuthorizeOutput, KnownClient,
};
use crate::devices::DeviceDetail;
use crate::display::mac_form;
use crate::error::{ApiError, ErrorKind, ToolError};
use crate::firewall::{
    depends_on_generation, firewall_read, generation_specific, policies_section, policy_view,
    port_forward_view, port_forwards_section, require_readable_generation,
    require_zone_based_firewall, section_word, validate_section_offset, wants_section,
    zone_based_sections, FirewallGeneration, FirewallPolicy, FirewallReadInput, FirewallReadOutput,
    FirewallSection, PolicyView, PortForward, PortForwardView, TrafficRouteView, TrafficRuleView,
    ZoneScan, ZoneView,
};
use crate::system_log::{
    closing, event_row, expanded, log_window, message, read_error, token_text, LogEventRow,
    SystemLogEntity, SystemLogEntry, SystemLogParameters,
};
use crate::text::{opt_string, texts};

verus! {

// ---------------------------------------------------------------------------
// Firewall
// ---------------------------------------------------------------------------

/// Each section is called by its own name.
pub proof fn law_sections_have_their_names(section: FirewallSection, word: &'static str)
    requires
        call_ensures(section_word, (section,), word),
    ensures
        word@ == match section {
            FirewallSection::Zones => "zones"@,
            FirewallSection::Policies => "policies"@,
            FirewallSection::PortForwards => "portForwards"@,
            FirewallSection::TrafficRules => "trafficRules"@,
            FirewallSection::TrafficRoutes => "trafficRoutes"@,
        },
{
}

/// A section is wanted where nothing or it alone is asked for; the generation
/// of the firewall matters to zones and policies, and to a read of
/// everything.
pub proof fn law_sections_are_wanted_as_asked(
    narrowing: Option<FirewallSection>,
    section: FirewallSection,
    wanted: bool,
    specific: bool,
    depends: bool,
)
    requires
        call_ensures(wants_section, (narrowing, section), wanted),
        call_ensures(generation_specific, (section,), specific),
        call_ensures(depends_on_generation, (narrowing,), depends),
    ensures
        wanted <==> narrowing is None || narrowing->Some_0 == section,
        specific <==> section == FirewallSection::Zones || section == FirewallSection::Policies,
        depends <==> narrowing is None || narrowing->Some_0 == FirewallSection::Zones
            || narrowing->Some_0 == FirewallSection::Policies,
{
}

/// An offset is taken only with the zones or the policies alone, and up to
/// 100,000; without one a section is read from its start.
pub proof fn law_section_offsets_are_checked(
    input: &FirewallReadInput,
    result: Result<u64, ToolError>,
)
    requires
        call_ensures(validate_section_offset, (input,), result),
    ensures
        input.section_offset is None ==> result is Ok && result->Ok_0 == 0,
        input.section_offset matches Some(offset) ==> {
            &&& result is Ok <==> offset <= 100_000 && (input.section == Some(
                FirewallSection::Zones,
            ) || input.section == Some(FirewallSection::Policies))
            &&& result is Ok ==> result->Ok_0 == offset
        },
        result matches Err(error) ==> error.kind == ErrorKind::InvalidParams,
{
}

/// A classic firewall is refused for what it does not have, and for no more.
pub proof fn law_classic_firewalls_are_refused(
    narrowing: Option<FirewallSection>,
    generation: FirewallGeneration,
    read: Result<(), ToolError>,
    write: Result<(), ToolError>,
)
    requires
        call_ensures(require_readable_generation, (narrowing, generation), read),
        call_ensures(require_zone_based_firewall, (generation,), write),
    ensures
        generation == FirewallGeneration::ZoneBased ==> read is Ok && write is Ok,
        generation == FirewallGeneration::Classic ==> write is Err,
        generation == FirewallGeneration::Classic ==> (read is Ok <==> narrowing is Some
            && narrowing->Some_0 != FirewallSection::Zones && narrowing->Some_0
            != FirewallSection::Policies),
        read matches Err(error) ==> error.kind == ErrorKind::InvalidParams,
        write matches Err(error) ==> error.kind == ErrorKind::InvalidParams,
{
}

/// A policy is shown with its own fields, its source as source and its
/// destination as destination.
pub proof fn law_policy_views_show_the_policy(policy: FirewallPolicy, view: PolicyView)
    requires
        call_ensures(policy_view, (policy,), view),
    ensures
        view.id == policy.id,
        view.name == policy.name,
        view.enabled == policy.enabled,
        view.action == policy.action,
        view.index == policy.index,
        view.ip_protocol_scope == policy.ip_protocol_scope,
        policy.source is None ==> view.source_zone_id is None && view.source_port is None,
        policy.source matches Some(side) ==> view.source_zone_id == side.zone_id
            && view.source_port == side.port,
        policy.destination is None ==> view.destination_zone_id is None
            && view.destination_port is None,
        policy.destination matches Some(side) ==> view.destination_zone_id == side.zone_id
            && view.destination_port == side.port,
{
}

/// Every policy is shown in order, as it is shown alone.
pub proof fn law_policies_are_shown_in_order(
    policies: Vec<FirewallPolicy>,
    views: Vec<PolicyView>,
    i: int,
    alone: PolicyView,
)
    requires
        call_ensures(policies_section, (policies,), views),
        0 <= i < policies@.len(),
        call_ensures(policy_view, (policies@[i],), alone),
    ensures
        views@.len() == policies@.len(),
        views@[i] == alone,
{
}

/// A port forward is shown with its own fields.
pub proof fn law_forward_views_show_the_forward(forward: PortForward, view: PortForwardView)
    requires
        call_ensures(port_forward_view, (forward,), view),
    ensures
        view.id == forward.id,
        view.name == forward.name,
        view.enabled == forward.enabled,
        view.source == forward.src,
        view.forward_to == forward.fwd,
        view.forward_port == forward.fwd_port,
        view.destination_port == forward.dst_port,
        view.protocol == forward.proto,
{
}

/// Every port forward is shown in order, as it is shown alone.
pub proof fn law_forwards_are_shown_in_order(
    forwards: Vec<PortForward>,
    views: Vec<PortForwardView>,
    i: int,
    alone: PortForwardView,
)
    requires
        call_ensures(port_forwards_section, (forwards,), views),
        0 <= i < forwards@.len(),
        call_ensures(port_forward_view, (forwards@[i],), alone),
    ensures
        views@.len() == forwards@.len(),
        views@[i] == alone,
{
}

/// A scan hands on what was read. It is truncated where a section that is
/// shown was cut; one section alone continues behind its last row while the
/// offset may be asked for, and otherwise a note says what to do.
pub proof fn law_cut_sections_continue_or_explain(
    narrowing: Option<FirewallSection>,
    start: u64,
    zones: Vec<ZoneView>,
    zones_truncated: bool,
    policies: Vec<PolicyView>,
    policies_truncated: bool,
    scan: ZoneScan,
)
    requires
        call_ensures(
            zone_based_sections,
            (narrowing, start, zones, zones_truncated, policies, policies_truncated),
            scan,
        ),
    ensures
        scan.zones == zones,
        scan.policies == policies,
        scan.truncated <==> {
            ||| zones_truncated && (narrowing is None || narrowing->Some_0
                == FirewallSection::Zones)
            ||| policies_truncated && (narrowing is None || narrowing->Some_0
                == FirewallSection::Policies)
        },
        !scan.truncated ==> scan.next_offset is None && scan.note is None,
        scan.truncated ==> (scan.next_offset is Some <==> scan.note is None),
        scan.truncated && narrowing is None ==> scan.note is Some,
        scan.truncated && narrowing == Some(FirewallSection::Zones) ==> {
            &&& scan.next_offset is Some <==> start + zones@.len() <= 100_000
            &&& scan.next_offset is Some ==> scan.next_offset->Some_0 == start + zones@.len()
        },
        scan.truncated && narrowing == Some(FirewallSection::Policies) ==> {
            &&& scan.next_offset is Some <==> start + policies@.len() <= 100_000
            &&& scan.next_offset is Some ==> scan.next_offset->Some_0 == start + policies@.len()
        },
{
    assert(zones.len() == zones@.len());
    assert(policies.len() == policies@.len());
}

/// A read shows each section it was given under its own name, and states the
/// generation where it matters.
pub proof fn law_firewall_read_holds_its_sections(
    input: &FirewallReadInput,
    scan: ZoneScan,
    port_forwards: Vec<PortForwardView>,
    traffic_rules: Vec<TrafficRuleView>,
    traffic_routes: Vec<TrafficRouteView>,
    output: FirewallReadOutput,
    depends: bool,
)
    requires
        call_ensures(
            firewall_read,
            (input, scan, port_forwards, traffic_rules, traffic_routes),
            output,
        ),
        call_ensures(depends_on_generation, (input.section,), depends),
    ensures
        output.zones == scan.zones,
        output.policies == scan.policies,
        output.port_forwards == port_forwards,
        output.traffic_rules == traffic_rules,
        output.traffic_routes == traffic_routes,
        output.next_section_offset == scan.next_offset,
        output.truncation_note == scan.note,
        output.sections_truncated == if scan.truncated {
            Some(true)
        } else {
            None
        },
        output.generation is Some <==> depends,
        output.generation matches Some(word) ==> word@ == "zoneBased"@,
        output.generation_note is Some <==> depends,
        output.section is Some <==> input.section is Some,
        input.section matches Some(section) ==> output.section->Some_0@ == match section {
            FirewallSection::Zones => "zones"@,
            FirewallSection::Policies => "policies"@,
            FirewallSection::PortForwards => "portForwards"@,
            FirewallSection::TrafficRules => "trafficRules"@,
            FirewallSection::TrafficRoutes => "trafficRoutes"@,
        },
{
}

// ---------------------------------------------------------------------------
// System log
// ---------------------------------------------------------------------------

/// An entry is shown with its own time, category and severity, by its key or
/// else its event, and with the client it names.
pub proof fn law_log_rows_show_their_entry(entry: SystemLogEntry, row: LogEventRow)
    requires
        call_ensures(event_row, (entry,), row),
    ensures
        row.time == entry.timestamp,
        entry.key is Some ==> row.key == entry.key,
        entry.key is None ==> row.key == entry.event,
        row.category == entry.category,
        row.severity == entry.severity,
        entry.parameters.client is None ==> row.client_mac is None,
        entry.parameters.client matches Some(client) ==> row.client_mac == client.id,
{
}

/// Whether a text is there and is not empty.
pub open spec fn has_text(text: Option<String>) -> bool {
    text is Some && text->Some_0@.len() > 0
}

/// A token stands for the named entity: its name, or else its id, where that
/// is not empty.
pub proof fn law_tokens_stand_for_their_entities(
    parameters: SystemLogParameters,
    entity: SystemLogEntity,
)
    ensures
        ({
            let shown = if has_text(entity.name) {
                Some(entity.name->Some_0@)
            } else if has_text(entity.id) {
                Some(entity.id->Some_0@)
            } else {
                None
            };
            &&& parameters.client == Some(entity) ==> token_text("CLIENT"@, parameters) == shown
            &&& parameters.device == Some(entity) ==> token_text("DEVICE"@, parameters) == shown
            &&& parameters.device_from == Some(entity) ==> token_text("DEVICE_FROM"@, parameters)
                == shown
            &&& parameters.device_to == Some(entity) ==> token_text("DEVICE_TO"@, parameters)
                == shown
            &&& parameters.wlan == Some(entity) ==> token_text("WLAN"@, parameters) == shown
            &&& parameters.network == Some(entity) ==> token_text("NETWORK"@, parameters) == shown
        }),
{
    reveal_strlit("CLIENT");
    reveal_strlit("DEVICE");
    reveal_strlit("DEVICE_FROM");
    reveal_strlit("DEVICE_TO");
    reveal_strlit("WLAN");
    reveal_strlit("NETWORK");
    assert("CLIENT"@.len() == 6 && "DEVICE"@.len() == 6 && "DEVICE_FROM"@.len() == 11);
    assert("DEVICE_TO"@.len() == 9 && "WLAN"@.len() == 4 && "NETWORK"@.len() == 7);
    assert("CLIENT"@[0] == 'C' && "DEVICE"@[0] == 'D');
}

/// The message of an entry is its message, or else its title where that is
/// empty or absent; without either there is none.
pub proof fn law_messages_fall_back_to_the_title(entry: &SystemLogEntry, shown: Option<String>)
    requires
        call_ensures(message, (entry,), shown),
    ensures
        shown is Some <==> has_text(entry.message_raw) || entry.title_raw is Some,
        shown matches Some(text) ==> text@ == crate::display::bounded(
            expanded(
                if has_text(entry.message_raw) {
                    entry.message_raw->Some_0@
                } else {
                    entry.title_raw->Some_0@
                },
                entry.parameters,
                0,
            ),
        ),
{
}

/// A known token in braces is replaced by what it stands for, and the text
/// around it stays.
pub proof fn law_known_tokens_are_replaced(
    before: Seq<char>,
    token: Seq<char>,
    after: Seq<char>,
    parameters: SystemLogParameters,
)
    requires
        !before.contains('{'),
        !token.contains('}'),
        token_text(token, parameters) is Some,
    ensures
        expanded(before + seq!['{'] + token + seq!['}'] + after, parameters, 0) == before
            + token_text(token, parameters)->Some_0 + expanded(
            before + seq!['{'] + token + seq!['}'] + after,
            parameters,
            (before.len() + token.len() + 2) as int,
        ),
{
    let text = before + seq!['{'] + token + seq!['}'] + after;
    let open = before.len() as int;
    let end = open + 1 + token.len();
    lemma_plain_prefix(text, parameters, 0, open);
    assert(text[open] == '{');
    lemma_closing(text, open + 1, end);
    assert(text.subrange(open + 1, end) =~= token);
    assert(text.subrange(0, open) =~= before);
    assert(expanded(text, parameters, open) == token_text(token, parameters)->Some_0 + expanded(
        text,
        parameters,
        end + 1,
    ));
    assert(before + (token_text(token, parameters)->Some_0 + expanded(text, parameters, end + 1))
        =~= before + token_text(token, parameters)->Some_0 + expanded(text, parameters, end + 1));
}

proof fn lemma_plain_prefix(text: Seq<char>, parameters: SystemLogParameters, from: int, to: int)
    requires
        0 <= from <= to <= text.len(),
        forall|i: int| from <= i < to ==> #[trigger] text[i] != '{',
    ensures
        expanded(text, parameters, from) == text.subrange(from, to) + expanded(
            text,
            parameters,
            to,
        ),
    decreases to - from,
{
    if from < to {
        assert(text[from] != '{');
        lemma_plain_prefix(text, parameters, from + 1, to);
        assert(text.subrange(from, to) =~= seq![text[from]] + text.subrange(from + 1, to));
        assert(seq![text[from]] + (text.subrange(from + 1, to) + expanded(text, parameters, to))
            =~= seq![text[from]] + text.subrange(from + 1, to) + expanded(text, parameters, to));
    } else {
        assert(text.subrange(from, to) + expanded(text, parameters, to) =~= expanded(
            text,
            parameters,
            to,
        ));
    }
}

proof fn lemma_closing(text: Seq<char>, from: int, end: int)
    requires
        0 <= from <= end < text.len(),
        text[end] == '}',
        forall|i: int| from <= i < end ==> #[trigger] text[i] != '}',
    ensures
        closing(text, from) == Some(end),
    decreases end - from,
{
    if from < end {
        assert(text[from] != '}');
        lemma_closing(text, from + 1, end);
    }
}

/// A failed read says what failed and nothing of what the controller wrote.
pub proof fn law_failed_log_reads_say_so(error: ApiError, answer: ToolError, plain: ToolError)
    requires
        call_ensures(read_error, (error,), answer),
        call_ensures(crate::error::api_error, (error,), plain),
    ensures
        answer.kind == ErrorKind::Internal,
        answer.message@ == "Network system-log read failed: "@ + plain.message@,
{
}

// ---------------------------------------------------------------------------
// Addresses
// ---------------------------------------------------------------------------

/// The address of one client is six pairs of hexadecimal digits between
/// colons, of which the second digit is even and not every one is zero.
pub proof fn law_client_addresses_are_unicast(value: &str, is: bool)
    requires
        call_ensures(is_client_address, (value,), is),
    ensures
        is <==> {
            &&& value@.len() == 17
            &&& value@[2] == ':' && value@[5] == ':' && value@[8] == ':' && value@[11] == ':'
                && value@[14] == ':'
            &&& forall|i: int|
                0 <= i < 17 && i != 2 && i != 5 && i != 8 && i != 11 && i != 14
                    ==> "0123456789abcdefABCDEF"@.contains(#[trigger] value@[i])
            &&& "02468aceACE"@.contains(value@[1])
            &&& !(forall|i: int|
                0 <= i < 17 && i != 2 && i != 5 && i != 8 && i != 11 && i != 14
                    ==> #[trigger] value@[i] == '0')
        },
{
    let text = value@;
    reveal_strlit("0123456789abcdefABCDEF");
    reveal_strlit("02468aceACE");
    let digits = "0123456789abcdefABCDEF"@;
    let even = "02468aceACE"@;
    assert forall|c: char| crate::text::is_hex_digit(c) == #[trigger] digits.contains(c) by {
        if crate::text::is_hex_digit(c) {
            let at: int = if '0' <= c <= '9' {
                c as u32 - '0' as u32
            } else if 'a' <= c <= 'f' {
                c as u32 - 'a' as u32 + 10
            } else {
                c as u32 - 'A' as u32 + 16
            };
            assert(digits[at] == c);
        }
    }
    assert forall|c: char| crate::control::is_even_digit(c) == #[trigger] even.contains(c) by {
        if crate::control::is_even_digit(c) {
            assert(even[0] == '0' && even[1] == '2' && even[2] == '4' && even[3] == '6');
            assert(even[4] == '8' && even[5] == 'a' && even[6] == 'c' && even[7] == 'e');
            assert(even[8] == 'A' && even[9] == 'C' && even[10] == 'E');
        }
    }
    if text.len() == 17 {
        assert forall|i: int| 0 <= i < 17 implies (crate::control::is_separator(i) <==> (i == 2 || i
            == 5 || i == 8 || i == 11 || i == 14)) by {}
        if crate::control::is_mac(text) {
            assert(text[2] == ':' && text[5] == ':' && text[8] == ':');
            assert(text[11] == ':' && text[14] == ':');
            assert forall|i: int|
                0 <= i < 17 && i != 2 && i != 5 && i != 8 && i != 11 && i != 14 implies
                digits.contains(#[trigger] text[i]) by {
                assert(crate::text::is_hex_digit(text[i]));
            }
        }
        if names_one_client(text) {
            let i = choose|i: int|
                0 <= i < 17 && !crate::control::is_separator(i) && #[trigger] text[i] != '0';
            assert(text[i] != '0');
        }
        if text[2] == ':' && text[5] == ':' && text[8] == ':' && text[11] == ':' && text[14] == ':'
            && forall|i: int|
            0 <= i < 17 && i != 2 && i != 5 && i != 8 && i != 11 && i != 14 ==> digits.contains(
                #[trigger] text[i],
            ) {
            assert forall|i: int| 0 <= i < 17 implies if crate::control::is_separator(i) {
                #[trigger] text[i] == ':'
            } else {
                crate::text::is_hex_digit(text[i])
            } by {
                if !crate::control::is_separator(i) {
                    assert(digits.contains(text[i]));
                }
            }
            assert(crate::control::is_mac(text));
        }
    }
}

/// A guest and a client are addressed by the comparable form of what was
/// given, where that is the address of one client.
pub proof fn law_addresses_are_taken_in_comparable_form(
    client: &str,
    guest: Result<String, ToolError>,
    address: Result<String, ToolError>,
)
    requires
        call_ensures(guest_address, (client,), guest),
        call_ensures(client_address, (client,), address),
    ensures
        guest is Ok <==> names_one_client(mac_form(client@)),
        address is Ok <==> names_one_client(mac_form(client@)),
        guest matches Ok(form) ==> form@ == mac_form(client@),
        address matches Ok(form) ==> form@ == mac_form(client@),
        guest matches Err(error) ==> error.kind == ErrorKind::InvalidParams,
        address matches Err(error) ==> error.kind == ErrorKind::InvalidParams,
{
}

// ---------------------------------------------------------------------------
// Actions
// ---------------------------------------------------------------------------

/// An action is confirmed only by saying so.
pub proof fn law_silence_is_no_confirmation(confirm: Option<bool>, result: bool)
    requires
        call_ensures(is_confirmed, (confirm,), result),
    ensures
        result <==> confirm == Some(true),
        confirm is None ==> !result,
{
}

/// A guest is authorized exactly where the action is confirmed, at the address
/// of the one client that was named; otherwise the answer says that nothing
/// was applied.
pub proof fn law_guests_are_authorized_when_confirmed(
    input: &GuestsAuthorizeInput,
    result: Result<GuestStep, ToolError>,
)
    requires
        call_ensures(guest_step, (input,), result),
    ensures
        result is Ok <==> names_one_client(mac_form(input.client@)),
        result matches Ok(step) ==> {
            &&& step is Authorize <==> input.confirm == Some(true)
            &&& step is Authorize ==> step->Authorize_0@ == mac_form(input.client@)
            &&& step is Answer ==> !step->Answer_0.applied && !step->Answer_0.verifiable
                && step->Answer_0.client@ == mac_form(input.client@)
                && step->Answer_0.warnings@.len() == 1
        },
        result matches Err(error) ==> error.kind == ErrorKind::InvalidParams,
{
    if result is Ok && result->Ok_0 is Answer {
        assert(texts(result->Ok_0->Answer_0.warnings@).len() == 1);
    }
}

/// The answer of an authorization names the client, says whether it was
/// applied and that it cannot be verified, and warns of it.
pub proof fn law_authorizations_are_never_verifiable(
    address: String,
    applied: bool,
    output: GuestsAuthorizeOutput,
)
    requires
        call_ensures(guests_authorize, (address, applied), output),
    ensures
        output.client == address,
        output.applied <==> applied,
        !output.verifiable,
        output.warnings@.len() == 1,
        output.warnings@[0]@
            == "the client gains access to the guest network until its authorization expires or is revoked on the controller"@,
{
    assert(texts(output.warnings@).len() == 1);
    assert(texts(output.warnings@)[0] == output.warnings@[0]@);
}

/// A client of the controller is found by its comparable address: the first
/// one at it gives its id, and a missing one is refused.
pub proof fn law_known_clients_are_found_by_address(
    clients: &Vec<KnownClient>,
    truncated: bool,
    mac: &str,
    result: Result<String, ToolError>,
)
    requires
        call_ensures(integration_client_id, (clients, truncated, mac), result),
    ensures
        result is Err <==> forall|k: int|
            0 <= k < clients@.len() && (#[trigger] clients@[k]).mac_address is Some ==> mac_form(
                clients@[k].mac_address->Some_0@,
            ) != mac@,
        result matches Ok(id) ==> exists|k: int|
            {
                &&& 0 <= k < clients@.len()
                &&& (#[trigger] clients@[k]).id == id
                &&& clients@[k].mac_address is Some
                &&& mac_form(clients@[k].mac_address->Some_0@) == mac@
            },
        result matches Err(error) ==> error.kind == ErrorKind::InvalidParams,
{
    let test = crate::control::known_at(mac@);
    crate::paging_laws::law_the_first_match_is_the_first(clients@, test);
    if result is Err {
        assert forall|k: int|
            0 <= k < clients@.len() && (#[trigger] clients@[k]).mac_address is Some implies mac_form(
            clients@[k].mac_address->Some_0@,
        ) != mac@ by {
            assert(!test(clients@[k]));
        }
    } else {
        let row = crate::rows::first_where(clients@, test)->Some_0;
        let k = choose|k: int|
            {
                &&& 0 <= k < clients@.len()
                &&& #[trigger] clients@[k] == row
                &&& test(row)
                &&& forall|i: int| 0 <= i < k ==> !test(#[trigger] clients@[i])
            };
        assert(clients@[k].mac_address is Some);
    }
}

/// A port is taken with a port cycle and only with it.
pub proof fn law_ports_go_with_port_cycles(
    action: DeviceControl,
    port: Option<u32>,
    result: Result<Option<u32>, ToolError>,
)
    requires
        call_ensures(validated_port, (action, port), result),
    ensures
        result is Ok <==> (action == DeviceControl::PortCycle <==> port is Some),
        result matches Ok(accepted) ==> accepted == port,
        result matches Err(error) ==> error.kind == ErrorKind::InvalidParams,
{
}

/// A device is commanded exactly where the action is confirmed and can be
/// carried out: each action by its own command, a port cycle at the port that
/// was named, and a locate LED at the device's own address.
pub proof fn law_devices_are_commanded_when_confirmed(
    input: &DevicesControlInput,
    detail: &DeviceDetail,
    result: Result<DeviceCommand, ToolError>,
)
    requires
        call_ensures(device_command, (input, detail), result),
    ensures
        (input.action == DeviceControl::PortCycle) != (input.port is Some) ==> result is Err,
        result matches Err(error) ==> error.kind == ErrorKind::InvalidParams,
        result matches Ok(command) ==> {
            &&& command is Preview <==> input.confirm != Some(true)
            &&& command is Restart <==> input.confirm == Some(true) && input.action
                == DeviceControl::Restart
            &&& command matches DeviceCommand::PowerCyclePort(port) ==> input.action
                == DeviceControl::PortCycle && input.port == Some(port)
            &&& command is PowerCyclePort <==> input.confirm == Some(true) && input.action
                == DeviceControl::PortCycle
            &&& command matches DeviceCommand::Locate { mac, flashing } ==> {
                &&& detail.mac_address == Some(mac)
                &&& flashing <==> input.action == DeviceControl::Locate
                &&& !flashing ==> input.action == DeviceControl::EndLocate
            }
        },
        (input.action == DeviceControl::PortCycle) == (input.port is Some) && (input.confirm
            != Some(true) || detail.mac_address is Some || input.action == DeviceControl::Restart
            || input.action == DeviceControl::PortCycle) ==> result is Ok,
{
}

/// The answer of a device action names the device, the action and the port,
/// and shows the state before and, where it was applied, after.
pub proof fn law_device_answers_show_before_and_after(
    input: DevicesControlInput,
    before: DeviceDetail,
    after: Option<DeviceDetail>,
    output: DevicesControlOutput,
)
    requires
        call_ensures(devices_control, (input, before, after), output),
    ensures
        output.device == input.device,
        output.port == input.port,
        output.applied <==> after is Some,
        output.state_before == before.state,
        after is None ==> output.state_after is None && output.name == before.name,
        after matches Some(detail) ==> output.state_after == detail.state && output.name
            == detail.name,
        output.action@ == match input.action {
            DeviceControl::Restart => "restart"@,
            DeviceControl::Locate => "locate"@,
            DeviceControl::EndLocate => "endLocate"@,
            DeviceControl::PortCycle => "portCycle"@,
        },
        output.warnings@.len() == 1,
        output.warnings@[0]@ == match input.action {
            DeviceControl::Restart => "restarting takes the device offline for a minute or more, with everything it serves"@,
            DeviceControl::PortCycle => "power-cycling a port reboots whatever it powers, and drops any device connected to it"@,
            DeviceControl::Locate => "the device flashes its locate LED until locating is ended"@,
            DeviceControl::EndLocate => "the device stops flashing its locate LED"@,
        },
{
    assert(texts(output.warnings@).len() == 1);
    assert(texts(output.warnings@)[0] == output.warnings@[0]@);
}

/// Whether a list of clients has one at a comparable address.
pub open spec fn is_connected(clients: Seq<ActiveClient>, mac: Seq<char>) -> bool {
    exists|k: int|
        0 <= k < clients.len() && (#[trigger] clients[k]).mac is Some && mac_form(
            clients[k].mac->Some_0@,
        ) == mac
}

proof fn lemma_connected(clients: Seq<ActiveClient>, mac: Seq<char>)
    ensures
        crate::clients::connected_at(clients, mac) == is_connected(clients, mac),
{
    if crate::clients::connected_at(clients, mac) {
        let k = choose|k: int|
            0 <= k < clients.len() && crate::display::opt_mac_form(
                opt_string((#[trigger] clients[k]).mac),
            ) == Some(mac);
        assert(clients[k].mac is Some);
    }
    if is_connected(clients, mac) {
        let k = choose|k: int|
            0 <= k < clients.len() && (#[trigger] clients[k]).mac is Some && mac_form(
                clients[k].mac->Some_0@,
            ) == mac;
        assert(crate::display::opt_mac_form(opt_string(clients[k].mac)) == Some(mac));
    }
}

/// A client action is sent exactly where it is confirmed, and it is the one
/// asked for; otherwise the answer says that nothing was applied.
pub proof fn law_client_actions_are_sent_when_confirmed(
    input: &ClientsControlInput,
    address: String,
    before: &Vec<ActiveClient>,
    step: ClientStep,
)
    requires
        call_ensures(client_step, (input, address, before), step),
    ensures
        step is Send <==> input.confirm == Some(true),
        step matches ClientStep::Send(action) ==> action == input.action,
        step matches ClientStep::Answer(output) ==> {
            &&& output.client == address
            &&& !output.applied
            &&& output.connected_after is None
            &&& output.connected_before <==> is_connected(before@, address@)
        },
{
    lemma_connected(before@, address@);
}

/// The answer of a client action names the client and the action, and shows
/// whether it was connected before and, where it was applied, after; it warns
/// of the action, and of a reconnection that has nothing to disconnect.
pub proof fn law_client_answers_show_before_and_after(
    address: String,
    action: ClientControl,
    before: &Vec<ActiveClient>,
    after: Option<&Vec<ActiveClient>>,
    output: ClientsControlOutput,
)
    requires
        call_ensures(clients_control, (address, action, before, after), output),
    ensures
        output.client == address,
        output.action@ == match action {
            ClientControl::Block => "block"@,
            ClientControl::Unblock => "unblock"@,
            ClientControl::Reconnect => "reconnect"@,
        },
        output.applied <==> after is Some,
        output.connected_before <==> is_connected(before@, address@),
        output.connected_after is Some <==> after is Some,
        after matches Some(list) ==> (output.connected_after->Some_0 <==> is_connected(
            list@,
            address@,
        )),
        output.warnings@.len() == if action == ClientControl::Reconnect && !is_connected(
            before@,
            address@,
        ) {
            2nat
        } else {
            1nat
        },
        output.warnings@[0]@ == match action {
            ClientControl::Block => "blocking denies this client network access until it is unblocked"@,
            ClientControl::Unblock => "unblocking lifts a block on this client, if one is in place"@,
            ClientControl::Reconnect => "reconnecting disconnects the client; most rejoin on their own within seconds"@,
        },
{
    lemma_connected(before@, address@);
    if let Some(list) = after {
        lemma_connected(list@, address@);
    }
    assert(texts(output.warnings@).len() == output.warnings@.len());
    assert(texts(output.warnings@)[0] == output.warnings@[0]@);
}

// ---------------------------------------------------------------------------
// Windows of the log
// ---------------------------------------------------------------------------

/// A window of the log begins the hours asked for before it ends, or at the
/// epoch, whatever time it is.
pub proof fn law_log_windows_reach_back_whole_hours(
    hours: u32,
    result: Result<(u64, u64), ToolError>,
)
    requires
        call_ensures(log_window, (hours,), result),
    ensures
        result matches Ok(window) ==> window.0 <= window.1 && window.1 - window.0 <= hours
            * 3_600_000 && (window.0 > 0 ==> window.1 - window.0 == hours * 3_600_000),
        result matches Err(error) ==> error.kind == ErrorKind::Internal,
{
}

/// What an action warns of alone is what its answer warns of.
pub proof fn law_actions_warn_alike(
    device: DeviceControl,
    client: ClientControl,
    connected: bool,
    of_device: Vec<String>,
    of_client: Vec<String>,
)
    requires
        call_ensures(device_control_warnings, (device,), of_device),
        call_ensures(client_control_warnings, (client, connected), of_client),
    ensures
        of_device@.len() == 1,
        of_device@[0]@ == match device {
            DeviceControl::Restart => "restarting takes the device offline for a minute or more, with everything it serves"@,
            DeviceControl::PortCycle => "power-cycling a port reboots whatever it powers, and drops any device connected to it"@,
            DeviceControl::Locate => "the device flashes its locate LED until locating is ended"@,
            DeviceControl::EndLocate => "the device stops flashing its locate LED"@,
        },
        of_client@.len() == if client == ClientControl::Reconnect && !connected {
            2nat
        } else {
            1nat
        },
        of_client@[0]@ == match client {
            ClientControl::Block => "blocking denies this client network access until it is unblocked"@,
            ClientControl::Unblock => "unblocking lifts a block on this client, if one is in place"@,
            ClientControl::Reconnect => "reconnecting disconnects the client; most rejoin on their own within seconds"@,
        },
        client == ClientControl::Reconnect && !connected ==> of_client@[1]@
            == "this client is not connected, so there is nothing to disconnect"@,
{
    assert(texts(of_device@).len() == of_device@.len());
    assert(texts(of_client@).len() == of_client@.len());
    assert(texts(of_device@)[0] == of_device@[0]@);
    assert(texts(of_client@)[0] == of_client@[0]@);
    if of_client@.len() > 1 {
        assert(texts(of_client@)[1] == of_client@[1]@);
    }
}

// ---------------------------------------------------------------------------
// Tokens anywhere
// ---------------------------------------------------------------------------

/// Wherever it stands, a character outside braces stays, a known token in
/// braces is replaced, an unknown one stays with its braces, and an opening
/// brace that is never closed stays with all that follows.
pub proof fn law_tokens_are_expanded_wherever_they_stand(
    text: Seq<char>,
    parameters: SystemLogParameters,
    from: int,
    end: int,
)
    requires
        0 <= from < text.len(),
    ensures
        text[from] != '{' ==> expanded(text, parameters, from) == seq![text[from]] + expanded(
            text,
            parameters,
            from + 1,
        ),
        text[from] == '{' && from < end < text.len() && text[end] == '}' && (forall|i: int|
            from < i < end ==> #[trigger] text[i] != '}') ==> {
            let token = token_text(text.subrange(from + 1, end), parameters);
            expanded(text, parameters, from) == (if token is Some {
                token->Some_0
            } else {
                text.subrange(from, end + 1)
            }) + expanded(text, parameters, end + 1)
        },
        text[from] == '{' && (forall|i: int| from < i < text.len() ==> #[trigger] text[i] != '}')
            ==> expanded(text, parameters, from) == text.skip(from),
{
    if text[from] == '{' && from < end < text.len() && text[end] == '}' && (forall|i: int|
        from < i < end ==> #[trigger] text[i] != '}') {
        lemma_closing(text, from + 1, end);
    }
    if text[from] == '{' && (forall|i: int| from < i < text.len() ==> #[trigger] text[i] != '}') {
        lemma_never_closed(text, from + 1);
        assert(text.subrange(from, text.len() as int) =~= text.skip(from));
    }
}

proof fn lemma_never_closed(text: Seq<char>, from: int)
    requires
        0 <= from <= text.len(),
        forall|i: int| from <= i < text.len() ==> #[trigger] text[i] != '}',
    ensures
        closing(text, from) is None,
    decreases text.len() - from,
{
    if from < text.len() {
        assert(text[from] != '}');
        lemma_never_closed(text, from + 1);
    }
}

/// A token of another name stands for nothing.
pub proof fn law_other_tokens_stand_for_nothing(token: Seq<char>, parameters: SystemLogParameters)
    requires
        token != "CLIENT"@,
        token != "DEVICE"@,
        token != "DEVICE_FROM"@,
        token != "DEVICE_TO"@,
        token != "WLAN"@,
        token != "NETWORK"@,
    ensures
        token_text(token, parameters) is None,
{
}

// ---------------------------------------------------------------------------
// Notes and refusals
// ---------------------------------------------------------------------------

/// A read of everything that was cut names the sections that were.
pub proof fn law_cut_reads_name_their_sections(
    start: u64,
    zones: Vec<ZoneView>,
    zones_truncated: bool,
    policies: Vec<PolicyView>,
    policies_truncated: bool,
    scan: ZoneScan,
)
    requires
        call_ensures(
            zone_based_sections,
            (
                Option::<FirewallSection>::None,
                start,
                zones,
                zones_truncated,
                policies,
                policies_truncated,
            ),
            scan,
        ),
        zones_truncated || policies_truncated,
    ensures
        ({
            let rest = " reached the response bound for this read; narrow with section and continue with sectionOffset to read the rest"@;
            &&& scan.note is Some
            &&& zones_truncated && !policies_truncated ==> scan.note->Some_0@ == "zones"@ + rest
            &&& !zones_truncated && policies_truncated ==> scan.note->Some_0@ == "policies"@ + rest
            &&& zones_truncated && policies_truncated ==> scan.note->Some_0@ == "zones"@ + " and "@
                + "policies"@ + rest
        }),
{
    reveal_with_fuel(crate::changes::joined, 3);
    let both = seq!["zones"@, "policies"@];
    assert(both.drop_last() =~= seq!["zones"@]);
    assert(both.last() == "policies"@);
}

/// A section that cannot be continued says so.
pub proof fn law_sections_past_the_bound_say_so(
    start: u64,
    zones: Vec<ZoneView>,
    policies: Vec<PolicyView>,
    scan: ZoneScan,
)
    requires
        call_ensures(
            zone_based_sections,
            (Some(FirewallSection::Policies), start, zones, false, policies, true),
            scan,
        ),
        start + policies@.len() > 100_000,
    ensures
        scan.next_offset is None,
        scan.note is Some,
        scan.note->Some_0@
            == "continuation stops at the sectionOffset bound of 100000; narrow the query instead"@,
{
    assert(policies.len() == policies@.len());
}

/// An address the controller does not know is refused, and a scan that stopped
/// short says that it may exist beyond.
pub proof fn law_unknown_addresses_say_how_far_was_looked(
    clients: &Vec<KnownClient>,
    truncated: bool,
    mac: &str,
    result: Result<String, ToolError>,
)
    requires
        call_ensures(integration_client_id, (clients, truncated, mac), result),
        result is Err,
    ensures
        result->Err_0.message@ == if truncated {
            "no client with that address was found, and the client scan stopped at its ceiling, so the address may exist beyond it; nothing was authorized"@
        } else {
            "no client with that address is known to the controller; clients.search lists them"@
        },
{
}

} // verus!
