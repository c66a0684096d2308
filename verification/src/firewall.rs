//! The normalized firewall audit view.

use vstd::prelude::*;
use vstd::string::*;

use crate::changes::{join_texts, joined};
use crate::error::{invalid_params, is_invalid_params, ToolError};
use crate::rows::{convert, flag_if, shown_if};
use crate::text::{join2, opt_string, texts};

verus! {

/// Ceiling on a caller-supplied section continuation offset.
pub const MAXIMUM_SECTION_OFFSET: u64 = 100_000;

/// One section of the audit view.
#[derive(Debug, Clone, Copy, PartialEq, Eq, Structural)]
pub enum FirewallSection {
    Zones,
    Policies,
    PortForwards,
    TrafficRules,
    TrafficRoutes,
}

/// What a firewall read asks for.
#[derive(Debug, Clone, Copy, PartialEq, Eq, Structural)]
pub struct FirewallReadInput {
    pub section: Option<FirewallSection>,
    pub section_offset: Option<u64>,
}

/// The firewall generation of a console.
#[derive(Debug, Clone, Copy, PartialEq, Eq, Structural)]
pub enum FirewallGeneration {
    Classic,
    ZoneBased,
}

/// One zone.
pub struct ZoneView {
    pub id: String,
    pub name: Option<String>,
}

/// One side of a policy as the controller reports it.
pub struct PolicySide {
    pub zone_id: Option<String>,
    pub port: Option<String>,
}

/// A zone-based policy as the controller reports it.
pub struct FirewallPolicy {
    pub id: String,
    pub name: Option<String>,
    pub enabled: Option<bool>,
    pub action: Option<String>,
    pub index: Option<u32>,
    pub ip_protocol_scope: Option<String>,
    pub source: Option<PolicySide>,
    pub destination: Option<PolicySide>,
}

/// One zone-based policy.
pub struct PolicyView {
    pub id: String,
    pub name: Option<String>,
    pub enabled: Option<bool>,
    pub action: Option<String>,
    pub index: Option<u32>,
    pub ip_protocol_scope: Option<String>,
    pub source_zone_id: Option<String>,
    pub source_port: Option<String>,
    pub destination_zone_id: Option<String>,
    pub destination_port: Option<String>,
}

/// A port forward as the controller stores it.
pub struct PortForward {
    pub id: String,
    pub name: Option<String>,
    pub enabled: Option<bool>,
    pub src: Option<String>,
    pub fwd: Option<String>,
    pub fwd_port: Option<String>,
    pub dst_port: Option<String>,
    pub proto: Option<String>,
}

/// One port forward.
pub struct PortForwardView {
    pub id: String,
    pub name: Option<String>,
    pub enabled: Option<bool>,
    pub source: Option<String>,
    pub forward_to: Option<String>,
    pub forward_port: Option<String>,
    pub destination_port: Option<String>,
    pub protocol: Option<String>,
}

/// One traffic rule.
pub struct TrafficRuleView {
    pub id: String,
    pub description: Option<String>,
    pub enabled: Option<bool>,
    pub action: Option<String>,
    pub matching_target: Option<String>,
    pub network_id: Option<String>,
    pub domains: Vec<String>,
}

/// One traffic route.
pub struct TrafficRouteView {
    pub id: String,
    pub description: Option<String>,
    pub enabled: Option<bool>,
    pub matching_target: Option<String>,
    pub network_id: Option<String>,
    pub interface: Option<String>,
    pub domains: Vec<String>,
}

/// The audit view.
pub struct FirewallReadOutput {
    pub generation: Option<&'static str>,
    pub section: Option<&'static str>,
    pub sections_truncated: Option<bool>,
    pub next_section_offset: Option<u64>,
    pub truncation_note: Option<String>,
    pub generation_note: Option<&'static str>,
    pub zones: Vec<ZoneView>,
    pub policies: Vec<PolicyView>,
    pub port_forwards: Vec<PortForwardView>,
    pub traffic_rules: Vec<TrafficRuleView>,
    pub traffic_routes: Vec<TrafficRouteView>,
}

// ---------------------------------------------------------------------------
// Sections
// ---------------------------------------------------------------------------

/// The stable wire word for one firewall section.
pub open spec fn section_name(section: FirewallSection) -> &'static str {
    match section {
        FirewallSection::Zones => "zones",
        FirewallSection::Policies => "policies",
        FirewallSection::PortForwards => "portForwards",
        FirewallSection::TrafficRules => "trafficRules",
        FirewallSection::TrafficRoutes => "trafficRoutes",
    }
}

/// The stable wire word for one firewall section, echoed so a narrowed
/// response says which narrowing produced it.
pub fn section_word(section: FirewallSection) -> (word: &'static str)
    ensures
        word == section_name(section),
{
    match section {
        FirewallSection::Zones => "zones",
        FirewallSection::Policies => "policies",
        FirewallSection::PortForwards => "portForwards",
        FirewallSection::TrafficRules => "trafficRules",
        FirewallSection::TrafficRoutes => "trafficRoutes",
    }
}

/// Whether a section exists on one generation only.
pub open spec fn is_generation_specific(section: FirewallSection) -> bool {
    section == FirewallSection::Zones || section == FirewallSection::Policies
}

/// Whether one section's presence or emptiness can only be read against the
/// console's firewall generation. Port forwards, traffic rules, and traffic
/// routes exist identically on both, so a narrowing to them needs no probe.
pub fn generation_specific(section: FirewallSection) -> (result: bool)
    ensures
        result == is_generation_specific(section),
{
    section == FirewallSection::Zones || section == FirewallSection::Policies
}

/// Whether a read shows a section.
pub open spec fn shows_section(narrowing: Option<FirewallSection>, section: FirewallSection) -> bool {
    narrowing is None || narrowing == Some(section)
}

/// Whether a read shows a section.
pub fn wants_section(narrowing: Option<FirewallSection>, section: FirewallSection) -> (result: bool)
    ensures
        result == shows_section(narrowing, section),
{
    match narrowing {
        None => true,
        Some(narrowed) => narrowed == section,
    }
}

/// Whether a read depends on the generation.
pub open spec fn needs_generation(narrowing: Option<FirewallSection>) -> bool {
    match narrowing {
        None => true,
        Some(section) => is_generation_specific(section),
    }
}

/// Whether a read depends on the generation.
pub fn depends_on_generation(narrowing: Option<FirewallSection>) -> (result: bool)
    ensures
        result == needs_generation(narrowing),
{
    match narrowing {
        None => true,
        Some(section) => generation_specific(section),
    }
}

/// The refusal of a continuation offset, where it is refused.
pub open spec fn offset_refusal(input: FirewallReadInput) -> Option<Seq<char>> {
    match input.section_offset {
        None => None,
        Some(offset) => if !(input.section matches Some(section) && is_generation_specific(
            section,
        )) {
            Some("sectionOffset requires section zones or policies"@)
        } else if offset > MAXIMUM_SECTION_OFFSET {
            Some("sectionOffset must not exceed 100000"@)
        } else {
            None
        },
    }
}

/// Where a read starts in its section.
pub open spec fn start_of(input: FirewallReadInput) -> u64 {
    match input.section_offset {
        Some(offset) => offset,
        None => 0,
    }
}

/// A continuation offset applies only to the paginated sections and is
/// bounded; anything else is a caller error rather than a silent no-op.
pub fn validate_section_offset(input: &FirewallReadInput) -> (result: Result<u64, ToolError>)
    ensures
        result is Err <==> offset_refusal(*input) is Some,
        result matches Err(error) ==> is_invalid_params(error, offset_refusal(*input)->Some_0),
        result matches Ok(start) ==> start == start_of(*input) && start <= MAXIMUM_SECTION_OFFSET,
{
    match input.section_offset {
        None => Ok(0),
        Some(offset) => {
            let paged = match input.section {
                Some(section) => generation_specific(section),
                None => false,
            };
            if !paged {
                return Err(invalid_params("sectionOffset requires section zones or policies"));
            }
            if offset > MAXIMUM_SECTION_OFFSET {
                return Err(invalid_params("sectionOffset must not exceed 100000"));
            }
            Ok(offset)
        },
    }
}

/// The refusal of a classic console.
pub open spec fn classic_read_message() -> Seq<char> {
    "this console runs the classic firewall, which this server does not read; its zones and policies do not exist. Narrow to portForwards, trafficRules, or trafficRoutes, which read the same on either generation"@
}

/// Refuses a read that depends on the generation on a classic console.
/// Returning the sections a classic console does have, with the firewall
/// silently absent, would read as an open network to a caller auditing one.
pub fn require_readable_generation(
    narrowing: Option<FirewallSection>,
    generation: FirewallGeneration,
) -> (result: Result<(), ToolError>)
    ensures
        result is Err <==> needs_generation(narrowing) && generation == FirewallGeneration::Classic,
        result matches Err(error) ==> is_invalid_params(error, classic_read_message()),
{
    if depends_on_generation(narrowing) && generation == FirewallGeneration::Classic {
        return Err(
            invalid_params(
                "this console runs the classic firewall, which this server does not read; its zones and policies do not exist. Narrow to portForwards, trafficRules, or trafficRoutes, which read the same on either generation",
            ),
        );
    }
    Ok(())
}

/// The refusal of a policy write on a classic console.
pub open spec fn classic_write_message() -> Seq<char> {
    "this console runs the classic firewall, which has no zone-based policies; this server reads and writes the zone-based firewall only"@
}

/// Refuses the policy surface on a console that runs the classic firewall,
/// naming the generation rather than letting the endpoint's rejection arrive
/// as an unexplained controller failure.
pub fn require_zone_based_firewall(generation: FirewallGeneration) -> (result: Result<(), ToolError>)
    ensures
        result is Err <==> generation == FirewallGeneration::Classic,
        result matches Err(error) ==> is_invalid_params(error, classic_write_message()),
{
    if generation == FirewallGeneration::Classic {
        return Err(
            invalid_params(
                "this console runs the classic firewall, which has no zone-based policies; this server reads and writes the zone-based firewall only",
            ),
        );
    }
    Ok(())
}

// ---------------------------------------------------------------------------
// Views
// ---------------------------------------------------------------------------

/// The zone of one side of a policy.
pub open spec fn side_zone(side: Option<PolicySide>) -> Option<String> {
    match side {
        Some(inner) => inner.zone_id,
        None => None,
    }
}

/// The port of one side of a policy.
pub open spec fn side_port(side: Option<PolicySide>) -> Option<String> {
    match side {
        Some(inner) => inner.port,
        None => None,
    }
}

/// The view of a policy.
pub open spec fn policy_view_of(policy: FirewallPolicy) -> PolicyView {
    PolicyView {
        id: policy.id,
        name: policy.name,
        enabled: policy.enabled,
        action: policy.action,
        index: policy.index,
        ip_protocol_scope: policy.ip_protocol_scope,
        source_zone_id: side_zone(policy.source),
        source_port: side_port(policy.source),
        destination_zone_id: side_zone(policy.destination),
        destination_port: side_port(policy.destination),
    }
}

/// The view of a policy.
pub fn policy_view(policy: FirewallPolicy) -> (view: PolicyView)
    ensures
        view == policy_view_of(policy),
{
    let (source_zone_id, source_port): (Option<String>, Option<String>) = match policy.source {
        Some(side) => (side.zone_id, side.port),
        None => (None, None),
    };
    let (destination_zone_id, destination_port): (Option<String>, Option<String>) =
        match policy.destination {
        Some(side) => (side.zone_id, side.port),
        None => (None, None),
    };
    PolicyView {
        id: policy.id,
        name: policy.name,
        enabled: policy.enabled,
        action: policy.action,
        index: policy.index,
        ip_protocol_scope: policy.ip_protocol_scope,
        source_zone_id,
        source_port,
        destination_zone_id,
        destination_port,
    }
}

/// The views of a list of policies.
pub fn policies_section(policies: Vec<FirewallPolicy>) -> (views: Vec<PolicyView>)
    ensures
        views@ == policies@.map_values(|policy: FirewallPolicy| policy_view_of(policy)),
{
    let ghost all = policies@;
    let conversion = |policy: FirewallPolicy| -> (view: PolicyView)
        ensures
            view == policy_view_of(policy)
    {
        policy_view(policy)
    };
    let views = convert(policies, conversion);
    assert(views@ =~= all.map_values(|policy: FirewallPolicy| policy_view_of(policy)));
    views
}

/// The view of a port forward.
pub open spec fn forward_view_of(forward: PortForward) -> PortForwardView {
    PortForwardView {
        id: forward.id,
        name: forward.name,
        enabled: forward.enabled,
        source: forward.src,
        forward_to: forward.fwd,
        forward_port: forward.fwd_port,
        destination_port: forward.dst_port,
        protocol: forward.proto,
    }
}

/// The read surface's projection of one port forward, shared by the audit
/// view and the write result so both name the rule identically.
pub fn port_forward_view(forward: PortForward) -> (view: PortForwardView)
    ensures
        view == forward_view_of(forward),
{
    PortForwardView {
        id: forward.id,
        name: forward.name,
        enabled: forward.enabled,
        source: forward.src,
        forward_to: forward.fwd,
        forward_port: forward.fwd_port,
        destination_port: forward.dst_port,
        protocol: forward.proto,
    }
}

/// The views of a list of port forwards.
pub fn port_forwards_section(forwards: Vec<PortForward>) -> (views: Vec<PortForwardView>)
    ensures
        views@ == forwards@.map_values(|forward: PortForward| forward_view_of(forward)),
{
    let ghost all = forwards@;
    let conversion = |forward: PortForward| -> (view: PortForwardView)
        ensures
            view == forward_view_of(forward)
    {
        port_forward_view(forward)
    };
    let views = convert(forwards, conversion);
    assert(views@ =~= all.map_values(|forward: PortForward| forward_view_of(forward)));
    views
}

// ---------------------------------------------------------------------------
// Truncation
// ---------------------------------------------------------------------------

/// The zone-based sections of one firewall read, with the truncation state
/// their bounded scans produced.
pub struct ZoneScan {
    pub zones: Vec<ZoneView>,
    pub policies: Vec<PolicyView>,
    pub truncated: bool,
    pub next_offset: Option<u64>,
    pub note: Option<String>,
}

/// What a bounded scan of a section returned: how many rows, and whether the
/// ceiling cut it short.
#[derive(Debug, Clone, Copy, PartialEq, Eq, Structural)]
pub struct SectionScan {
    pub returned: usize,
    pub truncated: bool,
}

/// The note where a continuation would be out of bounds.
pub open spec fn bound_note() -> Seq<char> {
    "continuation stops at the sectionOffset bound of 100000; narrow the query instead"@
}

/// The note where sections of an unnarrowed read were cut.
pub open spec fn cut_note(cut: Seq<Seq<char>>) -> Seq<char> {
    joined(cut, " and "@)
        + " reached the response bound for this read; narrow with section and continue with sectionOffset to read the rest"@
}

/// The sections an unnarrowed read was cut in, in display order.
pub open spec fn cut_sections(zones_truncated: bool, policies_truncated: bool) -> Seq<Seq<char>> {
    if zones_truncated && policies_truncated {
        seq!["zones"@, "policies"@]
    } else if zones_truncated {
        seq!["zones"@]
    } else if policies_truncated {
        seq!["policies"@]
    } else {
        Seq::empty()
    }
}

/// The continuation of a narrowed scan that was cut short: the next offset,
/// where a read may start at it, and else a note that says why there is none.
pub open spec fn continuation(start: int, returned: int) -> (Option<int>, Option<Seq<char>>) {
    if start + returned <= MAXIMUM_SECTION_OFFSET {
        (Some(start + returned), None)
    } else {
        (None, Some(bound_note()))
    }
}

/// An optional offset as a number.
pub open spec fn opt_offset(offset: Option<u64>) -> Option<int> {
    match offset {
        Some(inner) => Some(inner as int),
        None => None,
    }
}

/// What a read says of its truncation.
pub open spec fn truncation_of(
    narrowing: Option<FirewallSection>,
    start: int,
    zones: SectionScan,
    policies: SectionScan,
) -> (bool, Option<int>, Option<Seq<char>>) {
    match narrowing {
        Some(FirewallSection::Zones) => if zones.truncated {
            (
                true,
                continuation(start, zones.returned as int).0,
                continuation(start, zones.returned as int).1,
            )
        } else {
            (false, None, None)
        },
        Some(FirewallSection::Policies) => if policies.truncated {
            (
                true,
                continuation(start, policies.returned as int).0,
                continuation(start, policies.returned as int).1,
            )
        } else {
            (false, None, None)
        },
        Some(_) => (false, None, None),
        None => if zones.truncated || policies.truncated {
            (true, None, Some(cut_note(cut_sections(zones.truncated, policies.truncated))))
        } else {
            (false, None, None)
        },
    }
}

fn continue_section(start: u64, returned: usize) -> (next: (Option<u64>, Option<String>))
    ensures
        (opt_offset(next.0), opt_string(next.1)) == continuation(start as int, returned as int),
{
    if start <= MAXIMUM_SECTION_OFFSET && returned as u64 <= MAXIMUM_SECTION_OFFSET - start {
        (Some(start + returned as u64), None)
    } else {
        (
            None,
            Some(
                "continuation stops at the sectionOffset bound of 100000; narrow the query instead".to_owned(),
            ),
        )
    }
}

fn note_cut(zones_truncated: bool, policies_truncated: bool) -> (note: String)
    requires
        zones_truncated || policies_truncated,
    ensures
        note@ == cut_note(cut_sections(zones_truncated, policies_truncated)),
{
    let mut cut: Vec<String> = Vec::new();
    if zones_truncated {
        cut.push("zones".to_owned());
    }
    if policies_truncated {
        cut.push("policies".to_owned());
    }
    assert(texts(cut@) =~= cut_sections(zones_truncated, policies_truncated));
    let names = join_texts(&cut, " and ");
    join2(
        names.as_str(),
        " reached the response bound for this read; narrow with section and continue with sectionOffset to read the rest",
    )
}

/// The zone-based sections of a read and what it says of their truncation. A
/// continuation offset addresses one section, so a narrowed read that was cut
/// short offers one where a later read may start at it; an unnarrowed read
/// names what was cut and how to reach it instead.
pub fn zone_based_sections(
    narrowing: Option<FirewallSection>,
    start: u64,
    zones: Vec<ZoneView>,
    zones_truncated: bool,
    policies: Vec<PolicyView>,
    policies_truncated: bool,
) -> (scan: ZoneScan)
    ensures
        scan.zones == zones,
        scan.policies == policies,
        (scan.truncated, opt_offset(scan.next_offset), opt_string(scan.note)) == truncation_of(
            narrowing,
            start as int,
            SectionScan { returned: zones@.len() as usize, truncated: zones_truncated },
            SectionScan { returned: policies@.len() as usize, truncated: policies_truncated },
        ),
{
    let (truncated, next_offset, note): (bool, Option<u64>, Option<String>) = match narrowing {
        Some(FirewallSection::Zones) => if zones_truncated {
            let (next, note) = continue_section(start, zones.len());
            (true, next, note)
        } else {
            (false, None, None)
        },
        Some(FirewallSection::Policies) => if policies_truncated {
            let (next, note) = continue_section(start, policies.len());
            (true, next, note)
        } else {
            (false, None, None)
        },
        Some(_) => (false, None, None),
        None => if zones_truncated || policies_truncated {
            (true, None, Some(note_cut(zones_truncated, policies_truncated)))
        } else {
            (false, None, None)
        },
    };
    ZoneScan { zones, policies, truncated, next_offset, note }
}

/// The audit view of a read. The generation is stated only where it was
/// detected, and then it is the zone-based one: a classic console never gets
/// here.
pub fn firewall_read(
    input: &FirewallReadInput,
    scan: ZoneScan,
    port_forwards: Vec<PortForwardView>,
    traffic_rules: Vec<TrafficRuleView>,
    traffic_routes: Vec<TrafficRouteView>,
) -> (output: FirewallReadOutput)
    ensures
        output == (FirewallReadOutput {
            generation: if needs_generation(input.section) {
                Some("zoneBased")
            } else {
                None
            },
            section: match input.section {
                Some(section) => Some(section_name(section)),
                None => None,
            },
            sections_truncated: shown_if(scan.truncated),
            next_section_offset: scan.next_offset,
            truncation_note: scan.note,
            generation_note: if needs_generation(input.section) {
                Some(
                    "zone-based firewall console; a classic console is refused rather than reported as having no firewall",
                )
            } else {
                None
            },
            zones: scan.zones,
            policies: scan.policies,
            port_forwards,
            traffic_rules,
            traffic_routes,
        }),
{
    let (generation, generation_note): (Option<&'static str>, Option<&'static str>) =
        if depends_on_generation(input.section) {
        (
            Some("zoneBased"),
            Some(
                "zone-based firewall console; a classic console is refused rather than reported as having no firewall",
            ),
        )
    } else {
        (None, None)
    };
    let section: Option<&'static str> = match input.section {
        Some(section) => Some(section_word(section)),
        None => None,
    };
    FirewallReadOutput {
        generation,
        section,
        sections_truncated: flag_if(scan.truncated),
        next_section_offset: scan.next_offset,
        truncation_note: scan.note,
        generation_note,
        zones: scan.zones,
        policies: scan.policies,
        port_forwards,
        traffic_rules,
        traffic_routes,
    }
}

// ---------------------------------------------------------------------------
// Laws
// ---------------------------------------------------------------------------

/// An advertised continuation is one a later read accepts, in the same
/// section, at the row behind the last one shown.
pub proof fn law_advertised_continuations_are_accepted(
    narrowing: Option<FirewallSection>,
    start: int,
    zones: SectionScan,
    policies: SectionScan,
)
    requires
        start >= 0,
        truncation_of(narrowing, start, zones, policies).1 is Some,
    ensures
        ({
            let next = truncation_of(narrowing, start, zones, policies).1->Some_0;
            &&& offset_refusal(
                FirewallReadInput { section: narrowing, section_offset: Some(next as u64) },
            ) is None
            &&& next == start + (if narrowing == Some(FirewallSection::Zones) {
                zones.returned
            } else {
                policies.returned
            })
        }),
{
}

/// A truncated read is never a dead end: it offers a continuation, or says
/// how to reach the rest or why it cannot be reached.
pub proof fn law_truncation_is_explained(
    narrowing: Option<FirewallSection>,
    start: int,
    zones: SectionScan,
    policies: SectionScan,
)
    ensures
        ({
            let (truncated, next, note) = truncation_of(narrowing, start, zones, policies);
            &&& truncated ==> next is Some || note is Some
            &&& !truncated ==> next is None && note is None
        }),
{
}

} // verus!
