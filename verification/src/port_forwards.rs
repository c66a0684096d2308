//! Changing one port forward.

use vstd::prelude::*;
use vstd::string::*;

use crate::changes::{
    asks,
    changing,
    is_changing,
    no_field_message,
    reject_unknown_change_fields,
    unknown_fields_message,
    unknown_in,
    unrequested,
    wire_property,
    words,
    WireName,
};
use crate::control::{confirmed, is_confirmed};
use crate::encode::{
    encode_flag,
    encode_text,
    flag_or_null,
    maybe_flag,
    maybe_text,
    present,
    push_field,
    push_present,
    some_flag,
    some_text,
    text_or_null,
};
use crate::error::{invalid_params, is_invalid_params, ToolError};
use crate::firewall::{forward_view_of, port_forward_view, PortForward, PortForwardView};
use crate::json::{lemma_lookup, lookup};
use crate::mutation::{
    marked,
    planned,
    redacted_input_message,
    reject_redacted_input,
    verified,
};
use crate::report::{
    judge,
    judged,
    preview,
    previewed,
    push_head,
    push_tail,
    report_head,
    report_tail,
    Report,
    WriteReport,
};
use crate::text::{opt_string, texts};
use crate::tree::{fields, Json, Member, Tree};

verus! {

broadcast use crate::tree::group_json_view;

/// What can be changed on one port forward. The match itself is not settable:
/// rewriting where a forward points is a different rule.
pub struct PortForwardChanges {
    pub name: Option<String>,
    pub enabled: Option<bool>,
}

/// A change of one port forward.
pub struct PortForwardsUpdateInput {
    pub port_forward: String,
    pub changes: PortForwardChanges,
    pub confirm: Option<bool>,
}

/// The fields that are sent to the controller. An absent field is not sent.
pub struct PortForwardPatch {
    pub name: Option<String>,
    pub enabled: Option<bool>,
}

/// An accepted change: what was asked for, and what to send.
pub struct PortForwardUpdate {
    pub requested: Vec<Member>,
    pub patch: PortForwardPatch,
}

/// The result of a change.
pub struct PortForwardsUpdateOutput {
    /// The rule, read after a confirmed change and before an unconfirmed one.
    pub forward: PortForwardView,
    pub report: WriteReport,
}

/// What follows once the rule was read.
pub enum PortForwardStep {
    /// Answer with this; nothing is sent.
    Answer(PortForwardsUpdateOutput),
    /// Send this, then read the rule again.
    Send(PortForwardPatch),
}

// ---------------------------------------------------------------------------
// Field names
// ---------------------------------------------------------------------------

/// Every field a change may name.
pub open spec fn port_forward_field_names() -> Seq<Seq<char>> {
    seq!["name"@, "enabled"@]
}

/// Every field a change may name.
pub fn port_forward_change_fields() -> (names: Vec<&'static str>)
    ensures
        words(names@) == port_forward_field_names(),
{
    let names: Vec<&'static str> = vec!["name", "enabled"];
    assert(words(names@) =~= port_forward_field_names());
    names
}

/// The controller property each field is stored under: both have the names
/// the read uses.
pub open spec fn port_forward_properties() -> Seq<WireName> {
    seq![
        WireName { field: "name", property: "name" },
        WireName { field: "enabled", property: "enabled" },
    ]
}

/// The controller property each field is stored under.
pub fn port_forward_wire_names() -> (names: Vec<WireName>)
    ensures
        names@ == port_forward_properties(),
{
    let names: Vec<WireName> = vec![
        WireName { field: "name", property: "name" },
        WireName { field: "enabled", property: "enabled" },
    ];
    assert(names@ =~= port_forward_properties());
    names
}

// ---------------------------------------------------------------------------
// The request
// ---------------------------------------------------------------------------

/// The refusal of the raw arguments of a change, where they are refused.
pub open spec fn port_forward_arguments_refusal(arguments: Tree) -> Option<Seq<char>> {
    if marked(arguments) {
        Some(redacted_input_message())
    } else if unknown_in(arguments, port_forward_field_names()).len() > 0 {
        Some(
            unknown_fields_message(
                unknown_in(arguments, port_forward_field_names()),
                port_forward_field_names(),
            ),
        )
    } else {
        None
    }
}

/// Refuses raw arguments that carry the redaction marker or name an unknown
/// field. Every returned text is scrubbed of credentials, so a name read back
/// can carry the marker; writing one over the real value is refused.
pub fn check_port_forward_arguments(arguments: &Json) -> (result: Result<(), ToolError>)
    ensures
        result is Err <==> port_forward_arguments_refusal(arguments@) is Some,
        result matches Err(error) ==> is_invalid_params(
            error,
            port_forward_arguments_refusal(arguments@)->Some_0,
        ),
{
    if let Err(error) = reject_redacted_input(arguments) {
        return Err(error);
    }
    let accepted = port_forward_change_fields();
    reject_unknown_change_fields(arguments, &accepted)
}

/// What a change asks for, by the names the read uses.
pub open spec fn port_forward_requested(changes: PortForwardChanges) -> Seq<(Seq<char>, Tree)> {
    present("enabled"@, some_flag(changes.enabled)) + present(
        "name"@,
        some_text(opt_string(changes.name)),
    )
}

/// What a change asks for, by the names the read uses.
pub fn requested_port_forward_fields(changes: &PortForwardChanges) -> (requested: Vec<Member>)
    ensures
        fields(requested@) == port_forward_requested(*changes),
{
    let mut requested: Vec<Member> = Vec::new();
    push_present(&mut requested, "enabled", maybe_flag(changes.enabled));
    push_present(&mut requested, "name", maybe_text(&changes.name));
    assert(fields(requested@) =~= port_forward_requested(*changes));
    requested
}

/// Decides from the request alone what would be sent, or why the request is
/// refused: a change that names no field changes nothing.
pub fn plan_port_forwards_update(input: &PortForwardsUpdateInput) -> (result: Result<
    PortForwardUpdate,
    ToolError,
>)
    ensures
        result is Err <==> input.changes.name is None && input.changes.enabled is None,
        result matches Err(error) ==> is_invalid_params(error, no_field_message()),
        result matches Ok(update) ==> {
            &&& fields(update.requested@) == port_forward_requested(input.changes)
            &&& update.patch == (PortForwardPatch {
                name: input.changes.name,
                enabled: input.changes.enabled,
            })
        },
{
    let requested = requested_port_forward_fields(&input.changes);
    assert(fields(requested@).len() == requested@.len());
    if requested.len() == 0 {
        return Err(invalid_params("changes names no field to change"));
    }
    let patch = PortForwardPatch {
        name: input.changes.name.clone(),
        enabled: input.changes.enabled,
    };
    Ok(PortForwardUpdate { requested, patch })
}

// ---------------------------------------------------------------------------
// The stored rule
// ---------------------------------------------------------------------------

/// The rule as the write names it. Only the settable fields are here: a
/// change of the match shows up as a collateral change.
pub open spec fn port_forward_state(forward: PortForward) -> Tree {
    Tree::Object(
        seq![
            ("enabled"@, flag_or_null(forward.enabled)),
            ("name"@, text_or_null(opt_string(forward.name))),
        ],
    )
}

/// The rule as the write names it.
pub fn port_forward_projection(forward: &PortForward) -> (value: Json)
    ensures
        value@ == port_forward_state(*forward),
{
    let mut members: Vec<Member> = Vec::new();
    push_field(&mut members, "enabled", encode_flag(forward.enabled));
    push_field(&mut members, "name", encode_text(&forward.name));
    assert(fields(members@) =~= port_forward_state(*forward)->Object_0);
    Json::Object(members)
}

/// The consequences of a change of a port forward.
pub open spec fn port_forward_consequences(
    requested: Seq<(Seq<char>, Tree)>,
    current: Tree,
) -> Seq<Seq<char>> {
    if !is_changing(requested, current, "enabled"@) {
        Seq::empty()
    } else if lookup(requested, "enabled"@) == Some(Tree::Bool(false)) {
        seq![
            "disabling the rule stops forwarding traffic to the internal host, so whatever reaches it through this rule stops working"@,
        ]
    } else {
        seq![
            "enabling the rule exposes the internal host's port to the source this rule allows, which is the whole internet unless source is narrowed"@,
        ]
    }
}

/// Consequences an operator should see before confirming. Both directions
/// matter: one stops reaching a service, the other opens a path to it.
pub fn port_forward_warnings(requested: &Vec<Member>, current: &Json) -> (warnings: Vec<String>)
    ensures
        texts(warnings@) == port_forward_consequences(fields(requested@), current@),
{
    let mut warnings: Vec<String> = Vec::new();
    if changing(requested, current, "enabled") {
        if asks(requested, "enabled", &Json::Bool(false)) {
            warnings.push(
                "disabling the rule stops forwarding traffic to the internal host, so whatever reaches it through this rule stops working".to_owned(),
            );
        } else {
            warnings.push(
                "enabling the rule exposes the internal host's port to the source this rule allows, which is the whole internet unless source is narrowed".to_owned(),
            );
        }
    }
    assert(texts(warnings@) =~= port_forward_consequences(fields(requested@), current@));
    warnings
}

// ---------------------------------------------------------------------------
// The answer
// ---------------------------------------------------------------------------

/// The report of a change that was only described.
pub open spec fn port_forward_preview(
    requested: Seq<(Seq<char>, Tree)>,
    current: PortForward,
) -> Report {
    previewed(
        planned(requested, port_forward_state(current), Seq::empty()),
        port_forward_consequences(requested, port_forward_state(current)),
    )
}

/// The report of a change that was made.
pub open spec fn port_forward_judgement(
    requested: Seq<(Seq<char>, Tree)>,
    before: PortForward,
    after: PortForward,
    changed: Seq<Seq<char>>,
) -> Report {
    judged(
        verified(requested, port_forward_state(before), port_forward_state(after), Seq::empty()),
        unrequested(changed, requested, port_forward_properties()),
        port_forward_consequences(requested, port_forward_state(before)),
    )
}

/// What follows once the rule was read: nothing is sent unless the call was
/// confirmed.
pub fn port_forwards_update(
    input: &PortForwardsUpdateInput,
    update: PortForwardUpdate,
    current: PortForward,
) -> (step: PortForwardStep)
    ensures
        match step {
            PortForwardStep::Send(patch) => confirmed(input.confirm) && patch == update.patch,
            PortForwardStep::Answer(output) => {
                &&& !confirmed(input.confirm)
                &&& output.forward == forward_view_of(current)
                &&& output.report@ == port_forward_preview(fields(update.requested@), current)
            },
        },
{
    if is_confirmed(input.confirm) {
        return PortForwardStep::Send(update.patch);
    }
    let before = port_forward_projection(&current);
    let warnings = port_forward_warnings(&update.requested, &before);
    let hidden: Vec<String> = Vec::new();
    assert(texts(hidden@) =~= Seq::empty());
    let report = preview(&update.requested, &before, &hidden, warnings);
    PortForwardStep::Answer(
        PortForwardsUpdateOutput { forward: port_forward_view(current), report },
    )
}

/// Judges a change by the rule before and after it and the properties that
/// moved between the two readings.
pub fn port_forwards_updated(
    input: &PortForwardsUpdateInput,
    before: &PortForward,
    after: PortForward,
    changed: Vec<String>,
) -> (output: PortForwardsUpdateOutput)
    ensures
        output.forward == forward_view_of(after),
        output.report@ == port_forward_judgement(
            port_forward_requested(input.changes),
            *before,
            after,
            texts(changed@),
        ),
{
    let requested = requested_port_forward_fields(&input.changes);
    let old_state = port_forward_projection(before);
    let new_state = port_forward_projection(&after);
    let warnings = port_forward_warnings(&requested, &old_state);
    let hidden: Vec<String> = Vec::new();
    assert(texts(hidden@) =~= Seq::empty());
    let names = port_forward_wire_names();
    let report = judge(&requested, &old_state, &new_state, &hidden, changed, &names, warnings);
    PortForwardsUpdateOutput { forward: port_forward_view(after), report }
}

/// A rule view as a value.
pub open spec fn forward_view_fields(view: PortForwardView) -> Seq<(Seq<char>, Tree)> {
    seq![
        ("destinationPort"@, text_or_null(opt_string(view.destination_port))),
        ("enabled"@, flag_or_null(view.enabled)),
        ("forwardPort"@, text_or_null(opt_string(view.forward_port))),
        ("forwardTo"@, text_or_null(opt_string(view.forward_to))),
        ("id"@, Tree::Text(view.id@)),
        ("name"@, text_or_null(opt_string(view.name))),
        ("protocol"@, text_or_null(opt_string(view.protocol))),
        ("source"@, text_or_null(opt_string(view.source))),
    ]
}

/// A rule view as a value.
pub fn encode_forward_view(view: &PortForwardView) -> (value: Json)
    ensures
        value@ == Tree::Object(forward_view_fields(*view)),
{
    let mut members: Vec<Member> = Vec::new();
    push_field(&mut members, "destinationPort", encode_text(&view.destination_port));
    push_field(&mut members, "enabled", encode_flag(view.enabled));
    push_field(&mut members, "forwardPort", encode_text(&view.forward_port));
    push_field(&mut members, "forwardTo", encode_text(&view.forward_to));
    push_field(&mut members, "id", Json::Text(view.id.clone()));
    push_field(&mut members, "name", encode_text(&view.name));
    push_field(&mut members, "protocol", encode_text(&view.protocol));
    push_field(&mut members, "source", encode_text(&view.source));
    assert(fields(members@) =~= forward_view_fields(*view));
    Json::Object(members)
}

/// The result of a change as a value.
pub fn encode_port_forwards_update(output: &PortForwardsUpdateOutput) -> (value: Json)
    ensures
        value@ == Tree::Object(
            report_head(output.report@) + seq![
                ("forward"@, Tree::Object(forward_view_fields(output.forward))),
            ] + report_tail(output.report@),
        ),
{
    let mut members: Vec<Member> = Vec::new();
    push_head(&mut members, &output.report);
    push_field(&mut members, "forward", encode_forward_view(&output.forward));
    push_tail(&mut members, &output.report);
    assert(fields(members@) =~= report_head(output.report@) + seq![
        ("forward"@, Tree::Object(forward_view_fields(output.forward))),
    ] + report_tail(output.report@));
    Json::Object(members)
}

// ---------------------------------------------------------------------------
// Laws
// ---------------------------------------------------------------------------

/// A change names only accepted fields, and each accepted field has a
/// controller property: a change that was asked for is never reported as
/// collateral.
pub proof fn law_requested_fields_have_controller_properties(changes: PortForwardChanges)
    ensures
        forall|i: int|
            #![trigger port_forward_requested(changes)[i]]
            0 <= i < port_forward_requested(changes).len() ==> {
                &&& port_forward_field_names().contains(port_forward_requested(changes)[i].0)
                &&& wire_property(
                    port_forward_properties(),
                    port_forward_requested(changes)[i].0,
                ) is Some
            },
        forall|k: int|
            #![trigger port_forward_field_names()[k]]
            0 <= k < port_forward_field_names().len() ==> wire_property(
                port_forward_properties(),
                port_forward_field_names()[k],
            ) is Some,
        forall|k: int|
            #![trigger port_forward_properties()[k]]
            0 <= k < port_forward_properties().len() ==> port_forward_field_names().contains(
                port_forward_properties()[k].field@,
            ),
{
    reveal_with_fuel(wire_property, 3);
    let names = port_forward_field_names();
    assert(names[0] == "name"@ && names[1] == "enabled"@);
    assert(names.contains("name"@));
    assert(names.contains("enabled"@));
}

/// Every field a change may name is one the read emits, under the same name.
pub proof fn law_changes_name_what_the_read_emits(view: PortForwardView, k: int)
    requires
        0 <= k < port_forward_field_names().len(),
    ensures
        lookup(forward_view_fields(view), port_forward_field_names()[k]) is Some,
{
    let emitted = forward_view_fields(view);
    assert(emitted[1].0 == "enabled"@);
    assert(emitted[5].0 == "name"@);
    lemma_lookup(emitted, port_forward_field_names()[k]);
}

} // verus!
