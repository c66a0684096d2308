//! Changing one wireless network.

use vstd::prelude::*;
use vstd::string::*;

use crate::changes::{
    asks,
    changing,
    is_changing,
    no_field_message,
    reject_unknown_change_fields,
    unknown_fields_message,
    unknown_in,
    unrequested,
    wire_property,
    words,
    WireName,
};
use crate::control::{confirmed, is_confirmed};
use crate::encode::{
    encode_flag,
    encode_text,
    flag_or_null,
    maybe_flag,
    maybe_text,
    present,
    push_field,
    push_present,
    some_flag,
    some_text,
    text_or_null,
};
use crate::error::{invalid_params, is_internal, is_invalid_params, ToolError};
use crate::json::{lemma_lookup, lookup};
use crate::mutation::{
    marked,
    planned,
    redacted_input_message,
    reject_redacted_input,
    verified,
    REDACTION_MARKER,
};
use crate::networks::{shows_wlan, wlan_view_fields, NetworkConf, WlanConf, WlanView};
use crate::redaction::{scrub_and_verify, scrubbed_tree, tree_discloses, withheld_message};
use crate::report::{
    judge,
    judged,
    preview,
    previewed,
    push_head,
    push_tail,
    report_head,
    report_tail,
    Report,
    WriteReport,
};
use crate::text::{occurs_at, opt_string, texts};
use crate::tree::{fields, Json, Member, Tree};

verus! {

broadcast use crate::tree::group_json_view;

/// Security modes that can be set. Enterprise modes need fields that are not
/// modeled.
#[derive(Debug, Clone, Copy, PartialEq, Eq, Structural)]
pub enum WlanSecurity {
    Open,
    Wpapsk,
}

impl WlanSecurity {
    /// The controller's word for a mode.
    pub open spec fn name(self) -> &'static str {
        match self {
            WlanSecurity::Open => "open",
            WlanSecurity::Wpapsk => "wpapsk",
        }
    }

    /// The controller's word for a mode.
    pub fn wire(self) -> (word: &'static str)
        ensures
            word == self.name(),
    {
        match self {
            WlanSecurity::Open => "open",
            WlanSecurity::Wpapsk => "wpapsk",
        }
    }
}

/// The settable fields of one wireless network, named as the read emits them.
/// An absent field is left unchanged.
pub struct WlanChanges {
    pub ssid: Option<String>,
    pub enabled: Option<bool>,
    pub security: Option<WlanSecurity>,
    pub hidden: Option<bool>,
    pub passphrase: Option<String>,
}

/// A change of one wireless network.
pub struct WlansUpdateInput {
    pub wlan: String,
    pub changes: WlanChanges,
    pub confirm: Option<bool>,
}

/// The fields that are sent to the controller, by its own names. An absent
/// field is not sent.
pub struct WlanPatch {
    pub name: Option<String>,
    pub enabled: Option<bool>,
    pub security: Option<&'static str>,
    pub x_passphrase: Option<String>,
    pub hide_ssid: Option<bool>,
}

/// An accepted change: what was asked for, and what to send.
pub struct WlanUpdate {
    pub requested: Vec<Member>,
    pub patch: WlanPatch,
}

/// What follows once the network was read.
pub enum WlanStep {
    /// Answer with this; nothing is sent.
    Answer(Json),
    /// Send this, then read the network again.
    Send(WlanPatch),
}

// ---------------------------------------------------------------------------
// Field names
// ---------------------------------------------------------------------------

/// Every field a change may name.
pub open spec fn wlan_field_names() -> Seq<Seq<char>> {
    seq!["ssid"@, "enabled"@, "security"@, "hidden"@, "passphrase"@]
}

/// Every field a change may name.
pub fn wlan_change_fields() -> (names: Vec<&'static str>)
    ensures
        words(names@) == wlan_field_names(),
{
    let names: Vec<&'static str> = vec!["ssid", "enabled", "security", "hidden", "passphrase"];
    assert(words(names@) =~= wlan_field_names());
    names
}

/// Fields whose values never appear in a result, in either direction.
pub open spec fn wlan_secret_names() -> Seq<Seq<char>> {
    seq!["passphrase"@]
}

/// Fields whose values never appear in a result, in either direction.
pub fn wlan_secret_fields() -> (names: Vec<String>)
    ensures
        texts(names@) == wlan_secret_names(),
{
    let names: Vec<String> = vec!["passphrase".to_owned()];
    assert(texts(names@) =~= wlan_secret_names());
    names
}

/// The controller property each field is stored under.
pub open spec fn wlan_properties() -> Seq<WireName> {
    seq![
        WireName { field: "ssid", property: "name" },
        WireName { field: "enabled", property: "enabled" },
        WireName { field: "security", property: "security" },
        WireName { field: "hidden", property: "hide_ssid" },
        WireName { field: "passphrase", property: "x_passphrase" },
    ]
}

/// The controller property each field is stored under.
pub fn wlan_wire_names() -> (names: Vec<WireName>)
    ensures
        names@ == wlan_properties(),
{
    let names: Vec<WireName> = vec![
        WireName { field: "ssid", property: "name" },
        WireName { field: "enabled", property: "enabled" },
        WireName { field: "security", property: "security" },
        WireName { field: "hidden", property: "hide_ssid" },
        WireName { field: "passphrase", property: "x_passphrase" },
    ];
    assert(names@ =~= wlan_properties());
    names
}

// ---------------------------------------------------------------------------
// The request
// ---------------------------------------------------------------------------

/// The refusal of the raw arguments of a change, where they are refused.
pub open spec fn wlan_arguments_refusal(arguments: Tree) -> Option<Seq<char>> {
    if marked(arguments) {
        Some(redacted_input_message())
    } else if unknown_in(arguments, wlan_field_names()).len() > 0 {
        Some(
            unknown_fields_message(
                unknown_in(arguments, wlan_field_names()),
                wlan_field_names(),
            ),
        )
    } else {
        None
    }
}

/// Refuses raw arguments that carry the redaction marker, whichever field
/// carries it, or that name an unknown field.
pub fn check_wlan_arguments(arguments: &Json) -> (result: Result<(), ToolError>)
    ensures
        result is Err <==> wlan_arguments_refusal(arguments@) is Some,
        result matches Err(error) ==> is_invalid_params(
            error,
            wlan_arguments_refusal(arguments@)->Some_0,
        ),
{
    if let Err(error) = reject_redacted_input(arguments) {
        return Err(error);
    }
    let accepted = wlan_change_fields();
    reject_unknown_change_fields(arguments, &accepted)
}

/// The wire word of an optional mode.
pub open spec fn mode_word(mode: Option<WlanSecurity>) -> Option<&'static str> {
    match mode {
        Some(inner) => Some(inner.name()),
        None => None,
    }
}

/// The wire word of an optional mode as a text.
pub open spec fn mode_text(mode: Option<WlanSecurity>) -> Option<Seq<char>> {
    match mode {
        Some(inner) => Some(inner.name()@),
        None => None,
    }
}

/// What a change asks for, by the names the read uses.
pub open spec fn wlan_requested(changes: WlanChanges) -> Seq<(Seq<char>, Tree)> {
    present("enabled"@, some_flag(changes.enabled)) + present("hidden"@, some_flag(changes.hidden))
        + present("passphrase"@, some_text(opt_string(changes.passphrase))) + present(
        "security"@,
        some_text(mode_text(changes.security)),
    ) + present("ssid"@, some_text(opt_string(changes.ssid)))
}

/// What a change asks for, by the names the read uses.
pub fn requested_fields(changes: &WlanChanges) -> (requested: Vec<Member>)
    ensures
        fields(requested@) == wlan_requested(*changes),
{
    let mut requested: Vec<Member> = Vec::new();
    push_present(&mut requested, "enabled", maybe_flag(changes.enabled));
    push_present(&mut requested, "hidden", maybe_flag(changes.hidden));
    push_present(&mut requested, "passphrase", maybe_text(&changes.passphrase));
    let security = match changes.security {
        Some(mode) => Some(Json::Text(mode.wire().to_owned())),
        None => None,
    };
    push_present(&mut requested, "security", security);
    push_present(&mut requested, "ssid", maybe_text(&changes.ssid));
    assert(fields(requested@) =~= wlan_requested(*changes));
    requested
}

/// What is sent for a change.
pub open spec fn patch_of(changes: WlanChanges) -> WlanPatch {
    WlanPatch {
        name: changes.ssid,
        enabled: changes.enabled,
        security: mode_word(changes.security),
        x_passphrase: changes.passphrase,
        hide_ssid: changes.hidden,
    }
}

/// Whether a change turns encryption on without stating the key.
pub open spec fn lacks_key(changes: WlanChanges) -> bool {
    changes.security == Some(WlanSecurity::Wpapsk) && changes.passphrase is None
}

/// The refusal of a change that turns encryption on without the key.
pub open spec fn key_message() -> Seq<char> {
    "setting security to wpapsk requires the passphrase in the same call, so the network is never left encrypted without a key"@
}

/// The patch to send, built from the request alone. Turning encryption on
/// requires the caller to state the passphrase, so one request carries the
/// mode and the key and the controller never sees one without the other.
pub fn wlan_patch(changes: &WlanChanges) -> (result: Result<WlanPatch, ToolError>)
    ensures
        result is Err <==> lacks_key(*changes),
        result matches Err(error) ==> is_invalid_params(error, key_message()),
        result matches Ok(patch) ==> patch == patch_of(*changes),
{
    let encrypts = match changes.security {
        Some(mode) => mode == WlanSecurity::Wpapsk,
        None => false,
    };
    if encrypts && changes.passphrase.is_none() {
        return Err(
            invalid_params(
                "setting security to wpapsk requires the passphrase in the same call, so the network is never left encrypted without a key",
            ),
        );
    }
    let security: Option<&'static str> = match changes.security {
        Some(mode) => Some(mode.wire()),
        None => None,
    };
    Ok(
        WlanPatch {
            name: changes.ssid.clone(),
            enabled: changes.enabled,
            security,
            x_passphrase: changes.passphrase.clone(),
            hide_ssid: changes.hidden,
        },
    )
}

/// The refusal of a change, where it is refused. It does not depend on
/// whether the call was confirmed: a preview refuses exactly what a confirmed
/// call refuses.
pub open spec fn wlan_refusal(changes: WlanChanges) -> Option<Seq<char>> {
    if wlan_requested(changes).len() == 0 {
        Some(no_field_message())
    } else if lacks_key(changes) {
        Some(key_message())
    } else {
        None
    }
}

/// Decides from the request alone what would be sent, or why the request is
/// refused.
pub fn plan_wlans_update(input: &WlansUpdateInput) -> (result: Result<WlanUpdate, ToolError>)
    ensures
        result is Err <==> wlan_refusal(input.changes) is Some,
        result matches Err(error) ==> is_invalid_params(
            error,
            wlan_refusal(input.changes)->Some_0,
        ),
        result matches Ok(update) ==> {
            &&& fields(update.requested@) == wlan_requested(input.changes)
            &&& update.patch == patch_of(input.changes)
        },
{
    let requested = requested_fields(&input.changes);
    assert(fields(requested@).len() == requested@.len());
    if requested.len() == 0 {
        return Err(invalid_params("changes names no field to change"));
    }
    match wlan_patch(&input.changes) {
        Ok(patch) => Ok(WlanUpdate { requested, patch }),
        Err(error) => Err(error),
    }
}

// ---------------------------------------------------------------------------
// The stored network
// ---------------------------------------------------------------------------

/// The network as the read names it. The network id cannot be set; it is
/// there so a rebind is visible as a collateral change.
pub open spec fn wlan_state(wlan: WlanConf) -> Tree {
    Tree::Object(
        seq![
            ("enabled"@, flag_or_null(wlan.enabled)),
            ("hidden"@, flag_or_null(wlan.hide_ssid)),
            ("networkId"@, text_or_null(opt_string(wlan.networkconf_id))),
            ("passphrase"@, text_or_null(opt_string(wlan.x_passphrase))),
            ("security"@, text_or_null(opt_string(wlan.security))),
            ("ssid"@, text_or_null(opt_string(wlan.name))),
        ],
    )
}

/// The network as the read names it.
pub fn wlan_projection(wlan: &WlanConf) -> (value: Json)
    ensures
        value@ == wlan_state(*wlan),
{
    let mut members: Vec<Member> = Vec::new();
    push_field(&mut members, "enabled", encode_flag(wlan.enabled));
    push_field(&mut members, "hidden", encode_flag(wlan.hide_ssid));
    push_field(&mut members, "networkId", encode_text(&wlan.networkconf_id));
    push_field(&mut members, "passphrase", encode_text(&wlan.x_passphrase));
    push_field(&mut members, "security", encode_text(&wlan.security));
    push_field(&mut members, "ssid", encode_text(&wlan.name));
    assert(fields(members@) =~= wlan_state(*wlan)->Object_0);
    Json::Object(members)
}

/// A warning where it applies.
pub open spec fn warn_if(applies: bool, warning: Seq<char>) -> Seq<Seq<char>> {
    if applies {
        seq![warning]
    } else {
        Seq::empty()
    }
}

/// The consequences of a change of a wireless network.
pub open spec fn wlan_consequences(requested: Seq<(Seq<char>, Tree)>, current: Tree) -> Seq<
    Seq<char>,
> {
    warn_if(
        lookup(requested, "enabled"@) == Some(Tree::Bool(false)) && is_changing(
            requested,
            current,
            "enabled"@,
        ),
        "disabling the network drops every client on it"@,
    ) + warn_if(
        lookup(requested, "security"@) == Some(Tree::Text("open"@)) && is_changing(
            requested,
            current,
            "security"@,
        ),
        "switching to open removes encryption from this network"@,
    ) + warn_if(
        is_changing(requested, current, "ssid"@) || is_changing(requested, current, "passphrase"@)
            || is_changing(requested, current, "security"@),
        "every client must reconnect after this change"@,
    )
}

/// Consequences an operator should see before confirming.
pub fn wlan_warnings(requested: &Vec<Member>, current: &Json) -> (warnings: Vec<String>)
    ensures
        texts(warnings@) == wlan_consequences(fields(requested@), current@),
{
    let mut warnings: Vec<String> = Vec::new();
    if asks(requested, "enabled", &Json::Bool(false)) && changing(requested, current, "enabled") {
        warnings.push("disabling the network drops every client on it".to_owned());
    }
    let open = Json::Text("open".to_owned());
    if asks(requested, "security", &open) && changing(requested, current, "security") {
        warnings.push("switching to open removes encryption from this network".to_owned());
    }
    if changing(requested, current, "ssid") || changing(requested, current, "passphrase")
        || changing(requested, current, "security") {
        warnings.push("every client must reconnect after this change".to_owned());
    }
    assert(texts(warnings@) =~= wlan_consequences(fields(requested@), current@));
    warnings
}

/// A key where there is one that is not empty.
pub open spec fn key_in(key: Option<Seq<char>>) -> Seq<Seq<char>> {
    match key {
        Some(text) => if text.len() > 0 {
            seq![text]
        } else {
            Seq::empty()
        },
        None => Seq::empty(),
    }
}

/// Every secret in play: the one submitted and the one stored.
pub open spec fn wlan_keys(changes: WlanChanges, current: WlanConf) -> Seq<Seq<char>> {
    key_in(opt_string(changes.passphrase)) + key_in(opt_string(current.x_passphrase))
}

fn push_key(keys: &mut Vec<String>, key: &Option<String>)
    ensures
        texts(final(keys)@) == texts(old(keys)@) + key_in(opt_string(*key)),
{
    let ghost prior = texts(keys@);
    if let Some(text) = key {
        if !text.as_str().is_empty() {
            keys.push(text.clone());
            assert(texts(keys@) =~= prior + seq![text@]);
            return;
        }
    }
    assert(texts(keys@) =~= prior + Seq::<Seq<char>>::empty());
}

/// Every secret in play for one call: submitted and stored.
pub fn wlan_secrets(changes: &WlanChanges, current: &WlanConf) -> (keys: Vec<String>)
    ensures
        texts(keys@) == wlan_keys(*changes, *current),
{
    let mut keys: Vec<String> = Vec::new();
    push_key(&mut keys, &changes.passphrase);
    push_key(&mut keys, &current.x_passphrase);
    assert(texts(keys@) =~= wlan_keys(*changes, *current));
    keys
}

// ---------------------------------------------------------------------------
// The answer
// ---------------------------------------------------------------------------

/// Removes any secret value from a result, wherever it appears, or withholds
/// the result. Leaving fields out covers the fields known to hold a secret;
/// this covers the same characters turning up somewhere else.
pub fn structured_without_secrets(secrets: &Vec<String>, output: Json) -> (result: Result<
    Json,
    ToolError,
>)
    ensures
        answers(result, output@, texts(secrets@)),
{
    let mut value = output;
    match scrub_and_verify(&mut value, secrets) {
        Ok(()) => Ok(value),
        Err(error) => Err(error),
    }
}

/// What is answered in place of a value that may hold secrets: the scrubbed
/// value, or a refusal where a secret survives the scrub.
pub open spec fn answers(
    result: Result<Json, ToolError>,
    output: Tree,
    secrets: Seq<Seq<char>>,
) -> bool {
    let clean = scrubbed_tree(output, secrets);
    match result {
        Ok(value) => value@ == clean && !tree_discloses(clean, secrets),
        Err(error) => tree_discloses(clean, secrets) && is_internal(error, withheld_message()),
    }
}

/// The result of a change, before secrets are removed.
pub open spec fn wlan_answer(wlan: Seq<char>, ssid: Option<Seq<char>>, report: Report) -> Tree {
    Tree::Object(
        report_head(report) + seq![("ssid"@, text_or_null(ssid))] + report_tail(report) + seq![
            ("wlan"@, Tree::Text(wlan)),
        ],
    )
}

fn encode_wlan_answer(wlan: &String, ssid: &Option<String>, report: &WriteReport) -> (value: Json)
    ensures
        value@ == wlan_answer(wlan@, opt_string(*ssid), report@),
{
    let mut members: Vec<Member> = Vec::new();
    push_head(&mut members, report);
    push_field(&mut members, "ssid", encode_text(ssid));
    push_tail(&mut members, report);
    push_field(&mut members, "wlan", Json::Text(wlan.clone()));
    assert(fields(members@) =~= report_head(report@) + seq![
        ("ssid"@, text_or_null(opt_string(*ssid))),
    ] + report_tail(report@) + seq![("wlan"@, Tree::Text(wlan@))]);
    Json::Object(members)
}

/// The report of a change that was only described.
pub open spec fn wlan_preview(requested: Seq<(Seq<char>, Tree)>, current: WlanConf) -> Report {
    previewed(
        planned(requested, wlan_state(current), wlan_secret_names()),
        wlan_consequences(requested, wlan_state(current)),
    )
}

/// The report of a change that was made.
pub open spec fn wlan_judgement(
    requested: Seq<(Seq<char>, Tree)>,
    before: WlanConf,
    after: WlanConf,
    changed: Seq<Seq<char>>,
) -> Report {
    judged(
        verified(requested, wlan_state(before), wlan_state(after), wlan_secret_names()),
        unrequested(changed, requested, wlan_properties()),
        wlan_consequences(requested, wlan_state(before)),
    )
}

/// What follows once the network was read: nothing is sent unless the call
/// was confirmed.
pub fn wlans_update(input: &WlansUpdateInput, update: WlanUpdate, current: &WlanConf) -> (result:
    Result<WlanStep, ToolError>)
    ensures
        confirmed(input.confirm) ==> result == Ok::<WlanStep, ToolError>(
            WlanStep::Send(update.patch),
        ),
        !confirmed(input.confirm) ==> {
            let output = wlan_answer(
                input.wlan@,
                opt_string(current.name),
                wlan_preview(fields(update.requested@), *current),
            );
            let secrets = wlan_keys(input.changes, *current);
            match result {
                Ok(WlanStep::Answer(value)) => answers(Ok(value), output, secrets),
                Ok(WlanStep::Send(_)) => false,
                Err(error) => answers(Err(error), output, secrets),
            }
        },
{
    if is_confirmed(input.confirm) {
        return Ok(WlanStep::Send(update.patch));
    }
    let secrets = wlan_secrets(&input.changes, current);
    let before = wlan_projection(current);
    let warnings = wlan_warnings(&update.requested, &before);
    let hidden = wlan_secret_fields();
    let report = preview(&update.requested, &before, &hidden, warnings);
    let output = encode_wlan_answer(&input.wlan, &current.name, &report);
    match structured_without_secrets(&secrets, output) {
        Ok(value) => Ok(WlanStep::Answer(value)),
        Err(error) => Err(error),
    }
}

/// Judges a change by the network before and after it and the properties
/// that moved between the two readings.
pub fn wlans_updated(
    input: &WlansUpdateInput,
    before: &WlanConf,
    after: &WlanConf,
    changed: Vec<String>,
) -> (result: Result<Json, ToolError>)
    ensures
        answers(
            result,
            wlan_answer(
                input.wlan@,
                opt_string(after.name),
                wlan_judgement(
                    wlan_requested(input.changes),
                    *before,
                    *after,
                    texts(changed@),
                ),
            ),
            wlan_keys(input.changes, *before) + wlan_keys(input.changes, *after),
        ),
{
    let requested = requested_fields(&input.changes);
    let mut secrets = wlan_secrets(&input.changes, before);
    push_key(&mut secrets, &input.changes.passphrase);
    push_key(&mut secrets, &after.x_passphrase);
    assert(texts(secrets@) =~= wlan_keys(input.changes, *before) + wlan_keys(
        input.changes,
        *after,
    ));
    let old_state = wlan_projection(before);
    let new_state = wlan_projection(after);
    let warnings = wlan_warnings(&requested, &old_state);
    let hidden = wlan_secret_fields();
    let names = wlan_wire_names();
    let report = judge(&requested, &old_state, &new_state, &hidden, changed, &names, warnings);
    let output = encode_wlan_answer(&input.wlan, &after.name, &report);
    structured_without_secrets(&secrets, output)
}

// ---------------------------------------------------------------------------
// Laws
// ---------------------------------------------------------------------------

/// A change names only accepted fields, and each accepted field has a
/// controller property: a change that was asked for is never reported as
/// collateral.
pub proof fn law_requested_fields_have_controller_properties(changes: WlanChanges)
    ensures
        forall|i: int|
            #![trigger wlan_requested(changes)[i]]
            0 <= i < wlan_requested(changes).len() ==> {
                &&& wlan_field_names().contains(wlan_requested(changes)[i].0)
                &&& wire_property(wlan_properties(), wlan_requested(changes)[i].0) is Some
            },
        forall|k: int|
            #![trigger wlan_field_names()[k]]
            0 <= k < wlan_field_names().len() ==> wire_property(
                wlan_properties(),
                wlan_field_names()[k],
            ) is Some,
        forall|k: int|
            #![trigger wlan_properties()[k]]
            0 <= k < wlan_properties().len() ==> wlan_field_names().contains(
                wlan_properties()[k].field@,
            ),
{
    reveal_with_fuel(wire_property, 6);
    let names = wlan_field_names();
    assert(names[0] == "ssid"@ && names[1] == "enabled"@ && names[2] == "security"@ && names[3]
        == "hidden"@ && names[4] == "passphrase"@);
    assert(names.contains("ssid"@));
    assert(names.contains("enabled"@));
    assert(names.contains("security"@));
    assert(names.contains("hidden"@));
    assert(names.contains("passphrase"@));
    assert forall|k: int| #![trigger names[k]] 0 <= k < names.len() implies wire_property(
        wlan_properties(),
        names[k],
    ) is Some by {
        assert(k == 0 || k == 1 || k == 2 || k == 3 || k == 4);
    }
    let requested = wlan_requested(changes);
    assert forall|i: int| #![trigger requested[i]] 0 <= i < requested.len() implies names.contains(
        requested[i].0,
    ) && wire_property(wlan_properties(), requested[i].0) is Some by {
        assert(names.contains(requested[i].0));
        let k = choose|k: int| 0 <= k < names.len() && names[k] == requested[i].0;
        assert(wire_property(wlan_properties(), names[k]) is Some);
    }
}

/// Every field a change may name is one the read emits, under the same name.
pub proof fn law_changes_name_what_the_read_emits(view: WlanView, k: int)
    requires
        view.passphrase is Some,
        0 <= k < wlan_field_names().len(),
    ensures
        lookup(wlan_view_fields(view), wlan_field_names()[k]) is Some,
{
    let emitted = wlan_view_fields(view);
    assert(emitted[0].0 == "enabled"@);
    assert(emitted[1].0 == "hidden"@);
    assert(emitted[4].0 == "passphrase"@);
    assert(emitted[5].0 == "security"@);
    assert(emitted[6].0 == "ssid"@);
    lemma_lookup(emitted, wlan_field_names()[k]);
}

/// A redacted read is never written back: a change that carries the
/// passphrase of a view without disclosure is refused.
pub proof fn law_a_redacted_passphrase_is_never_written(
    view: WlanView,
    wlan: WlanConf,
    networks: Seq<NetworkConf>,
    changes: Seq<(Seq<char>, Tree)>,
    arguments: Seq<(Seq<char>, Tree)>,
    i: int,
    j: int,
)
    requires
        shows_wlan(view, wlan, networks, false),
        wlan.x_passphrase is Some,
        0 <= i < changes.len(),
        changes[i] == ("passphrase"@, Tree::Text(view.passphrase->Some_0@)),
        0 <= j < arguments.len(),
        arguments[j] == ("changes"@, Tree::Object(changes)),
    ensures
        wlan_arguments_refusal(Tree::Object(arguments)) == Some(redacted_input_message()),
{
    let marker = REDACTION_MARKER@;
    assert(marker.subrange(0, marker.len() as int) =~= marker);
    assert(occurs_at(marker, marker, 0));
    assert(marked(changes[i].1));
    let inner = Tree::Object(changes);
    assert(marked(inner->Object_0[i].1));
    assert(marked(inner));
    assert(marked(arguments[j].1));
    let outer = Tree::Object(arguments);
    assert(marked(outer->Object_0[j].1));
    assert(marked(outer));
}

/// The passphrase that was submitted and the one that is stored are both
/// among the secrets in play, unless they are empty.
pub proof fn law_every_passphrase_is_in_play(changes: WlanChanges, current: WlanConf)
    ensures
        opt_string(changes.passphrase) matches Some(key) ==> key.len() > 0 ==> wlan_keys(
            changes,
            current,
        ).contains(key),
        opt_string(current.x_passphrase) matches Some(key) ==> key.len() > 0 ==> wlan_keys(
            changes,
            current,
        ).contains(key),
{
    let keys = wlan_keys(changes, current);
    if let Some(key) = opt_string(changes.passphrase) {
        if key.len() > 0 {
            assert(keys[0] == key);
        }
    }
    if let Some(key) = opt_string(current.x_passphrase) {
        if key.len() > 0 {
            assert(keys.last() == key);
        }
    }
}

/// An answer holds no secret that is in play, in any text.
pub proof fn law_no_answer_holds_a_secret(
    result: Result<Json, ToolError>,
    output: Tree,
    secrets: Seq<Seq<char>>,
    key: Seq<char>,
)
    requires
        answers(result, output, secrets),
        secrets.contains(key),
    ensures
        result matches Ok(value) ==> !tree_discloses(value@, seq![key]),
{
    if let Ok(value) = result {
        if tree_discloses(value@, seq![key]) {
            lemma_fewer_secrets(value@, secrets, key);
        }
    }
}

proof fn lemma_fewer_secrets(value: Tree, secrets: Seq<Seq<char>>, key: Seq<char>)
    requires
        secrets.contains(key),
        tree_discloses(value, seq![key]),
    ensures
        tree_discloses(value, secrets),
    decreases value,
{
    match value {
        Tree::Text(text) => {
            let k = choose|k: int| 0 <= k < secrets.len() && secrets[k] == key;
            assert(seq![key][0] == key);
            assert(secrets[k].len() > 0);
        },
        Tree::Array(items) => {
            let i = choose|i: int|
                0 <= i < items.len() && tree_discloses(#[trigger] items[i], seq![key]);
            assert(decreases_to!(value => value->Array_0));
            assert(decreases_to!(value->Array_0 => value->Array_0[i]));
            lemma_fewer_secrets(items[i], secrets, key);
            assert(tree_discloses(value->Array_0[i], secrets));
        },
        Tree::Object(members) => {
            let i = choose|i: int|
                0 <= i < members.len() && tree_discloses((#[trigger] members[i]).1, seq![key]);
            assert(decreases_to!(value => value->Object_0));
            assert(decreases_to!(value->Object_0 => value->Object_0[i]));
            assert(decreases_to!(value->Object_0[i] => value->Object_0[i].1));
            lemma_fewer_secrets(members[i].1, secrets, key);
            assert(tree_discloses(value->Object_0[i].1, secrets));
        },
        _ => {},
    }
}

} // verus!
