//! What holds of the writes: what they plan, send, report and warn of.

use vstd::prelude::*;
use vstd::string::*;

use crate::changes::{
    changing, join_texts, reject_unknown_change_fields, unrequested_changes, wire_name,
    wire_property, words, WireName,
};
use crate::error::{ErrorKind, ToolError};
use crate::firewall::{PolicyView, PortForward};
use crate::json::{equal, get, lookup, property, same};
use crate::mutation::{
    every_persisted, plan, reject_redacted_input, survives_its_own_redaction, verify, FieldOutcome,
    FieldStatus, PlannedChange,
};
use crate::networks::WlanConf;
use crate::policies::{
    check_policy_arguments, firewall_policies_update, firewall_policies_updated,
    firewall_policy_change_fields, firewall_policy_warnings, flipped, judge_policy, parsed_record,
    policy_projection, policy_step, policy_view_from_record, policy_wire_names, project, raw_at,
    raw_of, record_of, wanted_position, whole_number, FirewallPoliciesUpdateInput,
    FirewallPoliciesUpdateOutput, Layer, ParsedProperty, PolicyStep, RawProperty, Reading,
};
use crate::port_forwards::{
    check_port_forward_arguments, plan_port_forwards_update, port_forward_change_fields,
    port_forward_projection, port_forward_warnings, port_forward_wire_names, port_forwards_update,
    port_forwards_updated, PortForwardStep, PortForwardUpdate, PortForwardsUpdateInput,
    PortForwardsUpdateOutput,
};
use crate::report::{judge, preview, status_word, WriteReport};
use crate::text::{byte_len, contains, opt_string, texts, trimmed};
use crate::text_laws::{is_blank, read_back};
use crate::tree::{fields, Json, Member, Tree};
use crate::vouchers::{
    voucher_batch, voucher_checks, vouchers_create, vouchers_created, CreatedVoucher, VoucherBatch,
    VoucherChecks, VoucherStep, VoucherView, VouchersCreateInput, VouchersCreateOutput,
};
use crate::wlans::{
    check_wlan_arguments, plan_wlans_update, requested_fields, structured_without_secrets,
    wlan_change_fields, wlan_patch, wlan_projection, wlan_secret_fields, wlan_secrets,
    wlan_warnings, wlan_wire_names, wlans_update, wlans_updated, WlanChanges, WlanPatch,
    WlanSecurity, WlanStep, WlanUpdate, WlansUpdateInput,
};
use crate::redaction::{scrubbed_tree, tree_discloses};

verus! {

broadcast use crate::tree::group_json_view;

// ---------------------------------------------------------------------------
// Values
// ---------------------------------------------------------------------------

/// Equal values are of one kind: a flag equals the same flag alone, a text the
/// same text alone, a number a number that is written alike or the other zero,
/// an array one of as many equal items, and an object one of the same names.
pub proof fn law_equal_values_are_of_one_kind(a: &Json, b: &Json, equals: bool)
    requires
        call_ensures(same, (a, b), equals),
        equals,
    ensures
        a@ is Null <==> b@ is Null,
        a@ matches Tree::Bool(x) ==> b@ == Tree::Bool(x),
        a@ matches Tree::Text(x) ==> b@ == Tree::Text(x),
        a@ matches Tree::Number(x) ==> b@ is Number && (b@->Number_0 == x || ((x == "0.0"@ || x
            == "-0.0"@) && (b@->Number_0 == "0.0"@ || b@->Number_0 == "-0.0"@))),
        a@ matches Tree::Array(xs) ==> b@ is Array && b@->Array_0.len() == xs.len() && forall|i: int|
            0 <= i < xs.len() ==> equal(#[trigger] xs[i], b@->Array_0[i]),
        a@ matches Tree::Object(xs) ==> b@ is Object && forall|name: Seq<char>|
            (exists|i: int| 0 <= i < xs.len() && (#[trigger] xs[i]).0 == name) <==> (
            #[trigger] lookup(b@->Object_0, name) is Some),
{
    if a@ is Object {
        let xs = a@->Object_0;
        let ys = b@->Object_0;
        assert forall|name: Seq<char>|
            (exists|i: int| 0 <= i < xs.len() && (#[trigger] xs[i]).0 == name) <==> (
            #[trigger] lookup(ys, name) is Some) by {
            crate::json::lemma_lookup(ys, name);
            crate::json::lemma_lookup(xs, name);
            if lookup(ys, name) is Some {
                let j = choose|j: int| 0 <= j < ys.len() && (#[trigger] ys[j]).0 == name;
                assert(lookup(xs, ys[j].0) is Some);
            }
            if exists|i: int| 0 <= i < xs.len() && (#[trigger] xs[i]).0 == name {
                let i = choose|i: int| 0 <= i < xs.len() && (#[trigger] xs[i]).0 == name;
                assert(lookup(ys, xs[i].0) is Some);
            }
        }
    }
}

/// A property is found by its name: the first of that name.
pub proof fn law_properties_are_found_by_name(value: &Json, name: &str, found: Option<&Json>)
    requires
        call_ensures(get, (value, name), found),
    ensures
        !(value@ is Object) ==> found is None,
        value@ matches Tree::Object(members) ==> {
            &&& found is None <==> forall|i: int|
                0 <= i < members.len() ==> (#[trigger] members[i]).0 != name@
            &&& found matches Some(item) ==> exists|k: int|
                {
                    &&& 0 <= k < members.len()
                    &&& #[trigger] members[k] == (name@, item@)
                    &&& forall|i: int| 0 <= i < k ==> (#[trigger] members[i]).0 != name@
                }
        },
{
    if value@ is Object {
        lemma_first_property(value@->Object_0, name@);
    }
}

proof fn lemma_first_property(members: Seq<(Seq<char>, Tree)>, name: Seq<char>)
    ensures
        lookup(members, name) is None <==> forall|i: int|
            0 <= i < members.len() ==> (#[trigger] members[i]).0 != name,
        lookup(members, name) matches Some(item) ==> exists|k: int|
            {
                &&& 0 <= k < members.len()
                &&& #[trigger] members[k] == (name, item)
                &&& forall|i: int| 0 <= i < k ==> (#[trigger] members[i]).0 != name
            },
    decreases members.len(),
{
    if members.len() > 0 {
        let rest = members.drop_first();
        lemma_first_property(rest, name);
        if members[0].0 == name {
            assert(members[0] == (name, lookup(members, name)->Some_0));
        } else if lookup(rest, name) is None {
            assert forall|i: int| 0 <= i < members.len() implies (#[trigger] members[i]).0
                != name by {
                if i > 0 {
                    assert(rest[i - 1] == members[i]);
                }
            }
        } else {
            let item = lookup(rest, name)->Some_0;
            let k = choose|k: int|
                {
                    &&& 0 <= k < rest.len()
                    &&& #[trigger] rest[k] == (name, item)
                    &&& forall|i: int| 0 <= i < k ==> (#[trigger] rest[i]).0 != name
                };
            assert(members[k + 1] == (name, item));
            assert forall|i: int| 0 <= i < k + 1 implies (#[trigger] members[i]).0 != name by {
                if i > 0 {
                    assert(rest[i - 1] == members[i]);
                }
            }
        }
    }
}

// ---------------------------------------------------------------------------
// Plans and reports
// ---------------------------------------------------------------------------

/// A plan has one change for each requested field whose value the resource
/// does not hold, in request order; a change shows what is held and what is
/// asked for, unless its field is secret.
pub proof fn law_plans_list_what_would_move(
    requested: &Vec<Member>,
    current: &Json,
    secrets: &Vec<String>,
    changes: Vec<PlannedChange>,
)
    requires
        call_ensures(plan, (requested, current, secrets), changes),
    ensures
        ({
            let moving = fields(requested@).filter(
                |request: (Seq<char>, Tree)|
                    !(property(current@, request.0) is Some && equal(
                        property(current@, request.0)->Some_0,
                        request.1,
                    )),
            );
            &&& changes@.len() == moving.len()
            &&& forall|k: int|
                #![trigger changes@[k]]
                0 <= k < changes@.len() ==> {
                    let now = property(current@, moving[k].0);
                    let secret = texts(secrets@).contains(moving[k].0);
                    &&& changes@[k].field@ == moving[k].0
                    &&& secret ==> changes@[k].from is None && changes@[k].to is None
                    &&& !secret ==> changes@[k].to is Some && changes@[k].to->Some_0@
                        == moving[k].1
                    &&& !secret ==> changes@[k].from is Some && changes@[k].from->Some_0@ == if now is Some {
                        now->Some_0
                    } else {
                        Tree::Null
                    }
                }
        }),
{
    let all = fields(requested@);
    lemma_planned(all, current@, texts(secrets@));
    let contents = crate::mutation::changes_of(changes@);
    assert(contents.len() == changes@.len());
    assert forall|k: int| #![trigger changes@[k]] 0 <= k < changes@.len() implies contents[k]
        == changes@[k]@ by {}
}

proof fn lemma_planned(
    requested: Seq<(Seq<char>, Tree)>,
    current: Tree,
    secrets: Seq<Seq<char>>,
)
    ensures
        ({
            let moving = requested.filter(
                |request: (Seq<char>, Tree)|
                    !(property(current, request.0) is Some && equal(
                        property(current, request.0)->Some_0,
                        request.1,
                    )),
            );
            let changes = crate::mutation::planned(requested, current, secrets);
            &&& changes.len() == moving.len()
            &&& forall|k: int|
                #![trigger changes[k]]
                0 <= k < changes.len() ==> {
                    let now = property(current, moving[k].0);
                    let secret = secrets.contains(moving[k].0);
                    &&& changes[k].field == moving[k].0
                    &&& secret ==> changes[k].from is None && changes[k].to is None
                    &&& !secret ==> changes[k].to == Some(moving[k].1)
                    &&& !secret ==> changes[k].from == Some(
                        if now is Some {
                            now->Some_0
                        } else {
                            Tree::Null
                        },
                    )
                }
        }),
    decreases requested.len(),
{
    reveal(Seq::filter);
    if requested.len() > 0 {
        let rest = requested.drop_last();
        lemma_planned(rest, current, secrets);
        let test = |request: (Seq<char>, Tree)|
            !(property(current, request.0) is Some && equal(
                property(current, request.0)->Some_0,
                request.1,
            ));
        let moving = requested.filter(test);
        let before = rest.filter(test);
        let changes = crate::mutation::planned(requested, current, secrets);
        let prior = crate::mutation::planned(rest, current, secrets);
        assert forall|k: int| #![trigger changes[k]] 0 <= k < changes.len() implies {
            let now = property(current, moving[k].0);
            let secret = secrets.contains(moving[k].0);
            &&& changes[k].field == moving[k].0
            &&& secret ==> changes[k].from is None && changes[k].to is None
            &&& !secret ==> changes[k].to == Some(moving[k].1)
            &&& !secret ==> changes[k].from == Some(
                if now is Some {
                    now->Some_0
                } else {
                    Tree::Null
                },
            )
        } by {
            if k < prior.len() {
                assert(changes[k] == prior[k]);
                assert(moving[k] == before[k]);
            }
        }
    }
}

/// What a resource holds under a name, where a missing property reads as null.
pub open spec fn held_value(resource: Tree, name: Seq<char>) -> Tree {
    if property(resource, name) is Some {
        property(resource, name)->Some_0
    } else {
        Tree::Null
    }
}

/// A field has persisted where the resource afterwards holds the value asked
/// for; it was dropped where it holds another and that is what it held before;
/// and it was coerced where it holds a third.
pub proof fn law_fields_are_judged_by_the_read_back(
    requested: &Vec<Member>,
    before: &Json,
    after: &Json,
    secrets: &Vec<String>,
    outcomes: Vec<FieldOutcome>,
    i: int,
)
    requires
        call_ensures(verify, (requested, before, after, secrets), outcomes),
        0 <= i < requested@.len(),
    ensures
        outcomes@.len() == requested@.len(),
        ({
            let name = requested@[i].name@;
            let wanted = requested@[i].value@;
            let was = held_value(before@, name);
            let now = held_value(after@, name);
            let outcome = outcomes@[i];
            let secret = texts(secrets@).contains(name);
            &&& outcome.field@ == name
            &&& outcome.status == FieldStatus::Persisted <==> equal(now, wanted)
            &&& outcome.status == FieldStatus::Dropped <==> !equal(now, wanted) && equal(now, was)
            &&& outcome.status == FieldStatus::Coerced <==> !equal(now, wanted) && !equal(now, was)
            &&& secret ==> outcome.requested is None && outcome.observed is None
            &&& !secret ==> outcome.requested is Some && outcome.requested->Some_0@ == wanted
                && outcome.observed is Some && outcome.observed->Some_0@ == now
        }),
{
    let contents = crate::mutation::outcomes_of(outcomes@);
    assert(contents.len() == outcomes@.len());
    assert(contents[i] == outcomes@[i]@);
    assert(fields(requested@)[i] == (requested@[i].name@, requested@[i].value@));
}

/// All fields persisted where each of them did.
pub proof fn law_all_fields_persist_where_each_does(outcomes: &Vec<FieldOutcome>, all: bool)
    requires
        call_ensures(every_persisted, (outcomes,), all),
    ensures
        all <==> forall|i: int|
            0 <= i < outcomes@.len() ==> (#[trigger] outcomes@[i]).status == FieldStatus::Persisted,
{
    let contents = crate::mutation::outcomes_of(outcomes@);
    assert(contents.len() == outcomes@.len());
    assert forall|i: int| 0 <= i < outcomes@.len() implies (#[trigger] contents[i]).status
        == outcomes@[i].status by {}
    if all {
        assert forall|i: int| 0 <= i < outcomes@.len() implies (#[trigger] outcomes@[i]).status
            == FieldStatus::Persisted by {
            assert(contents[i].status == FieldStatus::Persisted);
        }
    }
}

/// A preview applies nothing and shows the plan; a judgement was applied,
/// shows each field's outcome and what moved without being asked for, and
/// certifies the write where every field persisted and nothing else moved.
pub proof fn law_reports_hold_plan_or_outcomes(
    requested: &Vec<Member>,
    before: &Json,
    after: &Json,
    secrets: &Vec<String>,
    changed: Vec<String>,
    names: &Vec<WireName>,
    warnings: Vec<String>,
    shown: WriteReport,
    judged: WriteReport,
    changes: Vec<PlannedChange>,
    outcomes: Vec<FieldOutcome>,
    unexpected: Vec<String>,
)
    requires
        call_ensures(preview, (requested, before, secrets, warnings), shown),
        call_ensures(judge, (requested, before, after, secrets, changed, names, warnings), judged),
        call_ensures(plan, (requested, before, secrets), changes),
        call_ensures(verify, (requested, before, after, secrets), outcomes),
        call_ensures(unrequested_changes, (changed, requested, names), unexpected),
    ensures
        !shown.applied && judged.applied,
        shown.changes is Some && judged.changes is None,
        crate::mutation::changes_of(shown.changes->Some_0@) == crate::mutation::changes_of(
            changes@,
        ),
        shown.fields is None && judged.fields is Some,
        crate::mutation::outcomes_of(judged.fields->Some_0@) == crate::mutation::outcomes_of(
            outcomes@,
        ),
        shown.unexpected_changes is None && judged.unexpected_changes is Some,
        texts(judged.unexpected_changes->Some_0@) == texts(unexpected@),
        shown.verified is None && judged.verified is Some,
        judged.verified->Some_0 <==> unexpected@.len() == 0 && forall|i: int|
            0 <= i < outcomes@.len() ==> (#[trigger] outcomes@[i]).status == FieldStatus::Persisted,
        texts(shown.warnings@) == texts(warnings@),
        texts(judged.warnings@) == texts(warnings@),
{
    let contents = crate::mutation::outcomes_of(outcomes@);
    assert(contents.len() == outcomes@.len());
    assert(texts(unexpected@).len() == unexpected@.len());
    assert forall|i: int| 0 <= i < outcomes@.len() implies (#[trigger] contents[i]).status
        == outcomes@[i].status by {}
    if judged.verified->Some_0 {
        assert forall|i: int| 0 <= i < outcomes@.len() implies (#[trigger] outcomes@[i]).status
            == FieldStatus::Persisted by {
            assert(contents[i].status == FieldStatus::Persisted);
        }
    }
    assert(shown@.changes is Some && judged@.fields is Some && judged@.unexpected_changes is Some);
}

/// A status is called by its own name.
pub proof fn law_statuses_have_their_names(status: FieldStatus, word: &'static str)
    requires
        call_ensures(status_word, (status,), word),
    ensures
        word@ == match status {
            FieldStatus::Persisted => "persisted"@,
            FieldStatus::Dropped => "dropped"@,
            FieldStatus::Coerced => "coerced"@,
        },
{
}

// ---------------------------------------------------------------------------
// Requests
// ---------------------------------------------------------------------------

/// A change set is refused exactly where it names a field that is not
/// accepted.
pub proof fn law_unknown_fields_are_refused(
    arguments: &Json,
    accepted: &Vec<&'static str>,
    result: Result<(), ToolError>,
)
    requires
        call_ensures(reject_unknown_change_fields, (arguments, accepted), result),
    ensures
        result is Err <==> property(arguments@, "changes"@) is Some && property(
            arguments@,
            "changes"@,
        )->Some_0 is Object && exists|i: int|
            0 <= i < property(arguments@, "changes"@)->Some_0->Object_0.len() && !words(
                accepted@,
            ).contains((#[trigger] property(arguments@, "changes"@)->Some_0->Object_0[i]).0),
        result matches Err(error) ==> error.kind == ErrorKind::InvalidParams,
{
    if property(arguments@, "changes"@) is Some && property(
        arguments@,
        "changes"@,
    )->Some_0 is Object {
        lemma_unknown(property(arguments@, "changes"@)->Some_0->Object_0, words(accepted@));
    }
}

proof fn lemma_unknown(changes: Seq<(Seq<char>, Tree)>, accepted: Seq<Seq<char>>)
    ensures
        crate::changes::unknown_fields(changes, accepted).len() > 0 <==> exists|i: int|
            0 <= i < changes.len() && !accepted.contains((#[trigger] changes[i]).0),
    decreases changes.len(),
{
    if changes.len() > 0 {
        let rest = changes.drop_last();
        lemma_unknown(rest, accepted);
        assert forall|i: int| 0 <= i < rest.len() implies #[trigger] rest[i] == changes[i] by {}
        if !accepted.contains(changes.last().0) {
            assert(!accepted.contains(changes[changes.len() - 1].0));
        }
        if exists|i: int| 0 <= i < rest.len() && !accepted.contains((#[trigger] rest[i]).0) {
            let i = choose|i: int| 0 <= i < rest.len() && !accepted.contains((#[trigger] rest[i]).0);
            assert(!accepted.contains(changes[i].0));
        }
        if exists|i: int| 0 <= i < changes.len() && !accepted.contains((#[trigger] changes[i]).0) {
            let i = choose|i: int|
                0 <= i < changes.len() && !accepted.contains((#[trigger] changes[i]).0);
            if i < rest.len() {
                assert(!accepted.contains(rest[i].0));
            }
        }
    }
}

/// A field is called on the controller by the first name listed for it.
pub proof fn law_fields_have_the_listed_names(
    names: &Vec<WireName>,
    field: &str,
    name: Option<&'static str>,
)
    requires
        call_ensures(wire_name, (names, field), name),
    ensures
        name is None <==> forall|i: int|
            0 <= i < names@.len() ==> (#[trigger] names@[i]).field@ != field@,
        name matches Some(found) ==> exists|k: int|
            0 <= k < names@.len() && (#[trigger] names@[k]).field@ == field@
                && names@[k].property@ == found@,
{
    lemma_wire(names@, field@);
}

proof fn lemma_wire(names: Seq<WireName>, field: Seq<char>)
    ensures
        wire_property(names, field) is None <==> forall|i: int|
            0 <= i < names.len() ==> (#[trigger] names[i]).field@ != field,
        wire_property(names, field) matches Some(found) ==> exists|k: int|
            0 <= k < names.len() && (#[trigger] names[k]).field@ == field && names[k].property@
                == found,
    decreases names.len(),
{
    if names.len() > 0 {
        let rest = names.drop_first();
        lemma_wire(rest, field);
        if names[0].field@ == field {
            assert(names[0].property@ == wire_property(names, field)->Some_0);
        } else if wire_property(rest, field) is None {
            assert forall|i: int| 0 <= i < names.len() implies (#[trigger] names[i]).field@
                != field by {
                if i > 0 {
                    assert(rest[i - 1] == names[i]);
                }
            }
        } else {
            let k = choose|k: int|
                0 <= k < rest.len() && (#[trigger] rest[k]).field@ == field && rest[k].property@
                    == wire_property(rest, field)->Some_0;
            assert(names[k + 1].field@ == field);
        }
    }
}

/// A field is changing where it is asked for and the resource does not hold
/// the value asked for.
pub proof fn law_fields_are_changing_where_they_differ(
    requested: &Vec<Member>,
    current: &Json,
    field: &str,
    result: bool,
)
    requires
        call_ensures(changing, (requested, current, field), result),
    ensures
        result <==> lookup(fields(requested@), field@) is Some && !(property(
            current@,
            field@,
        ) is Some && equal(
            property(current@, field@)->Some_0,
            lookup(fields(requested@), field@)->Some_0,
        )),
{
}

/// A secret survives its own redaction where it is part of the marker.
pub proof fn law_parts_of_the_marker_survive(value: &str, result: bool)
    requires
        call_ensures(survives_its_own_redaction, (value,), result),
    ensures
        result <==> value@.len() > 0 && contains("[redacted]"@, value@),
{
}

/// A request is refused where a text in it holds the marker, however deep, and
/// only there.
pub proof fn law_marked_requests_are_refused(arguments: &Json, result: Result<(), ToolError>)
    requires
        call_ensures(reject_redacted_input, (arguments,), result),
    ensures
        arguments@ matches Tree::Text(text) ==> (result is Err <==> contains(text, "[redacted]"@)),
        arguments@ matches Tree::Array(items) ==> (result is Err <==> exists|i: int|
            0 <= i < items.len() && crate::mutation::marked(#[trigger] items[i])),
        arguments@ matches Tree::Object(members) ==> (result is Err <==> exists|i: int|
            0 <= i < members.len() && crate::mutation::marked((#[trigger] members[i]).1)),
        arguments@ is Null || arguments@ is Bool || arguments@ is Number ==> result is Ok,
        result matches Err(error) ==> error.kind == ErrorKind::InvalidParams,
{
}

// ---------------------------------------------------------------------------
// Wireless networks
// ---------------------------------------------------------------------------

/// What is sent of a change is each field that was asked for, under the
/// controller's name for it, and nothing else; encryption is never turned on
/// without a key.
pub proof fn law_wlan_patches_send_what_was_asked(
    changes: &WlanChanges,
    result: Result<WlanPatch, ToolError>,
)
    requires
        call_ensures(wlan_patch, (changes,), result),
    ensures
        result is Err <==> changes.security == Some(WlanSecurity::Wpapsk)
            && changes.passphrase is None,
        result matches Err(error) ==> error.kind == ErrorKind::InvalidParams,
        result matches Ok(patch) ==> {
            &&& patch.name == changes.ssid
            &&& patch.enabled == changes.enabled
            &&& patch.x_passphrase == changes.passphrase
            &&& patch.hide_ssid == changes.hidden
            &&& patch.security is Some <==> changes.security is Some
            &&& changes.security == Some(WlanSecurity::Open) ==> patch.security->Some_0@ == "open"@
            &&& changes.security == Some(WlanSecurity::Wpapsk) ==> patch.security->Some_0@
                == "wpapsk"@
        },
{
}

proof fn lemma_field_names_differ()
    ensures
        "enabled"@ != "hidden"@,
        "enabled"@ != "passphrase"@,
        "enabled"@ != "security"@,
        "enabled"@ != "ssid"@,
        "enabled"@ != "name"@,
        "enabled"@ != "networkId"@,
        "hidden"@ != "passphrase"@,
        "hidden"@ != "security"@,
        "hidden"@ != "ssid"@,
        "hidden"@ != "networkId"@,
        "networkId"@ != "passphrase"@,
        "networkId"@ != "security"@,
        "networkId"@ != "ssid"@,
        "passphrase"@ != "security"@,
        "passphrase"@ != "ssid"@,
        "security"@ != "ssid"@,
{
    reveal_strlit("enabled");
    reveal_strlit("hidden");
    reveal_strlit("passphrase");
    reveal_strlit("security");
    reveal_strlit("ssid");
    reveal_strlit("name");
    reveal_strlit("networkId");
    assert("enabled"@.len() == 7 && "hidden"@.len() == 6 && "passphrase"@.len() == 10);
    assert("security"@.len() == 8 && "ssid"@.len() == 4 && "name"@.len() == 4);
    assert("networkId"@.len() == 9);
}

/// The fields a change asks for are those it has, each with its own value.
pub proof fn law_wlan_requests_name_what_was_asked(changes: &WlanChanges, requested: Vec<Member>)
    requires
        call_ensures(requested_fields, (changes,), requested),
    ensures
        ({
            let asked = fields(requested@);
            &&& lookup(asked, "enabled"@) == match changes.enabled {
                Some(flag) => Some(Tree::Bool(flag)),
                None => None,
            }
            &&& lookup(asked, "hidden"@) == match changes.hidden {
                Some(flag) => Some(Tree::Bool(flag)),
                None => None,
            }
            &&& lookup(asked, "passphrase"@) == match changes.passphrase {
                Some(text) => Some(Tree::Text(text@)),
                None => None,
            }
            &&& lookup(asked, "security"@) == match changes.security {
                Some(WlanSecurity::Open) => Some(Tree::Text("open"@)),
                Some(WlanSecurity::Wpapsk) => Some(Tree::Text("wpapsk"@)),
                None => None,
            }
            &&& lookup(asked, "ssid"@) == match changes.ssid {
                Some(text) => Some(Tree::Text(text@)),
                None => None,
            }
        }),
{
    lemma_field_names_differ();
    let asked = fields(requested@);
    reveal_with_fuel(lookup, 7);
    let a = crate::encode::present("enabled"@, crate::encode::some_flag(changes.enabled));
    let b = crate::encode::present("hidden"@, crate::encode::some_flag(changes.hidden));
    let c = crate::encode::present(
        "passphrase"@,
        crate::encode::some_text(opt_string(changes.passphrase)),
    );
    let d = crate::encode::present(
        "security"@,
        crate::encode::some_text(crate::wlans::mode_text(changes.security)),
    );
    let e = crate::encode::present("ssid"@, crate::encode::some_text(opt_string(changes.ssid)));
    assert(asked == a + b + c + d + e);
    lemma_lookup_joined(a + b + c + d, e, "enabled"@);
    lemma_lookup_joined(a + b + c + d, e, "hidden"@);
    lemma_lookup_joined(a + b + c + d, e, "passphrase"@);
    lemma_lookup_joined(a + b + c + d, e, "security"@);
    lemma_lookup_joined(a + b + c + d, e, "ssid"@);
    lemma_lookup_joined(a + b + c, d, "enabled"@);
    lemma_lookup_joined(a + b + c, d, "hidden"@);
    lemma_lookup_joined(a + b + c, d, "passphrase"@);
    lemma_lookup_joined(a + b + c, d, "security"@);
    lemma_lookup_joined(a + b + c, d, "ssid"@);
    lemma_lookup_joined(a + b, c, "enabled"@);
    lemma_lookup_joined(a + b, c, "hidden"@);
    lemma_lookup_joined(a + b, c, "passphrase"@);
    lemma_lookup_joined(a + b, c, "security"@);
    lemma_lookup_joined(a + b, c, "ssid"@);
    lemma_lookup_joined(a, b, "enabled"@);
    lemma_lookup_joined(a, b, "hidden"@);
    lemma_lookup_joined(a, b, "passphrase"@);
    lemma_lookup_joined(a, b, "security"@);
    lemma_lookup_joined(a, b, "ssid"@);
}

proof fn lemma_lookup_joined(
    a: Seq<(Seq<char>, Tree)>,
    b: Seq<(Seq<char>, Tree)>,
    name: Seq<char>,
)
    ensures
        lookup(a + b, name) == match lookup(a, name) {
            Some(value) => Some(value),
            None => lookup(b, name),
        },
    decreases a.len(),
{
    if a.len() == 0 {
        assert(a + b =~= b);
    } else {
        assert((a + b)[0] == a[0]);
        assert((a + b).drop_first() =~= a.drop_first() + b);
        lemma_lookup_joined(a.drop_first(), b, name);
    }
}

/// A wireless network is compared by its own name, switch, visibility,
/// security, key and network.
pub proof fn law_wlan_state_holds_its_fields(wlan: &WlanConf, value: Json)
    requires
        call_ensures(wlan_projection, (wlan,), value),
    ensures
        property(value@, "enabled"@) == Some(
            match wlan.enabled {
                Some(flag) => Tree::Bool(flag),
                None => Tree::Null,
            },
        ),
        property(value@, "hidden"@) == Some(
            match wlan.hide_ssid {
                Some(flag) => Tree::Bool(flag),
                None => Tree::Null,
            },
        ),
        property(value@, "passphrase"@) == Some(
            match wlan.x_passphrase {
                Some(text) => Tree::Text(text@),
                None => Tree::Null,
            },
        ),
        property(value@, "security"@) == Some(
            match wlan.security {
                Some(text) => Tree::Text(text@),
                None => Tree::Null,
            },
        ),
        property(value@, "ssid"@) == Some(
            match wlan.name {
                Some(text) => Tree::Text(text@),
                None => Tree::Null,
            },
        ),
{
    lemma_field_names_differ();
    reveal_with_fuel(lookup, 7);
}

/// A change is refused where it changes nothing or would leave the network
/// encrypted without a key; otherwise what is asked for and what is sent are
/// those of the change.
pub proof fn law_wlan_updates_are_planned(
    input: &WlansUpdateInput,
    result: Result<WlanUpdate, ToolError>,
)
    requires
        call_ensures(plan_wlans_update, (input,), result),
    ensures
        result is Err <==> {
            ||| input.changes.ssid is None && input.changes.enabled is None
                && input.changes.security is None && input.changes.hidden is None
                && input.changes.passphrase is None
            ||| input.changes.security == Some(WlanSecurity::Wpapsk)
                && input.changes.passphrase is None
        },
        result matches Err(error) ==> error.kind == ErrorKind::InvalidParams,
        result matches Ok(update) ==> {
            &&& update.patch.name == input.changes.ssid
            &&& update.patch.enabled == input.changes.enabled
            &&& update.patch.x_passphrase == input.changes.passphrase
            &&& update.patch.hide_ssid == input.changes.hidden
            &&& update.patch.security is Some <==> input.changes.security is Some
        },
{
}

/// A change warns where it turns the network off, opens it, or makes every
/// client reconnect, and only of what would really move.
pub proof fn law_wlan_warnings_name_the_consequences(
    requested: &Vec<Member>,
    current: &Json,
    warnings: Vec<String>,
    enabled: bool,
    security: bool,
    ssid: bool,
    passphrase: bool,
)
    requires
        call_ensures(wlan_warnings, (requested, current), warnings),
        call_ensures(changing, (requested, current, "enabled"), enabled),
        call_ensures(changing, (requested, current, "security"), security),
        call_ensures(changing, (requested, current, "ssid"), ssid),
        call_ensures(changing, (requested, current, "passphrase"), passphrase),
    ensures
        ({
            let said = texts(warnings@);
            let asked = fields(requested@);
            let dropping = enabled && lookup(asked, "enabled"@) == Some(Tree::Bool(false));
            let opening = security && lookup(asked, "security"@) == Some(Tree::Text("open"@));
            let moving = ssid || passphrase || security;
            &&& said.contains("disabling the network drops every client on it"@) <==> dropping
            &&& said.contains("switching to open removes encryption from this network"@) <==> opening
            &&& said.contains("every client must reconnect after this change"@) <==> moving
            &&& said.len() == (if dropping {
                1int
            } else {
                0
            }) + (if opening {
                1int
            } else {
                0
            }) + (if moving {
                1int
            } else {
                0
            })
        }),
{
    let said = texts(warnings@);
    reveal_strlit("disabling the network drops every client on it");
    reveal_strlit("switching to open removes encryption from this network");
    reveal_strlit("every client must reconnect after this change");
    let a = "disabling the network drops every client on it"@;
    let b = "switching to open removes encryption from this network"@;
    let c = "every client must reconnect after this change"@;
    assert(a[0] == 'd' && b[0] == 's' && c[0] == 'e');
    if said.len() > 0 {
        assert(said.contains(said[0]));
    }
    if said.len() > 1 {
        assert(said.contains(said[1]));
    }
    if said.len() > 2 {
        assert(said.contains(said[2]));
    }
}

/// A confirmed change sends the planned patch; any other sends nothing.
pub proof fn law_wlan_changes_are_sent_when_confirmed(
    input: &WlansUpdateInput,
    update: WlanUpdate,
    current: &WlanConf,
    result: Result<WlanStep, ToolError>,
)
    requires
        call_ensures(wlans_update, (input, update, current), result),
    ensures
        input.confirm == Some(true) ==> result is Ok && result->Ok_0 == WlanStep::Send(
            update.patch,
        ),
        input.confirm != Some(true) ==> !(result is Ok && result->Ok_0 is Send),
{
}

/// The keys kept out of an answer are the one asked for and the one in use,
/// where they are not empty.
pub proof fn law_wlan_secrets_are_the_keys(
    changes: &WlanChanges,
    current: &WlanConf,
    keys: Vec<String>,
    key: Seq<char>,
)
    requires
        call_ensures(wlan_secrets, (changes, current), keys),
    ensures
        texts(keys@).contains(key) <==> key.len() > 0 && ((changes.passphrase is Some
            && changes.passphrase->Some_0@ == key) || (current.x_passphrase is Some
            && current.x_passphrase->Some_0@ == key)),
{
    let all = texts(keys@);
    let a = crate::wlans::key_in(opt_string(changes.passphrase));
    let b = crate::wlans::key_in(opt_string(current.x_passphrase));
    assert(all == a + b);
    if a.len() > 0 {
        assert(all[0] == a[0]);
        assert(all.contains(a[0]));
    }
    if b.len() > 0 {
        assert(all[a.len() as int] == b[0]);
        assert(all.contains(b[0]));
    }
}

// ---------------------------------------------------------------------------
// Port forwards
// ---------------------------------------------------------------------------

/// A change of a port forward is refused where it changes nothing; otherwise
/// its name and its switch are asked for and sent as they were given.
pub proof fn law_forward_updates_are_planned(
    input: &PortForwardsUpdateInput,
    result: Result<PortForwardUpdate, ToolError>,
)
    requires
        call_ensures(plan_port_forwards_update, (input,), result),
    ensures
        result is Err <==> input.changes.name is None && input.changes.enabled is None,
        result matches Err(error) ==> error.kind == ErrorKind::InvalidParams,
        result matches Ok(update) ==> {
            let asked = fields(update.requested@);
            &&& update.patch.name == input.changes.name
            &&& update.patch.enabled == input.changes.enabled
            &&& lookup(asked, "enabled"@) == match input.changes.enabled {
                Some(flag) => Some(Tree::Bool(flag)),
                None => None,
            }
            &&& lookup(asked, "name"@) == match input.changes.name {
                Some(text) => Some(Tree::Text(text@)),
                None => None,
            }
        },
{
    if result is Ok {
        lemma_field_names_differ();
        reveal_with_fuel(lookup, 4);
        let a = crate::encode::present("enabled"@, crate::encode::some_flag(input.changes.enabled));
        let b = crate::encode::present(
            "name"@,
            crate::encode::some_text(opt_string(input.changes.name)),
        );
        lemma_lookup_joined(a, b, "enabled"@);
        lemma_lookup_joined(a, b, "name"@);
    }
}

/// A confirmed change sends the planned patch; any other sends nothing and
/// shows the rule as it is.
pub proof fn law_forward_changes_are_sent_when_confirmed(
    input: &PortForwardsUpdateInput,
    update: PortForwardUpdate,
    current: PortForward,
    step: PortForwardStep,
)
    requires
        call_ensures(port_forwards_update, (input, update, current), step),
    ensures
        step is Send <==> input.confirm == Some(true),
        step matches PortForwardStep::Send(patch) ==> patch == update.patch,
        step matches PortForwardStep::Answer(output) ==> {
            &&& !output.report.applied
            &&& output.report.verified is None
            &&& output.forward.id == current.id
            &&& output.forward.name == current.name
            &&& output.forward.enabled == current.enabled
            &&& output.forward.source == current.src
            &&& output.forward.forward_to == current.fwd
            &&& output.forward.forward_port == current.fwd_port
            &&& output.forward.destination_port == current.dst_port
            &&& output.forward.protocol == current.proto
        },
{
    if step is Answer {
        let report = step->Answer_0.report;
        assert(report.applied == report@.applied && report.verified == report@.verified);
    }
}

/// The answer of a change shows the rule as it is afterwards, and was applied.
pub proof fn law_forward_answers_show_the_rule_afterwards(
    input: &PortForwardsUpdateInput,
    before: &PortForward,
    after: PortForward,
    changed: Vec<String>,
    output: PortForwardsUpdateOutput,
)
    requires
        call_ensures(port_forwards_updated, (input, before, after, changed), output),
    ensures
        output.report.applied,
        output.report.verified is Some,
        output.forward.id == after.id,
        output.forward.name == after.name,
        output.forward.enabled == after.enabled,
        output.forward.source == after.src,
        output.forward.forward_to == after.fwd,
        output.forward.forward_port == after.fwd_port,
        output.forward.destination_port == after.dst_port,
        output.forward.protocol == after.proto,
{
    assert(output.report.applied == output.report@.applied);
    assert(output.report.verified == output.report@.verified);
}

/// A change warns of exposure where it turns a rule on and of loss where it
/// turns one off, and of nothing where the switch does not move.
pub proof fn law_forward_warnings_name_the_consequences(
    requested: &Vec<Member>,
    current: &Json,
    warnings: Vec<String>,
    moving: bool,
)
    requires
        call_ensures(port_forward_warnings, (requested, current), warnings),
        call_ensures(changing, (requested, current, "enabled"), moving),
    ensures
        !moving ==> warnings@.len() == 0,
        moving ==> warnings@.len() == 1,
        moving && lookup(fields(requested@), "enabled"@) == Some(Tree::Bool(false))
            ==> warnings@[0]@
            == "disabling the rule stops forwarding traffic to the internal host, so whatever reaches it through this rule stops working"@,
        moving && lookup(fields(requested@), "enabled"@) != Some(Tree::Bool(false))
            ==> warnings@[0]@
            == "enabling the rule exposes the internal host's port to the source this rule allows, which is the whole internet unless source is narrowed"@,
{
    let said = texts(warnings@);
    assert(said.len() == warnings@.len());
    if said.len() > 0 {
        assert(said[0] == warnings@[0]@);
    }
}

// ---------------------------------------------------------------------------
// Firewall policies
// ---------------------------------------------------------------------------

/// A whole number is read where a text is decimal digits alone and fits, and
/// is then the number they write.
pub proof fn law_whole_numbers_are_read_from_digits(text: &str, number: Option<u64>)
    requires
        call_ensures(whole_number, (text,), number),
    ensures
        number is Some <==> text@.len() > 0 && (forall|i: int|
            0 <= i < text@.len() ==> '0' <= #[trigger] text@[i] <= '9') && read_back(text@)
            <= 0xffff_ffff_ffff_ffff,
        number matches Some(value) ==> value == read_back(text@),
{
    if forall|i: int| 0 <= i < text@.len() ==> '0' <= #[trigger] text@[i] <= '9' {
        lemma_digits(text@);
        assert forall|i: int| 0 <= i < text@.len() implies crate::policies::is_digit(
            #[trigger] text@[i],
        ) by {
            assert('0' <= text@[i] <= '9');
        }
    } else {
        let i = choose|i: int| 0 <= i < text@.len() && !('0' <= #[trigger] text@[i] <= '9');
        assert(!crate::policies::is_digit(text@[i]));
    }
}

proof fn lemma_digits(text: Seq<char>)
    requires
        forall|i: int| 0 <= i < text.len() ==> '0' <= #[trigger] text[i] <= '9',
    ensures
        crate::policies::digits_value(text) == read_back(text),
    decreases text.len(),
{
    if text.len() > 0 {
        let rest = text.drop_last();
        assert forall|i: int| 0 <= i < rest.len() implies '0' <= #[trigger] rest[i] <= '9' by {
            assert(rest[i] == text[i]);
        }
        assert('0' <= text[text.len() - 1] <= '9');
        lemma_digits(rest);
    }
}

/// Whether the property at a position is the first of its name in a record.
pub open spec fn is_first(record: Seq<ParsedProperty>, k: int, name: Seq<char>) -> bool {
    &&& 0 <= k < record.len()
    &&& record[k].name@ == name
    &&& forall|i: int| 0 <= i < k ==> (#[trigger] record[i]).name@ != name
}

proof fn lemma_read_first(record: Seq<ParsedProperty>, k: int, name: Seq<char>)
    requires
        is_first(record, k, name),
    ensures
        crate::policies::read_at(record_of(record), name) == Some(record[k].reading@),
    decreases record.len(),
{
    let all = record_of(record);
    assert(all[0] == (record[0].name@, record[0].reading@));
    if k > 0 {
        let rest = record.drop_first();
        assert(record[0].name@ != name);
        assert(all.drop_first() =~= record_of(rest));
        assert(rest[k - 1] == record[k]);
        assert forall|i: int| 0 <= i < k - 1 implies (#[trigger] rest[i]).name@ != name by {
            assert(rest[i] == record[i + 1]);
        }
        lemma_read_first(rest, k - 1, name);
    }
}

proof fn lemma_read_none(record: Seq<ParsedProperty>, name: Seq<char>)
    requires
        forall|i: int| 0 <= i < record.len() ==> (#[trigger] record[i]).name@ != name,
    ensures
        crate::policies::read_at(record_of(record), name) is None,
    decreases record.len(),
{
    let all = record_of(record);
    if record.len() > 0 {
        let rest = record.drop_first();
        assert(all[0] == (record[0].name@, record[0].reading@));
        assert(record[0].name@ != name);
        assert(all.drop_first() =~= record_of(rest));
        assert forall|i: int| 0 <= i < rest.len() implies (#[trigger] rest[i]).name@ != name by {
            assert(rest[i] == record[i + 1]);
        }
        lemma_read_none(rest, name);
    }
}

/// The view of a policy shows the texts, the switch and the index of its
/// record, each from the property of its name, and what is not of that kind as
/// absent; a policy that does not state its id has the one it was asked for
/// by.
pub proof fn law_policy_view_shows_the_record(
    id: &str,
    record: &Vec<ParsedProperty>,
    view: PolicyView,
    k: int,
)
    requires
        call_ensures(policy_view_from_record, (id, record), view),
    ensures
        is_first(record@, k, "id"@) ==> (record@[k].reading matches Reading::Text(text)
            ==> view.id@ == text@),
        is_first(record@, k, "id"@) && !(record@[k].reading is Text) ==> view.id@ == id@,
        is_first(record@, k, "name"@) ==> shows_text(view.name, record@[k].reading),
        is_first(record@, k, "action"@) ==> shows_text(view.action, record@[k].reading),
        is_first(record@, k, "ipProtocolScope"@) ==> shows_text(
            view.ip_protocol_scope,
            record@[k].reading,
        ),
        is_first(record@, k, "enabled"@) ==> {
            &&& record@[k].reading matches Reading::Flag(flag) ==> view.enabled == Some(flag)
            &&& !(record@[k].reading is Flag) ==> view.enabled is None
        },
        is_first(record@, k, "index"@) ==> {
            &&& record@[k].reading matches Reading::Number(Some(number)) ==> if number
                <= 0xffff_ffff {
                view.index is Some && view.index->Some_0 == number
            } else {
                view.index is None
            }
            &&& !(record@[k].reading is Number) ==> view.index is None
            &&& record@[k].reading == Reading::Number(None) ==> view.index is None
        },
{
    if is_first(record@, k, "id"@) {
        lemma_read_first(record@, k, "id"@);
    }
    if is_first(record@, k, "name"@) {
        lemma_read_first(record@, k, "name"@);
    }
    if is_first(record@, k, "action"@) {
        lemma_read_first(record@, k, "action"@);
    }
    if is_first(record@, k, "ipProtocolScope"@) {
        lemma_read_first(record@, k, "ipProtocolScope"@);
    }
    if is_first(record@, k, "enabled"@) {
        lemma_read_first(record@, k, "enabled"@);
    }
    if is_first(record@, k, "index"@) {
        lemma_read_first(record@, k, "index"@);
    }
}

/// Whether a shown text is that of a reading, and absent where that is no
/// text.
pub open spec fn shows_text(shown: Option<String>, reading: Reading) -> bool {
    &&& reading matches Reading::Text(text) ==> shown is Some && shown->Some_0@ == text@
    &&& !(reading is Text) ==> shown is None
}

/// The sides of a policy are shown from the properties of those names: the
/// source's as the source's and the destination's as the destination's.
pub proof fn law_policy_view_shows_both_sides(
    id: &str,
    record: &Vec<ParsedProperty>,
    view: PolicyView,
    k: int,
    s: int,
)
    requires
        call_ensures(policy_view_from_record, (id, record), view),
        0 <= k < record@.len(),
        record@[k].reading is Object,
        0 <= s < record@[k].reading->Object_0@.len(),
        forall|i: int|
            0 <= i < s ==> (#[trigger] record@[k].reading->Object_0@[i]).name@
                != record@[k].reading->Object_0@[s].name@,
    ensures
        ({
            let side = record@[k].reading->Object_0@[s];
            &&& is_first(record@, k, "source"@) && side.name@ == "zoneId"@ ==> opt_string(
                view.source_zone_id,
            ) == opt_string(side.text)
            &&& is_first(record@, k, "source"@) && side.name@ == "port"@ ==> opt_string(
                view.source_port,
            ) == opt_string(side.text)
            &&& is_first(record@, k, "destination"@) && side.name@ == "zoneId"@ ==> opt_string(
                view.destination_zone_id,
            ) == opt_string(side.text)
            &&& is_first(record@, k, "destination"@) && side.name@ == "port"@ ==> opt_string(
                view.destination_port,
            ) == opt_string(side.text)
        }),
{
    let sides = record@[k].reading->Object_0@;
    let side = sides[s];
    lemma_side(sides, s);
    if is_first(record@, k, "source"@) {
        lemma_read_first(record@, k, "source"@);
    }
    if is_first(record@, k, "destination"@) {
        lemma_read_first(record@, k, "destination"@);
    }
}

proof fn lemma_side(sides: Seq<crate::policies::SideProperty>, s: int)
    requires
        0 <= s < sides.len(),
        forall|i: int| 0 <= i < s ==> (#[trigger] sides[i]).name@ != sides[s].name@,
    ensures
        crate::policies::side_at(
            sides.map_values(|side: crate::policies::SideProperty| side@),
            sides[s].name@,
        ) == opt_string(sides[s].text),
    decreases sides.len(),
{
    let all = sides.map_values(|side: crate::policies::SideProperty| side@);
    assert(all[0] == (sides[0].name@, opt_string(sides[0].text)));
    if s > 0 {
        let rest = sides.drop_first();
        assert(sides[0].name@ != sides[s].name@);
        assert(rest[s - 1] == sides[s]);
        assert(all.drop_first() =~= rest.map_values(
            |side: crate::policies::SideProperty| side@,
        ));
        assert forall|i: int| 0 <= i < s - 1 implies (#[trigger] rest[i]).name@ != rest[s
            - 1].name@ by {
            assert(rest[i] == sides[i + 1]);
        }
        lemma_side(rest, s - 1);
    }
}

/// A change of the switch is asked for where it is given.
pub proof fn law_the_switch_asked_for_is_the_one_given(
    input: &FirewallPoliciesUpdateInput,
    result: Result<bool, ToolError>,
)
    requires
        call_ensures(wanted_position, (input,), result),
    ensures
        result is Ok <==> input.changes.enabled is Some,
        result matches Ok(wanted) ==> input.changes.enabled == Some(wanted),
        result matches Err(error) ==> error.kind == ErrorKind::InvalidParams,
{
}

/// What is sent is the record as it was read, with the switch as it is wanted:
/// every other property keeps its text.
pub proof fn law_resends_move_the_switch_alone(
    raw: &Vec<RawProperty>,
    wanted: bool,
    sent: Vec<RawProperty>,
    other: Seq<char>,
)
    requires
        call_ensures(flipped, (raw, wanted), sent),
    ensures
        raw_at(raw_of(sent@), "enabled"@) == Some(
            if wanted {
                "true"@
            } else {
                "false"@
            },
        ),
        other != "enabled"@ ==> raw_at(raw_of(sent@), other) == raw_at(raw_of(raw@), other),
{
    crate::policies::law_resend_changes_one_property_only(
        raw_of(raw@),
        "enabled"@,
        crate::policies::literal(wanted),
        other,
    );
}

/// A policy is sent exactly where the change is confirmed and its switch does
/// not already stand as wanted; the answer otherwise says nothing was applied.
pub proof fn law_policies_are_sent_when_confirmed_and_moving(
    input: &FirewallPoliciesUpdateInput,
    wanted: bool,
    raw: &Vec<RawProperty>,
    record: &Vec<ParsedProperty>,
    step: PolicyStep,
    k: int,
)
    requires
        call_ensures(policy_step, (input, wanted, raw, record), step),
        is_first(record@, k, "enabled"@),
    ensures
        step is Send <==> input.confirm == Some(true) && record@[k].reading != Reading::Flag(
            wanted,
        ),
        step matches PolicyStep::Send(sent) ==> raw_at(raw_of(sent@), "enabled"@) == Some(
            if wanted {
                "true"@
            } else {
                "false"@
            },
        ),
        step matches PolicyStep::Answer(output) ==> !output.report.applied
            && output.report.verified is None,
{
    lemma_read_first(record@, k, "enabled"@);
    crate::policies::law_resend_changes_one_property_only(
        raw_of(raw@),
        "enabled"@,
        crate::policies::literal(wanted),
        "enabled"@,
    );
    if step is Answer {
        let report = step->Answer_0.report;
        assert(report.applied == report@.applied && report.verified == report@.verified);
    }
}

/// The judgement of a policy was applied, shows the policy as it is
/// afterwards, and certifies the write where the switch stands as wanted and
/// nothing else moved.
pub proof fn law_policies_are_judged_by_the_read_back(
    input: &FirewallPoliciesUpdateInput,
    wanted: bool,
    before: &Vec<ParsedProperty>,
    after: &Vec<ParsedProperty>,
    changed: Vec<String>,
    output: FirewallPoliciesUpdateOutput,
    k: int,
)
    requires
        call_ensures(judge_policy, (input, wanted, before, after, changed), output),
        is_first(after@, k, "enabled"@),
    ensures
        output.report.applied,
        output.report.verified is Some,
        output.report.verified->Some_0 <==> after@[k].reading == Reading::Flag(wanted) && forall|
            i: int,
        |
            0 <= i < changed@.len() ==> (#[trigger] changed@[i])@ == "enabled"@,
        after@[k].reading matches Reading::Flag(flag) ==> output.policy.enabled == Some(flag),
{
    let report = output.report@;
    lemma_read_first(after@, k, "enabled"@);
    assert(output.report.applied == report.applied && output.report.verified == report.verified);
    let requested = crate::policies::policy_requested(wanted);
    assert(requested[0] == ("enabled"@, Tree::Bool(wanted)));
    let state = crate::policies::policy_state(record_of(after@));
    reveal_with_fuel(lookup, 2);
    let outcomes = crate::mutation::verified(
        requested,
        crate::policies::policy_state(record_of(before@)),
        state,
        Seq::empty(),
    );
    assert(outcomes.len() == 1);
    assert(outcomes[0].status == FieldStatus::Persisted <==> after@[k].reading == Reading::Flag(
        wanted,
    ));
    let names = crate::policies::policy_properties();
    reveal_with_fuel(wire_property, 2);
    let all = texts(changed@);
    let rest = crate::changes::unrequested(all, requested, names);
    assert forall|property: Seq<char>|
        crate::changes::asked_for(property, requested, names) == (property == "enabled"@) by {
        if property == "enabled"@ {
            assert(wire_property(names, requested[0].0) == Some(property));
        }
    }
    if rest.len() > 0 {
        assert(rest.contains(rest[0]));
        crate::changes::law_requested_properties_are_no_collateral(all, requested, names, rest[0]);
        let i = choose|i: int| 0 <= i < all.len() && all[i] == rest[0];
        assert(changed@[i]@ != "enabled"@);
    } else {
        assert forall|i: int| 0 <= i < changed@.len() implies (#[trigger] changed@[i])@
            == "enabled"@ by {
            assert(all[i] == changed@[i]@);
            assert(all.contains(all[i]));
            crate::changes::law_requested_properties_are_no_collateral(
                all,
                requested,
                names,
                all[i],
            );
        }
    }
}

/// Whether two texts are the same but for the case of ASCII letters.
pub open spec fn reads_as(word: Seq<char>, lower: Seq<char>) -> bool {
    crate::text::ascii_lowercase(word) == lower
}

/// A change of the switch warns of what the policy does with traffic, and that
/// the whole policy is resent; it warns of nothing where the switch does not
/// move.
pub proof fn law_policy_warnings_name_the_consequences(
    wanted: bool,
    record: &Vec<ParsedProperty>,
    warnings: Vec<String>,
    k: int,
    a: int,
)
    requires
        call_ensures(firewall_policy_warnings, (wanted, record), warnings),
        is_first(record@, k, "enabled"@),
        is_first(record@, a, "action"@),
        record@[a].reading is Text,
    ensures
        record@[k].reading == Reading::Flag(wanted) ==> warnings@.len() == 0,
        record@[k].reading != Reading::Flag(wanted) ==> {
            let word = record@[a].reading->Text_0@;
            let blocks = reads_as(word, "block"@) || reads_as(word, "reject"@) || reads_as(
                word,
                "drop"@,
            );
            let allows = reads_as(word, "allow"@) || reads_as(word, "accept"@);
            &&& warnings@.len() == 2
            &&& warnings@[1]@
                == "this change resends the whole policy as it was just read, so an edit made elsewhere between that read and this write is overwritten"@
            &&& blocks && !wanted ==> warnings@[0]@
                == "this policy blocks traffic; disabling it stops this policy from blocking, and whether that traffic is then allowed depends on the policies after it"@
            &&& blocks && wanted ==> warnings@[0]@
                == "this policy blocks traffic; enabling it blocks whatever reaches it and matches, unless an earlier policy allows that traffic first"@
            &&& allows && !wanted ==> warnings@[0]@
                == "this policy allows traffic; disabling it withdraws this policy's allowance, and the policies after it decide"@
            &&& allows && wanted ==> warnings@[0]@
                == "this policy allows traffic; enabling it allows whatever reaches it and matches, unless an earlier policy blocks that traffic first"@
            &&& !blocks && !allows ==> warnings@[0]@
                == "the controller reports no action this server recognizes for this policy, so whether the change permits or blocks traffic could not be stated"@
        },
{
    lemma_read_first(record@, k, "enabled"@);
    lemma_read_first(record@, a, "action"@);
    reveal_strlit("block");
    reveal_strlit("reject");
    reveal_strlit("drop");
    reveal_strlit("allow");
    reveal_strlit("accept");
    assert("block"@.len() == 5 && "reject"@.len() == 6 && "drop"@.len() == 4);
    assert("allow"@.len() == 5 && "accept"@.len() == 6);
    assert("block"@[0] == 'b' && "allow"@[0] == 'a');
    assert("reject"@[0] == 'r' && "accept"@[0] == 'a');
    let said = texts(warnings@);
    assert(said.len() == warnings@.len());
    if said.len() == 2 {
        assert(said[0] == warnings@[0]@ && said[1] == warnings@[1]@);
    }
}

// ---------------------------------------------------------------------------
// Vouchers
// ---------------------------------------------------------------------------

/// A batch is accepted where it has 1 to 100 vouchers of 1 to 10,080 minutes
/// and a name that is neither blank nor too long, and is then as it was asked
/// for, its name without the white space around it.
pub proof fn law_voucher_batches_are_bounded(
    input: &VouchersCreateInput,
    result: Result<VoucherBatch, ToolError>,
)
    requires
        call_ensures(voucher_batch, (input,), result),
    ensures
        result is Ok <==> {
            &&& 1 <= input.count <= 100
            &&& 1 <= input.time_limit_minutes <= 10_080
            &&& !is_blank(input.name@) && crate::text::byte_len(trimmed(input.name@)) <= 128
        },
        result matches Err(error) ==> error.kind == ErrorKind::InvalidParams,
        result matches Ok(batch) ==> {
            &&& batch.name@ == trimmed(input.name@)
            &&& batch.count == input.count
            &&& batch.time_limit_minutes == input.time_limit_minutes
            &&& batch.guest_limit == input.guest_limit
            &&& batch.data_limit_megabytes == input.data_limit_megabytes
        },
{
    crate::text_laws::law_trimming_takes_white_space_off_the_ends(input.name@);
}

/// Vouchers are minted exactly where the batch is accepted and confirmed, as
/// many and of such limits as were asked for; otherwise the answer shows the
/// batch and that nothing was applied.
pub proof fn law_vouchers_are_minted_when_confirmed(
    input: &VouchersCreateInput,
    batch: Result<VoucherBatch, ToolError>,
    result: Result<VoucherStep, ToolError>,
)
    requires
        call_ensures(voucher_batch, (input,), batch),
        call_ensures(vouchers_create, (input,), result),
    ensures
        result is Ok <==> batch is Ok,
        result matches Ok(step) ==> (step is Mint <==> input.confirm == Some(true)),
        result matches Ok(VoucherStep::Mint(order)) ==> {
            &&& order.name@ == trimmed(input.name@)
            &&& order.count == input.count
            &&& order.time_limit_minutes == input.time_limit_minutes
            &&& order.authorized_guest_limit == input.guest_limit
            &&& order.data_usage_limit_m_bytes == input.data_limit_megabytes
        },
        result matches Ok(VoucherStep::Answer(output)) ==> {
            &&& !output.applied
            &&& output.requested == input.count
            &&& output.vouchers is None && output.checks is None && output.well_formed is None
            &&& output.batch.name@ == trimmed(input.name@)
            &&& output.batch.count == input.count
            &&& output.batch.time_limit_minutes == input.time_limit_minutes
            &&& output.batch.guest_limit == input.guest_limit
            &&& output.batch.data_limit_megabytes == input.data_limit_megabytes
            &&& output.warnings@.len() == 2
        },
{
    if result is Ok && result->Ok_0 is Answer {
        assert(texts(result->Ok_0->Answer_0.warnings@).len() == 2);
    }
}

/// The checks say of the vouchers what holds of them: whether there are as
/// many as were asked for, each has an id and a code, no two codes are the
/// same, and each code is short, without white space and not redacted.
pub proof fn law_voucher_checks_say_what_holds(
    requested: u32,
    vouchers: &Vec<VoucherView>,
    checks: VoucherChecks,
)
    requires
        call_ensures(voucher_checks, (requested, vouchers), checks),
    ensures
        checks.count_matches <==> vouchers@.len() == requested,
        checks.all_identified <==> forall|i: int|
            0 <= i < vouchers@.len() ==> (#[trigger] vouchers@[i]).id is Some
                && vouchers@[i].id->Some_0@.len() > 0 && vouchers@[i].code@.len() > 0,
        checks.all_distinct <==> forall|i: int, j: int|
            0 <= i < j < vouchers@.len() ==> (#[trigger] vouchers@[i]).code@ != (
            #[trigger] vouchers@[j]).code@,
        checks.all_well_formed <==> forall|i: int|
            0 <= i < vouchers@.len() ==> {
                let code = (#[trigger] vouchers@[i]).code@;
                &&& 1 <= code.len() <= 64
                &&& forall|c: int|
                    0 <= c < code.len() ==> !crate::text::is_white_space(#[trigger] code[c])
                &&& !contains(code, "[redacted]"@)
            },
        forall|i: int|
            0 <= i < vouchers@.len() ==> checks.code_lengths@.contains(
                (#[trigger] vouchers@[i]).code@.len() as usize,
            ),
        forall|i: int, j: int|
            0 <= i < j < checks.code_lengths@.len() ==> checks.code_lengths@[i]
                < checks.code_lengths@[j],
{
    assert forall|i: int| 0 <= i < vouchers@.len() implies (crate::vouchers::identified(
        #[trigger] vouchers@[i],
    ) == (vouchers@[i].id is Some && vouchers@[i].id->Some_0@.len() > 0 && vouchers@[i].code@.len()
        > 0)) by {}
    assert forall|i: int| 0 <= i < vouchers@.len() implies (crate::vouchers::code_well_formed(
        (#[trigger] vouchers@[i]).code@,
    ) == {
        let code = vouchers@[i].code@;
        &&& 1 <= code.len() <= 64
        &&& forall|c: int| 0 <= c < code.len() ==> !crate::text::is_white_space(#[trigger] code[c])
        &&& !contains(code, "[redacted]"@)
    }) by {}
}

/// The answer of a minted batch shows every voucher in order, its id and its
/// code as they were created where they hold no secret; it is well formed
/// where all of its checks hold.
pub proof fn law_minted_vouchers_are_shown(
    input: &VouchersCreateInput,
    batch: VoucherBatch,
    created: Vec<CreatedVoucher>,
    secrets: &Vec<String>,
    output: VouchersCreateOutput,
    i: int,
)
    requires
        call_ensures(vouchers_created, (input, batch, created, secrets), output),
        0 <= i < created@.len(),
    ensures
        output.applied,
        output.batch == batch,
        output.requested == input.count,
        output.vouchers is Some && output.vouchers->Some_0@.len() == created@.len(),
        output.checks is Some,
        output.well_formed == Some(
            output.checks->Some_0.count_matches && output.checks->Some_0.all_identified
                && output.checks->Some_0.all_distinct && output.checks->Some_0.all_well_formed,
        ),
        output.checks->Some_0.count_matches <==> created@.len() == input.count,
        ({
            let view = output.vouchers->Some_0@[i];
            let voucher = created@[i];
            let hidden = |text: Seq<char>|
                exists|k: int|
                    0 <= k < secrets@.len() && (#[trigger] secrets@[k])@.len() > 0 && contains(
                        text,
                        secrets@[k]@,
                    );
            &&& voucher.id is None ==> view.id is None
            &&& voucher.id is Some && hidden(voucher.id->Some_0@) ==> view.id is None
            &&& voucher.id is Some && !hidden(voucher.id->Some_0@) ==> view.id is Some
                && view.id->Some_0@ == voucher.id->Some_0@
            &&& voucher.code is Some && !hidden(voucher.code->Some_0@) ==> view.code@
                == voucher.code->Some_0@
            &&& voucher.code is None && !hidden(Seq::empty()) ==> view.code@.len() == 0
        }),
{
    let list = texts(secrets@);
    let view = output.vouchers->Some_0@[i];
    assert(crate::vouchers::settles(
        output.vouchers->Some_0@[i],
        created@[i],
        texts(secrets@),
    ));
    assert forall|text: Seq<char>| #[trigger] crate::redaction::discloses(text, list) == exists|
        k: int,
    |
        0 <= k < secrets@.len() && (#[trigger] secrets@[k])@.len() > 0 && contains(
            text,
            secrets@[k]@,
        ) by {
        if crate::redaction::discloses(text, list) {
            let k = choose|k: int|
                0 <= k < list.len() && (#[trigger] list[k]).len() > 0 && contains(text, list[k]);
            assert(secrets@[k]@.len() > 0);
        }
        if exists|k: int|
            0 <= k < secrets@.len() && (#[trigger] secrets@[k])@.len() > 0 && contains(
                text,
                secrets@[k]@,
            ) {
            let k = choose|k: int|
                0 <= k < secrets@.len() && (#[trigger] secrets@[k])@.len() > 0 && contains(
                    text,
                    secrets@[k]@,
                );
            assert(list[k].len() > 0 && contains(text, list[k]));
        }
    }
}

// ---------------------------------------------------------------------------
// Names and arguments
// ---------------------------------------------------------------------------

/// The fields a change may name, and the controller's names for them.
pub proof fn law_changes_have_their_names(
    wlan_fields: Vec<&'static str>,
    wlan_secrets: Vec<String>,
    wlan_names: Vec<WireName>,
    forward_fields: Vec<&'static str>,
    forward_names: Vec<WireName>,
    policy_fields: Vec<&'static str>,
    policy_names: Vec<WireName>,
)
    requires
        call_ensures(wlan_change_fields, (), wlan_fields),
        call_ensures(wlan_secret_fields, (), wlan_secrets),
        call_ensures(wlan_wire_names, (), wlan_names),
        call_ensures(port_forward_change_fields, (), forward_fields),
        call_ensures(port_forward_wire_names, (), forward_names),
        call_ensures(firewall_policy_change_fields, (), policy_fields),
        call_ensures(policy_wire_names, (), policy_names),
    ensures
        words(wlan_fields@) == seq!["ssid"@, "enabled"@, "security"@, "hidden"@, "passphrase"@],
        texts(wlan_secrets@) == seq!["passphrase"@],
        words(forward_fields@) == seq!["name"@, "enabled"@],
        words(policy_fields@) == seq!["enabled"@],
        wire_property(wlan_names@, "ssid"@) == Some("name"@),
        wire_property(wlan_names@, "enabled"@) == Some("enabled"@),
        wire_property(wlan_names@, "security"@) == Some("security"@),
        wire_property(wlan_names@, "hidden"@) == Some("hide_ssid"@),
        wire_property(wlan_names@, "passphrase"@) == Some("x_passphrase"@),
        wire_property(forward_names@, "name"@) == Some("name"@),
        wire_property(forward_names@, "enabled"@) == Some("enabled"@),
        wire_property(policy_names@, "enabled"@) == Some("enabled"@),
{
    lemma_field_names_differ();
    reveal_with_fuel(wire_property, 7);
}

/// The arguments of a change are refused where a text in them holds the marker
/// or the change set names a field it does not accept, and only there.
pub proof fn law_arguments_are_refused_for_a_reason(
    arguments: &Json,
    wlan_fields: &Vec<&'static str>,
    forward_fields: &Vec<&'static str>,
    policy_fields: &Vec<&'static str>,
    marked: Result<(), ToolError>,
    wlan_known: Result<(), ToolError>,
    forward_known: Result<(), ToolError>,
    policy_known: Result<(), ToolError>,
    wlan: Result<(), ToolError>,
    forward: Result<(), ToolError>,
    policy: Result<(), ToolError>,
)
    requires
        words(wlan_fields@) == seq!["ssid"@, "enabled"@, "security"@, "hidden"@, "passphrase"@],
        words(forward_fields@) == seq!["name"@, "enabled"@],
        words(policy_fields@) == seq!["enabled"@],
        call_ensures(reject_redacted_input, (arguments,), marked),
        call_ensures(reject_unknown_change_fields, (arguments, wlan_fields), wlan_known),
        call_ensures(reject_unknown_change_fields, (arguments, forward_fields), forward_known),
        call_ensures(reject_unknown_change_fields, (arguments, policy_fields), policy_known),
        call_ensures(check_wlan_arguments, (arguments,), wlan),
        call_ensures(check_port_forward_arguments, (arguments,), forward),
        call_ensures(check_policy_arguments, (arguments,), policy),
    ensures
        wlan is Ok <==> marked is Ok && wlan_known is Ok,
        forward is Ok <==> marked is Ok && forward_known is Ok,
        policy is Ok <==> policy_known is Ok,
        marked matches Err(error) ==> wlan->Err_0.message@ == error.message@
            && forward->Err_0.message@ == error.message@,
{
}

/// Texts are joined in order with a separator between them.
pub proof fn law_texts_are_joined_in_order(
    list: &Vec<String>,
    separator: &str,
    text: String,
)
    requires
        call_ensures(join_texts, (list, separator), text),
    ensures
        list@.len() == 0 ==> text@.len() == 0,
        list@.len() == 1 ==> text@ == list@[0]@,
        list@.len() == 2 ==> text@ == list@[0]@ + separator@ + list@[1]@,
        list@.len() >= 2 ==> text@ == crate::changes::joined(
            texts(list@).drop_last(),
            separator@,
        ) + separator@ + list@[list@.len() - 1]@,
{
    let all = texts(list@);
    assert(all.len() == list@.len());
    if all.len() > 0 {
        assert(all[all.len() - 1] == list@[list@.len() - 1]@);
        assert(all[0] == list@[0]@);
    }
    if all.len() == 2 {
        assert(all.drop_last().len() == 1);
        assert(all.drop_last()[0] == list@[0]@);
        reveal_with_fuel(crate::changes::joined, 3);
    }
}

// ---------------------------------------------------------------------------
// States and answers
// ---------------------------------------------------------------------------

/// A port forward is compared by its own name and switch.
pub proof fn law_forward_state_holds_its_fields(forward: &PortForward, value: Json)
    requires
        call_ensures(port_forward_projection, (forward,), value),
    ensures
        property(value@, "enabled"@) == Some(
            match forward.enabled {
                Some(flag) => Tree::Bool(flag),
                None => Tree::Null,
            },
        ),
        property(value@, "name"@) == Some(
            match forward.name {
                Some(text) => Tree::Text(text@),
                None => Tree::Null,
            },
        ),
{
    lemma_field_names_differ();
    reveal_with_fuel(lookup, 3);
}

/// A policy is compared by the switch of its record, null where that is no
/// flag.
pub proof fn law_policy_state_holds_the_switch(record: &Vec<ParsedProperty>, value: Json, k: int)
    requires
        call_ensures(policy_projection, (record,), value),
        is_first(record@, k, "enabled"@),
    ensures
        record@[k].reading matches Reading::Flag(flag) ==> property(value@, "enabled"@) == Some(
            Tree::Bool(flag),
        ),
        !(record@[k].reading is Flag) ==> property(value@, "enabled"@) == Some(Tree::Null),
{
    lemma_read_first(record@, k, "enabled"@);
    reveal_with_fuel(lookup, 2);
}

/// A layer is read by its kind: a flag as the flag, a text as the text, a
/// number as the whole number its digits write, and null and a list as
/// neither.
pub proof fn law_layers_are_read_by_kind(
    layer: Layer,
    reading: Reading,
    digits: &str,
    number: Option<u64>,
)
    requires
        call_ensures(project, (layer,), reading),
        layer matches Layer::Number(text) ==> text@ == digits@,
        call_ensures(whole_number, (digits,), number),
    ensures
        layer matches Layer::Flag(flag) ==> reading == Reading::Flag(flag),
        layer matches Layer::Text(text) ==> reading is Text && reading->Text_0@ == text@,
        layer is Null || layer is Array ==> reading is Other,
        layer is Number ==> reading == Reading::Number(number),
        layer matches Layer::Object(properties) ==> reading is Object && reading->Object_0@.len()
            == properties@.len() && forall|i: int|
            0 <= i < properties@.len() ==> (#[trigger] reading->Object_0@[i]).name@
                == properties@[i].name@,
{
    if let Layer::Object(properties) = layer {
        let sides = reading->Object_0@;
        let shown = sides.map_values(|side: crate::policies::SideProperty| side@);
        let given = raw_of(properties@);
        assert(reading@ is Object);
        assert(shown == reading@->Object_0);
        assert(shown.len() == sides.len() && given.len() == properties@.len());
        assert forall|i: int| 0 <= i < properties@.len() implies (#[trigger] sides[i]).name@
            == properties@[i].name@ by {
            assert(shown[i] == sides[i]@);
            assert(given[i] == properties@[i]@);
        }
    }
}

/// A policy is changed and judged from its texts as from its parsed record.
pub proof fn law_policies_are_handled_as_parsed(
    input: &FirewallPoliciesUpdateInput,
    wanted: bool,
    raw: &Vec<RawProperty>,
    after: &Vec<RawProperty>,
    changed: Vec<String>,
    record: Vec<ParsedProperty>,
    then: Vec<ParsedProperty>,
    step: PolicyStep,
    parsed_step: PolicyStep,
    output: FirewallPoliciesUpdateOutput,
    parsed_output: FirewallPoliciesUpdateOutput,
)
    requires
        call_ensures(parsed_record, (raw,), record),
        call_ensures(parsed_record, (after,), then),
        call_ensures(firewall_policies_update, (input, wanted, raw), step),
        call_ensures(policy_step, (input, wanted, raw, &record), parsed_step),
        call_ensures(firewall_policies_updated, (input, wanted, raw, after, changed), output),
        call_ensures(judge_policy, (input, wanted, &record, &then, changed), parsed_output),
    ensures
        step is Send <==> parsed_step is Send,
        step is Send ==> raw_of(step->Send_0@) == raw_of(parsed_step->Send_0@),
        step is Answer ==> step->Answer_0.report@ == parsed_step->Answer_0.report@
            && step->Answer_0.policy.enabled == parsed_step->Answer_0.policy.enabled,
        output.report@ == parsed_output.report@,
        output.policy.enabled == parsed_output.policy.enabled,
        output.policy.id@ == parsed_output.policy.id@,
{
}

/// An answer about a wireless network is the scrubbed answer, or is withheld
/// where a key would still stand in it.
pub proof fn law_answers_are_scrubbed_or_withheld(
    secrets: &Vec<String>,
    output: Json,
    result: Result<Json, ToolError>,
)
    requires
        call_ensures(structured_without_secrets, (secrets, output), result),
    ensures
        result is Ok <==> !tree_discloses(
            scrubbed_tree(output@, texts(secrets@)),
            texts(secrets@),
        ),
        result matches Ok(value) ==> value@ == scrubbed_tree(output@, texts(secrets@)),
        result matches Err(error) ==> error.kind == ErrorKind::Internal && error.message@
            == "result withheld: credential material could not be redacted"@,
{
}

/// Whether an answer states a flag under a name.
pub open spec fn states_flag(answer: Tree, name: Seq<char>, flag: bool) -> bool {
    answer is Object && answer->Object_0.contains((name, Tree::Bool(flag)))
}

/// The answer of a change of a wireless network states that it was applied,
/// and certifies it where the network holds every value asked for and nothing
/// else moved.
pub proof fn law_wlan_answers_certify_what_persisted(
    input: &WlansUpdateInput,
    before: &WlanConf,
    after: &WlanConf,
    changed: Vec<String>,
    result: Result<Json, ToolError>,
)
    requires
        call_ensures(wlans_updated, (input, before, after, changed), result),
        result is Ok,
    ensures
        ({
            let asked = crate::wlans::wlan_requested(input.changes);
            let state = crate::wlans::wlan_state(*after);
            let certified = (forall|i: int|
                0 <= i < asked.len() ==> equal(
                    held_value(state, (#[trigger] asked[i]).0),
                    asked[i].1,
                )) && forall|k: int|
                0 <= k < changed@.len() ==> crate::changes::asked_for(
                    (#[trigger] changed@[k])@,
                    asked,
                    crate::wlans::wlan_properties(),
                );
            &&& states_flag(result->Ok_0@, "applied"@, true)
            &&& states_flag(result->Ok_0@, "verified"@, certified)
        }),
{
    let asked = crate::wlans::wlan_requested(input.changes);
    let was = crate::wlans::wlan_state(*before);
    let state = crate::wlans::wlan_state(*after);
    let names = crate::wlans::wlan_properties();
    let hidden = crate::wlans::wlan_secret_names();
    let all = texts(changed@);
    let warnings = crate::wlans::wlan_consequences(asked, was);
    let report = crate::wlans::wlan_judgement(asked, *before, *after, all);
    let keys = crate::wlans::wlan_keys(input.changes, *before) + crate::wlans::wlan_keys(
        input.changes,
        *after,
    );
    crate::report::law_certified_writes_persisted_and_moved_nothing_else(
        asked,
        was,
        state,
        hidden,
        all,
        names,
        warnings,
    );
    let certified = (forall|i: int|
        0 <= i < asked.len() ==> equal(held_value(state, (#[trigger] asked[i]).0), asked[i].1))
        && forall|k: int|
        0 <= k < changed@.len() ==> crate::changes::asked_for(
            (#[trigger] changed@[k])@,
            asked,
            names,
        );
    assert(certified == (report.verified == Some(true))) by {
        if certified {
            assert forall|i: int| 0 <= i < asked.len() implies equal(
                crate::mutation::held(state, (#[trigger] asked[i]).0),
                asked[i].1,
            ) by {
                assert(equal(held_value(state, asked[i].0), asked[i].1));
            }
            assert forall|k: int| 0 <= k < all.len() implies crate::changes::asked_for(
                #[trigger] all[k],
                asked,
                names,
            ) by {
                assert(all[k] == changed@[k]@);
            }
        }
        if report.verified == Some(true) {
            assert forall|i: int| 0 <= i < asked.len() implies equal(
                held_value(state, (#[trigger] asked[i]).0),
                asked[i].1,
            ) by {
                assert(equal(crate::mutation::held(state, asked[i].0), asked[i].1));
            }
            assert forall|k: int| 0 <= k < changed@.len() implies crate::changes::asked_for(
                (#[trigger] changed@[k])@,
                asked,
                names,
            ) by {
                assert(crate::changes::asked_for(all[k], asked, names));
            }
        }
    }
    let output = crate::wlans::wlan_answer(input.wlan@, opt_string(after.name), report);
    let clean = scrubbed_tree(output, keys);
    let members = output->Object_0;
    let head = crate::report::report_head(report);
    let ssid = ("ssid"@, crate::encode::text_or_null(opt_string(after.name)));
    let moved = crate::encode::present(
        "unexpectedChanges"@,
        match report.unexpected_changes {
            Some(list) => Some(Tree::Array(crate::encode::text_items(list))),
            None => None,
        },
    );
    assert(head[0] == ("applied"@, Tree::Bool(true)));
    assert(members[0] == ("applied"@, Tree::Bool(true)));
    let tail = crate::report::report_tail(report);
    assert(report.verified == Some(certified));
    assert(tail[moved.len() as int] == ("verified"@, Tree::Bool(certified)));
    let at = (head.len() + 1 + moved.len()) as int;
    assert(members[at] == tail[moved.len() as int]);
    assert(clean->Object_0[0] == ("applied"@, scrubbed_tree(Tree::Bool(true), keys)));
    assert(clean->Object_0[at] == ("verified"@, scrubbed_tree(Tree::Bool(certified), keys)));
}

/// Each length the checks list is that of some code.
pub proof fn law_listed_code_lengths_are_those_of_codes(
    requested: u32,
    vouchers: &Vec<VoucherView>,
    checks: VoucherChecks,
    k: int,
)
    requires
        call_ensures(voucher_checks, (requested, vouchers), checks),
        0 <= k < checks.code_lengths@.len(),
    ensures
        exists|i: int|
            0 <= i < vouchers@.len() && (#[trigger] vouchers@[i]).code@.len()
                == checks.code_lengths@[k],
{
    let lengths = checks.code_lengths@;
    let i = choose|i: int|
        0 <= i < vouchers@.len() && (#[trigger] vouchers@[i]).code@.len() == lengths[k];
    assert(vouchers@[i].code@.len() == checks.code_lengths@[k]);
}

// ---------------------------------------------------------------------------
// Collateral and advice
// ---------------------------------------------------------------------------

/// What moved without being asked for is what moved, in order, without the
/// properties that stand for a field that was asked for.
pub proof fn law_collateral_is_what_was_not_asked_for(
    changed: Vec<String>,
    requested: &Vec<Member>,
    names: &Vec<WireName>,
    rest: Vec<String>,
)
    requires
        call_ensures(unrequested_changes, (changed, requested, names), rest),
    ensures
        texts(rest@) == texts(changed@).filter(
            |property: Seq<char>|
                forall|i: int|
                    0 <= i < requested@.len() ==> wire_property(
                        names@,
                        (#[trigger] requested@[i]).name@,
                    ) != Some(property),
        ),
{
    let asked = fields(requested@);
    let test = |property: Seq<char>|
        forall|i: int|
            0 <= i < requested@.len() ==> wire_property(names@, (#[trigger] requested@[i]).name@)
                != Some(property);
    assert forall|property: Seq<char>| #[trigger] test(property) == !crate::changes::asked_for(
        property,
        asked,
        names@,
    ) by {
        assert(asked.len() == requested@.len());
        if crate::changes::asked_for(property, asked, names@) {
            let i = choose|i: int|
                0 <= i < asked.len() && wire_property(names@, (#[trigger] asked[i]).0) == Some(
                    property,
                );
            assert(asked[i].0 == requested@[i].name@);
        }
        if !test(property) {
            let i = choose|i: int|
                0 <= i < requested@.len() && wire_property(
                    names@,
                    (#[trigger] requested@[i]).name@,
                ) == Some(property);
            assert(asked[i].0 == requested@[i].name@);
        }
    }
    assert(test =~= (|property: Seq<char>|
        !crate::changes::asked_for(property, asked, names@)));
}

/// Values that have the same parts are equal: the same null, flag, text or
/// number, the two zeros, and arrays of equal items.
pub proof fn law_values_of_equal_parts_are_equal(a: &Json, b: &Json, equals: bool)
    requires
        call_ensures(same, (a, b), equals),
    ensures
        a@ is Null && b@ is Null ==> equals,
        a@ is Bool && a@ == b@ ==> equals,
        a@ is Text && a@ == b@ ==> equals,
        a@ is Number && a@ == b@ ==> equals,
        a@ == Tree::Number("0.0"@) && b@ == Tree::Number("-0.0"@) ==> equals,
        a@ == Tree::Number("-0.0"@) && b@ == Tree::Number("0.0"@) ==> equals,
        a@ is Array && b@ is Array && a@->Array_0.len() == b@->Array_0.len() && (forall|i: int|
            0 <= i < a@->Array_0.len() ==> equal(#[trigger] a@->Array_0[i], b@->Array_0[i]))
            ==> equals,
{
}

/// The warnings of a minted batch are the two every batch has, and one for each
/// code that a secret made useless.
pub proof fn law_minted_batches_warn_of_useless_codes(
    input: &VouchersCreateInput,
    batch: VoucherBatch,
    created: Vec<CreatedVoucher>,
    secrets: &Vec<String>,
    output: VouchersCreateOutput,
)
    requires
        call_ensures(vouchers_created, (input, batch, created, secrets), output),
    ensures
        output.warnings@.len() == 2 + created@.filter(
            |voucher: CreatedVoucher|
                crate::redaction::discloses(
                    if voucher.code is Some {
                        voucher.code->Some_0@
                    } else {
                        Seq::empty()
                    },
                    texts(secrets@),
                ),
        ).len(),
        output.warnings@[0]@
            == "each voucher is a credential for the guest network, and its code is returned once here and never again"@,
        output.warnings@[1]@
            == "the codes cannot be read back from the controller, so this result is the only copy"@,
{
    let said = texts(output.warnings@);
    assert(said.len() == output.warnings@.len());
    lemma_advice(created@, texts(secrets@));
    assert(said[0] == output.warnings@[0]@ && said[1] == output.warnings@[1]@);
}

proof fn lemma_advice(created: Seq<CreatedVoucher>, secrets: Seq<Seq<char>>)
    ensures
        crate::vouchers::advice(created, secrets).len() == created.filter(
            |voucher: CreatedVoucher|
                crate::redaction::discloses(
                    if voucher.code is Some {
                        voucher.code->Some_0@
                    } else {
                        Seq::empty()
                    },
                    secrets,
                ),
        ).len(),
    decreases created.len(),
{
    reveal(Seq::filter);
    if created.len() > 0 {
        lemma_advice(created.drop_last(), secrets);
    }
}

/// The advice on a useless code says whether its voucher can be found by id.
pub proof fn law_advice_depends_on_the_id(voucher: CreatedVoucher, secrets: Seq<Seq<char>>)
    requires
        voucher.code is Some,
        crate::redaction::discloses(voucher.code->Some_0@, secrets),
    ensures
        voucher.id is Some && !crate::redaction::discloses(voucher.id->Some_0@, secrets)
            ==> crate::vouchers::advice_on(voucher, secrets) == Some(
            "a code contained configured credential material and was redacted, so it is not the code the controller issued and that voucher cannot be used; its id is here, so revoke it on the controller and mint a replacement"@,
        ),
        voucher.id is None || crate::redaction::discloses(voucher.id->Some_0@, secrets)
            ==> crate::vouchers::advice_on(voucher, secrets) == Some(
            "a code contained configured credential material and was redacted, and the controller gave this voucher no id, so it can be neither used nor found; look for it among the site's vouchers by creation time"@,
        ),
{
}

} // verus!
