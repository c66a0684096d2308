//! Shared safety machinery for write tools.
//!
//! A controller acknowledges writes whose fields it silently discards, so an
//! accepted write proves nothing. Writes therefore preview by default and are
//! judged by reading the resource back.

use vstd::prelude::*;
use vstd::string::*;

use crate::error::{is_invalid_params, ErrorKind, ToolError};
use crate::json::{copy, equal, get, is_equal, property, same};
use crate::text::{contains, join3, listed, text_contains, texts};
use crate::tree::{fields, lemma_item_smaller, lemma_member_smaller, Json, Member, Tree};

verus! {

broadcast use crate::tree::group_json_view;

/// The marker a read substitutes for secret material.
pub const REDACTION_MARKER: &'static str = "[redacted]";

/// Whether substituting a value would reintroduce it: it is part of the
/// marker that would stand in its place.
pub open spec fn survives(value: Seq<char>) -> bool {
    value.len() > 0 && contains(REDACTION_MARKER@, value)
}

/// Whether substituting this value would reintroduce it.
///
/// Scrubbing replaces a secret with the marker, and the result is withheld if
/// any secret survives that pass. A secret which is itself part of the marker
/// therefore survives its own replacement, and no substitution scheme fixes
/// that: such a value is to be refused when configuration is read.
#[must_use]
pub fn survives_its_own_redaction(value: &str) -> (result: bool)
    ensures
        result == survives(value@),
{
    !value.is_empty() && text_contains(REDACTION_MARKER, value)
}

// ---------------------------------------------------------------------------
// The marker in a request
// ---------------------------------------------------------------------------

/// Whether any text in a value holds the marker. Property names are not
/// texts of the value.
pub open spec fn marked(value: Tree) -> bool
    decreases value,
{
    match value {
        Tree::Text(text) => contains(text, REDACTION_MARKER@),
        Tree::Array(items) => exists|i: int| 0 <= i < items.len() && marked(#[trigger] items[i]),
        Tree::Object(members) => exists|i: int|
            0 <= i < members.len() && marked((#[trigger] members[i]).1),
        _ => false,
    }
}

/// Whether any text in a value holds the marker.
pub fn carries_marker(value: &Json) -> (result: bool)
    ensures
        result == marked(value@),
    decreases value,
{
    match value {
        Json::Text(text) => text_contains(text.as_str(), REDACTION_MARKER),
        Json::Array(items) => {
            let mut i: usize = 0;
            while i < items.len()
                invariant
                    i <= items@.len(),
                    *value == Json::Array(*items),
                    forall|k: int| 0 <= k < i ==> !marked((#[trigger] items@[k])@),
                decreases items@.len() - i,
            {
                proof {
                    lemma_item_smaller(*value, i as int);
                }
                if carries_marker(&items[i]) {
                    assert(marked(value@->Array_0[i as int]));
                    return true;
                }
                i += 1;
            }
            false
        },
        Json::Object(members) => {
            let mut i: usize = 0;
            while i < members.len()
                invariant
                    i <= members@.len(),
                    *value == Json::Object(*members),
                    forall|k: int| 0 <= k < i ==> !marked((#[trigger] members@[k]).value@),
                decreases members@.len() - i,
            {
                proof {
                    lemma_member_smaller(*value, i as int);
                }
                if carries_marker(&members[i].value) {
                    assert(marked(value@->Object_0[i as int].1));
                    return true;
                }
                i += 1;
            }
            false
        },
        _ => false,
    }
}

/// The refusal of a request that carries the marker.
pub open spec fn redacted_input_message() -> Seq<char> {
    "a value contains the redaction marker "@ + REDACTION_MARKER@
        + "; state the intended value or omit the field"@
}

/// Refuses a write whose values carry the redaction marker, so a redacted
/// read cannot be written back over the secret it stands for.
pub fn reject_redacted_input(arguments: &Json) -> (result: Result<(), ToolError>)
    ensures
        result is Err <==> marked(arguments@),
        result matches Err(error) ==> is_invalid_params(error, redacted_input_message()),
{
    if carries_marker(arguments) {
        let message = join3(
            "a value contains the redaction marker ",
            REDACTION_MARKER,
            "; state the intended value or omit the field",
        );
        return Err(ToolError { kind: ErrorKind::InvalidParams, message });
    }
    Ok(())
}

// ---------------------------------------------------------------------------
// Planning and verifying
// ---------------------------------------------------------------------------

/// What the controller did with one requested field.
#[derive(Debug, Clone, Copy, PartialEq, Eq, Structural)]
pub enum FieldStatus {
    /// The resource now holds the requested value.
    Persisted,
    /// The resource still holds its previous value: the write was accepted
    /// and this field discarded.
    Dropped,
    /// The resource holds a third value: the controller rewrote the input.
    Coerced,
}

/// One requested field and what the read-back found. A secret field reports
/// its status and neither value.
pub struct FieldOutcome {
    pub field: String,
    pub status: FieldStatus,
    pub requested: Option<Json>,
    pub observed: Option<Json>,
}

/// One field a preview would change. A secret field names itself only.
pub struct PlannedChange {
    pub field: String,
    pub from: Option<Json>,
    pub to: Option<Json>,
}

/// The content of a [`FieldOutcome`].
pub struct Outcome {
    pub field: Seq<char>,
    pub status: FieldStatus,
    pub requested: Option<Tree>,
    pub observed: Option<Tree>,
}

/// The content of a [`PlannedChange`].
pub struct Change {
    pub field: Seq<char>,
    pub from: Option<Tree>,
    pub to: Option<Tree>,
}

/// The tree of an optional value.
pub open spec fn opt_tree(value: Option<Json>) -> Option<Tree> {
    match value {
        Some(json) => Some(json@),
        None => None,
    }
}

impl View for FieldOutcome {
    type V = Outcome;

    open spec fn view(&self) -> Outcome {
        Outcome {
            field: self.field@,
            status: self.status,
            requested: opt_tree(self.requested),
            observed: opt_tree(self.observed),
        }
    }
}

impl View for PlannedChange {
    type V = Change;

    open spec fn view(&self) -> Change {
        Change { field: self.field@, from: opt_tree(self.from), to: opt_tree(self.to) }
    }
}

/// The contents of a list of planned changes.
pub open spec fn changes_of(list: Seq<PlannedChange>) -> Seq<Change> {
    list.map_values(|change: PlannedChange| change@)
}

/// The contents of a list of outcomes.
pub open spec fn outcomes_of(list: Seq<FieldOutcome>) -> Seq<Outcome> {
    list.map_values(|outcome: FieldOutcome| outcome@)
}

/// A property of a resource; one it does not have reads as null.
pub open spec fn held(resource: Tree, field: Seq<char>) -> Tree {
    match property(resource, field) {
        Some(value) => value,
        None => Tree::Null,
    }
}

/// The change one requested field makes: none where the resource already
/// holds the requested value.
pub open spec fn planned_change(
    request: (Seq<char>, Tree),
    current: Tree,
    secrets: Seq<Seq<char>>,
) -> Option<Change> {
    if is_equal(property(current, request.0), request.1) {
        None
    } else if secrets.contains(request.0) {
        Some(Change { field: request.0, from: None, to: None })
    } else {
        Some(
            Change {
                field: request.0,
                from: Some(held(current, request.0)),
                to: Some(request.1),
            },
        )
    }
}

/// The changes a set of requested fields makes, in request order.
pub open spec fn planned(
    requested: Seq<(Seq<char>, Tree)>,
    current: Tree,
    secrets: Seq<Seq<char>>,
) -> Seq<Change> {
    requested.filter_map(|request: (Seq<char>, Tree)| planned_change(request, current, secrets))
}

/// How a field came out of a write.
pub open spec fn field_status(wanted: Tree, before: Tree, after: Tree) -> FieldStatus {
    if equal(after, wanted) {
        FieldStatus::Persisted
    } else if equal(after, before) {
        FieldStatus::Dropped
    } else {
        FieldStatus::Coerced
    }
}

/// What is reported of one requested field after a write.
pub open spec fn field_outcome(
    request: (Seq<char>, Tree),
    before: Tree,
    after: Tree,
    secrets: Seq<Seq<char>>,
) -> Outcome {
    let visible = !secrets.contains(request.0);
    Outcome {
        field: request.0,
        status: field_status(request.1, held(before, request.0), held(after, request.0)),
        requested: if visible {
            Some(request.1)
        } else {
            None
        },
        observed: if visible {
            Some(held(after, request.0))
        } else {
            None
        },
    }
}

/// What is reported of a set of requested fields, in request order.
pub open spec fn verified(
    requested: Seq<(Seq<char>, Tree)>,
    before: Tree,
    after: Tree,
    secrets: Seq<Seq<char>>,
) -> Seq<Outcome> {
    requested.map_values(
        |request: (Seq<char>, Tree)| field_outcome(request, before, after, secrets),
    )
}

/// What a write would change. A field already holding the requested value is
/// not a change.
pub fn plan(requested: &Vec<Member>, current: &Json, secrets: &Vec<String>) -> (changes: Vec<
    PlannedChange,
>)
    ensures
        changes_of(changes@) == planned(fields(requested@), current@, texts(secrets@)),
{
    let mut changes: Vec<PlannedChange> = Vec::new();
    let mut i: usize = 0;
    let ghost all = fields(requested@);
    assert(changes_of(changes@) =~= planned(all.take(0), current@, texts(secrets@)));
    while i < requested.len()
        invariant
            i <= requested@.len(),
            all == fields(requested@),
            changes_of(changes@) == planned(all.take(i as int), current@, texts(secrets@)),
        decreases requested@.len() - i,
    {
        let field = &requested[i].name;
        let wanted = &requested[i].value;
        let now = get(current, field.as_str());
        let ghost before = changes_of(changes@);
        assert(all.take(i + 1).drop_last() =~= all.take(i as int));
        assert(all.take(i + 1).last() == (field@, wanted@));
        let unchanged = match now {
            Some(value) => same(value, wanted),
            None => false,
        };
        if !unchanged {
            let change = if listed(secrets, field.as_str()) {
                PlannedChange { field: field.clone(), from: None, to: None }
            } else {
                let from = match now {
                    Some(value) => copy(value),
                    None => Json::Null,
                };
                PlannedChange { field: field.clone(), from: Some(from), to: Some(copy(wanted)) }
            };
            assert(Some(change@) == planned_change((field@, wanted@), current@, texts(secrets@)));
            changes.push(change);
            assert(changes_of(changes@) =~= before + seq![change@]);
        }
        i += 1;
    }
    assert(all.take(i as int) =~= all);
    changes
}

/// Classifies each requested field by comparing the resource before and
/// after.
pub fn verify(
    requested: &Vec<Member>,
    before: &Json,
    after: &Json,
    secrets: &Vec<String>,
) -> (outcomes: Vec<FieldOutcome>)
    ensures
        outcomes_of(outcomes@) == verified(fields(requested@), before@, after@, texts(secrets@)),
{
    let mut outcomes: Vec<FieldOutcome> = Vec::new();
    let mut i: usize = 0;
    while i < requested.len()
        invariant
            i <= requested@.len(),
            outcomes@.len() == i,
            forall|k: int|
                0 <= k < i ==> (#[trigger] outcomes@[k])@ == field_outcome(
                    requested@[k]@,
                    before@,
                    after@,
                    texts(secrets@),
                ),
        decreases requested@.len() - i,
    {
        let field = &requested[i].name;
        let wanted = &requested[i].value;
        let observed = match get(after, field.as_str()) {
            Some(value) => copy(value),
            None => Json::Null,
        };
        let previous = match get(before, field.as_str()) {
            Some(value) => copy(value),
            None => Json::Null,
        };
        let status = if same(&observed, wanted) {
            FieldStatus::Persisted
        } else if same(&observed, &previous) {
            FieldStatus::Dropped
        } else {
            FieldStatus::Coerced
        };
        let outcome = if listed(secrets, field.as_str()) {
            FieldOutcome { field: field.clone(), status, requested: None, observed: None }
        } else {
            FieldOutcome {
                field: field.clone(),
                status,
                requested: Some(copy(wanted)),
                observed: Some(observed),
            }
        };
        outcomes.push(outcome);
        i += 1;
    }
    assert(outcomes_of(outcomes@) =~= verified(
        fields(requested@),
        before@,
        after@,
        texts(secrets@),
    ));
    outcomes
}

/// Whether every reported field persisted.
pub open spec fn all_persisted(outcomes: Seq<Outcome>) -> bool {
    forall|i: int|
        0 <= i < outcomes.len() ==> (#[trigger] outcomes[i]).status == FieldStatus::Persisted
}

/// Whether every reported field persisted.
pub fn every_persisted(outcomes: &Vec<FieldOutcome>) -> (result: bool)
    ensures
        result == all_persisted(outcomes_of(outcomes@)),
{
    let mut i: usize = 0;
    while i < outcomes.len()
        invariant
            i <= outcomes@.len(),
            forall|k: int|
                0 <= k < i ==> (#[trigger] outcomes@[k]).status == FieldStatus::Persisted,
        decreases outcomes@.len() - i,
    {
        if outcomes[i].status != FieldStatus::Persisted {
            assert(outcomes_of(outcomes@)[i as int].status != FieldStatus::Persisted);
            return false;
        }
        i += 1;
    }
    true
}

// ---------------------------------------------------------------------------
// Laws
// ---------------------------------------------------------------------------

/// A plan is empty exactly when the resource already holds every requested
/// value.
pub proof fn law_empty_plan_means_nothing_to_do(
    requested: Seq<(Seq<char>, Tree)>,
    current: Tree,
    secrets: Seq<Seq<char>>,
)
    ensures
        planned(requested, current, secrets).len() == 0 <==> forall|i: int|
            0 <= i < requested.len() ==> is_equal(
                property(current, (#[trigger] requested[i]).0),
                requested[i].1,
            ),
    decreases requested.len(),
{
    if requested.len() > 0 {
        let rest = requested.drop_last();
        law_empty_plan_means_nothing_to_do(rest, current, secrets);
        assert forall|i: int| 0 <= i < rest.len() implies rest[i] == requested[i] by {}
        if planned(requested, current, secrets).len() == 0 {
            assert forall|i: int| 0 <= i < requested.len() implies is_equal(
                property(current, (#[trigger] requested[i]).0),
                requested[i].1,
            ) by {
                if i < rest.len() {
                    assert(rest[i] == requested[i]);
                }
            }
        }
    }
}

/// A planned change names a requested field that moves; it shows what the
/// resource holds and what was asked for, unless the field is secret: then it
/// shows neither.
pub proof fn law_plan_hides_secret_values(
    requested: Seq<(Seq<char>, Tree)>,
    current: Tree,
    secrets: Seq<Seq<char>>,
)
    ensures
        forall|k: int|
            #![trigger planned(requested, current, secrets)[k]]
            0 <= k < planned(requested, current, secrets).len() ==> {
                let change = planned(requested, current, secrets)[k];
                &&& secrets.contains(change.field) ==> change.from is None && change.to is None
                &&& !secrets.contains(change.field) ==> change.from == Some(
                    held(current, change.field),
                ) && change.to is Some
                &&& exists|i: int|
                    0 <= i < requested.len() && (#[trigger] requested[i]).0 == change.field
            },
    decreases requested.len(),
{
    if requested.len() > 0 {
        let rest = requested.drop_last();
        law_plan_hides_secret_values(rest, current, secrets);
        let all = planned(requested, current, secrets);
        let prior = planned(rest, current, secrets);
        assert forall|k: int| #![trigger all[k]] 0 <= k < all.len() implies {
            let change = all[k];
            &&& secrets.contains(change.field) ==> change.from is None && change.to is None
            &&& !secrets.contains(change.field) ==> change.from == Some(
                held(current, change.field),
            ) && change.to is Some
            &&& exists|i: int|
                0 <= i < requested.len() && (#[trigger] requested[i]).0 == change.field
        } by {
            if k < prior.len() {
                assert(all[k] == prior[k]);
                let i = choose|i: int|
                    0 <= i < rest.len() && (#[trigger] rest[i]).0 == prior[k].field;
                assert(requested[i] == rest[i]);
            } else {
                assert(requested[requested.len() - 1].0 == all[k].field);
            }
        }
    }
}

/// Reading back covers every requested field once and in order; a secret
/// field carries its status and neither value, any other carries both.
pub proof fn law_verify_reports_every_field(
    requested: Seq<(Seq<char>, Tree)>,
    before: Tree,
    after: Tree,
    secrets: Seq<Seq<char>>,
)
    ensures
        verified(requested, before, after, secrets).len() == requested.len(),
        forall|i: int|
            #![trigger requested[i]]
            0 <= i < requested.len() ==> {
                let outcome = verified(requested, before, after, secrets)[i];
                &&& outcome.field == requested[i].0
                &&& secrets.contains(outcome.field) ==> outcome.requested is None
                    && outcome.observed is None
                &&& !secrets.contains(outcome.field) ==> outcome.requested == Some(requested[i].1)
                    && outcome.observed == Some(held(after, outcome.field))
                &&& outcome.status == FieldStatus::Persisted <==> equal(
                    held(after, outcome.field),
                    requested[i].1,
                )
            },
{
}

/// A write judged by reading back is fully persisted exactly when the
/// resource afterwards holds every requested value, and then planning the
/// same request again, where no requested value is null, plans nothing.
pub proof fn law_persisted_write_leaves_nothing_to_plan(
    requested: Seq<(Seq<char>, Tree)>,
    before: Tree,
    after: Tree,
    secrets: Seq<Seq<char>>,
)
    requires
        forall|i: int| 0 <= i < requested.len() ==> (#[trigger] requested[i]).1 != Tree::Null,
    ensures
        all_persisted(verified(requested, before, after, secrets)) <==> planned(
            requested,
            after,
            secrets,
        ).len() == 0,
{
    law_empty_plan_means_nothing_to_do(requested, after, secrets);
    let outcomes = verified(requested, before, after, secrets);
    if all_persisted(outcomes) {
        assert forall|i: int| 0 <= i < requested.len() implies is_equal(
            property(after, (#[trigger] requested[i]).0),
            requested[i].1,
        ) by {
            assert(outcomes[i].status == FieldStatus::Persisted);
        }
    }
}

} // verus!
