//! What a write that is judged by a read-back reports.

use vstd::prelude::*;
use vstd::string::*;

use crate::changes::{unrequested, unrequested_changes, WireName};
use crate::encode::{encode_texts, maybe_flag, present, push_field, push_present, some_flag, text_items};
use crate::json::{copy, equal};
use crate::mutation::{
    all_persisted,
    changes_of,
    every_persisted,
    opt_tree,
    outcomes_of,
    plan,
    planned,
    verified,
    verify,
    Change,
    FieldOutcome,
    FieldStatus,
    Outcome,
    PlannedChange,
};
use crate::text::texts;
use crate::tree::{fields, trees, Json, Member, Tree};

verus! {

broadcast use crate::tree::group_json_view;

/// What a write reports beside the resource it is about.
pub struct WriteReport {
    /// Whether the controller was written to.
    pub applied: bool,
    /// What would change. Preview only.
    pub changes: Option<Vec<PlannedChange>>,
    /// What the read-back found per requested field. Applied only.
    pub fields: Option<Vec<FieldOutcome>>,
    /// Controller properties that moved without being requested.
    pub unexpected_changes: Option<Vec<String>>,
    /// True when every requested field persisted and nothing else moved.
    pub verified: Option<bool>,
    /// Consequences worth knowing before confirming.
    pub warnings: Vec<String>,
}

/// The content of a [`WriteReport`].
pub struct Report {
    pub applied: bool,
    pub changes: Option<Seq<Change>>,
    pub fields: Option<Seq<Outcome>>,
    pub unexpected_changes: Option<Seq<Seq<char>>>,
    pub verified: Option<bool>,
    pub warnings: Seq<Seq<char>>,
}

impl View for WriteReport {
    type V = Report;

    open spec fn view(&self) -> Report {
        Report {
            applied: self.applied,
            changes: match self.changes {
                Some(list) => Some(changes_of(list@)),
                None => None,
            },
            fields: match self.fields {
                Some(list) => Some(outcomes_of(list@)),
                None => None,
            },
            unexpected_changes: match self.unexpected_changes {
                Some(list) => Some(texts(list@)),
                None => None,
            },
            verified: self.verified,
            warnings: texts(self.warnings@),
        }
    }
}

/// The report of a write that was only described.
pub open spec fn previewed(changes: Seq<Change>, warnings: Seq<Seq<char>>) -> Report {
    Report {
        applied: false,
        changes: Some(changes),
        fields: None,
        unexpected_changes: None,
        verified: None,
        warnings,
    }
}

/// The report of a write that was made: it is verified exactly when every
/// requested field persisted and nothing else moved.
pub open spec fn judged(
    outcomes: Seq<Outcome>,
    unexpected: Seq<Seq<char>>,
    warnings: Seq<Seq<char>>,
) -> Report {
    Report {
        applied: true,
        changes: None,
        fields: Some(outcomes),
        unexpected_changes: Some(unexpected),
        verified: Some(unexpected.len() == 0 && all_persisted(outcomes)),
        warnings,
    }
}

/// Describes a write without making it.
pub fn preview(
    requested: &Vec<Member>,
    before: &Json,
    secrets: &Vec<String>,
    warnings: Vec<String>,
) -> (report: WriteReport)
    ensures
        report@ == previewed(
            planned(fields(requested@), before@, texts(secrets@)),
            texts(warnings@),
        ),
{
    WriteReport {
        applied: false,
        changes: Some(plan(requested, before, secrets)),
        fields: None,
        unexpected_changes: None,
        verified: None,
        warnings,
    }
}

/// Judges a write by the resource before and after it and the properties
/// that moved between the two readings.
pub fn judge(
    requested: &Vec<Member>,
    before: &Json,
    after: &Json,
    secrets: &Vec<String>,
    changed: Vec<String>,
    names: &Vec<WireName>,
    warnings: Vec<String>,
) -> (report: WriteReport)
    ensures
        report@ == judged(
            verified(fields(requested@), before@, after@, texts(secrets@)),
            unrequested(texts(changed@), fields(requested@), names@),
            texts(warnings@),
        ),
{
    let outcomes = verify(requested, before, after, secrets);
    let unexpected = unrequested_changes(changed, requested, names);
    assert(texts(unexpected@).len() == unexpected@.len());
    let good = unexpected.len() == 0 && every_persisted(&outcomes);
    WriteReport {
        applied: true,
        changes: None,
        fields: Some(outcomes),
        unexpected_changes: Some(unexpected),
        verified: Some(good),
        warnings,
    }
}

// ---------------------------------------------------------------------------
// As values
// ---------------------------------------------------------------------------

/// The word for a status.
pub open spec fn status_name(status: FieldStatus) -> Seq<char> {
    match status {
        FieldStatus::Persisted => "persisted"@,
        FieldStatus::Dropped => "dropped"@,
        FieldStatus::Coerced => "coerced"@,
    }
}

/// The word for a status.
pub fn status_word(status: FieldStatus) -> (word: &'static str)
    ensures
        word@ == status_name(status),
{
    match status {
        FieldStatus::Persisted => "persisted",
        FieldStatus::Dropped => "dropped",
        FieldStatus::Coerced => "coerced",
    }
}

/// A planned change as a value.
pub open spec fn change_tree(change: Change) -> Tree {
    Tree::Object(
        seq![("field"@, Tree::Text(change.field))] + present("from"@, change.from) + present(
            "to"@,
            change.to,
        ),
    )
}

/// An outcome as a value.
pub open spec fn outcome_tree(outcome: Outcome) -> Tree {
    Tree::Object(
        seq![("field"@, Tree::Text(outcome.field))] + present("observed"@, outcome.observed)
            + present("requested"@, outcome.requested) + seq![
            ("status"@, Tree::Text(status_name(outcome.status))),
        ],
    )
}

fn copy_present(value: &Option<Json>) -> (result: Option<Json>)
    ensures
        opt_tree(result) == opt_tree(*value),
{
    match value {
        Some(inner) => Some(copy(inner)),
        None => None,
    }
}

/// A planned change as a value.
pub fn encode_change(change: &PlannedChange) -> (value: Json)
    ensures
        value@ == change_tree(change@),
{
    let mut members: Vec<Member> = Vec::new();
    push_field(&mut members, "field", Json::Text(change.field.clone()));
    assert(fields(members@) =~= seq![("field"@, Tree::Text(change.field@))]);
    push_present(&mut members, "from", copy_present(&change.from));
    push_present(&mut members, "to", copy_present(&change.to));
    Json::Object(members)
}

/// An outcome as a value.
pub fn encode_outcome(outcome: &FieldOutcome) -> (value: Json)
    ensures
        value@ == outcome_tree(outcome@),
{
    let mut members: Vec<Member> = Vec::new();
    push_field(&mut members, "field", Json::Text(outcome.field.clone()));
    assert(fields(members@) =~= seq![("field"@, Tree::Text(outcome.field@))]);
    push_present(&mut members, "observed", copy_present(&outcome.observed));
    push_present(&mut members, "requested", copy_present(&outcome.requested));
    push_field(&mut members, "status", Json::Text(status_word(outcome.status).to_owned()));
    Json::Object(members)
}

/// The part of a report that stands before the resource.
pub open spec fn report_head(report: Report) -> Seq<(Seq<char>, Tree)> {
    seq![("applied"@, Tree::Bool(report.applied))] + present(
        "changes"@,
        match report.changes {
            Some(list) => Some(Tree::Array(list.map_values(|change: Change| change_tree(change)))),
            None => None,
        },
    ) + present(
        "fields"@,
        match report.fields {
            Some(list) => Some(
                Tree::Array(list.map_values(|outcome: Outcome| outcome_tree(outcome))),
            ),
            None => None,
        },
    )
}

/// The part of a report that stands behind the resource. Warnings are left
/// out where there are none.
pub open spec fn report_tail(report: Report) -> Seq<(Seq<char>, Tree)> {
    present(
        "unexpectedChanges"@,
        match report.unexpected_changes {
            Some(list) => Some(Tree::Array(text_items(list))),
            None => None,
        },
    ) + present("verified"@, some_flag(report.verified)) + present(
        "warnings"@,
        if report.warnings.len() > 0 {
            Some(Tree::Array(text_items(report.warnings)))
        } else {
            None
        },
    )
}

fn encode_changes(list: &Vec<PlannedChange>) -> (value: Json)
    ensures
        value@ == Tree::Array(changes_of(list@).map_values(|change: Change| change_tree(change))),
{
    let mut items: Vec<Json> = Vec::new();
    let mut i: usize = 0;
    while i < list.len()
        invariant
            i <= list@.len(),
            items@.len() == i,
            forall|k: int| 0 <= k < i ==> (#[trigger] items@[k])@ == change_tree(list@[k]@),
        decreases list@.len() - i,
    {
        items.push(encode_change(&list[i]));
        i += 1;
    }
    assert(trees(items@) =~= changes_of(list@).map_values(|change: Change| change_tree(change)));
    Json::Array(items)
}

fn encode_outcomes(list: &Vec<FieldOutcome>) -> (value: Json)
    ensures
        value@ == Tree::Array(
            outcomes_of(list@).map_values(|outcome: Outcome| outcome_tree(outcome)),
        ),
{
    let mut items: Vec<Json> = Vec::new();
    let mut i: usize = 0;
    while i < list.len()
        invariant
            i <= list@.len(),
            items@.len() == i,
            forall|k: int| 0 <= k < i ==> (#[trigger] items@[k])@ == outcome_tree(list@[k]@),
        decreases list@.len() - i,
    {
        items.push(encode_outcome(&list[i]));
        i += 1;
    }
    assert(trees(items@) =~= outcomes_of(list@).map_values(
        |outcome: Outcome| outcome_tree(outcome),
    ));
    Json::Array(items)
}

/// Appends the part of a report that stands before the resource.
pub fn push_head(members: &mut Vec<Member>, report: &WriteReport)
    ensures
        fields(final(members)@) == fields(old(members)@) + report_head(report@),
{
    let ghost prior = fields(members@);
    push_field(members, "applied", Json::Bool(report.applied));
    let changes = match &report.changes {
        Some(list) => Some(encode_changes(list)),
        None => None,
    };
    push_present(members, "changes", changes);
    let outcomes = match &report.fields {
        Some(list) => Some(encode_outcomes(list)),
        None => None,
    };
    push_present(members, "fields", outcomes);
    assert(fields(members@) =~= prior + report_head(report@));
}

/// Appends the part of a report that stands behind the resource.
pub fn push_tail(members: &mut Vec<Member>, report: &WriteReport)
    ensures
        fields(final(members)@) == fields(old(members)@) + report_tail(report@),
{
    let ghost prior = fields(members@);
    let unexpected = match &report.unexpected_changes {
        Some(list) => Some(encode_texts(list)),
        None => None,
    };
    push_present(members, "unexpectedChanges", unexpected);
    push_present(members, "verified", maybe_flag(report.verified));
    let warnings = if report.warnings.len() > 0 {
        Some(encode_texts(&report.warnings))
    } else {
        None
    };
    assert(texts(report.warnings@).len() == report.warnings@.len());
    push_present(members, "warnings", warnings);
    assert(fields(members@) =~= prior + report_tail(report@));
}

// ---------------------------------------------------------------------------
// Laws
// ---------------------------------------------------------------------------

/// A write is certified exactly when it was made, every requested field holds
/// the requested value afterwards, and every property that moved was asked
/// for.
pub proof fn law_certified_writes_persisted_and_moved_nothing_else(
    requested: Seq<(Seq<char>, Tree)>,
    before: Tree,
    after: Tree,
    secrets: Seq<Seq<char>>,
    changed: Seq<Seq<char>>,
    names: Seq<WireName>,
    warnings: Seq<Seq<char>>,
)
    ensures
        ({
            let report = judged(
                verified(requested, before, after, secrets),
                unrequested(changed, requested, names),
                warnings,
            );
            report.verified == Some(true) <==> {
                &&& forall|i: int|
                    0 <= i < requested.len() ==> equal(
                        crate::mutation::held(after, (#[trigger] requested[i]).0),
                        requested[i].1,
                    )
                &&& forall|k: int|
                    0 <= k < changed.len() ==> crate::changes::asked_for(
                        #[trigger] changed[k],
                        requested,
                        names,
                    )
            }
        }),
{
    let outcomes = verified(requested, before, after, secrets);
    let unexpected = unrequested(changed, requested, names);
    if all_persisted(outcomes) {
        assert forall|i: int| 0 <= i < requested.len() implies equal(
            crate::mutation::held(after, (#[trigger] requested[i]).0),
            requested[i].1,
        ) by {
            assert(outcomes[i].status == FieldStatus::Persisted);
        }
    }
    if unexpected.len() == 0 {
        assert forall|k: int| 0 <= k < changed.len() implies crate::changes::asked_for(
            #[trigger] changed[k],
            requested,
            names,
        ) by {
            crate::changes::law_requested_properties_are_no_collateral(
                changed,
                requested,
                names,
                changed[k],
            );
            if !crate::changes::asked_for(changed[k], requested, names) {
                assert(changed.contains(changed[k]));
                assert(unexpected.contains(changed[k]));
            }
        }
    } else {
        crate::changes::law_requested_properties_are_no_collateral(
            changed,
            requested,
            names,
            unexpected[0],
        );
        assert(unexpected.contains(unexpected[0]));
        let k = choose|k: int| 0 <= k < changed.len() && changed[k] == unexpected[0];
        assert(!crate::changes::asked_for(changed[k], requested, names));
    }
}

} // verus!
