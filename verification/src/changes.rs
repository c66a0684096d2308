//! What the write tools share: the fields a change may name, and the
//! controller's own names for them.

use vstd::prelude::*;
use vstd::string::*;

use crate::error::{is_invalid_params, ErrorKind, ToolError};
use crate::json::{get, is_equal, lookup, position, property, same};
use crate::text::{join2, join3, same_text, texts};
use crate::tree::{fields, Json, Member, Tree};

verus! {

broadcast use crate::tree::group_json_view;

/// The texts of a list of static strings.
pub open spec fn words(list: Seq<&'static str>) -> Seq<Seq<char>> {
    list.map_values(|word: &'static str| word@)
}

/// A list of texts with a separator between them.
pub open spec fn joined(list: Seq<Seq<char>>, separator: Seq<char>) -> Seq<char>
    decreases list.len(),
{
    if list.len() == 0 {
        Seq::empty()
    } else if list.len() == 1 {
        list[0]
    } else {
        joined(list.drop_last(), separator) + separator + list.last()
    }
}

/// A list of texts with a separator between them.
pub fn join_texts(list: &Vec<String>, separator: &str) -> (text: String)
    ensures
        text@ == joined(texts(list@), separator@),
{
    let mut text = String::new();
    let mut i: usize = 0;
    let ghost all = texts(list@);
    while i < list.len()
        invariant
            i <= list@.len(),
            all == texts(list@),
            text@ == joined(all.take(i as int), separator@),
        decreases list@.len() - i,
    {
        let ghost prior = text@;
        let ghost next = all.take(i + 1);
        assert(next.drop_last() =~= all.take(i as int));
        assert(next.last() == list@[i as int]@);
        if i > 0 {
            text.append(separator);
        }
        text.append(list[i].as_str());
        i += 1;
        if i == 1 {
            assert(text@ =~= list@[0]@);
            assert(next[0] == list@[0]@);
        }
    }
    assert(all.take(i as int) =~= all);
    text
}

/// Owned copies of static strings.
pub fn own_words(list: &Vec<&'static str>) -> (owned: Vec<String>)
    ensures
        texts(owned@) == words(list@),
{
    let mut owned: Vec<String> = Vec::new();
    let mut i: usize = 0;
    while i < list.len()
        invariant
            i <= list@.len(),
            owned@.len() == i,
            forall|k: int| 0 <= k < i ==> (#[trigger] owned@[k])@ == list@[k]@,
        decreases list@.len() - i,
    {
        owned.push(list[i].to_owned());
        i += 1;
    }
    assert(texts(owned@) =~= words(list@));
    owned
}

/// Whether a text is one of a list of static strings.
pub fn is_word(list: &Vec<&'static str>, text: &str) -> (found: bool)
    ensures
        found == words(list@).contains(text@),
{
    let mut i: usize = 0;
    while i < list.len()
        invariant
            i <= list@.len(),
            forall|k: int| 0 <= k < i ==> list@[k]@ != text@,
        decreases list@.len() - i,
    {
        if same_text(list[i], text) {
            assert(words(list@)[i as int] == text@);
            return true;
        }
        i += 1;
    }
    assert forall|k: int| 0 <= k < words(list@).len() implies words(list@)[k] != text@ by {
        assert(words(list@)[k] == list@[k]@);
    }
    false
}

// ---------------------------------------------------------------------------
// Unknown fields
// ---------------------------------------------------------------------------

/// The names in a change set that are not accepted, in order.
pub open spec fn unknown_fields(
    changes: Seq<(Seq<char>, Tree)>,
    accepted: Seq<Seq<char>>,
) -> Seq<Seq<char>> {
    changes.filter_map(
        |member: (Seq<char>, Tree)|
            if accepted.contains(member.0) {
                None::<Seq<char>>
            } else {
                Some(member.0)
            },
    )
}

/// The names the `changes` of a request hold that are not accepted: none
/// where the request has no change set.
pub open spec fn unknown_in(arguments: Tree, accepted: Seq<Seq<char>>) -> Seq<Seq<char>> {
    match property(arguments, "changes"@) {
        Some(Tree::Object(changes)) => unknown_fields(changes, accepted),
        _ => Seq::empty(),
    }
}

/// The refusal of a change set that names unknown fields.
pub open spec fn unknown_fields_message(
    unknown: Seq<Seq<char>>,
    accepted: Seq<Seq<char>>,
) -> Seq<char> {
    "changes does not accept "@ + joined(unknown, ", "@) + "; the accepted fields are "@ + joined(
        accepted,
        ", "@,
    )
}

fn collect_unknown(changes: &Vec<Member>, accepted: &Vec<&'static str>) -> (unknown: Vec<String>)
    ensures
        texts(unknown@) == unknown_fields(fields(changes@), words(accepted@)),
{
    let mut unknown: Vec<String> = Vec::new();
    let mut i: usize = 0;
    let ghost all = fields(changes@);
    let ghost known = words(accepted@);
    assert(texts(unknown@) =~= unknown_fields(all.take(0), known));
    while i < changes.len()
        invariant
            i <= changes@.len(),
            all == fields(changes@),
            known == words(accepted@),
            texts(unknown@) == unknown_fields(all.take(i as int), known),
        decreases changes@.len() - i,
    {
        let ghost prior = texts(unknown@);
        assert(all.take(i + 1).drop_last() =~= all.take(i as int));
        assert(all.take(i + 1).last() == changes@[i as int]@);
        if !is_word(accepted, changes[i].name.as_str()) {
            unknown.push(changes[i].name.clone());
            assert(texts(unknown@) =~= prior + seq![changes@[i as int].name@]);
        }
        i += 1;
    }
    assert(all.take(i as int) =~= all);
    unknown
}

/// Refuses a change set that names a field the tool does not accept, naming
/// what would have been accepted: a misspelling is the likeliest way a caller
/// loses a change.
pub fn reject_unknown_change_fields(arguments: &Json, accepted: &Vec<&'static str>) -> (result:
    Result<(), ToolError>)
    ensures
        result is Err <==> unknown_in(arguments@, words(accepted@)).len() > 0,
        result matches Err(error) ==> is_invalid_params(
            error,
            unknown_fields_message(
                unknown_in(arguments@, words(accepted@)),
                words(accepted@),
            ),
        ),
{
    let changes = match get(arguments, "changes") {
        Some(Json::Object(changes)) => changes,
        _ => {
            return Ok(());
        },
    };
    let unknown = collect_unknown(changes, accepted);
    assert(texts(unknown@).len() == unknown@.len());
    if unknown.len() == 0 {
        return Ok(());
    }
    let refused = join_texts(&unknown, ", ");
    let owned = own_words(accepted);
    let known = join_texts(&owned, ", ");
    let start = join3(
        "changes does not accept ",
        refused.as_str(),
        "; the accepted fields are ",
    );
    let message = join2(start.as_str(), known.as_str());
    Err(ToolError { kind: ErrorKind::InvalidParams, message })
}

// ---------------------------------------------------------------------------
// Controller names
// ---------------------------------------------------------------------------

/// An accepted field and the controller's property for it.
#[derive(Debug, Clone, Copy, PartialEq, Eq)]
pub struct WireName {
    pub field: &'static str,
    pub property: &'static str,
}

/// The controller's property for a field, where it has one.
pub open spec fn wire_property(names: Seq<WireName>, field: Seq<char>) -> Option<Seq<char>>
    decreases names.len(),
{
    if names.len() == 0 {
        None
    } else if names[0].field@ == field {
        Some(names[0].property@)
    } else {
        wire_property(names.drop_first(), field)
    }
}

/// The controller's property for a field, where it has one.
pub fn wire_name(names: &Vec<WireName>, field: &str) -> (name: Option<&'static str>)
    ensures
        match name {
            Some(found) => wire_property(names@, field@) == Some(found@),
            None => wire_property(names@, field@) is None,
        },
{
    let mut i: usize = 0;
    assert(names@.skip(0) =~= names@);
    while i < names.len()
        invariant
            i <= names@.len(),
            wire_property(names@, field@) == wire_property(names@.skip(i as int), field@),
        decreases names@.len() - i,
    {
        assert(names@.skip(i as int)[0] == names@[i as int]);
        if same_text(names[i].field, field) {
            return Some(names[i].property);
        }
        assert(names@.skip(i as int).drop_first() =~= names@.skip(i + 1));
        i += 1;
    }
    None
}

/// Whether a controller property was asked to change.
pub open spec fn asked_for(
    property: Seq<char>,
    requested: Seq<(Seq<char>, Tree)>,
    names: Seq<WireName>,
) -> bool {
    exists|i: int|
        0 <= i < requested.len() && wire_property(names, (#[trigger] requested[i]).0) == Some(
            property,
        )
}

/// The properties among those that moved that were not asked to.
pub open spec fn unrequested(
    changed: Seq<Seq<char>>,
    requested: Seq<(Seq<char>, Tree)>,
    names: Seq<WireName>,
) -> Seq<Seq<char>> {
    changed.filter(|property: Seq<char>| !asked_for(property, requested, names))
}

fn was_asked_for(property: &str, requested: &Vec<Member>, names: &Vec<WireName>) -> (result: bool)
    ensures
        result == asked_for(property@, fields(requested@), names@),
{
    let mut i: usize = 0;
    while i < requested.len()
        invariant
            i <= requested@.len(),
            forall|k: int|
                0 <= k < i ==> wire_property(names@, (#[trigger] requested@[k]).name@) != Some(
                    property@,
                ),
        decreases requested@.len() - i,
    {
        if let Some(found) = wire_name(names, requested[i].name.as_str()) {
            if same_text(found, property) {
                assert(fields(requested@)[i as int].0 == requested@[i as int].name@);
                return true;
            }
        }
        i += 1;
    }
    assert forall|k: int| 0 <= k < fields(requested@).len() implies wire_property(
        names@,
        (#[trigger] fields(requested@)[k]).0,
    ) != Some(property@) by {
        assert(fields(requested@)[k].0 == requested@[k].name@);
    }
    false
}

/// Properties that moved without being asked for, by the controller's own
/// names: what moved, less the properties of the requested fields.
pub fn unrequested_changes(
    changed: Vec<String>,
    requested: &Vec<Member>,
    names: &Vec<WireName>,
) -> (rest: Vec<String>)
    ensures
        texts(rest@) == unrequested(texts(changed@), fields(requested@), names@),
{
    let ghost all = texts(changed@);
    let ghost pred = |property: Seq<char>| !asked_for(property, fields(requested@), names@);
    let ghost given = changed@;
    let mut rest: Vec<String> = Vec::new();
    proof {
        reveal(Seq::filter);
        assert(texts(rest@) =~= all.take(0).filter(pred));
    }
    for property in it: changed
        invariant
            it.seq() == given,
            all == texts(given),
            pred == (|property: Seq<char>| !asked_for(property, fields(requested@), names@)),
            texts(rest@) == all.take(it.index() as int).filter(pred),
    {
        let ghost done = it.index() as int;
        let ghost prior = texts(rest@);
        let ghost text = property@;
        proof {
            reveal(Seq::filter);
            assert(all.take(done + 1).drop_last() =~= all.take(done));
            assert(all.take(done + 1).last() == property@);
        }
        if !was_asked_for(property.as_str(), requested, names) {
            rest.push(property);
            assert(texts(rest@) =~= prior.push(text));
        }
    }
    assert(all.take(all.len() as int) =~= all);
    rest
}

/// A property the caller asked to change is never reported as one that moved
/// by itself, and every other property that moved is.
pub proof fn law_requested_properties_are_no_collateral(
    changed: Seq<Seq<char>>,
    requested: Seq<(Seq<char>, Tree)>,
    names: Seq<WireName>,
    property: Seq<char>,
)
    ensures
        unrequested(changed, requested, names).contains(property) <==> changed.contains(property)
            && !asked_for(property, requested, names),
{
    crate::rows::lemma_filter_contains(
        changed,
        |name: Seq<char>| !asked_for(name, requested, names),
        property,
    );
}

/// Whether a field is asked for and the resource does not hold that value.
pub open spec fn is_changing(
    requested: Seq<(Seq<char>, Tree)>,
    current: Tree,
    field: Seq<char>,
) -> bool {
    match lookup(requested, field) {
        Some(wanted) => !is_equal(property(current, field), wanted),
        None => false,
    }
}

/// Whether a field is asked for and the resource does not hold that value.
pub fn changing(requested: &Vec<Member>, current: &Json, field: &str) -> (result: bool)
    ensures
        result == is_changing(fields(requested@), current@, field@),
{
    match position(requested, field) {
        Some(i) => match get(current, field) {
            Some(value) => !same(value, &requested[i].value),
            None => true,
        },
        None => false,
    }
}

/// Whether a field is asked for with a value.
pub fn asks(requested: &Vec<Member>, field: &str, value: &Json) -> (result: bool)
    ensures
        result == is_equal(lookup(fields(requested@), field@), value@),
{
    match position(requested, field) {
        Some(i) => same(&requested[i].value, value),
        None => false,
    }
}

/// The refusal of a change set that changes nothing.
pub open spec fn no_field_message() -> Seq<char> {
    "changes names no field to change"@
}

} // verus!
