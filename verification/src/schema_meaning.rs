//! What a JSON schema says of a value: whether it accepts it, and which places
//! of it its keywords looked at.

use vstd::prelude::*;

use crate::json::lookup;
use crate::schema::{holding, Holding};
use crate::tree::Tree;

verus! {

/// A place in a value that a keyword looked at: a property of an object, or an
/// item of an array.
pub enum Mark {
    Property(Seq<char>),
    Item(int),
}

/// What a schema says of a value: whether it accepts it, and which places it
/// looked at, which is what the `unevaluated` keywords go by.
#[verifier::ext_equal]
pub struct Verdict {
    pub valid: bool,
    pub seen: spec_fn(Mark) -> bool,
}

/// A subschema, by what it says of each value; or something that is no schema
/// where one could stand, as it is written.
#[verifier::ext_equal]
pub enum Sub {
    Schema(spec_fn(Tree) -> Verdict),
    Other(Tree),
}

/// What a keyword holds.
#[verifier::ext_equal]
pub enum Held {
    Named(Seq<(Seq<char>, Sub)>),
    Listed(Seq<Sub>),
    One(Sub),
    Plain(Tree),
}

/// How a reader takes what JSON Schema leaves to it or to other documents:
/// which numbers are integers, which names a pattern matches, whether a number
/// of matching items is enough, and what a keyword that holds no schema says
/// of a value.
pub struct Reading {
    pub integral: spec_fn(Seq<char>) -> bool,
    pub matches: spec_fn(Seq<char>, Seq<char>) -> bool,
    pub enough: spec_fn(Option<Held>, Option<Held>, nat) -> bool,
    pub other: spec_fn(Seq<char>, Tree, Tree) -> Verdict,
}

/// No place was looked at.
pub open spec fn unseen() -> spec_fn(Mark) -> bool {
    |mark: Mark| false
}

/// A value is accepted without a look at it.
pub open spec fn always() -> Verdict {
    Verdict { valid: true, seen: unseen() }
}

/// What a subschema says of a value. What is no schema says nothing against
/// it.
pub open spec fn judged(sub: Sub, instance: Tree) -> Verdict {
    match sub {
        Sub::Schema(meaning) => meaning(instance),
        Sub::Other(_) => always(),
    }
}

/// All of several verdicts.
pub open spec fn all_of(verdicts: Seq<Verdict>) -> Verdict {
    Verdict {
        valid: forall|i: int| 0 <= i < verdicts.len() ==> (#[trigger] verdicts[i]).valid,
        seen: |mark: Mark|
            exists|i: int| 0 <= i < verdicts.len() && ((#[trigger] verdicts[i]).seen)(mark),
    }
}

/// Any of several verdicts. What failed looked at nothing.
pub open spec fn any_of(verdicts: Seq<Verdict>) -> Verdict {
    Verdict {
        valid: exists|i: int| 0 <= i < verdicts.len() && (#[trigger] verdicts[i]).valid,
        seen: |mark: Mark|
            exists|i: int|
                0 <= i < verdicts.len() && (#[trigger] verdicts[i]).valid && (verdicts[i].seen)(
                    mark,
                ),
    }
}

/// What each of several subschemas says of a value.
pub open spec fn each(subs: Seq<Sub>, instance: Tree) -> Seq<Verdict> {
    subs.map_values(|sub: Sub| judged(sub, instance))
}

/// The properties of a value; one that is no object has none.
pub open spec fn properties_of(instance: Tree) -> Seq<(Seq<char>, Tree)> {
    match instance {
        Tree::Object(members) => members,
        _ => Seq::empty(),
    }
}

/// The items of a value; one that is no array has none.
pub open spec fn items_of(instance: Tree) -> Seq<Tree> {
    match instance {
        Tree::Array(items) => items,
        _ => Seq::empty(),
    }
}

/// What a subschema says of the properties whose names are chosen.
pub open spec fn on_properties(
    instance: Tree,
    chosen: spec_fn(Seq<char>) -> bool,
    sub: Sub,
) -> Verdict {
    let held = properties_of(instance);
    Verdict {
        valid: forall|i: int|
            0 <= i < held.len() && chosen((#[trigger] held[i]).0) ==> judged(sub, held[i].1).valid,
        seen: |mark: Mark|
            exists|i: int|
                0 <= i < held.len() && chosen((#[trigger] held[i]).0) && mark == Mark::Property(
                    held[i].0,
                ),
    }
}

/// What a subschema says of the items whose positions are chosen.
pub open spec fn on_items(instance: Tree, chosen: spec_fn(int) -> bool, sub: Sub) -> Verdict {
    let held = items_of(instance);
    Verdict {
        valid: forall|i: int|
            0 <= i < held.len() && chosen(i) ==> judged(sub, #[trigger] held[i]).valid,
        seen: |mark: Mark| mark matches Mark::Item(i) && 0 <= i < held.len() && chosen(i),
    }
}

/// Whether a keyword names a property.
pub open spec fn names_property(held: Option<Held>, name: Seq<char>) -> bool {
    held matches Some(Held::Named(children)) && exists|k: int|
        0 <= k < children.len() && (#[trigger] children[k]).0 == name
}

/// Whether a keyword has a pattern that matches a name.
pub open spec fn matches_property(held: Option<Held>, name: Seq<char>, reading: Reading) -> bool {
    held matches Some(Held::Named(children)) && exists|k: int|
        0 <= k < children.len() && (reading.matches)((#[trigger] children[k]).0, name)
}

/// How many subschemas a keyword lists.
pub open spec fn listed_count(held: Option<Held>) -> int {
    match held {
        Some(Held::Listed(subs)) => subs.len() as int,
        _ => 0,
    }
}

/// How many items a subschema accepts.
pub open spec fn count_accepted(items: Seq<Tree>, sub: Sub) -> nat
    decreases items.len(),
{
    if items.len() == 0 {
        0
    } else {
        count_accepted(items.drop_last(), sub) + if judged(sub, items.last()).valid {
            1nat
        } else {
            0nat
        }
    }
}

/// What the condition beside a keyword says of a value, where there is one.
pub open spec fn condition_of(held: Option<Held>, instance: Tree) -> Option<bool> {
    match held {
        Some(Held::One(sub)) => Some(judged(sub, instance).valid),
        _ => None,
    }
}

/// What a keyword that holds schemas by name says of a value.
pub open spec fn named_verdict(
    keyword: Seq<char>,
    children: Seq<(Seq<char>, Sub)>,
    instance: Tree,
    reading: Reading,
) -> Verdict {
    if keyword == "properties"@ {
        all_of(
            children.map_values(
                |child: (Seq<char>, Sub)|
                    on_properties(instance, |name: Seq<char>| name == child.0, child.1),
            ),
        )
    } else if keyword == "patternProperties"@ {
        all_of(
            children.map_values(
                |child: (Seq<char>, Sub)|
                    on_properties(
                        instance,
                        |name: Seq<char>| (reading.matches)(child.0, name),
                        child.1,
                    ),
            ),
        )
    } else if keyword == "dependentSchemas"@ || keyword == "dependencies"@ {
        all_of(
            children.map_values(
                |child: (Seq<char>, Sub)|
                    if lookup(properties_of(instance), child.0) is None {
                        always()
                    } else {
                        match child.1 {
                            Sub::Schema(meaning) => meaning(instance),
                            Sub::Other(value) => (reading.other)(keyword, value, instance),
                        }
                    },
            ),
        )
    } else {
        // Definitions constrain nothing where they stand.
        always()
    }
}

/// What a keyword that lists schemas says of a value.
pub open spec fn listed_verdict(keyword: Seq<char>, subs: Seq<Sub>, instance: Tree) -> Verdict {
    let verdicts = each(subs, instance);
    if keyword == "oneOf"@ {
        Verdict {
            valid: exists|i: int|
                0 <= i < verdicts.len() && (#[trigger] verdicts[i]).valid && forall|j: int|
                    0 <= j < verdicts.len() && j != i ==> !(#[trigger] verdicts[j]).valid,
            seen: any_of(verdicts).seen,
        }
    } else {
        // By position: `prefixItems`, and `items` as a list.
        all_of(Seq::new(subs.len(), |k: int| on_items(instance, |i: int| i == k, subs[k])))
    }
}

/// What a keyword that holds one schema says of a value, with what stands
/// beside it in the same schema.
pub open spec fn one_verdict(
    keyword: Seq<char>,
    sub: Sub,
    beside: spec_fn(Seq<char>) -> Option<Held>,
    instance: Tree,
    reading: Reading,
) -> Verdict {
    if keyword == "not"@ {
        Verdict { valid: !judged(sub, instance).valid, seen: unseen() }
    } else if keyword == "if"@ {
        Verdict { valid: true, seen: judged(sub, instance).seen }
    } else if keyword == "then"@ {
        if condition_of(beside("if"@), instance) == Some(true) {
            judged(sub, instance)
        } else {
            always()
        }
    } else if keyword == "else"@ {
        if condition_of(beside("if"@), instance) == Some(false) {
            judged(sub, instance)
        } else {
            always()
        }
    } else if keyword == "additionalProperties"@ {
        on_properties(
            instance,
            |name: Seq<char>|
                !names_property(beside("properties"@), name) && !matches_property(
                    beside("patternProperties"@),
                    name,
                    reading,
                ),
            sub,
        )
    } else if keyword == "propertyNames"@ {
        Verdict {
            valid: forall|i: int|
                0 <= i < properties_of(instance).len() ==> judged(
                    sub,
                    Tree::Text((#[trigger] properties_of(instance)[i]).0),
                ).valid,
            seen: unseen(),
        }
    } else if keyword == "items"@ {
        on_items(instance, |i: int| i >= listed_count(beside("prefixItems"@)), sub)
    } else if keyword == "additionalItems"@ {
        match beside("items"@) {
            Some(Held::Listed(subs)) => on_items(instance, |i: int| i >= subs.len(), sub),
            _ => always(),
        }
    } else if keyword == "contains"@ {
        Verdict {
            valid: instance is Array ==> (reading.enough)(
                beside("minContains"@),
                beside("maxContains"@),
                count_accepted(items_of(instance), sub),
            ),
            seen: |mark: Mark|
                mark matches Mark::Item(i) && 0 <= i < items_of(instance).len() && judged(
                    sub,
                    items_of(instance)[i],
                ).valid,
        }
    } else {
        // `contentSchema` only describes.
        always()
    }
}

/// What a keyword other than `type`, `anyOf` and `allOf` says of a value.
#[verifier::opaque]
pub open spec fn applied(
    keyword: Seq<char>,
    held: Held,
    beside: spec_fn(Seq<char>) -> Option<Held>,
    instance: Tree,
    reading: Reading,
) -> Verdict {
    match held {
        Held::Named(children) => named_verdict(keyword, children, instance, reading),
        Held::Listed(subs) => listed_verdict(keyword, subs, instance),
        Held::One(sub) => one_verdict(keyword, sub, beside, instance, reading),
        Held::Plain(value) => (reading.other)(keyword, value, instance),
    }
}

/// Whether a value is of a type.
pub open spec fn has_type(instance: Tree, name: Seq<char>, reading: Reading) -> bool {
    match instance {
        Tree::Null => name == "null"@,
        Tree::Bool(_) => name == "boolean"@,
        Tree::Number(number) => name == "number"@ || (name == "integer"@ && (reading.integral)(
            number,
        )),
        Tree::Text(_) => name == "string"@,
        Tree::Array(_) => name == "array"@,
        Tree::Object(_) => name == "object"@,
    }
}

/// Whether a value is of the type, or one of the types, a `type` names.
pub open spec fn is_typed(types: Tree, instance: Tree, reading: Reading) -> bool {
    match types {
        Tree::Text(name) => has_type(instance, name, reading),
        Tree::Array(items) => exists|i: int|
            0 <= i < items.len() && (#[trigger] items[i]) is Text && has_type(
                instance,
                items[i]->Text_0,
                reading,
            ),
        _ => true,
    }
}

/// What a keyword says of a value, before the `unevaluated` ones.
pub open spec fn adjacent(
    keyword: Seq<char>,
    held: Held,
    beside: spec_fn(Seq<char>) -> Option<Held>,
    instance: Tree,
    reading: Reading,
) -> Verdict {
    if keyword == "type"@ && held is Plain {
        Verdict { valid: is_typed(held->Plain_0, instance, reading), seen: unseen() }
    } else if keyword == "anyOf"@ && held is Listed {
        any_of(each(held->Listed_0, instance))
    } else if keyword == "allOf"@ && held is Listed {
        all_of(each(held->Listed_0, instance))
    } else {
        applied(keyword, held, beside, instance, reading)
    }
}

/// Whether a keyword is for what the others left.
pub open spec fn is_leftover(keyword: Seq<char>) -> bool {
    keyword == "unevaluatedProperties"@ || keyword == "unevaluatedItems"@
}

/// What an `unevaluated` keyword says of a value, where the keywords beside it
/// have looked at some places.
#[verifier::opaque]
pub open spec fn leftover(
    keyword: Seq<char>,
    held: Held,
    seen: spec_fn(Mark) -> bool,
    instance: Tree,
    reading: Reading,
) -> Verdict {
    match held {
        Held::One(sub) => if keyword == "unevaluatedProperties"@ {
            on_properties(instance, |name: Seq<char>| !seen(Mark::Property(name)), sub)
        } else {
            on_items(instance, |i: int| !seen(Mark::Item(i)), sub)
        },
        Held::Plain(value) => (reading.other)(keyword, value, instance),
        _ => always(),
    }
}

/// What a schema holds under a name.
pub open spec fn held_at(helds: Seq<(Seq<char>, Held)>, name: Seq<char>) -> Option<Held>
    decreases helds.len(),
{
    if helds.len() == 0 {
        None
    } else if helds[0].0 == name {
        Some(helds[0].1)
    } else {
        held_at(helds.drop_first(), name)
    }
}

/// What a keyword finds beside it: no keyword goes by the `type`, `anyOf` or
/// `allOf` beside it, but for the places they looked at.
pub open spec fn beside_in(helds: Seq<(Seq<char>, Held)>) -> spec_fn(Seq<char>) -> Option<Held> {
    |name: Seq<char>|
        if name == "type"@ || name == "anyOf"@ || name == "allOf"@ {
            None
        } else {
            held_at(helds, name)
        }
}

/// The places the keywords of a schema looked at, before the `unevaluated`
/// ones.
pub open spec fn seen_in(
    helds: Seq<(Seq<char>, Held)>,
    instance: Tree,
    reading: Reading,
) -> spec_fn(Mark) -> bool {
    |mark: Mark|
        exists|i: int|
            0 <= i < helds.len() && !is_leftover((#[trigger] helds[i]).0) && (adjacent(
                helds[i].0,
                helds[i].1,
                beside_in(helds),
                instance,
                reading,
            ).seen)(mark)
}

/// What one keyword of a schema says of a value.
pub open spec fn outcome(
    keyword: Seq<char>,
    held: Held,
    beside: spec_fn(Seq<char>) -> Option<Held>,
    seen: spec_fn(Mark) -> bool,
    instance: Tree,
    reading: Reading,
) -> Verdict {
    if is_leftover(keyword) {
        leftover(keyword, held, seen, instance, reading)
    } else {
        adjacent(keyword, held, beside, instance, reading)
    }
}

/// What the keywords of a schema say of a value together: it is accepted where
/// all accept it, and what failed looked at nothing.
pub open spec fn together(
    helds: Seq<(Seq<char>, Held)>,
    instance: Tree,
    reading: Reading,
) -> Verdict {
    let beside = beside_in(helds);
    let seen = seen_in(helds, instance, reading);
    let valid = forall|i: int|
        0 <= i < helds.len() ==> outcome(
            (#[trigger] helds[i]).0,
            helds[i].1,
            beside,
            seen,
            instance,
            reading,
        ).valid;
    Verdict {
        valid,
        seen: |mark: Mark|
            valid && exists|i: int|
                0 <= i < helds.len() && (outcome(
                    (#[trigger] helds[i]).0,
                    helds[i].1,
                    beside,
                    seen,
                    instance,
                    reading,
                ).seen)(mark),
    }
}

/// What a schema says of a value: a boolean schema accepts all or none.
pub open spec fn verdict(schema: Tree, instance: Tree, reading: Reading) -> Verdict
    decreases schema, 0int,
{
    match schema {
        Tree::Bool(all) => Verdict { valid: all, seen: unseen() },
        Tree::Object(members) => together(held_members(members, reading), instance, reading),
        _ => always(),
    }
}

/// What the keywords of a schema hold.
pub open spec fn held_members(members: Seq<(Seq<char>, Tree)>, reading: Reading) -> Seq<
    (Seq<char>, Held),
>
    decreases members, 3int,
{
    Seq::new(
        members.len(),
        |i: int|
            if 0 <= i < members.len() {
                (members[i].0, held(members[i].0, members[i].1, reading))
            } else {
                (Seq::empty(), Held::Plain(Tree::Null))
            },
    )
}

/// What a keyword holds.
pub open spec fn held(keyword: Seq<char>, value: Tree, reading: Reading) -> Held
    decreases value, 2int,
{
    match (holding(keyword), value) {
        (Holding::Named, Tree::Object(children)) => Held::Named(
            Seq::new(
                children.len(),
                |i: int|
                    if 0 <= i < children.len() {
                        (children[i].0, sub_of(children[i].1, reading))
                    } else {
                        (Seq::empty(), Sub::Other(Tree::Null))
                    },
            ),
        ),
        (Holding::Listed, Tree::Array(children)) => Held::Listed(sub_list(children, reading)),
        (Holding::Items, Tree::Array(children)) => Held::Listed(sub_list(children, reading)),
        (Holding::Items, _) => Held::One(sub_of(value, reading)),
        (Holding::One, _) => Held::One(sub_of(value, reading)),
        _ => Held::Plain(value),
    }
}

/// The subschemas of a list.
pub open spec fn sub_list(children: Seq<Tree>, reading: Reading) -> Seq<Sub>
    decreases children, 3int,
{
    Seq::new(
        children.len(),
        |i: int|
            if 0 <= i < children.len() {
                sub_of(children[i], reading)
            } else {
                Sub::Other(Tree::Null)
            },
    )
}

/// A subschema, by what it says of each value.
pub open spec fn sub_of(value: Tree, reading: Reading) -> Sub
    decreases value, 1int,
{
    match value {
        Tree::Bool(_) | Tree::Object(_) => Sub::Schema(
            |instance: Tree| verdict(value, instance, reading),
        ),
        _ => Sub::Other(value),
    }
}

/// Whether a schema accepts a value.
pub open spec fn accepts(schema: Tree, instance: Tree, reading: Reading) -> bool {
    verdict(schema, instance, reading).valid
}

} // verus!
