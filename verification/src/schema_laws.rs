//! What holds of portable schemas: strict clients find nothing to refuse in
//! them, they are their own portable form, and they accept the same values.

use vstd::prelude::*;

use crate::json::{distinct, lemma_found, lookup, sound, with_field, without_field};
use crate::schema::{
    everything, holding, listed_items, nothing, portable, portable_list, portable_members,
    portable_under, split_union, takes_boolean, type_branches, type_names, type_schema, type_union,
    union_fits, union_names, writable, writable_under, Holding,
};
use crate::schema_meaning::{
    accepts, adjacent, all_of, always, any_of, applied, beside_in, each, has_type, held, held_at,
    held_members, is_leftover, is_typed, outcome, seen_in, sub_list, sub_of, together, unseen,
    verdict, Held, Mark, Reading, Sub, Verdict,
};
use crate::tree::Tree;

verus! {

// ---------------------------------------------------------------------------
// Objects
// ---------------------------------------------------------------------------

proof fn lemma_absent(members: Seq<(Seq<char>, Tree)>, name: Seq<char>)
    requires
        forall|i: int| 0 <= i < members.len() ==> (#[trigger] members[i]).0 != name,
    ensures
        lookup(members, name) is None,
    decreases members.len(),
{
    if members.len() > 0 {
        assert forall|i: int| 0 <= i < members.drop_first().len() implies (
        #[trigger] members.drop_first()[i]).0 != name by {
            assert(members.drop_first()[i] == members[i + 1]);
        }
        assert(members[0].0 != name);
        lemma_absent(members.drop_first(), name);
    }
}

/// What stands in the properties once one is taken out.
proof fn lemma_without(members: Seq<(Seq<char>, Tree)>, name: Seq<char>)
    requires
        distinct(members),
    ensures
        distinct(without_field(members, name)),
        forall|i: int|
            0 <= i < without_field(members, name).len() ==> (#[trigger] without_field(
                members,
                name,
            )[i]).0 != name && members.contains(without_field(members, name)[i]),
        forall|i: int|
            0 <= i < members.len() && (#[trigger] members[i]).0 != name ==> without_field(
                members,
                name,
            ).contains(members[i]),
    decreases members.len(),
{
    let left = without_field(members, name);
    if members.len() > 0 {
        let rest = members.drop_first();
        assert forall|i: int, j: int| 0 <= i < j < rest.len() implies (#[trigger] rest[i]).0 != (
        #[trigger] rest[j]).0 by {
            assert(members[i + 1].0 != members[j + 1].0);
        }
        lemma_without(rest, name);
        let inner = without_field(rest, name);
        if members[0].0 == name {
            assert forall|i: int| 0 <= i < left.len() implies (#[trigger] left[i]).0 != name
                && members.contains(left[i]) by {
                assert(left[i] == members[i + 1]);
                assert(members[0].0 != members[i + 1].0);
            }
            assert forall|i: int|
                0 <= i < members.len() && (#[trigger] members[i]).0 != name implies left.contains(
                members[i],
            ) by {
                assert(left[i - 1] == members[i]);
            }
        } else {
            assert(left =~= seq![members[0]] + inner);
            assert forall|i: int| 0 <= i < left.len() implies (#[trigger] left[i]).0 != name
                && members.contains(left[i]) by {
                if i > 0 {
                    assert(left[i] == inner[i - 1]);
                    assert(rest.contains(inner[i - 1]));
                    let k = choose|k: int| 0 <= k < rest.len() && rest[k] == inner[i - 1];
                    assert(members[k + 1] == left[i]);
                } else {
                    assert(members[0] == left[0]);
                }
            }
            assert forall|i: int, j: int| 0 <= i < j < left.len() implies (#[trigger] left[i]).0
                != (#[trigger] left[j]).0 by {
                assert(left[j] == inner[j - 1]);
                if i > 0 {
                    assert(left[i] == inner[i - 1]);
                } else {
                    assert(rest.contains(inner[j - 1]));
                    let k = choose|k: int| 0 <= k < rest.len() && rest[k] == inner[j - 1];
                    assert(members[0].0 != members[k + 1].0);
                }
            }
            assert forall|i: int|
                0 <= i < members.len() && (#[trigger] members[i]).0 != name implies left.contains(
                members[i],
            ) by {
                if i > 0 {
                    assert(rest[i - 1] == members[i]);
                    assert(inner.contains(rest[i - 1]));
                    let k = choose|k: int| 0 <= k < inner.len() && inner[k] == rest[i - 1];
                    assert(left[k + 1] == members[i]);
                } else {
                    assert(left[0] == members[0]);
                }
            }
        }
    }
}

/// What stands in the properties once one is set.
proof fn lemma_with(members: Seq<(Seq<char>, Tree)>, name: Seq<char>, value: Tree)
    requires
        distinct(members),
    ensures
        with_field(members, name, value).contains((name, value)),
        forall|i: int|
            0 <= i < with_field(members, name, value).len() ==> (#[trigger] with_field(
                members,
                name,
                value,
            )[i]) == (name, value) || members.contains(with_field(members, name, value)[i]),
        forall|i: int|
            0 <= i < members.len() && (#[trigger] members[i]).0 != name ==> with_field(
                members,
                name,
                value,
            ).contains(members[i]),
    decreases members.len(),
{
    let set = with_field(members, name, value);
    if members.len() == 0 || crate::text::precedes(name, members[0].0) {
        assert(set[0] == (name, value));
        assert forall|i: int| 0 <= i < set.len() implies (#[trigger] set[i]) == (name, value)
            || members.contains(set[i]) by {
            if i > 0 {
                assert(set[i] == members[i - 1]);
            }
        }
        assert forall|i: int|
            0 <= i < members.len() && (#[trigger] members[i]).0 != name implies set.contains(
            members[i],
        ) by {
            assert(set[i + 1] == members[i]);
        }
    } else if members[0].0 == name {
        assert(set[0] == (name, value));
        assert forall|i: int| 0 <= i < set.len() implies (#[trigger] set[i]) == (name, value)
            || members.contains(set[i]) by {
            if i > 0 {
                assert(set[i] == members[i]);
            }
        }
        assert forall|i: int|
            0 <= i < members.len() && (#[trigger] members[i]).0 != name implies set.contains(
            members[i],
        ) by {
            assert(set[i] == members[i]);
        }
    } else {
        let rest = members.drop_first();
        assert forall|i: int, j: int| 0 <= i < j < rest.len() implies (#[trigger] rest[i]).0 != (
        #[trigger] rest[j]).0 by {
            assert(members[i + 1].0 != members[j + 1].0);
        }
        lemma_with(rest, name, value);
        let inner = with_field(rest, name, value);
        assert(set =~= seq![members[0]] + inner);
        let at = choose|k: int| 0 <= k < inner.len() && inner[k] == (name, value);
        assert(set[at + 1] == (name, value));
        assert forall|i: int| 0 <= i < set.len() implies (#[trigger] set[i]) == (name, value)
            || members.contains(set[i]) by {
            if i > 0 {
                assert(set[i] == inner[i - 1]);
                if inner[i - 1] != (name, value) {
                    assert(rest.contains(inner[i - 1]));
                    let k = choose|k: int| 0 <= k < rest.len() && rest[k] == inner[i - 1];
                    assert(members[k + 1] == set[i]);
                }
            } else {
                assert(members[0] == set[0]);
            }
        }
        assert forall|i: int|
            0 <= i < members.len() && (#[trigger] members[i]).0 != name implies set.contains(
            members[i],
        ) by {
            if i > 0 {
                assert(rest[i - 1] == members[i]);
                assert(inner.contains(rest[i - 1]));
                let k = choose|k: int| 0 <= k < inner.len() && inner[k] == rest[i - 1];
                assert(set[k + 1] == members[i]);
            } else {
                assert(set[0] == members[0]);
            }
        }
    }
}

proof fn lemma_keywords_differ()
    ensures
        "type"@ != "anyOf"@,
        "type"@ != "allOf"@,
        "anyOf"@ != "allOf"@,
        "type"@ != "not"@,
        "anyOf"@ != "not"@,
        "allOf"@ != "not"@,
        holding("type"@) == Holding::Nothing,
        holding("anyOf"@) == Holding::Listed,
        holding("allOf"@) == Holding::Listed,
        holding("not"@) == Holding::One,
        !takes_boolean("not"@),
        !is_leftover("type"@),
        !is_leftover("anyOf"@),
        !is_leftover("allOf"@),
        !is_leftover("not"@),
{
    reveal_strlit("unevaluatedProperties");
    reveal_strlit("unevaluatedItems");
    assert("unevaluatedProperties"@.len() == 21);
    assert("unevaluatedItems"@.len() == 16);
    reveal_strlit("type");
    reveal_strlit("anyOf");
    reveal_strlit("allOf");
    reveal_strlit("not");
    assert("type"@.len() == 4);
    assert("anyOf"@.len() == 5);
    assert("allOf"@.len() == 5);
    assert("not"@.len() == 3);
    assert("anyOf"@[1] == 'n');
    assert("allOf"@[1] == 'l');
    crate::schema::lemma_type_holds_nothing();
    crate::schema::lemma_not_holds_one();
}

// ---------------------------------------------------------------------------
// Nothing to refuse
// ---------------------------------------------------------------------------

/// Whether strict clients consume a schema that stands under a keyword: no
/// boolean schema but where one is expected, and no type union, here or in
/// any subschema.
pub open spec fn is_portable(value: Tree, parent: Option<Seq<char>>) -> bool
    decreases value, 0int,
{
    match value {
        Tree::Bool(_) => parent is Some && takes_boolean(parent->Some_0),
        Tree::Object(members) => type_union(members) is None && forall|i: int|
            0 <= i < members.len() ==> is_portable_under(
                (#[trigger] members[i]).0,
                members[i].1,
            ),
        _ => true,
    }
}

/// Whether strict clients consume what stands under a keyword.
pub open spec fn is_portable_under(keyword: Seq<char>, value: Tree) -> bool
    decreases value, 1int,
{
    match (holding(keyword), value) {
        (Holding::Named, Tree::Object(children)) => forall|i: int|
            0 <= i < children.len() ==> is_portable((#[trigger] children[i]).1, Some(keyword)),
        (Holding::Listed, Tree::Array(children)) => forall|i: int|
            0 <= i < children.len() ==> is_portable(#[trigger] children[i], Some(keyword)),
        (Holding::Items, Tree::Array(children)) => forall|i: int|
            0 <= i < children.len() ==> is_portable(#[trigger] children[i], Some(keyword)),
        (Holding::Items, _) => is_portable(value, Some(keyword)),
        (Holding::One, _) => is_portable(value, Some(keyword)),
        _ => true,
    }
}

proof fn lemma_type_schema_portable(name: Seq<char>, parent: Option<Seq<char>>)
    ensures
        is_portable(type_schema(name), parent),
{
    lemma_keywords_differ();
    let members = seq![("type"@, Tree::Text(name))];
    assert(members[0] == ("type"@, Tree::Text(name)));
    assert(lookup(members, "type"@) == Some(Tree::Text(name)));
}

proof fn lemma_branches_portable(names: Seq<Seq<char>>, keyword: Seq<char>)
    requires
        holding(keyword) == Holding::Listed,
    ensures
        is_portable_under(keyword, type_branches(names)),
{
    let value = type_branches(names);
    assert forall|i: int| 0 <= i < names.len() implies is_portable(
        #[trigger] value->Array_0[i],
        Some(keyword),
    ) by {
        lemma_type_schema_portable(names[i], Some(keyword));
    }
}

proof fn lemma_any_of_portable(names: Seq<Seq<char>>, parent: Option<Seq<char>>)
    ensures
        is_portable(Tree::Object(seq![("anyOf"@, type_branches(names))]), parent),
{
    lemma_keywords_differ();
    lemma_branches_portable(names, "anyOf"@);
    let members = seq![("anyOf"@, type_branches(names))];
    assert(members[0] == ("anyOf"@, type_branches(names)));
    lemma_absent(members, "type"@);
}

/// Whatever schema is published, strict clients consume it: the portable form
/// of a schema holds no boolean schema outside the keywords that take one,
/// and no type union, at any depth.
pub proof fn law_portable_schema_has_nothing_to_refuse(value: Tree, parent: Option<Seq<char>>)
    requires
        sound(value),
        writable(value),
    ensures
        is_portable(portable(value, parent), parent),
    decreases value, 0int,
{
    lemma_keywords_differ();
    match value {
        Tree::Bool(accepts) => {
            if !(parent is Some && takes_boolean(parent->Some_0)) {
                if accepts {
                    lemma_any_of_portable(type_names(), parent);
                } else {
                    let members = seq![("not"@, Tree::Object(Seq::empty()))];
                    assert(members[0] == ("not"@, Tree::Object(Seq::empty())));
                    lemma_absent(members, "type"@);
                    assert(is_portable(Tree::Object(Seq::empty()), Some("not"@)));
                }
            }
        },
        Tree::Object(members) => {
            let mapped = portable_members(members);
            assert forall|i: int| 0 <= i < mapped.len() implies is_portable_under(
                (#[trigger] mapped[i]).0,
                mapped[i].1,
            ) by {
                assert(decreases_to!(value => value->Object_0));
                assert(decreases_to!(value->Object_0 => value->Object_0[i]));
                assert(decreases_to!(value->Object_0[i] => value->Object_0[i].1));
                assert(sound(value->Object_0[i].1));
                assert(writable_under(value->Object_0[i].0, value->Object_0[i].1));
                lemma_portable_under(members[i].0, members[i].1);
            }
            assert forall|i: int, j: int| 0 <= i < j < mapped.len() implies (
            #[trigger] mapped[i]).0 != (#[trigger] mapped[j]).0 by {
                assert(members[i].0 != members[j].0);
            }
            lemma_split_portable(mapped, parent);
        },
        _ => {},
    }
}

proof fn lemma_portable_under(keyword: Seq<char>, value: Tree)
    requires
        sound(value),
        writable_under(keyword, value),
    ensures
        is_portable_under(keyword, portable_under(keyword, value)),
    decreases value, 1int,
{
    let done = portable_under(keyword, value);
    match (holding(keyword), value) {
        (Holding::Named, Tree::Object(children)) => {
            assert forall|i: int| 0 <= i < children.len() implies is_portable(
                (#[trigger] done->Object_0[i]).1,
                Some(keyword),
            ) by {
                assert(decreases_to!(value => value->Object_0));
                assert(decreases_to!(value->Object_0 => value->Object_0[i]));
                assert(decreases_to!(value->Object_0[i] => value->Object_0[i].1));
                assert(sound(value->Object_0[i].1));
                assert(writable(value->Object_0[i].1));
                law_portable_schema_has_nothing_to_refuse(children[i].1, Some(keyword));
            }
        },
        (Holding::Listed, Tree::Array(children)) => {
            lemma_portable_list(keyword, value);
        },
        (Holding::Items, Tree::Array(children)) => {
            lemma_portable_list(keyword, value);
        },
        (Holding::Items, _) => {
            law_portable_schema_has_nothing_to_refuse(value, Some(keyword));
            lemma_still_no_list(value, Some(keyword));
        },
        (Holding::One, _) => {
            law_portable_schema_has_nothing_to_refuse(value, Some(keyword));
        },
        _ => {},
    }
}

proof fn lemma_still_no_list(value: Tree, parent: Option<Seq<char>>)
    requires
        !(value is Array),
    ensures
        !(portable(value, parent) is Array),
{
}

proof fn lemma_portable_list(keyword: Seq<char>, value: Tree)
    requires
        value is Array,
        holding(keyword) == Holding::Listed || holding(keyword) == Holding::Items,
        sound(value),
        writable_under(keyword, value),
    ensures
        is_portable_under(keyword, portable_under(keyword, value)),
    decreases value, 0int,
{
    let done = portable_under(keyword, value);
    let children = value->Array_0;
    assert forall|i: int| 0 <= i < children.len() implies is_portable(
        #[trigger] done->Array_0[i],
        Some(keyword),
    ) by {
        assert(decreases_to!(value => value->Array_0));
        assert(decreases_to!(value->Array_0 => value->Array_0[i]));
        assert(sound(value->Array_0[i]));
        assert(writable(value->Array_0[i]));
        law_portable_schema_has_nothing_to_refuse(children[i], Some(keyword));
    }
}

proof fn lemma_split_portable(members: Seq<(Seq<char>, Tree)>, parent: Option<Seq<char>>)
    requires
        distinct(members),
        forall|i: int|
            0 <= i < members.len() ==> is_portable_under((#[trigger] members[i]).0, members[i].1),
    ensures
        is_portable(Tree::Object(split_union(members)), parent),
{
    lemma_keywords_differ();
    let split = split_union(members);
    let whole = Tree::Object(split);
    match type_union(members) {
        None => {
            assert forall|i: int| 0 <= i < split.len() implies is_portable_under(
                (#[trigger] whole->Object_0[i]).0,
                whole->Object_0[i].1,
            ) by {
                assert(members[i] == split[i]);
            }
        },
        Some(names) => {
            let rest = without_field(members, "type"@);
            lemma_without(members, "type"@);
            assert forall|i: int| 0 <= i < rest.len() implies is_portable_under(
                (#[trigger] rest[i]).0,
                rest[i].1,
            ) by {
                assert(members.contains(rest[i]));
                let k = choose|k: int| 0 <= k < members.len() && members[k] == rest[i];
                assert(is_portable_under(members[k].0, members[k].1));
            }
            let (name, value) = if lookup(rest, "anyOf"@) is Some {
                let condition = Tree::Object(seq![("anyOf"@, type_branches(names))]);
                ("allOf"@, Tree::Array(listed_items(lookup(rest, "allOf"@)).push(condition)))
            } else {
                ("anyOf"@, type_branches(names))
            };
            assert(is_portable_under(name, value)) by {
                if lookup(rest, "anyOf"@) is Some {
                    let prior = listed_items(lookup(rest, "allOf"@));
                    crate::json::lemma_lookup(rest, "allOf"@);
                    assert forall|i: int| 0 <= i < prior.len() + 1 implies is_portable(
                        #[trigger] value->Array_0[i],
                        Some(name),
                    ) by {
                        if i < prior.len() {
                            let k = choose|k: int|
                                0 <= k < rest.len() && #[trigger] rest[k] == (
                                    "allOf"@,
                                    lookup(rest, "allOf"@)->Some_0,
                                );
                            assert(is_portable_under(rest[k].0, rest[k].1));
                            assert(value->Array_0[i] == rest[k].1->Array_0[i]);
                        } else {
                            lemma_any_of_portable(names, Some(name));
                        }
                    }
                } else {
                    lemma_branches_portable(names, "anyOf"@);
                }
            }
            lemma_with(rest, name, value);
            assert(split == with_field(rest, name, value));
            assert forall|i: int| 0 <= i < split.len() implies (#[trigger] split[i]).0 != "type"@
                && is_portable_under(split[i].0, split[i].1) by {
                if split[i] != (name, value) {
                    assert(rest.contains(split[i]));
                    let k = choose|k: int| 0 <= k < rest.len() && rest[k] == split[i];
                    assert(rest[k].0 != "type"@);
                }
            }
            lemma_absent(split, "type"@);
            assert forall|i: int| 0 <= i < split.len() implies is_portable_under(
                (#[trigger] whole->Object_0[i]).0,
                whole->Object_0[i].1,
            ) by {
                assert(split[i].0 != "type"@);
            }
        },
    }
}

/// A portable schema is its own portable form.
pub proof fn law_portable_schema_stays(value: Tree, parent: Option<Seq<char>>)
    requires
        is_portable(value, parent),
    ensures
        portable(value, parent) == value,
    decreases value, 0int,
{
    if let Tree::Object(members) = value {
        let mapped = portable_members(members);
        assert forall|i: int| 0 <= i < members.len() implies mapped[i] == members[i] by {
            assert(decreases_to!(value => value->Object_0));
            assert(decreases_to!(value->Object_0 => value->Object_0[i]));
            assert(decreases_to!(value->Object_0[i] => value->Object_0[i].1));
            assert(is_portable_under(value->Object_0[i].0, value->Object_0[i].1));
            lemma_portable_under_stays(members[i].0, members[i].1);
        }
        assert(mapped =~= members);
    }
}

proof fn lemma_portable_under_stays(keyword: Seq<char>, value: Tree)
    requires
        is_portable_under(keyword, value),
    ensures
        portable_under(keyword, value) == value,
    decreases value, 1int,
{
    let done = portable_under(keyword, value);
    match (holding(keyword), value) {
        (Holding::Named, Tree::Object(children)) => {
            assert forall|i: int| 0 <= i < children.len() implies done->Object_0[i]
                == children[i] by {
                assert(decreases_to!(value => value->Object_0));
                assert(decreases_to!(value->Object_0 => value->Object_0[i]));
                assert(decreases_to!(value->Object_0[i] => value->Object_0[i].1));
                assert(is_portable(value->Object_0[i].1, Some(keyword)));
                law_portable_schema_stays(children[i].1, Some(keyword));
            }
            assert(done->Object_0 =~= children);
        },
        (Holding::Listed, Tree::Array(_)) => {
            lemma_portable_list_stays(keyword, value);
        },
        (Holding::Items, Tree::Array(_)) => {
            lemma_portable_list_stays(keyword, value);
        },
        (Holding::Items, _) => {
            law_portable_schema_stays(value, Some(keyword));
        },
        (Holding::One, _) => {
            law_portable_schema_stays(value, Some(keyword));
        },
        _ => {},
    }
}

proof fn lemma_portable_list_stays(keyword: Seq<char>, value: Tree)
    requires
        value is Array,
        holding(keyword) == Holding::Listed || holding(keyword) == Holding::Items,
        is_portable_under(keyword, value),
    ensures
        portable_under(keyword, value) == value,
    decreases value, 0int,
{
    let children = value->Array_0;
    let done = portable_list(keyword, children);
    assert forall|i: int| 0 <= i < children.len() implies done[i] == children[i] by {
        assert(decreases_to!(value => value->Array_0));
        assert(decreases_to!(value->Array_0 => value->Array_0[i]));
        assert(is_portable(value->Array_0[i], Some(keyword)));
        law_portable_schema_stays(children[i], Some(keyword));
    }
    assert(done =~= children);
}

/// Publishing a published schema again changes nothing.
pub proof fn law_normalizing_is_idempotent(value: Tree, parent: Option<Seq<char>>)
    requires
        sound(value),
        writable(value),
    ensures
        portable(portable(value, parent), parent) == portable(value, parent),
{
    law_portable_schema_has_nothing_to_refuse(value, parent);
    law_portable_schema_stays(portable(value, parent), parent);
}

// ---------------------------------------------------------------------------
// The same values
// ---------------------------------------------------------------------------

/// The names of a union are the texts of its list.
proof fn lemma_union_names(items: Seq<Tree>)
    requires
        union_names(items) is Some,
    ensures
        union_names(items)->Some_0.len() == items.len(),
        forall|i: int|
            0 <= i < items.len() ==> (#[trigger] items[i]) == Tree::Text(
                union_names(items)->Some_0[i],
            ),
    decreases items.len(),
{
    if items.len() > 0 {
        lemma_union_names(items.drop_last());
        assert forall|i: int| 0 <= i < items.len() implies (#[trigger] items[i]) == Tree::Text(
            union_names(items)->Some_0[i],
        ) by {
            if i < items.len() - 1 {
                assert(items.drop_last()[i] == items[i]);
            }
        }
    }
}

/// What a schema of one keyword, none of the `unevaluated` ones, says.
proof fn lemma_single(keyword: Seq<char>, value: Tree, instance: Tree, reading: Reading)
    requires
        !is_leftover(keyword),
    ensures
        ({
            let schema = Tree::Object(seq![(keyword, value)]);
            let helds = held_members(seq![(keyword, value)], reading);
            let only = adjacent(
                keyword,
                held(keyword, value, reading),
                beside_in(helds),
                instance,
                reading,
            );
            &&& verdict(schema, instance, reading).valid == only.valid
            &&& forall|mark: Mark|
                #[trigger] (verdict(schema, instance, reading).seen)(mark) == (only.valid && (
                only.seen)(mark))
        }),
{
    let members = seq![(keyword, value)];
    let helds = held_members(members, reading);
    assert(helds.len() == 1);
    assert(helds[0] == (keyword, held(keyword, value, reading)));
    let whole = together(helds, instance, reading);
    let seen = seen_in(helds, instance, reading);
    let only = adjacent(
        keyword,
        held(keyword, value, reading),
        beside_in(helds),
        instance,
        reading,
    );
    assert(only == outcome(
        helds[0].0,
        helds[0].1,
        beside_in(helds),
        seen,
        instance,
        reading,
    ));
    assert(whole.valid == only.valid);
    assert forall|mark: Mark| #[trigger] (whole.seen)(mark) == (only.valid && (only.seen)(mark)) by {
        if only.valid && (only.seen)(mark) {
            assert((outcome(
                helds[0].0,
                helds[0].1,
                beside_in(helds),
                seen,
                instance,
                reading,
            ).seen)(mark));
        }
    }
}

/// A schema of one type accepts what is of that type, and looks at no place.
proof fn lemma_type_schema_says(name: Seq<char>, instance: Tree, reading: Reading)
    ensures
        verdict(type_schema(name), instance, reading).valid == has_type(instance, name, reading),
        verdict(type_schema(name), instance, reading).seen =~= unseen(),
{
    lemma_keywords_differ();
    lemma_single("type"@, Tree::Text(name), instance, reading);
}

/// Alternatives of one type each accept what is of one of the types, and look
/// at no place.
proof fn lemma_branches_say(names: Seq<Seq<char>>, instance: Tree, reading: Reading)
    ensures
        ({
            let subs = held("anyOf"@, type_branches(names), reading);
            &&& subs is Listed
            &&& any_of(each(subs->Listed_0, instance)).valid <==> (exists|i: int|
                0 <= i < names.len() && has_type(instance, #[trigger] names[i], reading))
            &&& any_of(each(subs->Listed_0, instance)).seen =~= unseen()
        }),
{
    lemma_keywords_differ();
    let value = type_branches(names);
    let children = value->Array_0;
    let subs = held("anyOf"@, value, reading);
    assert(subs == Held::Listed(sub_list(children, reading)));
    let verdicts = each(subs->Listed_0, instance);
    assert forall|i: int| 0 <= i < names.len() implies (#[trigger] verdicts[i]).valid == has_type(
        instance,
        names[i],
        reading,
    ) && verdicts[i].seen == unseen() by {
        lemma_type_schema_says(names[i], instance, reading);
        assert(children[i] == type_schema(names[i]));
        assert(sub_list(children, reading)[i] == sub_of(children[i], reading));
        assert(verdicts[i] == verdict(children[i], instance, reading));
    }
    if exists|i: int| 0 <= i < names.len() && has_type(instance, #[trigger] names[i], reading) {
        let i = choose|i: int|
            0 <= i < names.len() && has_type(instance, #[trigger] names[i], reading);
        assert(verdicts[i].valid);
    }
    if any_of(verdicts).valid {
        let i = choose|i: int| 0 <= i < verdicts.len() && (#[trigger] verdicts[i]).valid;
        assert(has_type(instance, names[i], reading));
    }
    assert forall|mark: Mark| (any_of(verdicts).seen)(mark) == #[trigger] unseen()(mark) by {
        if (any_of(verdicts).seen)(mark) {
            let i = choose|i: int|
                0 <= i < verdicts.len() && (#[trigger] verdicts[i]).valid && (verdicts[i].seen)(
                    mark,
                );
            assert(!unseen()(mark));
        }
    }
}

/// The same, of the schema that holds nothing but the alternatives.
proof fn lemma_any_of_says(names: Seq<Seq<char>>, instance: Tree, reading: Reading)
    ensures
        ({
            let said = verdict(
                Tree::Object(seq![("anyOf"@, type_branches(names))]),
                instance,
                reading,
            );
            &&& said.valid <==> (exists|i: int|
                0 <= i < names.len() && has_type(instance, #[trigger] names[i], reading))
            &&& said.seen =~= unseen()
        }),
{
    lemma_keywords_differ();
    lemma_branches_say(names, instance, reading);
    lemma_single("anyOf"@, type_branches(names), instance, reading);
}

/// The object schemas that stand for boolean ones say the same of every value
/// as they do: they accept all of them, and none.
pub proof fn law_boolean_schemas_keep_their_values(instance: Tree, reading: Reading)
    ensures
        verdict(everything(), instance, reading) == verdict(Tree::Bool(true), instance, reading),
        verdict(nothing(), instance, reading) == verdict(Tree::Bool(false), instance, reading),
        accepts(everything(), instance, reading),
        !accepts(nothing(), instance, reading),
{
    lemma_keywords_differ();
    lemma_any_of_says(type_names(), instance, reading);
    let at: int = match instance {
        Tree::Null => 0,
        Tree::Bool(_) => 1,
        Tree::Object(_) => 2,
        Tree::Array(_) => 3,
        Tree::Number(_) => 4,
        Tree::Text(_) => 5,
    };
    assert(has_type(instance, type_names()[at], reading));
    assert(verdict(everything(), instance, reading) =~= verdict(
        Tree::Bool(true),
        instance,
        reading,
    ));
    let empty = Tree::Object(Seq::empty());
    lemma_single("not"@, empty, instance, reading);
    reveal(applied);
    assert(held_members(Seq::empty(), reading) =~= Seq::empty());
    assert(verdict(empty, instance, reading).valid);
    assert(verdict(nothing(), instance, reading) =~= verdict(
        Tree::Bool(false),
        instance,
        reading,
    ));
}

/// What a schema holds under a name is what its member of that name holds.
proof fn lemma_held_at(members: Seq<(Seq<char>, Tree)>, name: Seq<char>, reading: Reading)
    ensures
        held_at(held_members(members, reading), name) == (match lookup(members, name) {
            Some(value) => Some(held(name, value, reading)),
            None => None,
        }),
    decreases members.len(),
{
    let helds = held_members(members, reading);
    if members.len() > 0 {
        assert(helds[0] == (members[0].0, held(members[0].0, members[0].1, reading)));
        if members[0].0 != name {
            let rest = members.drop_first();
            lemma_held_at(rest, name, reading);
            assert(helds.drop_first() =~= held_members(rest, reading));
        }
    }
}

/// What a member of a schema says of a value before the `unevaluated`
/// keywords.
spec fn part(
    member: (Seq<char>, Tree),
    beside: spec_fn(Seq<char>) -> Option<Held>,
    instance: Tree,
    reading: Reading,
) -> Verdict {
    adjacent(member.0, held(member.0, member.1, reading), beside, instance, reading)
}

/// The condition a split union leaves: its keyword and what that holds.
spec fn union_condition(members: Seq<(Seq<char>, Tree)>) -> (Seq<char>, Tree) {
    let names = type_union(members)->Some_0;
    let rest = without_field(members, "type"@);
    let condition = Tree::Object(seq![("anyOf"@, type_branches(names))]);
    if lookup(rest, "anyOf"@) is Some {
        ("allOf"@, Tree::Array(listed_items(lookup(rest, "allOf"@)).push(condition)))
    } else {
        ("anyOf"@, type_branches(names))
    }
}

/// Which members a split union leaves as they were.
proof fn lemma_split_members(members: Seq<(Seq<char>, Tree)>)
    requires
        distinct(members),
        type_union(members) is Some,
    ensures
        ({
            let split = split_union(members);
            let condition = union_condition(members);
            &&& split.contains(condition)
            &&& forall|i: int|
                0 <= i < split.len() && (#[trigger] split[i]) != condition ==> members.contains(
                    split[i],
                ) && split[i].0 != "type"@
            &&& forall|i: int|
                0 <= i < members.len() && (#[trigger] members[i]).0 != "type"@ && members[i].0
                    != condition.0 ==> split.contains(members[i])
            &&& forall|name: Seq<char>|
                name != "type"@ && name != "anyOf"@ && name != "allOf"@ ==> #[trigger] lookup(
                    split,
                    name,
                ) == lookup(members, name)
        }),
{
    lemma_keywords_differ();
    let rest = without_field(members, "type"@);
    let (name, value) = union_condition(members);
    let split = split_union(members);
    assert(split == with_field(rest, name, value));
    lemma_without(members, "type"@);
    lemma_with(rest, name, value);
    assert forall|i: int| 0 <= i < split.len() && (#[trigger] split[i]) != (name, value) implies
        members.contains(split[i]) && split[i].0 != "type"@ by {
        assert(rest.contains(split[i]));
        let k = choose|k: int| 0 <= k < rest.len() && rest[k] == split[i];
        assert(members.contains(rest[k]));
    }
    assert forall|i: int|
        0 <= i < members.len() && (#[trigger] members[i]).0 != "type"@ && members[i].0
            != name implies split.contains(members[i]) by {
        assert(rest.contains(members[i]));
        let k = choose|k: int| 0 <= k < rest.len() && rest[k] == members[i];
        assert(split.contains(rest[k]));
    }
    assert forall|other: Seq<char>|
        other != "type"@ && other != "anyOf"@ && other != "allOf"@ implies #[trigger] lookup(
        split,
        other,
    ) == lookup(members, other) by {
        crate::schema::lemma_lookup_without(members, "type"@, other);
        crate::json::lemma_set_lookup(rest, name, value, other);
    }
}

/// The condition a split union leaves says what the union and the condition it
/// was added to said together.
proof fn lemma_union_condition(
    members: Seq<(Seq<char>, Tree)>,
    beside: spec_fn(Seq<char>) -> Option<Held>,
    instance: Tree,
    reading: Reading,
)
    requires
        distinct(members),
        union_fits(members),
        type_union(members) is Some,
    ensures
        ({
            let condition = union_condition(members);
            let said = part(condition, beside, instance, reading);
            let types = ("type"@, lookup(members, "type"@)->Some_0);
            let typed = part(types, beside, instance, reading);
            let prior = (condition.0, lookup(members, condition.0)->Some_0);
            let before = if lookup(members, condition.0) is Some {
                part(prior, beside, instance, reading)
            } else {
                always()
            };
            &&& members.contains(types)
            &&& lookup(members, condition.0) is Some ==> members.contains(prior)
            &&& typed.seen == unseen()
            &&& said.valid == (typed.valid && before.valid)
            &&& said.seen =~= before.seen
        }),
{
    lemma_keywords_differ();
    let names = type_union(members)->Some_0;
    let rest = without_field(members, "type"@);
    let items = lookup(members, "type"@)->Some_0;
    let (name, value) = union_condition(members);
    crate::json::lemma_lookup(members, "type"@);
    crate::json::lemma_lookup(members, name);
    crate::schema::lemma_lookup_without(members, "type"@, "anyOf"@);
    crate::schema::lemma_lookup_without(members, "type"@, "allOf"@);
    lemma_union_names(items->Array_0);
    lemma_branches_say(names, instance, reading);
    lemma_any_of_says(names, instance, reading);
    let typed = exists|i: int|
        0 <= i < names.len() && has_type(instance, #[trigger] names[i], reading);
    assert(typed == is_typed(items, instance, reading)) by {
        if typed {
            let i = choose|i: int|
                0 <= i < names.len() && has_type(instance, #[trigger] names[i], reading);
            assert(items->Array_0[i] == Tree::Text(names[i]));
        }
        if is_typed(items, instance, reading) {
            let i = choose|i: int|
                0 <= i < items->Array_0.len() && (#[trigger] items->Array_0[i]) is Text && has_type(
                    instance,
                    items->Array_0[i]->Text_0,
                    reading,
                );
            assert(has_type(instance, names[i], reading));
        }
    }
    if name == "allOf"@ {
        let prior = listed_items(lookup(rest, "allOf"@));
        let condition = Tree::Object(seq![("anyOf"@, type_branches(names))]);
        let now = each(sub_list(value->Array_0, reading), instance);
        let before = each(sub_list(prior, reading), instance);
        let last = verdict(condition, instance, reading);
        assert(now =~= before.push(last)) by {
            assert forall|i: int| 0 <= i < now.len() implies now[i] == before.push(last)[i] by {
                if i < prior.len() {
                    assert(value->Array_0[i] == prior[i]);
                } else {
                    assert(value->Array_0[i] == condition);
                }
            }
        }
        lemma_one_more(before, last);
        if lookup(members, "allOf"@) is None {
            assert(before =~= Seq::empty());
            assert(all_of(before) =~= always());
        }
    }
}

/// One more condition that looks at no place.
proof fn lemma_one_more(verdicts: Seq<Verdict>, last: Verdict)
    requires
        last.seen == unseen(),
    ensures
        all_of(verdicts.push(last)).valid == (all_of(verdicts).valid && last.valid),
        all_of(verdicts.push(last)).seen =~= all_of(verdicts).seen,
{
    let more = verdicts.push(last);
    assert forall|i: int| 0 <= i < verdicts.len() implies #[trigger] verdicts[i] == more[i] by {}
    assert(more[verdicts.len() as int] == last);
    if all_of(more).valid {
        assert forall|i: int| 0 <= i < verdicts.len() implies (#[trigger] verdicts[i]).valid by {
            assert(more[i].valid);
        }
    }
    assert forall|mark: Mark|
        #[trigger] (all_of(more).seen)(mark) == (all_of(verdicts).seen)(mark) by {
        if (all_of(more).seen)(mark) {
            let i = choose|i: int| 0 <= i < more.len() && ((#[trigger] more[i]).seen)(mark);
            assert(!unseen()(mark));
            assert((verdicts[i].seen)(mark));
        }
        if (all_of(verdicts).seen)(mark) {
            let i = choose|i: int|
                0 <= i < verdicts.len() && ((#[trigger] verdicts[i]).seen)(mark);
            assert((more[i].seen)(mark));
        }
    }
}

/// A split union changes nothing of what the members say together, where the
/// condition it leaves says what the union and the condition before it said.
proof fn lemma_split_says(
    members: Seq<(Seq<char>, Tree)>,
    says: spec_fn((Seq<char>, Tree)) -> Verdict,
)
    requires
        distinct(members),
        type_union(members) is Some,
        ({
            let condition = union_condition(members);
            let types = ("type"@, lookup(members, "type"@)->Some_0);
            let prior = (condition.0, lookup(members, condition.0)->Some_0);
            let before = if lookup(members, condition.0) is Some {
                says(prior)
            } else {
                always()
            };
            &&& members.contains(types)
            &&& lookup(members, condition.0) is Some ==> members.contains(prior)
            &&& says(types).seen == unseen()
            &&& says(condition).valid == (says(types).valid && before.valid)
            &&& says(condition).seen == before.seen
        }),
    ensures
        all_of(split_union(members).map_values(says)) == all_of(members.map_values(says)),
{
    lemma_split_members(members);
    let split = split_union(members);
    let condition = union_condition(members);
    let types = ("type"@, lookup(members, "type"@)->Some_0);
    let prior = (condition.0, lookup(members, condition.0)->Some_0);
    let old_all = members.map_values(says);
    let new_all = split.map_values(says);
    let at = choose|k: int| 0 <= k < split.len() && split[k] == condition;
    assert(new_all[at] == says(condition));
    let types_at = choose|k: int| 0 <= k < members.len() && members[k] == types;
    assert(old_all[types_at] == says(types));
    if all_of(old_all).valid {
        assert(says(types).valid);
        if lookup(members, condition.0) is Some {
            let k = choose|k: int| 0 <= k < members.len() && members[k] == prior;
            assert(old_all[k].valid);
        }
        assert forall|i: int| 0 <= i < new_all.len() implies (#[trigger] new_all[i]).valid by {
            if split[i] != condition {
                let k = choose|k: int| 0 <= k < members.len() && members[k] == split[i];
                assert(old_all[k].valid);
            }
        }
    }
    if all_of(new_all).valid {
        assert(says(condition).valid);
        assert forall|i: int| 0 <= i < old_all.len() implies (#[trigger] old_all[i]).valid by {
            lemma_found(members, i);
            if members[i].0 != "type"@ && members[i].0 != condition.0 {
                let k = choose|k: int| 0 <= k < split.len() && split[k] == members[i];
                assert(new_all[k].valid);
            }
        }
    }
    assert forall|mark: Mark|
        #[trigger] (all_of(new_all).seen)(mark) == (all_of(old_all).seen)(mark) by {
        assert(!unseen()(mark));
        if (all_of(new_all).seen)(mark) {
            let i = choose|i: int| 0 <= i < new_all.len() && ((#[trigger] new_all[i]).seen)(mark);
            if split[i] != condition {
                let k = choose|k: int| 0 <= k < members.len() && members[k] == split[i];
                assert((old_all[k].seen)(mark));
            } else {
                let k = choose|k: int| 0 <= k < members.len() && members[k] == prior;
                assert((old_all[k].seen)(mark));
            }
        }
        if (all_of(old_all).seen)(mark) {
            let i = choose|i: int| 0 <= i < old_all.len() && ((#[trigger] old_all[i]).seen)(mark);
            lemma_found(members, i);
            if members[i].0 == condition.0 {
                assert((new_all[at].seen)(mark));
            } else {
                assert(members[i].0 != "type"@);
                let k = choose|k: int| 0 <= k < split.len() && split[k] == members[i];
                assert((new_all[k].seen)(mark));
            }
        }
    }
    assert(all_of(new_all) =~= all_of(old_all));
}

/// What each member says before the `unevaluated` keywords, which are left
/// out.
spec fn says_first(
    beside: spec_fn(Seq<char>) -> Option<Held>,
    instance: Tree,
    reading: Reading,
) -> spec_fn((Seq<char>, Tree)) -> Verdict {
    |member: (Seq<char>, Tree)|
        if is_leftover(member.0) {
            always()
        } else {
            part(member, beside, instance, reading)
        }
}

/// What each member says.
spec fn says_all(
    beside: spec_fn(Seq<char>) -> Option<Held>,
    seen: spec_fn(Mark) -> bool,
    instance: Tree,
    reading: Reading,
) -> spec_fn((Seq<char>, Tree)) -> Verdict {
    |member: (Seq<char>, Tree)|
        outcome(member.0, held(member.0, member.1, reading), beside, seen, instance, reading)
}

/// What a schema says, as what its members say.
proof fn lemma_together(members: Seq<(Seq<char>, Tree)>, instance: Tree, reading: Reading)
    ensures
        ({
            let helds = held_members(members, reading);
            let beside = beside_in(helds);
            let seen = seen_in(helds, instance, reading);
            let all = all_of(members.map_values(says_all(beside, seen, instance, reading)));
            let whole = together(helds, instance, reading);
            &&& seen =~= all_of(members.map_values(says_first(beside, instance, reading))).seen
            &&& whole.valid == all.valid
            &&& whole.seen =~= |mark: Mark| all.valid && (all.seen)(mark)
        }),
{
    let helds = held_members(members, reading);
    let beside = beside_in(helds);
    let seen = seen_in(helds, instance, reading);
    let first = members.map_values(says_first(beside, instance, reading));
    let last = members.map_values(says_all(beside, seen, instance, reading));
    let whole = together(helds, instance, reading);
    assert forall|i: int| 0 <= i < members.len() implies #[trigger] helds[i] == (
        members[i].0,
        held(members[i].0, members[i].1, reading),
    ) by {}
    assert forall|mark: Mark| #[trigger] seen(mark) == (all_of(first).seen)(mark) by {
        assert(!unseen()(mark));
        if seen(mark) {
            let i = choose|i: int|
                0 <= i < helds.len() && !is_leftover((#[trigger] helds[i]).0) && (adjacent(
                    helds[i].0,
                    helds[i].1,
                    beside,
                    instance,
                    reading,
                ).seen)(mark);
            assert((first[i].seen)(mark));
        }
        if (all_of(first).seen)(mark) {
            let i = choose|i: int| 0 <= i < first.len() && ((#[trigger] first[i]).seen)(mark);
            assert(!is_leftover(helds[i].0));
        }
    }
    if whole.valid {
        assert forall|i: int| 0 <= i < last.len() implies (#[trigger] last[i]).valid by {
            assert(helds[i].0 == members[i].0);
        }
    }
    if all_of(last).valid {
        assert forall|i: int| 0 <= i < helds.len() implies outcome(
            (#[trigger] helds[i]).0,
            helds[i].1,
            beside,
            seen,
            instance,
            reading,
        ).valid by {
            assert(last[i].valid);
        }
    }
    assert forall|mark: Mark|
        #[trigger] (whole.seen)(mark) == (all_of(last).valid && (all_of(last).seen)(mark)) by {
        if (whole.seen)(mark) {
            let i = choose|i: int|
                0 <= i < helds.len() && (outcome(
                    (#[trigger] helds[i]).0,
                    helds[i].1,
                    beside,
                    seen,
                    instance,
                    reading,
                ).seen)(mark);
            assert((last[i].seen)(mark));
        }
        if all_of(last).valid && (all_of(last).seen)(mark) {
            let i = choose|i: int| 0 <= i < last.len() && ((#[trigger] last[i]).seen)(mark);
            assert(helds[i].0 == members[i].0);
        }
    }
}

/// Writing a type union as alternatives keeps what a schema says of every
/// value.
pub proof fn law_split_union_keeps_its_values(
    members: Seq<(Seq<char>, Tree)>,
    instance: Tree,
    reading: Reading,
)
    requires
        distinct(members),
        union_fits(members),
    ensures
        verdict(Tree::Object(split_union(members)), instance, reading) == verdict(
            Tree::Object(members),
            instance,
            reading,
        ),
{
    if type_union(members) is Some {
        lemma_keywords_differ();
        lemma_split_members(members);
        let split = split_union(members);
        let old_helds = held_members(members, reading);
        let new_helds = held_members(split, reading);
        let beside = beside_in(old_helds);
        assert forall|name: Seq<char>| #[trigger] beside(name) == beside_in(new_helds)(name) by {
            lemma_held_at(members, name, reading);
            lemma_held_at(split, name, reading);
        }
        assert(beside =~= beside_in(new_helds));
        lemma_together(members, instance, reading);
        lemma_together(split, instance, reading);
        lemma_union_condition(members, beside, instance, reading);
        lemma_split_says(members, says_first(beside, instance, reading));
        let seen = seen_in(old_helds, instance, reading);
        assert(seen == seen_in(new_helds, instance, reading));
        lemma_split_says(members, says_all(beside, seen, instance, reading));
        assert(together(new_helds, instance, reading) =~= together(old_helds, instance, reading));
    }
}

/// A published schema says of every value what the schema it was made from
/// says, and so accepts exactly the same values, however a reader takes the
/// keywords that hold no schema.
pub proof fn law_portable_schema_keeps_its_values(
    value: Tree,
    parent: Option<Seq<char>>,
    instance: Tree,
    reading: Reading,
)
    requires
        sound(value),
        writable(value),
    ensures
        verdict(portable(value, parent), instance, reading) == verdict(value, instance, reading),
        accepts(portable(value, parent), instance, reading) == accepts(value, instance, reading),
    decreases value, 0int,
{
    match value {
        Tree::Bool(_) => {
            law_boolean_schemas_keep_their_values(instance, reading);
        },
        Tree::Object(members) => {
            let mapped = portable_members(members);
            assert forall|i: int, j: int| 0 <= i < j < mapped.len() implies (
            #[trigger] mapped[i]).0 != (#[trigger] mapped[j]).0 by {
                assert(members[i].0 != members[j].0);
            }
            crate::schema::lemma_mapped_fits(members);
            law_split_union_keeps_its_values(mapped, instance, reading);
            let before = held_members(members, reading);
            let after = held_members(mapped, reading);
            assert forall|i: int| 0 <= i < members.len() implies #[trigger] after[i]
                == before[i] by {
                assert(decreases_to!(value => value->Object_0));
                assert(decreases_to!(value->Object_0 => value->Object_0[i]));
                assert(decreases_to!(value->Object_0[i] => value->Object_0[i].1));
                assert(sound(value->Object_0[i].1));
                assert(writable_under(value->Object_0[i].0, value->Object_0[i].1));
                lemma_held_portably(members[i].0, members[i].1, reading);
                assert(mapped[i] == (
                    members[i].0,
                    portable_under(members[i].0, members[i].1),
                ));
            }
            assert(after =~= before);
        },
        _ => {},
    }
}

proof fn lemma_sub_portably(
    value: Tree,
    parent: Option<Seq<char>>,
    reading: Reading,
)
    requires
        sound(value),
        writable(value),
    ensures
        sub_of(portable(value, parent), reading) == sub_of(value, reading),
    decreases value, 1int,
{
    match value {
        Tree::Bool(_) | Tree::Object(_) => {
            let done = portable(value, parent);
            let before = |instance: Tree| verdict(value, instance, reading);
            let after = |instance: Tree| verdict(done, instance, reading);
            assert forall|instance: Tree| #[trigger] after(instance) == before(instance) by {
                law_portable_schema_keeps_its_values(value, parent, instance, reading);
            }
            assert(after =~= before);
            assert(sub_of(value, reading) == Sub::Schema(before));
            assert(sub_of(done, reading) == Sub::Schema(after));
        },
        _ => {},
    }
}

/// What a keyword holds says the same in its portable form.
proof fn lemma_held_portably(keyword: Seq<char>, value: Tree, reading: Reading)
    requires
        sound(value),
        writable_under(keyword, value),
    ensures
        held(keyword, portable_under(keyword, value), reading) == held(keyword, value, reading),
    decreases value, 2int,
{
    let done = portable_under(keyword, value);
    match (holding(keyword), value) {
        (Holding::Named, Tree::Object(children)) => {
            let before = held(keyword, value, reading)->Named_0;
            let after = held(keyword, done, reading)->Named_0;
            assert forall|i: int| 0 <= i < children.len() implies #[trigger] after[i]
                == before[i] by {
                assert(decreases_to!(value => value->Object_0));
                assert(decreases_to!(value->Object_0 => value->Object_0[i]));
                assert(decreases_to!(value->Object_0[i] => value->Object_0[i].1));
                assert(sound(value->Object_0[i].1));
                assert(writable(value->Object_0[i].1));
                lemma_sub_portably(children[i].1, Some(keyword), reading);
            }
            assert(after =~= before);
        },
        (Holding::Listed, Tree::Array(children)) => {
            lemma_list_portably(keyword, children, reading);
        },
        (Holding::Items, Tree::Array(children)) => {
            lemma_list_portably(keyword, children, reading);
        },
        (Holding::Items, _) => {
            lemma_sub_portably(value, Some(keyword), reading);
        },
        (Holding::One, _) => {
            lemma_sub_portably(value, Some(keyword), reading);
        },
        _ => {},
    }
}

proof fn lemma_list_portably(keyword: Seq<char>, children: Seq<Tree>, reading: Reading)
    requires
        forall|i: int| 0 <= i < children.len() ==> sound(#[trigger] children[i]),
        forall|i: int| 0 <= i < children.len() ==> writable(#[trigger] children[i]),
    ensures
        sub_list(portable_list(keyword, children), reading) == sub_list(children, reading),
    decreases children, 3int,
{
    let before = sub_list(children, reading);
    let after = sub_list(portable_list(keyword, children), reading);
    assert forall|i: int| 0 <= i < children.len() implies #[trigger] after[i] == before[i] by {
        lemma_sub_portably(children[i], Some(keyword), reading);
    }
    assert(after =~= before);
}

// ---------------------------------------------------------------------------
// Keywords and unions
// ---------------------------------------------------------------------------

/// Which keywords hold schemas, and how: by name, as a list, one or a list, or
/// one; strict clients take a boolean under four of them. Other keywords hold
/// none.
pub proof fn law_keywords_hold_schemas()
    ensures
        holding("$defs"@) == Holding::Named,
        holding("definitions"@) == Holding::Named,
        holding("properties"@) == Holding::Named,
        holding("patternProperties"@) == Holding::Named,
        holding("dependentSchemas"@) == Holding::Named,
        holding("dependencies"@) == Holding::Named,
        holding("allOf"@) == Holding::Listed,
        holding("anyOf"@) == Holding::Listed,
        holding("oneOf"@) == Holding::Listed,
        holding("prefixItems"@) == Holding::Listed,
        holding("items"@) == Holding::Items,
        holding("contains"@) == Holding::One,
        holding("propertyNames"@) == Holding::One,
        holding("not"@) == Holding::One,
        holding("if"@) == Holding::One,
        holding("then"@) == Holding::One,
        holding("else"@) == Holding::One,
        holding("contentSchema"@) == Holding::One,
        holding("additionalProperties"@) == Holding::One,
        holding("unevaluatedProperties"@) == Holding::One,
        holding("additionalItems"@) == Holding::One,
        holding("unevaluatedItems"@) == Holding::One,
        !takes_boolean("$defs"@),
        !takes_boolean("definitions"@),
        !takes_boolean("properties"@),
        !takes_boolean("patternProperties"@),
        !takes_boolean("dependentSchemas"@),
        !takes_boolean("dependencies"@),
        !takes_boolean("allOf"@),
        !takes_boolean("anyOf"@),
        !takes_boolean("oneOf"@),
        !takes_boolean("prefixItems"@),
        !takes_boolean("items"@),
        !takes_boolean("contains"@),
        !takes_boolean("propertyNames"@),
        !takes_boolean("not"@),
        !takes_boolean("if"@),
        !takes_boolean("then"@),
        !takes_boolean("else"@),
        !takes_boolean("contentSchema"@),
        takes_boolean("additionalProperties"@),
        takes_boolean("unevaluatedProperties"@),
        takes_boolean("additionalItems"@),
        takes_boolean("unevaluatedItems"@),
        holding("type"@) == Holding::Nothing,
        holding("enum"@) == Holding::Nothing,
        holding("const"@) == Holding::Nothing,
        holding("required"@) == Holding::Nothing,
        holding("$ref"@) == Holding::Nothing,
{
    reveal_strlit("$defs");
    reveal_strlit("definitions");
    reveal_strlit("properties");
    reveal_strlit("patternProperties");
    reveal_strlit("dependentSchemas");
    reveal_strlit("dependencies");
    reveal_strlit("allOf");
    reveal_strlit("anyOf");
    reveal_strlit("oneOf");
    reveal_strlit("prefixItems");
    reveal_strlit("items");
    reveal_strlit("contains");
    reveal_strlit("propertyNames");
    reveal_strlit("not");
    reveal_strlit("if");
    reveal_strlit("then");
    reveal_strlit("else");
    reveal_strlit("contentSchema");
    reveal_strlit("additionalProperties");
    reveal_strlit("unevaluatedProperties");
    reveal_strlit("additionalItems");
    reveal_strlit("unevaluatedItems");
    reveal_strlit("type");
    reveal_strlit("enum");
    reveal_strlit("const");
    reveal_strlit("required");
    reveal_strlit("$ref");
    assert("$defs"@.len() == 5);
    assert("definitions"@.len() == 11);
    assert("properties"@.len() == 10);
    assert("patternProperties"@.len() == 17);
    assert("dependentSchemas"@.len() == 16);
    assert("dependencies"@.len() == 12);
    assert("allOf"@.len() == 5);
    assert("anyOf"@.len() == 5);
    assert("oneOf"@.len() == 5);
    assert("prefixItems"@.len() == 11);
    assert("items"@.len() == 5);
    assert("contains"@.len() == 8);
    assert("propertyNames"@.len() == 13);
    assert("not"@.len() == 3);
    assert("if"@.len() == 2);
    assert("then"@.len() == 4);
    assert("else"@.len() == 4);
    assert("contentSchema"@.len() == 13);
    assert("additionalProperties"@.len() == 20);
    assert("unevaluatedProperties"@.len() == 21);
    assert("additionalItems"@.len() == 15);
    assert("unevaluatedItems"@.len() == 16);
    assert("type"@.len() == 4);
    assert("enum"@.len() == 4);
    assert("const"@.len() == 5);
    assert("required"@.len() == 8);
    assert("$ref"@.len() == 4);
    assert("$defs"@[0] == '$');
    assert("$ref"@[0] == '$');
    assert("allOf"@[0] == 'a');
    assert("allOf"@[1] == 'l');
    assert("anyOf"@[0] == 'a');
    assert("anyOf"@[1] == 'n');
    assert("const"@[0] == 'c');
    assert("contains"@[0] == 'c');
    assert("contentSchema"@[0] == 'c');
    assert("definitions"@[0] == 'd');
    assert("dependentSchemas"@[0] == 'd');
    assert("else"@[0] == 'e');
    assert("else"@[1] == 'l');
    assert("enum"@[0] == 'e');
    assert("enum"@[1] == 'n');
    assert("items"@[0] == 'i');
    assert("oneOf"@[0] == 'o');
    assert("prefixItems"@[0] == 'p');
    assert("propertyNames"@[0] == 'p');
    assert("required"@[0] == 'r');
    assert("then"@[0] == 't');
    assert("then"@[1] == 'h');
    assert("type"@[0] == 't');
    assert("type"@[1] == 'y');
    assert("unevaluatedItems"@[0] == 'u');
}

/// The type names are the seven of JSON.
pub proof fn law_type_names_are_those_of_json(name: Seq<char>)
    ensures
        crate::schema::is_type_name(name) <==> type_names().contains(name),
        type_names().len() == 7,
        type_names()[0] == "null"@ && type_names()[1] == "boolean"@,
        type_names()[2] == "object"@ && type_names()[3] == "array"@,
        type_names()[4] == "number"@ && type_names()[5] == "string"@,
        type_names()[6] == "integer"@,
{
    let names = type_names();
    assert(names[0] == "null"@ && names[1] == "boolean"@ && names[2] == "object"@);
    assert(names[3] == "array"@ && names[4] == "number"@ && names[5] == "string"@);
    assert(names[6] == "integer"@);
}

/// A schema has a union exactly where its `type` is a list of one or more
/// names, all of them type names and no two the same; its names are those of
/// the list, in order.
pub proof fn law_unions_are_lists_of_type_names(members: Seq<(Seq<char>, Tree)>)
    ensures
        type_union(members) is Some <==> lookup(members, "type"@) is Some && is_union(
            lookup(members, "type"@)->Some_0,
        ),
        type_union(members) matches Some(names) ==> {
            let items = lookup(members, "type"@)->Some_0->Array_0;
            names.len() == items.len() && forall|i: int|
                0 <= i < items.len() ==> #[trigger] items[i] == Tree::Text(names[i])
        },
{
    if lookup(members, "type"@) is Some && lookup(members, "type"@)->Some_0 is Array {
        let items = lookup(members, "type"@)->Some_0->Array_0;
        lemma_union_is_list(items);
        if union_names(items) is Some {
            lemma_union_names(items);
        }
    }
}

/// Whether a value is a list of one or more distinct type names.
pub open spec fn is_union(value: Tree) -> bool {
    &&& value is Array
    &&& value->Array_0.len() > 0
    &&& forall|i: int|
        0 <= i < value->Array_0.len() ==> (#[trigger] value->Array_0[i]) is Text
            && type_names().contains(value->Array_0[i]->Text_0)
    &&& forall|i: int, j: int|
        0 <= i < j < value->Array_0.len() ==> #[trigger] value->Array_0[i]
            != #[trigger] value->Array_0[j]
}

proof fn lemma_union_is_list(items: Seq<Tree>)
    ensures
        union_names(items) is Some <==> items.len() == 0 || is_union(Tree::Array(items)),
    decreases items.len(),
{
    if items.len() > 0 {
        let rest = items.drop_last();
        let whole = Tree::Array(items);
        let part = Tree::Array(rest);
        lemma_union_is_list(rest);
        let last = items.last();
        if last is Text {
            law_type_names_are_those_of_json(last->Text_0);
        }
        if union_names(rest) is Some {
            lemma_union_names(rest);
            let names = union_names(rest)->Some_0;
            if union_names(items) is Some {
                assert forall|i: int| 0 <= i < items.len() implies (
                #[trigger] whole->Array_0[i]) is Text && type_names().contains(
                    whole->Array_0[i]->Text_0,
                ) by {
                    if i < rest.len() {
                        assert(part->Array_0[i] == whole->Array_0[i]);
                    }
                }
                assert forall|i: int, j: int| 0 <= i < j < items.len() implies
                    #[trigger] whole->Array_0[i] != #[trigger] whole->Array_0[j] by {
                    assert(part->Array_0[i] == whole->Array_0[i]);
                    if j < rest.len() {
                        assert(part->Array_0[j] == whole->Array_0[j]);
                    } else {
                        assert(rest[i] == Tree::Text(names[i]));
                        assert(names.contains(names[i]));
                    }
                }
            }
            if is_union(whole) {
                let end = items.len() - 1;
                assert(whole->Array_0[end] is Text);
                assert(type_names().contains(whole->Array_0[end]->Text_0));
                if names.contains(last->Text_0) {
                    let i = choose|i: int| 0 <= i < names.len() && names[i] == last->Text_0;
                    assert(rest[i] == Tree::Text(names[i]));
                    assert(whole->Array_0[i] != whole->Array_0[end]);
                }
            }
        } else {
            if is_union(whole) {
                assert forall|i: int| 0 <= i < rest.len() implies (
                #[trigger] part->Array_0[i]) is Text && type_names().contains(
                    part->Array_0[i]->Text_0,
                ) by {
                    assert(part->Array_0[i] == whole->Array_0[i]);
                }
                assert forall|i: int, j: int| 0 <= i < j < rest.len() implies
                    #[trigger] part->Array_0[i] != #[trigger] part->Array_0[j] by {
                    assert(whole->Array_0[i] != whole->Array_0[j]);
                }
                assert(is_union(part));
            }
        }
    }
}

/// A published object schema has no type union, and a boolean schema is
/// published as an object but under the keywords that take one.
pub proof fn law_published_schemas_are_plain_objects(value: Tree, parent: Option<Seq<char>>)
    requires
        sound(value),
        writable(value),
    ensures
        value is Object ==> {
            let done = portable(value, parent);
            done is Object && !(lookup(done->Object_0, "type"@) is Some && is_union(
                lookup(done->Object_0, "type"@)->Some_0,
            ))
        },
        value is Bool && !(parent is Some && takes_boolean(parent->Some_0)) ==> portable(
            value,
            parent,
        ) is Object,
        value is Bool && parent is Some && takes_boolean(parent->Some_0) ==> portable(value, parent)
            == value,
        !(value is Bool) && !(value is Object) ==> portable(value, parent) == value,
{
    law_portable_schema_has_nothing_to_refuse(value, parent);
    if value is Object {
        law_unions_are_lists_of_type_names(portable(value, parent)->Object_0);
    }
}

} // verus!
