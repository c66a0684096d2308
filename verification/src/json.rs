//! Operations on JSON values: reading and setting properties, copying,
//! comparing and rendering.

use vstd::prelude::*;
use vstd::string::*;

use crate::text::{
    lemma_precedes_total, lemma_precedes_transitive, precedes, same_text, text_precedes,
};
use crate::tree::{fields, lemma_item_smaller, lemma_member_smaller, trees, Json, Member, Tree};

verus! {

broadcast use crate::tree::group_json_view;

// ---------------------------------------------------------------------------
// Properties
// ---------------------------------------------------------------------------

/// The value of the first property of that name.
pub open spec fn lookup(members: Seq<(Seq<char>, Tree)>, name: Seq<char>) -> Option<Tree>
    decreases members.len(),
{
    if members.len() == 0 {
        None
    } else if members[0].0 == name {
        Some(members[0].1)
    } else {
        lookup(members.drop_first(), name)
    }
}

/// The property of that name, where the value is an object that has one.
pub open spec fn property(value: Tree, name: Seq<char>) -> Option<Tree> {
    match value {
        Tree::Object(members) => lookup(members, name),
        _ => None,
    }
}

/// A property that is found has that name and value; one that is not found
/// is nowhere.
pub proof fn lemma_lookup(members: Seq<(Seq<char>, Tree)>, name: Seq<char>)
    ensures
        lookup(members, name) is Some <==> (exists|i: int|
            0 <= i < members.len() && (#[trigger] members[i]).0 == name),
        lookup(members, name) is Some ==> (exists|i: int|
            0 <= i < members.len() && #[trigger] members[i] == (
                name,
                lookup(members, name)->Some_0,
            )),
    decreases members.len(),
{
    if members.len() > 0 && members[0].0 != name {
        let rest = members.drop_first();
        lemma_lookup(rest, name);
        if lookup(rest, name) is Some {
            let i = choose|i: int|
                0 <= i < rest.len() && #[trigger] rest[i] == (name, lookup(rest, name)->Some_0);
            assert(members[i + 1] == rest[i]);
        }
        if exists|i: int| 0 <= i < members.len() && (#[trigger] members[i]).0 == name {
            let i = choose|i: int| 0 <= i < members.len() && (#[trigger] members[i]).0 == name;
            assert(rest[i - 1] == members[i]);
        }
    } else if members.len() > 0 {
        assert(members[0] == (name, lookup(members, name)->Some_0));
    }
}

/// Where the first property of that name stands.
pub fn position(members: &Vec<Member>, name: &str) -> (at: Option<usize>)
    ensures
        match at {
            Some(i) => {
                &&& i < members@.len()
                &&& members@[i as int].name@ == name@
                &&& lookup(fields(members@), name@) == Some(members@[i as int].value@)
                &&& forall|k: int| 0 <= k < i ==> (#[trigger] members@[k]).name@ != name@
            },
            None => {
                &&& lookup(fields(members@), name@) is None
                &&& forall|k: int| 0 <= k < members@.len() ==> (#[trigger] members@[k]).name@
                    != name@
            },
        },
{
    let mut i: usize = 0;
    let ghost all = fields(members@);
    assert(all.skip(0) =~= all);
    while i < members.len()
        invariant
            i <= members@.len(),
            all == fields(members@),
            lookup(all, name@) == lookup(all.skip(i as int), name@),
            forall|k: int| 0 <= k < i ==> (#[trigger] members@[k]).name@ != name@,
        decreases members@.len() - i,
    {
        assert(all.skip(i as int)[0] == members@[i as int]@);
        if same_text(members[i].name.as_str(), name) {
            return Some(i);
        }
        assert(all.skip(i as int).drop_first() =~= all.skip(i + 1));
        i += 1;
    }
    assert(all.skip(i as int).len() == 0);
    None
}

/// The property of that name, where the value is an object that has one.
pub fn get<'a>(value: &'a Json, name: &str) -> (found: Option<&'a Json>)
    ensures
        match found {
            Some(item) => property(value@, name@) == Some(item@),
            None => property(value@, name@) is None,
        },
{
    match value {
        Json::Object(members) => {
            let at = position(members, name);
            match at {
                Some(i) => Some(&members[i].value),
                None => None,
            }
        },
        _ => None,
    }
}

// ---------------------------------------------------------------------------
// Copying and comparing
// ---------------------------------------------------------------------------

/// A copy of a value.
pub fn copy(value: &Json) -> (result: Json)
    ensures
        result@ == value@,
    decreases value,
{
    match value {
        Json::Null => Json::Null,
        Json::Bool(flag) => Json::Bool(*flag),
        Json::Number(number) => Json::Number(number.clone()),
        Json::Text(text) => Json::Text(text.clone()),
        Json::Array(items) => {
            let mut copies: Vec<Json> = Vec::new();
            let mut i: usize = 0;
            while i < items.len()
                invariant
                    i <= items@.len(),
                    *value == Json::Array(*items),
                    copies@.len() == i,
                    forall|k: int| 0 <= k < i ==> (#[trigger] copies@[k])@ == items@[k]@,
                decreases items@.len() - i,
            {
                proof {
                    lemma_item_smaller(*value, i as int);
                }
                let item = copy(&items[i]);
                copies.push(item);
                i += 1;
            }
            assert(trees(copies@) =~= trees(items@));
            Json::Array(copies)
        },
        Json::Object(members) => {
            let mut copies: Vec<Member> = Vec::new();
            let mut i: usize = 0;
            while i < members.len()
                invariant
                    i <= members@.len(),
                    *value == Json::Object(*members),
                    copies@.len() == i,
                    forall|k: int| 0 <= k < i ==> (#[trigger] copies@[k])@ == members@[k]@,
                decreases members@.len() - i,
            {
                proof {
                    lemma_member_smaller(*value, i as int);
                }
                let item = copy(&members[i].value);
                copies.push(Member { name: members[i].name.clone(), value: item });
                i += 1;
            }
            assert(fields(copies@) =~= fields(members@));
            Json::Object(copies)
        },
    }
}

/// Whether a number is a floating-point zero: there are two, which are equal.
pub open spec fn is_float_zero(number: Seq<char>) -> bool {
    number == "0.0"@ || number == "-0.0"@
}

/// Whether two numbers are equal. Each has one text, but for the two zeros;
/// a whole number and a floating-point one are never equal.
pub open spec fn equal_numbers(a: Seq<char>, b: Seq<char>) -> bool {
    a == b || (is_float_zero(a) && is_float_zero(b))
}

/// Whether two values are equal: two arrays item by item, two objects name by
/// name, in whatever order they hold them.
pub open spec fn equal(a: Tree, b: Tree) -> bool
    decreases a,
{
    match (a, b) {
        (Tree::Null, Tree::Null) => true,
        (Tree::Bool(x), Tree::Bool(y)) => x == y,
        (Tree::Number(x), Tree::Number(y)) => equal_numbers(x, y),
        (Tree::Text(x), Tree::Text(y)) => x == y,
        (Tree::Array(xs), Tree::Array(ys)) => {
            &&& xs.len() == ys.len()
            &&& forall|i: int| 0 <= i < xs.len() ==> equal(#[trigger] xs[i], ys[i])
        },
        (Tree::Object(xs), Tree::Object(ys)) => {
            &&& forall|i: int|
                0 <= i < xs.len() ==> lookup(ys, (#[trigger] xs[i]).0) is Some && equal(
                    xs[i].1,
                    lookup(ys, xs[i].0)->Some_0,
                )
            &&& forall|j: int| 0 <= j < ys.len() ==> lookup(xs, (#[trigger] ys[j]).0) is Some
        },
        _ => false,
    }
}

/// Whether what was found is a value equal to the one asked for.
pub open spec fn is_equal(found: Option<Tree>, wanted: Tree) -> bool {
    found matches Some(value) && equal(value, wanted)
}

fn float_zero(number: &str) -> (result: bool)
    ensures
        result == is_float_zero(number@),
{
    same_text(number, "0.0") || same_text(number, "-0.0")
}

/// Whether two values are equal.
pub fn same(a: &Json, b: &Json) -> (result: bool)
    ensures
        result == equal(a@, b@),
    decreases a,
{
    match (a, b) {
        (Json::Null, Json::Null) => true,
        (Json::Bool(x), Json::Bool(y)) => *x == *y,
        (Json::Number(x), Json::Number(y)) => *x == *y || (float_zero(x.as_str()) && float_zero(
            y.as_str(),
        )),
        (Json::Text(x), Json::Text(y)) => *x == *y,
        (Json::Array(xs), Json::Array(ys)) => {
            if xs.len() != ys.len() {
                return false;
            }
            let mut i: usize = 0;
            while i < xs.len()
                invariant
                    i <= xs@.len() == ys@.len(),
                    *a == Json::Array(*xs),
                    *b == Json::Array(*ys),
                    forall|k: int| 0 <= k < i ==> equal((#[trigger] xs@[k])@, ys@[k]@),
                decreases xs@.len() - i,
            {
                proof {
                    lemma_item_smaller(*a, i as int);
                }
                if !same(&xs[i], &ys[i]) {
                    assert(!equal(a@->Array_0[i as int], b@->Array_0[i as int]));
                    return false;
                }
                i += 1;
            }
            true
        },
        (Json::Object(xs), Json::Object(ys)) => {
            let mut i: usize = 0;
            while i < xs.len()
                invariant
                    i <= xs@.len(),
                    *a == Json::Object(*xs),
                    *b == Json::Object(*ys),
                    forall|k: int|
                        0 <= k < i ==> lookup(fields(ys@), (#[trigger] xs@[k]).name@) is Some && equal(
                            xs@[k].value@,
                            lookup(fields(ys@), xs@[k].name@)->Some_0,
                        ),
                decreases xs@.len() - i,
            {
                proof {
                    lemma_member_smaller(*a, i as int);
                }
                let equals = match position(ys, xs[i].name.as_str()) {
                    Some(at) => same(&xs[i].value, &ys[at].value),
                    None => false,
                };
                if !equals {
                    let ghost missed = a@->Object_0[i as int];
                    assert(missed == xs@[i as int]@);
                    return false;
                }
                i += 1;
            }
            let mut j: usize = 0;
            while j < ys.len()
                invariant
                    j <= ys@.len(),
                    *a == Json::Object(*xs),
                    *b == Json::Object(*ys),
                    forall|k: int|
                        0 <= k < j ==> lookup(fields(xs@), (#[trigger] ys@[k]).name@) is Some,
                decreases ys@.len() - j,
            {
                if position(xs, ys[j].name.as_str()).is_none() {
                    let ghost missed = b@->Object_0[j as int];
                    assert(missed == ys@[j as int]@);
                    return false;
                }
                j += 1;
            }
            true
        },
        _ => false,
    }
}

/// Whether no name occurs twice.
pub open spec fn distinct(members: Seq<(Seq<char>, Tree)>) -> bool {
    forall|i: int, j: int|
        0 <= i < j < members.len() ==> (#[trigger] members[i]).0 != (#[trigger] members[j]).0
}

/// Whether no object in a value has two properties of one name.
pub open spec fn sound(value: Tree) -> bool
    decreases value,
{
    match value {
        Tree::Array(items) => forall|i: int| 0 <= i < items.len() ==> sound(#[trigger] items[i]),
        Tree::Object(members) => distinct(members) && forall|i: int|
            0 <= i < members.len() ==> sound((#[trigger] members[i]).1),
        _ => true,
    }
}

/// A property that is there is the one a lookup finds.
pub proof fn lemma_found(members: Seq<(Seq<char>, Tree)>, i: int)
    requires
        distinct(members),
        0 <= i < members.len(),
    ensures
        lookup(members, members[i].0) == Some(members[i].1),
    decreases members.len(),
{
    if i > 0 {
        let rest = members.drop_first();
        assert forall|a: int, b: int| 0 <= a < b < rest.len() implies (#[trigger] rest[a]).0 != (
        #[trigger] rest[b]).0 by {
            assert(members[a + 1].0 != members[b + 1].0);
        }
        assert(members[0].0 != members[i].0);
        lemma_found(rest, i - 1);
    }
}

/// A value equals itself.
pub proof fn law_equality_is_reflexive(value: Tree)
    requires
        sound(value),
    ensures
        equal(value, value),
    decreases value,
{
    match value {
        Tree::Array(items) => {
            assert forall|i: int| 0 <= i < items.len() implies equal(
                #[trigger] value->Array_0[i],
                value->Array_0[i],
            ) by {
                assert(decreases_to!(value => value->Array_0));
                assert(decreases_to!(value->Array_0 => value->Array_0[i]));
                law_equality_is_reflexive(items[i]);
            }
        },
        Tree::Object(members) => {
            assert forall|i: int| 0 <= i < members.len() implies lookup(
                members,
                (#[trigger] value->Object_0[i]).0,
            ) is Some && equal(
                value->Object_0[i].1,
                lookup(members, value->Object_0[i].0)->Some_0,
            ) by {
                assert(decreases_to!(value => value->Object_0));
                assert(decreases_to!(value->Object_0 => value->Object_0[i]));
                assert(decreases_to!(value->Object_0[i] => value->Object_0[i].1));
                lemma_found(members, i);
                law_equality_is_reflexive(members[i].1);
            }
        },
        _ => {},
    }
}

/// Where a value equals another, that one equals it.
pub proof fn law_equality_is_symmetric(a: Tree, b: Tree)
    requires
        sound(b),
        equal(a, b),
    ensures
        equal(b, a),
    decreases a,
{
    match (a, b) {
        (Tree::Array(xs), Tree::Array(ys)) => {
            assert forall|i: int| 0 <= i < ys.len() implies equal(
                #[trigger] b->Array_0[i],
                a->Array_0[i],
            ) by {
                assert(decreases_to!(a => a->Array_0));
                assert(decreases_to!(a->Array_0 => a->Array_0[i]));
                assert(equal(xs[i], ys[i]));
                law_equality_is_symmetric(xs[i], ys[i]);
            }
        },
        (Tree::Object(xs), Tree::Object(ys)) => {
            assert forall|j: int| 0 <= j < ys.len() implies lookup(
                xs,
                (#[trigger] b->Object_0[j]).0,
            ) is Some && equal(b->Object_0[j].1, lookup(xs, b->Object_0[j].0)->Some_0) by {
                let name = ys[j].0;
                assert(lookup(xs, ys[j].0) is Some);
                lemma_lookup(xs, name);
                let i = choose|i: int|
                    0 <= i < xs.len() && #[trigger] xs[i] == (name, lookup(xs, name)->Some_0);
                assert(decreases_to!(a => a->Object_0));
                assert(decreases_to!(a->Object_0 => a->Object_0[i]));
                assert(decreases_to!(a->Object_0[i] => a->Object_0[i].1));
                lemma_found(ys, j);
                assert(equal(xs[i].1, ys[j].1));
                law_equality_is_symmetric(xs[i].1, ys[j].1);
            }
            assert forall|i: int| 0 <= i < xs.len() implies lookup(
                ys,
                (#[trigger] a->Object_0[i]).0,
            ) is Some by {
                assert(lookup(ys, xs[i].0) is Some);
            }
        },
        _ => {},
    }
}

/// Values that equal the same value equal each other.
pub proof fn law_equality_is_transitive(a: Tree, b: Tree, c: Tree)
    requires
        equal(a, b),
        equal(b, c),
    ensures
        equal(a, c),
    decreases a,
{
    match (a, b, c) {
        (Tree::Array(xs), Tree::Array(ys), Tree::Array(zs)) => {
            assert forall|i: int| 0 <= i < xs.len() implies equal(
                #[trigger] a->Array_0[i],
                c->Array_0[i],
            ) by {
                assert(decreases_to!(a => a->Array_0));
                assert(decreases_to!(a->Array_0 => a->Array_0[i]));
                assert(equal(xs[i], ys[i]));
                assert(equal(ys[i], zs[i]));
                law_equality_is_transitive(xs[i], ys[i], zs[i]);
            }
        },
        (Tree::Object(xs), Tree::Object(ys), Tree::Object(zs)) => {
            assert forall|i: int| 0 <= i < xs.len() implies lookup(
                zs,
                (#[trigger] a->Object_0[i]).0,
            ) is Some && equal(a->Object_0[i].1, lookup(zs, a->Object_0[i].0)->Some_0) by {
                let name = xs[i].0;
                assert(lookup(ys, xs[i].0) is Some);
                lemma_lookup(ys, name);
                let k = choose|k: int|
                    0 <= k < ys.len() && #[trigger] ys[k] == (name, lookup(ys, name)->Some_0);
                assert(decreases_to!(a => a->Object_0));
                assert(decreases_to!(a->Object_0 => a->Object_0[i]));
                assert(decreases_to!(a->Object_0[i] => a->Object_0[i].1));
                assert(equal(ys[k].1, lookup(zs, ys[k].0)->Some_0));
                law_equality_is_transitive(xs[i].1, ys[k].1, lookup(zs, name)->Some_0);
            }
            assert forall|j: int| 0 <= j < zs.len() implies lookup(
                xs,
                (#[trigger] c->Object_0[j]).0,
            ) is Some by {
                let name = zs[j].0;
                assert(lookup(ys, zs[j].0) is Some);
                lemma_lookup(ys, name);
                let k = choose|k: int|
                    0 <= k < ys.len() && #[trigger] ys[k] == (name, lookup(ys, name)->Some_0);
                assert(lookup(xs, ys[k].0) is Some);
            }
        },
        _ => {},
    }
}

/// Two objects of the same properties are equal, in whatever order they hold
/// them.
pub proof fn law_order_of_properties_does_not_matter(
    xs: Seq<(Seq<char>, Tree)>,
    ys: Seq<(Seq<char>, Tree)>,
)
    requires
        sound(Tree::Object(xs)),
        distinct(ys),
        forall|i: int| 0 <= i < xs.len() ==> ys.contains(#[trigger] xs[i]),
        forall|j: int| 0 <= j < ys.len() ==> xs.contains(#[trigger] ys[j]),
    ensures
        equal(Tree::Object(xs), Tree::Object(ys)),
{
    let a = Tree::Object(xs);
    let b = Tree::Object(ys);
    assert forall|i: int| 0 <= i < xs.len() implies lookup(ys, (#[trigger] a->Object_0[i]).0) is Some
        && equal(a->Object_0[i].1, lookup(ys, a->Object_0[i].0)->Some_0) by {
        assert(ys.contains(xs[i]));
        let k = choose|k: int| 0 <= k < ys.len() && ys[k] == xs[i];
        lemma_found(ys, k);
        assert(sound(a->Object_0[i].1));
        law_equality_is_reflexive(xs[i].1);
    }
    assert forall|j: int| 0 <= j < ys.len() implies lookup(
        xs,
        (#[trigger] b->Object_0[j]).0,
    ) is Some by {
        assert(xs.contains(ys[j]));
        let k = choose|k: int| 0 <= k < xs.len() && xs[k] == ys[j];
        lemma_found(xs, k);
    }
}

// ---------------------------------------------------------------------------
// Changing objects
// ---------------------------------------------------------------------------

/// Whether the names of the properties are strictly ascending.
pub open spec fn ascending(members: Seq<(Seq<char>, Tree)>) -> bool {
    forall|i: int, j: int|
        0 <= i < j < members.len() ==> precedes(
            (#[trigger] members[i]).0,
            (#[trigger] members[j]).0,
        )
}

/// The properties with `name` set to `value`: in place where the name is
/// there already, else before the first name that stands after it.
pub open spec fn with_field(
    members: Seq<(Seq<char>, Tree)>,
    name: Seq<char>,
    value: Tree,
) -> Seq<(Seq<char>, Tree)>
    decreases members.len(),
{
    if members.len() == 0 || precedes(name, members[0].0) {
        seq![(name, value)] + members
    } else if members[0].0 == name {
        seq![(name, value)] + members.drop_first()
    } else {
        seq![members[0]] + with_field(members.drop_first(), name, value)
    }
}

/// The properties without the first one of that name.
pub open spec fn without_field(
    members: Seq<(Seq<char>, Tree)>,
    name: Seq<char>,
) -> Seq<(Seq<char>, Tree)>
    decreases members.len(),
{
    if members.len() == 0 {
        members
    } else if members[0].0 == name {
        members.drop_first()
    } else {
        seq![members[0]] + without_field(members.drop_first(), name)
    }
}

/// Sets a property, keeping ascending names ascending.
pub fn set_field(members: &mut Vec<Member>, name: &str, value: Json)
    ensures
        fields(final(members)@) == with_field(fields(old(members)@), name@, value@),
{
    let mut i: usize = 0;
    let ghost all = fields(members@);
    let ghost v = value@;
    assert(all.skip(0) =~= all);
    assert(all.take(0) + with_field(all.skip(0), name@, v) =~= with_field(all, name@, v));
    while i < members.len()
        invariant
            i <= members@.len(),
            all == fields(members@),
            members@ == old(members)@,
            v == value@,
            with_field(all, name@, v) == all.take(i as int) + with_field(
                all.skip(i as int),
                name@,
                v,
            ),
        decreases members@.len() - i,
    {
        let ghost rest = all.skip(i as int);
        assert(rest[0] == members@[i as int]@);
        if text_precedes(name, members[i].name.as_str()) {
            members.insert(i, Member { name: name.to_owned(), value });
            assert(fields(members@) =~= all.take(i as int) + (seq![(name@, v)] + rest));
            return;
        }
        if same_text(members[i].name.as_str(), name) {
            members.set(i, Member { name: name.to_owned(), value });
            assert(fields(members@) =~= all.take(i as int) + (seq![(name@, v)]
                + rest.drop_first()));
            return;
        }
        assert(rest.drop_first() =~= all.skip(i + 1));
        assert(all.take(i as int) + (seq![rest[0]] + with_field(rest.drop_first(), name@, v))
            =~= all.take(i + 1) + with_field(all.skip(i + 1), name@, v));
        i += 1;
    }
    members.push(Member { name: name.to_owned(), value });
    assert(fields(members@) =~= all.take(i as int) + (seq![(name@, v)] + all.skip(i as int)));
}

/// Setting a property of an object whose names are ascending keeps them so:
/// the property is found afterwards, every other one is found as before, and
/// no name is added but that one.
pub proof fn law_setting_a_field_keeps_the_others(
    members: Seq<(Seq<char>, Tree)>,
    name: Seq<char>,
    value: Tree,
    other: Seq<char>,
)
    requires
        ascending(members),
    ensures
        ascending(with_field(members, name, value)),
        lookup(with_field(members, name, value), name) == Some(value),
        other != name ==> lookup(with_field(members, name, value), other) == lookup(
            members,
            other,
        ),
{
    lemma_set(members, name, value);
    lemma_set_lookup(members, name, value, other);
}

proof fn lemma_set(members: Seq<(Seq<char>, Tree)>, name: Seq<char>, value: Tree)
    requires
        ascending(members),
    ensures
        ascending(with_field(members, name, value)),
        forall|j: int|
            0 <= j < with_field(members, name, value).len() ==> (#[trigger] with_field(
                members,
                name,
                value,
            )[j]).0 == name || (exists|k: int|
                0 <= k < members.len() && (#[trigger] members[k]).0 == with_field(
                    members,
                    name,
                    value,
                )[j].0),
    decreases members.len(),
{
    let done = with_field(members, name, value);
    if members.len() == 0 {
        assert(done =~= seq![(name, value)]);
    } else if precedes(name, members[0].0) {
        assert(done =~= seq![(name, value)] + members);
        assert forall|i: int, j: int| 0 <= i < j < done.len() implies precedes(
            (#[trigger] done[i]).0,
            (#[trigger] done[j]).0,
        ) by {
            assert(done[j] == members[j - 1]);
            if i == 0 {
                if j > 1 {
                    lemma_precedes_transitive(name, members[0].0, members[j - 1].0);
                }
            } else {
                assert(done[i] == members[i - 1]);
            }
        }
        assert forall|j: int| 0 <= j < done.len() implies (#[trigger] done[j]).0 == name || (exists|
            k: int,
        | 0 <= k < members.len() && (#[trigger] members[k]).0 == done[j].0) by {
            if j > 0 {
                assert(members[j - 1] == done[j]);
            }
        }
    } else if members[0].0 == name {
        assert(done =~= seq![(name, value)] + members.drop_first());
        assert forall|j: int| 0 <= j < done.len() implies #[trigger] done[j].0
            == members[j].0 by {}
    } else {
        let rest = members.drop_first();
        assert forall|i: int, j: int| 0 <= i < j < rest.len() implies precedes(
            (#[trigger] rest[i]).0,
            (#[trigger] rest[j]).0,
        ) by {
            assert(rest[i] == members[i + 1] && rest[j] == members[j + 1]);
        }
        lemma_set(rest, name, value);
        lemma_precedes_total(members[0].0, name);
        let tail = with_field(rest, name, value);
        assert forall|j: int| 0 <= j < tail.len() implies precedes(
            members[0].0,
            (#[trigger] tail[j]).0,
        ) && (tail[j].0 == name || (exists|k: int|
            0 <= k < members.len() && (#[trigger] members[k]).0 == tail[j].0)) by {
            if tail[j].0 != name {
                let k = choose|k: int| 0 <= k < rest.len() && (#[trigger] rest[k]).0 == tail[j].0;
                assert(rest[k] == members[k + 1]);
                assert(precedes(members[0].0, members[k + 1].0));
            }
        }
        assert forall|i: int, j: int| 0 <= i < j < done.len() implies precedes(
            (#[trigger] done[i]).0,
            (#[trigger] done[j]).0,
        ) by {
            assert(done[j] == tail[j - 1]);
            if i > 0 {
                assert(done[i] == tail[i - 1]);
            }
        }
        assert forall|j: int| 0 <= j < done.len() implies (#[trigger] done[j]).0 == name || (exists|
            k: int,
        | 0 <= k < members.len() && (#[trigger] members[k]).0 == done[j].0) by {
            if j > 0 {
                assert(done[j] == tail[j - 1]);
            } else {
                assert(members[0] == done[0]);
            }
        }
    }
}

/// A property that is set is found, and the others hold what they held.
pub proof fn lemma_set_lookup(
    members: Seq<(Seq<char>, Tree)>,
    name: Seq<char>,
    value: Tree,
    other: Seq<char>,
)
    ensures
        lookup(with_field(members, name, value), name) == Some(value),
        other != name ==> lookup(with_field(members, name, value), other) == lookup(
            members,
            other,
        ),
    decreases members.len(),
{
    let done = with_field(members, name, value);
    if members.len() == 0 || precedes(name, members[0].0) {
        assert(done.drop_first() =~= members);
    } else if members[0].0 == name {
        assert(done.drop_first() =~= members.drop_first());
    } else {
        lemma_set_lookup(members.drop_first(), name, value, other);
        assert(done.drop_first() =~= with_field(members.drop_first(), name, value));
    }
}

/// Removes the first property of that name.
pub fn remove_field(members: &mut Vec<Member>, name: &str)
    ensures
        fields(final(members)@) == without_field(fields(old(members)@), name@),
{
    let ghost all = fields(members@);
    let at = position(members, name);
    match at {
        Some(i) => {
            proof {
                lemma_without_at(all, name@, i as int);
            }
            members.remove(i);
            assert(fields(members@) =~= all.take(i as int) + all.skip(i + 1));
        },
        None => {
            proof {
                lemma_without_absent(all, name@);
            }
        },
    }
}

proof fn lemma_without_at(members: Seq<(Seq<char>, Tree)>, name: Seq<char>, at: int)
    requires
        0 <= at < members.len(),
        members[at].0 == name,
        forall|k: int| 0 <= k < at ==> (#[trigger] members[k]).0 != name,
    ensures
        without_field(members, name) == members.take(at) + members.skip(at + 1),
    decreases members.len(),
{
    if at == 0 {
        assert(members.drop_first() =~= members.take(0) + members.skip(1));
    } else {
        let rest = members.drop_first();
        assert forall|k: int| 0 <= k < at - 1 implies (#[trigger] rest[k]).0 != name by {
            assert(rest[k] == members[k + 1]);
        }
        lemma_without_at(rest, name, at - 1);
        assert(seq![members[0]] + (rest.take(at - 1) + rest.skip(at)) =~= members.take(at)
            + members.skip(at + 1));
    }
}

proof fn lemma_without_absent(members: Seq<(Seq<char>, Tree)>, name: Seq<char>)
    requires
        forall|k: int| 0 <= k < members.len() ==> (#[trigger] members[k]).0 != name,
    ensures
        without_field(members, name) == members,
    decreases members.len(),
{
    if members.len() > 0 {
        let rest = members.drop_first();
        assert forall|k: int| 0 <= k < rest.len() implies (#[trigger] rest[k]).0 != name by {
            assert(rest[k] == members[k + 1]);
        }
        lemma_without_absent(rest, name);
        assert(seq![members[0]] + rest =~= members);
    }
}

// ---------------------------------------------------------------------------
// Rendering
// ---------------------------------------------------------------------------

/// The hexadecimal digit of a number below sixteen.
pub open spec fn hex_digit(n: int) -> char {
    "0123456789abcdef"@[n]
}

/// How one character stands in a JSON string: quotes, backslashes and control
/// characters are escaped, every other character stands for itself.
pub open spec fn escaped(c: char) -> Seq<char> {
    if c == '"' {
        seq!['\\', '"']
    } else if c == '\\' {
        seq!['\\', '\\']
    } else if c == '\u{8}' {
        seq!['\\', 'b']
    } else if c == '\t' {
        seq!['\\', 't']
    } else if c == '\n' {
        seq!['\\', 'n']
    } else if c == '\u{c}' {
        seq!['\\', 'f']
    } else if c == '\r' {
        seq!['\\', 'r']
    } else if ' ' > c {
        seq!['\\', 'u', '0', '0', hex_digit(c as int / 16), hex_digit(c as int % 16)]
    } else {
        seq![c]
    }
}

/// A text as a JSON string: its characters, escaped, in double quotes.
pub open spec fn quoted(text: Seq<char>) -> Seq<char> {
    seq!['"'] + text.map_values(|c: char| escaped(c)).flatten() + seq!['"']
}

/// Calls `serde_json::to_string` on a string slice: the text in double quotes,
/// each character as [`escaped`] gives it.
#[verifier::external_body]
pub(crate) fn quote(text: &str) -> (result: String)
    ensures
        result@ == quoted(text@),
{
    serde_json::to_string(text).expect("a string slice always serializes")
}

/// The compact text of a value: no white space between its parts.
pub open spec fn rendered(value: Tree) -> Seq<char>
    decreases value,
{
    match value {
        Tree::Null => "null"@,
        Tree::Bool(flag) => if flag {
            "true"@
        } else {
            "false"@
        },
        Tree::Number(number) => number,
        Tree::Text(text) => quoted(text),
        Tree::Array(items) => "["@ + rendered_items(items) + "]"@,
        Tree::Object(members) => "{"@ + rendered_members(members) + "}"@,
    }
}

/// The compact texts of the items of an array, with commas between them.
pub open spec fn rendered_items(items: Seq<Tree>) -> Seq<char>
    decreases items,
{
    if items.len() == 0 {
        Seq::empty()
    } else if items.len() == 1 {
        rendered(items.last())
    } else {
        rendered_items(items.drop_last()) + ","@ + rendered(items.last())
    }
}

/// The compact texts of the properties of an object, with commas between
/// them.
pub open spec fn rendered_members(members: Seq<(Seq<char>, Tree)>) -> Seq<char>
    decreases members,
{
    if members.len() == 0 {
        Seq::empty()
    } else if members.len() == 1 {
        quoted(members.last().0) + ":"@ + rendered(members.last().1)
    } else {
        rendered_members(members.drop_last()) + ","@ + (quoted(members.last().0) + ":"@ + rendered(
            members.last().1,
        ))
    }
}

/// The compact text of a value.
pub fn render(value: &Json) -> (result: String)
    ensures
        result@ == rendered(value@),
    decreases value,
{
    match value {
        Json::Null => "null".to_owned(),
        Json::Bool(flag) => if *flag {
            "true".to_owned()
        } else {
            "false".to_owned()
        },
        Json::Number(number) => number.clone(),
        Json::Text(text) => quote(text.as_str()),
        Json::Array(items) => {
            let mut inner = String::new();
            let mut i: usize = 0;
            while i < items.len()
                invariant
                    i <= items@.len(),
                    *value == Json::Array(*items),
                    inner@ == rendered_items(trees(items@).take(i as int)),
                decreases items@.len() - i,
            {
                proof {
                    lemma_item_smaller(*value, i as int);
                }
                let item = render(&items[i]);
                if i > 0 {
                    inner.append(",");
                }
                inner.append(item.as_str());
                let ghost next = trees(items@).take(i + 1);
                assert(next.drop_last() =~= trees(items@).take(i as int));
                assert(next.last() == items@[i as int]@);
                i += 1;
                if i == 1 {
                    assert(inner@ =~= item@);
                }
            }
            assert(trees(items@).take(i as int) =~= trees(items@));
            "[".to_owned().concat(inner.as_str()).concat("]")
        },
        Json::Object(members) => {
            let mut inner = String::new();
            let mut i: usize = 0;
            while i < members.len()
                invariant
                    i <= members@.len(),
                    *value == Json::Object(*members),
                    inner@ == rendered_members(fields(members@).take(i as int)),
                decreases members@.len() - i,
            {
                proof {
                    lemma_member_smaller(*value, i as int);
                }
                let item = render(&members[i].value);
                let named = quote(members[i].name.as_str()).concat(":").concat(item.as_str());
                if i > 0 {
                    inner.append(",");
                }
                inner.append(named.as_str());
                let ghost next = fields(members@).take(i + 1);
                assert(next.drop_last() =~= fields(members@).take(i as int));
                assert(next.last() == members@[i as int]@);
                i += 1;
                if i == 1 {
                    assert(inner@ =~= named@);
                }
            }
            assert(fields(members@).take(i as int) =~= fields(members@));
            "{".to_owned().concat(inner.as_str()).concat("}")
        },
    }
}

} // verus!
