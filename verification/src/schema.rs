//! Portable JSON schemas: semantically equivalent object schemas where strict
//! MCP clients do not consume legal boolean schemas or array-valued type
//! unions.

use vstd::prelude::*;
use vstd::string::*;

use crate::json::{copy, lookup, position, remove_field, set_field, with_field, without_field};
use crate::text::{same_text, texts};
use crate::tree::{fields, lemma_item_smaller, lemma_member_smaller, trees, Json, Member, Tree};

verus! {

broadcast use crate::tree::group_json_view;

// ---------------------------------------------------------------------------
// Keywords
// ---------------------------------------------------------------------------

/// The names a `type` may take.
pub open spec fn is_type_name(name: Seq<char>) -> bool {
    ||| name == "null"@
    ||| name == "boolean"@
    ||| name == "object"@
    ||| name == "array"@
    ||| name == "number"@
    ||| name == "string"@
    ||| name == "integer"@
}

/// The type names, in the order a schema that accepts everything lists them.
pub open spec fn type_names() -> Seq<Seq<char>> {
    seq!["null"@, "boolean"@, "object"@, "array"@, "number"@, "string"@, "integer"@]
}

/// The keywords under which strict clients consume a boolean schema.
pub open spec fn takes_boolean(keyword: Seq<char>) -> bool {
    ||| keyword == "additionalProperties"@
    ||| keyword == "unevaluatedProperties"@
    ||| keyword == "additionalItems"@
    ||| keyword == "unevaluatedItems"@
}

/// The keywords that hold schemas by name.
pub open spec fn holds_named_schemas(keyword: Seq<char>) -> bool {
    ||| keyword == "$defs"@
    ||| keyword == "definitions"@
    ||| keyword == "properties"@
    ||| keyword == "patternProperties"@
    ||| keyword == "dependentSchemas"@
    ||| keyword == "dependencies"@
}

/// The keywords that hold a list of schemas.
pub open spec fn holds_listed_schemas(keyword: Seq<char>) -> bool {
    ||| keyword == "allOf"@
    ||| keyword == "anyOf"@
    ||| keyword == "oneOf"@
    ||| keyword == "prefixItems"@
}

/// The keywords that hold one schema.
pub open spec fn holds_one_schema(keyword: Seq<char>) -> bool {
    ||| keyword == "contains"@
    ||| keyword == "propertyNames"@
    ||| keyword == "not"@
    ||| keyword == "if"@
    ||| keyword == "then"@
    ||| keyword == "else"@
    ||| keyword == "contentSchema"@
    ||| takes_boolean(keyword)
}

/// How a keyword holds schemas.
#[derive(Clone, Copy, PartialEq, Eq, Structural)]
pub enum Holding {
    Named,
    Listed,
    Items,
    One,
    Nothing,
}

/// How a keyword holds schemas.
pub open spec fn holding(keyword: Seq<char>) -> Holding {
    if holds_named_schemas(keyword) {
        Holding::Named
    } else if holds_listed_schemas(keyword) {
        Holding::Listed
    } else if keyword == "items"@ {
        Holding::Items
    } else if holds_one_schema(keyword) {
        Holding::One
    } else {
        Holding::Nothing
    }
}

fn known_type(name: &str) -> (result: bool)
    ensures
        result == is_type_name(name@),
{
    same_text(name, "null") || same_text(name, "boolean") || same_text(name, "object")
        || same_text(name, "array") || same_text(name, "number") || same_text(name, "string")
        || same_text(name, "integer")
}

fn boolean_keyword(keyword: &str) -> (result: bool)
    ensures
        result == takes_boolean(keyword@),
{
    same_text(keyword, "additionalProperties") || same_text(keyword, "unevaluatedProperties")
        || same_text(keyword, "additionalItems") || same_text(keyword, "unevaluatedItems")
}

fn keyword_holding(keyword: &str) -> (result: Holding)
    ensures
        result == holding(keyword@),
{
    if same_text(keyword, "$defs") || same_text(keyword, "definitions") || same_text(
        keyword,
        "properties",
    ) || same_text(keyword, "patternProperties") || same_text(keyword, "dependentSchemas")
        || same_text(keyword, "dependencies") {
        Holding::Named
    } else if same_text(keyword, "allOf") || same_text(keyword, "anyOf") || same_text(
        keyword,
        "oneOf",
    ) || same_text(keyword, "prefixItems") {
        Holding::Listed
    } else if same_text(keyword, "items") {
        Holding::Items
    } else if same_text(keyword, "contains") || same_text(keyword, "propertyNames") || same_text(
        keyword,
        "not",
    ) || same_text(keyword, "if") || same_text(keyword, "then") || same_text(keyword, "else")
        || same_text(keyword, "contentSchema") || boolean_keyword(keyword) {
        Holding::One
    } else {
        Holding::Nothing
    }
}

// ---------------------------------------------------------------------------
// Boolean schemas
// ---------------------------------------------------------------------------

/// The schema of one type.
pub open spec fn type_schema(name: Seq<char>) -> Tree {
    Tree::Object(seq![("type"@, Tree::Text(name))])
}

/// The alternatives of a list of types.
pub open spec fn type_branches(names: Seq<Seq<char>>) -> Tree {
    Tree::Array(names.map_values(|name: Seq<char>| type_schema(name)))
}

/// The object schema that accepts every value.
pub open spec fn everything() -> Tree {
    Tree::Object(seq![("anyOf"@, type_branches(type_names()))])
}

/// The object schema that accepts no value.
pub open spec fn nothing() -> Tree {
    Tree::Object(seq![("not"@, Tree::Object(Seq::empty()))])
}

fn build_type_schema(name: &str) -> (schema: Json)
    ensures
        schema@ == type_schema(name@),
{
    let members: Vec<Member> = vec![
        Member { name: "type".to_owned(), value: Json::Text(name.to_owned()) },
    ];
    assert(fields(members@) =~= type_schema(name@)->Object_0);
    Json::Object(members)
}

fn build_branches(names: &Vec<String>) -> (branches: Json)
    ensures
        branches@ == type_branches(texts(names@)),
{
    let mut list: Vec<Json> = Vec::new();
    let mut i: usize = 0;
    while i < names.len()
        invariant
            i <= names@.len(),
            list@.len() == i,
            forall|k: int| 0 <= k < i ==> (#[trigger] list@[k])@ == type_schema(names@[k]@),
        decreases names@.len() - i,
    {
        list.push(build_type_schema(names[i].as_str()));
        i += 1;
    }
    assert(trees(list@) =~= type_branches(texts(names@))->Array_0);
    Json::Array(list)
}

fn build_any_of(names: &Vec<String>) -> (schema: Json)
    ensures
        schema@ == Tree::Object(seq![("anyOf"@, type_branches(texts(names@)))]),
{
    let members: Vec<Member> = vec![
        Member { name: "anyOf".to_owned(), value: build_branches(names) },
    ];
    assert(fields(members@) =~= seq![("anyOf"@, type_branches(texts(names@)))]);
    Json::Object(members)
}

fn build_everything() -> (schema: Json)
    ensures
        schema@ == everything(),
{
    let names: Vec<String> = vec![
        "null".to_owned(),
        "boolean".to_owned(),
        "object".to_owned(),
        "array".to_owned(),
        "number".to_owned(),
        "string".to_owned(),
        "integer".to_owned(),
    ];
    assert(texts(names@) =~= type_names());
    build_any_of(&names)
}

fn build_nothing() -> (schema: Json)
    ensures
        schema@ == nothing(),
{
    let none: Vec<Member> = Vec::new();
    let members: Vec<Member> = vec![Member { name: "not".to_owned(), value: Json::Object(none) }];
    assert(fields(none@) =~= Seq::<(Seq<char>, Tree)>::empty());
    assert(fields(members@) =~= nothing()->Object_0);
    Json::Object(members)
}

// ---------------------------------------------------------------------------
// Type unions
// ---------------------------------------------------------------------------

/// The names a list of values spells, where each is a type name and none
/// occurs twice.
pub open spec fn union_names(items: Seq<Tree>) -> Option<Seq<Seq<char>>>
    decreases items.len(),
{
    if items.len() == 0 {
        Some(Seq::empty())
    } else {
        match (union_names(items.drop_last()), items.last()) {
            (Some(names), Tree::Text(name)) => if is_type_name(name) && !names.contains(name) {
                Some(names.push(name))
            } else {
                None
            },
            _ => None,
        }
    }
}

/// The types of a schema whose `type` is a non-empty list of distinct type
/// names.
pub open spec fn type_union(members: Seq<(Seq<char>, Tree)>) -> Option<Seq<Seq<char>>> {
    match lookup(members, "type"@) {
        Some(Tree::Array(items)) => if items.len() > 0 {
            union_names(items)
        } else {
            None
        },
        _ => None,
    }
}

/// The items of a property that is a list.
pub open spec fn listed_items(value: Option<Tree>) -> Seq<Tree> {
    match value {
        Some(Tree::Array(items)) => items,
        _ => Seq::empty(),
    }
}

/// The properties with a type union written as alternatives: as `anyOf`, or,
/// where that is taken, as one more condition of `allOf`.
pub open spec fn split_union(members: Seq<(Seq<char>, Tree)>) -> Seq<(Seq<char>, Tree)> {
    match type_union(members) {
        None => members,
        Some(names) => {
            let rest = without_field(members, "type"@);
            if lookup(rest, "anyOf"@) is Some {
                let conditions = listed_items(lookup(rest, "allOf"@));
                let condition = Tree::Object(seq![("anyOf"@, type_branches(names))]);
                with_field(rest, "allOf"@, Tree::Array(conditions.push(condition)))
            } else {
                with_field(rest, "anyOf"@, type_branches(names))
            }
        },
    }
}

/// Whether the union of a schema, where it has one, can be written as
/// alternatives: an `allOf` that must take one more condition is a list.
pub open spec fn union_fits(members: Seq<(Seq<char>, Tree)>) -> bool {
    type_union(members) is Some && lookup(without_field(members, "type"@), "anyOf"@) is Some ==> (
    match lookup(without_field(members, "type"@), "allOf"@) {
        None => true,
        Some(conditions) => conditions is Array,
    })
}

fn read_union(members: &Vec<Member>) -> (result: Option<Vec<String>>)
    ensures
        match result {
            Some(names) => type_union(fields(members@)) == Some(texts(names@)),
            None => type_union(fields(members@)) is None,
        },
{
    let at = match position(members, "type") {
        Some(at) => at,
        None => {
            return None;
        },
    };
    match &members[at].value {
        Json::Array(items) => {
            if items.len() == 0 {
                assert(trees(items@).len() == 0);
                return None;
            }
            let mut names: Vec<String> = Vec::new();
            let mut i: usize = 0;
            let ghost all = trees(items@);
            assert(texts(names@) =~= Seq::<Seq<char>>::empty());
            while i < items.len()
                invariant
                    i <= items@.len(),
                    all == trees(items@),
                    all.len() > 0,
                    lookup(fields(members@), "type"@) == Some(Tree::Array(all)),
                    union_names(all.take(i as int)) == Some(texts(names@)),
                decreases items@.len() - i,
            {
                let ghost next = all.take(i + 1);
                assert(next.drop_last() =~= all.take(i as int));
                assert(next.last() == items@[i as int]@);
                match &items[i] {
                    Json::Text(name) => {
                        if !known_type(name.as_str()) || crate::text::listed(&names, name.as_str()) {
                            assert(union_names(next) is None);
                            proof {
                                lemma_union_prefix(all, i + 1);
                            }
                            return None;
                        }
                        let ghost prior = texts(names@);
                        names.push(name.clone());
                        assert(texts(names@) =~= prior.push(name@));
                    },
                    _ => {
                        assert(union_names(next) is None);
                        proof {
                            lemma_union_prefix(all, i + 1);
                        }
                        return None;
                    },
                }
                i += 1;
            }
            assert(all.take(i as int) =~= all);
            Some(names)
        },
        _ => None,
    }
}

/// A list whose beginning is no union is none.
proof fn lemma_union_prefix(items: Seq<Tree>, upto: int)
    requires
        0 <= upto <= items.len(),
        union_names(items.take(upto)) is None,
    ensures
        union_names(items) is None,
    decreases items.len(),
{
    if upto == items.len() {
        assert(items.take(upto) =~= items);
    } else {
        assert(items.drop_last().take(upto) =~= items.take(upto));
        lemma_union_prefix(items.drop_last(), upto);
    }
}

fn write_union(members: &mut Vec<Member>)
    requires
        union_fits(fields(old(members)@)),
    ensures
        fields(final(members)@) == split_union(fields(old(members)@)),
{
    let names = match read_union(members) {
        Some(names) => names,
        None => {
            return;
        },
    };
    remove_field(members, "type");
    match position(members, "anyOf") {
        Some(_) => {
            let mut conditions: Vec<Json> = match position(members, "allOf") {
                Some(at) => {
                    let taken = copy(&members[at].value);
                    match taken {
                        Json::Array(items) => items,
                        _ => Vec::new(),
                    }
                },
                None => Vec::new(),
            };
            let ghost prior = trees(conditions@);
            assert(prior =~= listed_items(lookup(fields(members@), "allOf"@)));
            let condition = build_any_of(&names);
            let ghost added = condition@;
            conditions.push(condition);
            assert(trees(conditions@) =~= prior.push(added));
            set_field(members, "allOf", Json::Array(conditions));
        },
        None => {
            set_field(members, "anyOf", build_branches(&names));
        },
    }
}

// ---------------------------------------------------------------------------
// The whole schema
// ---------------------------------------------------------------------------

/// The portable form of a schema that stands under a keyword.
pub open spec fn portable(value: Tree, parent: Option<Seq<char>>) -> Tree
    decreases value, 0int,
{
    match value {
        Tree::Bool(accepts) => if parent is Some && takes_boolean(parent->Some_0) {
            value
        } else if accepts {
            everything()
        } else {
            nothing()
        },
        Tree::Object(members) => Tree::Object(split_union(portable_members(members))),
        _ => value,
    }
}

/// The properties of a schema with what stands under each keyword portable.
pub open spec fn portable_members(members: Seq<(Seq<char>, Tree)>) -> Seq<(Seq<char>, Tree)>
    decreases members, 0int,
{
    Seq::new(
        members.len(),
        |i: int|
            if 0 <= i < members.len() {
                (members[i].0, portable_under(members[i].0, members[i].1))
            } else {
                (Seq::empty(), Tree::Null)
            },
    )
}

/// The portable form of what stands under a keyword.
pub open spec fn portable_under(keyword: Seq<char>, value: Tree) -> Tree
    decreases value, 1int,
{
    match (holding(keyword), value) {
        (Holding::Named, Tree::Object(children)) => Tree::Object(
            Seq::new(
                children.len(),
                |i: int|
                    if 0 <= i < children.len() {
                        (children[i].0, portable(children[i].1, Some(keyword)))
                    } else {
                        (Seq::empty(), Tree::Null)
                    },
            ),
        ),
        (Holding::Listed, Tree::Array(children)) => Tree::Array(portable_list(keyword, children)),
        (Holding::Items, Tree::Array(children)) => Tree::Array(portable_list(keyword, children)),
        (Holding::Items, _) => portable(value, Some(keyword)),
        (Holding::One, _) => portable(value, Some(keyword)),
        _ => value,
    }
}

/// The portable forms of a list of schemas under a keyword.
pub open spec fn portable_list(keyword: Seq<char>, children: Seq<Tree>) -> Seq<Tree>
    decreases children, 0int,
{
    Seq::new(
        children.len(),
        |i: int|
            if 0 <= i < children.len() {
                portable(children[i], Some(keyword))
            } else {
                Tree::Null
            },
    )
}

/// Whether every type union in a schema can be written as alternatives.
pub open spec fn writable(value: Tree) -> bool
    decreases value, 0int,
{
    match value {
        Tree::Object(members) => union_fits(members) && forall|i: int|
            0 <= i < members.len() ==> writable_under(
                (#[trigger] members[i]).0,
                members[i].1,
            ),
        _ => true,
    }
}

/// Whether every type union in what stands under a keyword can be written as
/// alternatives.
pub open spec fn writable_under(keyword: Seq<char>, value: Tree) -> bool
    decreases value, 1int,
{
    match (holding(keyword), value) {
        (Holding::Named, Tree::Object(children)) => forall|i: int|
            0 <= i < children.len() ==> writable((#[trigger] children[i]).1),
        (Holding::Listed, Tree::Array(children)) => forall|i: int|
            0 <= i < children.len() ==> writable(#[trigger] children[i]),
        (Holding::Items, Tree::Array(children)) => forall|i: int|
            0 <= i < children.len() ==> writable(#[trigger] children[i]),
        (Holding::Items, _) => writable(value),
        (Holding::One, _) => writable(value),
        _ => true,
    }
}

/// Making the subschemas portable keeps what a union needs.
proof fn lemma_mapped_lookup(members: Seq<(Seq<char>, Tree)>, name: Seq<char>)
    ensures
        lookup(portable_members(members), name) == (match lookup(members, name) {
            Some(value) => Some(portable_under(name, value)),
            None => None,
        }),
        without_field(portable_members(members), name) == portable_members(
            without_field(members, name),
        ),
    decreases members.len(),
{
    let mapped = portable_members(members);
    if members.len() > 0 {
        let rest = members.drop_first();
        lemma_mapped_lookup(rest, name);
        assert(mapped.drop_first() =~= portable_members(rest));
        if members[0].0 != name {
            assert(portable_members(without_field(members, name)) =~= seq![mapped[0]]
                + portable_members(without_field(rest, name)));
        }
    } else {
        assert(mapped =~= members);
        assert(portable_members(without_field(members, name)) =~= mapped);
    }
}

/// Making the subschemas portable keeps a union writable.
pub proof fn lemma_mapped_fits(members: Seq<(Seq<char>, Tree)>)
    requires
        union_fits(members),
    ensures
        union_fits(portable_members(members)),
{
    reveal_strlit("type");
    reveal_strlit("anyOf");
    reveal_strlit("allOf");
    lemma_mapped_lookup(members, "type"@);
    let rest = without_field(members, "type"@);
    lemma_mapped_lookup(rest, "anyOf"@);
    lemma_mapped_lookup(rest, "allOf"@);
    lemma_type_holds_nothing();
}

/// `type` holds no schema.
pub proof fn lemma_type_holds_nothing()
    ensures
        holding("type"@) == Holding::Nothing,
{
    reveal_strlit("type");
    reveal_strlit("$defs");
    reveal_strlit("definitions");
    reveal_strlit("properties");
    reveal_strlit("patternProperties");
    reveal_strlit("dependentSchemas");
    reveal_strlit("dependencies");
    reveal_strlit("allOf");
    reveal_strlit("anyOf");
    reveal_strlit("oneOf");
    reveal_strlit("prefixItems");
    reveal_strlit("items");
    reveal_strlit("contains");
    reveal_strlit("propertyNames");
    reveal_strlit("not");
    reveal_strlit("if");
    reveal_strlit("then");
    reveal_strlit("else");
    reveal_strlit("contentSchema");
    reveal_strlit("additionalProperties");
    reveal_strlit("unevaluatedProperties");
    reveal_strlit("additionalItems");
    reveal_strlit("unevaluatedItems");
    assert("type"@.len() == 4);
    assert("then"@.len() == 4);
    assert("else"@.len() == 4);
    assert("type"@[1] == 'y');
    assert("then"@[1] == 'h');
    assert("else"@[1] == 'l');
    assert("$defs"@.len() == 5);
    assert("definitions"@.len() == 11);
    assert("properties"@.len() == 10);
    assert("patternProperties"@.len() == 17);
    assert("dependentSchemas"@.len() == 16);
    assert("dependencies"@.len() == 12);
    assert("allOf"@.len() == 5);
    assert("anyOf"@.len() == 5);
    assert("oneOf"@.len() == 5);
    assert("prefixItems"@.len() == 11);
    assert("items"@.len() == 5);
    assert("contains"@.len() == 8);
    assert("propertyNames"@.len() == 13);
    assert("not"@.len() == 3);
    assert("if"@.len() == 2);
    assert("contentSchema"@.len() == 13);
    assert("additionalProperties"@.len() == 20);
    assert("unevaluatedProperties"@.len() == 21);
    assert("additionalItems"@.len() == 15);
    assert("unevaluatedItems"@.len() == 16);
}

/// `not` holds one schema, and no boolean one.
pub proof fn lemma_not_holds_one()
    ensures
        holding("not"@) == Holding::One,
        !takes_boolean("not"@),
        holding("anyOf"@) == Holding::Listed,
        holding("allOf"@) == Holding::Listed,
{
    reveal_strlit("not");
    reveal_strlit("anyOf");
    reveal_strlit("allOf");
    reveal_strlit("$defs");
    reveal_strlit("definitions");
    reveal_strlit("properties");
    reveal_strlit("patternProperties");
    reveal_strlit("dependentSchemas");
    reveal_strlit("dependencies");
    reveal_strlit("oneOf");
    reveal_strlit("prefixItems");
    reveal_strlit("items");
    reveal_strlit("additionalProperties");
    reveal_strlit("unevaluatedProperties");
    reveal_strlit("additionalItems");
    reveal_strlit("unevaluatedItems");
    assert("not"@.len() == 3);
    assert("anyOf"@.len() == 5);
    assert("allOf"@.len() == 5);
    assert("$defs"@.len() == 5);
    assert("anyOf"@[0] == 'a');
    assert("allOf"@[0] == 'a');
    assert("$defs"@[0] == '$');
    assert("definitions"@.len() == 11);
    assert("properties"@.len() == 10);
    assert("patternProperties"@.len() == 17);
    assert("dependentSchemas"@.len() == 16);
    assert("dependencies"@.len() == 12);
    assert("oneOf"@.len() == 5);
    assert("prefixItems"@.len() == 11);
    assert("items"@.len() == 5);
    assert("additionalProperties"@.len() == 20);
    assert("unevaluatedProperties"@.len() == 21);
    assert("additionalItems"@.len() == 15);
    assert("unevaluatedItems"@.len() == 16);
}

fn normalize(value: &Json, parent: Option<&str>) -> (result: Json)
    requires
        writable(value@),
    ensures
        result@ == portable(value@, crate::text::opt_text(parent)),
    decreases value, 0int,
{
    match value {
        Json::Bool(accepts) => {
            let kept = match parent {
                Some(keyword) => boolean_keyword(keyword),
                None => false,
            };
            if kept {
                Json::Bool(*accepts)
            } else if *accepts {
                build_everything()
            } else {
                build_nothing()
            }
        },
        Json::Object(members) => {
            let mut done: Vec<Member> = Vec::new();
            let mut i: usize = 0;
            while i < members.len()
                invariant
                    i <= members@.len(),
                    *value == Json::Object(*members),
                    writable(value@),
                    done@.len() == i,
                    forall|k: int|
                        0 <= k < i ==> (#[trigger] done@[k])@ == (
                            members@[k].name@,
                            portable_under(members@[k].name@, members@[k].value@),
                        ),
                decreases members@.len() - i,
            {
                proof {
                    lemma_member_smaller(*value, i as int);
                    assert(value@->Object_0[i as int] == members@[i as int]@);
                }
                let name = &members[i].name;
                let item = normalize_under(name.as_str(), &members[i].value);
                done.push(Member { name: name.clone(), value: item });
                i += 1;
            }
            proof {
                assert(fields(done@) =~= portable_members(fields(members@)));
                lemma_mapped_fits(fields(members@));
            }
            write_union(&mut done);
            Json::Object(done)
        },
        _ => copy(value),
    }
}

fn normalize_under(keyword: &str, value: &Json) -> (result: Json)
    requires
        writable_under(keyword@, value@),
    ensures
        result@ == portable_under(keyword@, value@),
    decreases value, 1int,
{
    let how = keyword_holding(keyword);
    match value {
        Json::Object(children) if how == Holding::Named => {
            let mut done: Vec<Member> = Vec::new();
            let mut i: usize = 0;
            while i < children.len()
                invariant
                    i <= children@.len(),
                    *value == Json::Object(*children),
                    holding(keyword@) == Holding::Named,
                    writable_under(keyword@, value@),
                    done@.len() == i,
                    forall|k: int|
                        0 <= k < i ==> (#[trigger] done@[k])@ == (
                            children@[k].name@,
                            portable(children@[k].value@, Some(keyword@)),
                        ),
                decreases children@.len() - i,
            {
                proof {
                    lemma_member_smaller(*value, i as int);
                    assert(value@->Object_0[i as int] == children@[i as int]@);
                }
                let item = normalize(&children[i].value, Some(keyword));
                done.push(Member { name: children[i].name.clone(), value: item });
                i += 1;
            }
            assert(fields(done@) =~= portable_under(keyword@, value@)->Object_0);
            Json::Object(done)
        },
        Json::Array(children) if how == Holding::Listed || how == Holding::Items => {
            let mut done: Vec<Json> = Vec::new();
            let mut i: usize = 0;
            while i < children.len()
                invariant
                    i <= children@.len(),
                    *value == Json::Array(*children),
                    holding(keyword@) == Holding::Listed || holding(keyword@) == Holding::Items,
                    writable_under(keyword@, value@),
                    done@.len() == i,
                    forall|k: int|
                        0 <= k < i ==> (#[trigger] done@[k])@ == portable(
                            children@[k]@,
                            Some(keyword@),
                        ),
                decreases children@.len() - i,
            {
                proof {
                    lemma_item_smaller(*value, i as int);
                    assert(value@->Array_0[i as int] == children@[i as int]@);
                }
                let item = normalize(&children[i], Some(keyword));
                done.push(item);
                i += 1;
            }
            assert(trees(done@) =~= portable_under(keyword@, value@)->Array_0);
            Json::Array(done)
        },
        _ => if how == Holding::One || how == Holding::Items {
            normalize(value, Some(keyword))
        } else {
            copy(value)
        },
    }
}

/// Taking one property out leaves what the others hold.
pub proof fn lemma_lookup_without(members: Seq<(Seq<char>, Tree)>, gone: Seq<char>, name: Seq<char>)
    requires
        gone != name,
    ensures
        lookup(without_field(members, gone), name) == lookup(members, name),
    decreases members.len(),
{
    if members.len() > 0 && members[0].0 != gone {
        let rest = members.drop_first();
        lemma_lookup_without(rest, gone, name);
        assert((seq![members[0]] + without_field(rest, gone)).drop_first() =~= without_field(
            rest,
            gone,
        ));
    }
}

fn check_union(members: &Vec<Member>) -> (result: bool)
    ensures
        result == union_fits(fields(members@)),
{
    proof {
        reveal_strlit("type");
        reveal_strlit("anyOf");
        reveal_strlit("allOf");
        assert("type"@.len() == 4);
        assert("anyOf"@.len() == 5);
        assert("allOf"@.len() == 5);
        lemma_lookup_without(fields(members@), "type"@, "anyOf"@);
        lemma_lookup_without(fields(members@), "type"@, "allOf"@);
    }
    if read_union(members).is_none() || position(members, "anyOf").is_none() {
        return true;
    }
    match position(members, "allOf") {
        Some(at) => match &members[at].value {
            Json::Array(_) => true,
            _ => false,
        },
        None => true,
    }
}

/// Whether every type union in a schema can be written as alternatives. It
/// cannot where a union must become one more condition of an `allOf` that is
/// no list.
pub fn is_writable(value: &Json) -> (result: bool)
    ensures
        result == writable(value@),
    decreases value, 0int,
{
    match value {
        Json::Object(members) => {
            if !check_union(members) {
                return false;
            }
            let mut i: usize = 0;
            while i < members.len()
                invariant
                    i <= members@.len(),
                    *value == Json::Object(*members),
                    union_fits(fields(members@)),
                    forall|k: int|
                        0 <= k < i ==> writable_under(
                            (#[trigger] members@[k]).name@,
                            members@[k].value@,
                        ),
                decreases members@.len() - i,
            {
                proof {
                    lemma_member_smaller(*value, i as int);
                }
                if !is_writable_under(members[i].name.as_str(), &members[i].value) {
                    assert(value@->Object_0[i as int] == members@[i as int]@);
                    return false;
                }
                i += 1;
            }
            assert forall|k: int| 0 <= k < value@->Object_0.len() implies writable_under(
                (#[trigger] value@->Object_0[k]).0,
                value@->Object_0[k].1,
            ) by {
                assert(value@->Object_0[k] == members@[k]@);
            }
            true
        },
        _ => true,
    }
}

fn is_writable_under(keyword: &str, value: &Json) -> (result: bool)
    ensures
        result == writable_under(keyword@, value@),
    decreases value, 1int,
{
    let how = keyword_holding(keyword);
    match value {
        Json::Object(children) if how == Holding::Named => {
            let mut i: usize = 0;
            while i < children.len()
                invariant
                    i <= children@.len(),
                    *value == Json::Object(*children),
                    holding(keyword@) == Holding::Named,
                    forall|k: int| 0 <= k < i ==> writable((#[trigger] children@[k]).value@),
                decreases children@.len() - i,
            {
                proof {
                    lemma_member_smaller(*value, i as int);
                }
                if !is_writable(&children[i].value) {
                    assert(value@->Object_0[i as int] == children@[i as int]@);
                    return false;
                }
                i += 1;
            }
            assert forall|k: int| 0 <= k < value@->Object_0.len() implies writable(
                (#[trigger] value@->Object_0[k]).1,
            ) by {
                assert(value@->Object_0[k] == children@[k]@);
            }
            true
        },
        Json::Array(children) if how == Holding::Listed || how == Holding::Items => {
            let mut i: usize = 0;
            while i < children.len()
                invariant
                    i <= children@.len(),
                    *value == Json::Array(*children),
                    holding(keyword@) == Holding::Listed || holding(keyword@) == Holding::Items,
                    forall|k: int| 0 <= k < i ==> writable((#[trigger] children@[k])@),
                decreases children@.len() - i,
            {
                proof {
                    lemma_item_smaller(*value, i as int);
                }
                if !is_writable(&children[i]) {
                    assert(value@->Array_0[i as int] == children@[i as int]@);
                    return false;
                }
                i += 1;
            }
            assert forall|k: int| 0 <= k < value@->Array_0.len() implies writable(
                #[trigger] value@->Array_0[k],
            ) by {
                assert(value@->Array_0[k] == children@[k]@);
            }
            true
        },
        _ => if how == Holding::One || how == Holding::Items {
            is_writable(value)
        } else {
            true
        },
    }
}

/// Publishes semantically equivalent object schemas where strict MCP clients
/// do not consume legal JSON Schema boolean schemas or array-valued type
/// unions.
pub fn normalize_portable_schema(schema: &mut Json, parent_keyword: Option<&str>)
    requires
        writable(old(schema)@),
    ensures
        final(schema)@ == portable(old(schema)@, crate::text::opt_text(parent_keyword)),
{
    let done = normalize(schema, parent_keyword);
    *schema = done;
}

} // verus!
