//! Building JSON objects and values from plain ones.

use vstd::prelude::*;
use vstd::string::*;

use crate::mutation::opt_tree;
use crate::text::{opt_string, texts};
use crate::tree::{fields, trees, Json, Member, Tree};

verus! {

broadcast use crate::tree::group_json_view;

/// One property where there is a value for it, and none where there is not.
pub open spec fn present(name: Seq<char>, value: Option<Tree>) -> Seq<(Seq<char>, Tree)> {
    match value {
        Some(tree) => seq![(name, tree)],
        None => Seq::empty(),
    }
}

/// A text, or null where there is none.
pub open spec fn text_or_null(text: Option<Seq<char>>) -> Tree {
    match text {
        Some(inner) => Tree::Text(inner),
        None => Tree::Null,
    }
}

/// A flag, or null where there is none.
pub open spec fn flag_or_null(flag: Option<bool>) -> Tree {
    match flag {
        Some(inner) => Tree::Bool(inner),
        None => Tree::Null,
    }
}

/// A text where there is one.
pub open spec fn some_text(text: Option<Seq<char>>) -> Option<Tree> {
    match text {
        Some(inner) => Some(Tree::Text(inner)),
        None => None,
    }
}

/// A flag where there is one.
pub open spec fn some_flag(flag: Option<bool>) -> Option<Tree> {
    match flag {
        Some(inner) => Some(Tree::Bool(inner)),
        None => None,
    }
}

/// A list of texts as values.
pub open spec fn text_items(list: Seq<Seq<char>>) -> Seq<Tree> {
    list.map_values(|text: Seq<char>| Tree::Text(text))
}

/// Appends a property.
pub fn push_field(members: &mut Vec<Member>, name: &str, value: Json)
    ensures
        fields(final(members)@) == fields(old(members)@) + seq![(name@, value@)],
{
    let ghost prior = fields(members@);
    let ghost tree = value@;
    members.push(Member { name: name.to_owned(), value });
    assert(fields(members@) =~= prior + seq![(name@, tree)]);
}

/// Appends a property where there is a value for it.
pub fn push_present(members: &mut Vec<Member>, name: &str, value: Option<Json>)
    ensures
        fields(final(members)@) == fields(old(members)@) + present(name@, opt_tree(value)),
{
    match value {
        Some(inner) => {
            push_field(members, name, inner);
        },
        None => {
            assert(fields(members@) + present(name@, None) =~= fields(members@));
        },
    }
}

/// A text, or null where there is none.
pub fn encode_text(text: &Option<String>) -> (value: Json)
    ensures
        value@ == text_or_null(opt_string(*text)),
{
    match text {
        Some(inner) => Json::Text(inner.clone()),
        None => Json::Null,
    }
}

/// A flag, or null where there is none.
pub fn encode_flag(flag: Option<bool>) -> (value: Json)
    ensures
        value@ == flag_or_null(flag),
{
    match flag {
        Some(inner) => Json::Bool(inner),
        None => Json::Null,
    }
}

/// A text where there is one.
pub fn maybe_text(text: &Option<String>) -> (value: Option<Json>)
    ensures
        opt_tree(value) == some_text(opt_string(*text)),
{
    match text {
        Some(inner) => Some(Json::Text(inner.clone())),
        None => None,
    }
}

/// A flag where there is one.
pub fn maybe_flag(flag: Option<bool>) -> (value: Option<Json>)
    ensures
        opt_tree(value) == some_flag(flag),
{
    match flag {
        Some(inner) => Some(Json::Bool(inner)),
        None => None,
    }
}

/// A list of texts.
pub fn encode_texts(list: &Vec<String>) -> (value: Json)
    ensures
        value@ == Tree::Array(text_items(texts(list@))),
{
    let mut items: Vec<Json> = Vec::new();
    let mut i: usize = 0;
    while i < list.len()
        invariant
            i <= list@.len(),
            items@.len() == i,
            forall|k: int| 0 <= k < i ==> (#[trigger] items@[k])@ == Tree::Text(list@[k]@),
        decreases list@.len() - i,
    {
        items.push(Json::Text(list[i].clone()));
        i += 1;
    }
    assert(trees(items@) =~= text_items(texts(list@)));
    Json::Array(items)
}

} // verus!
