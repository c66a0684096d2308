//! JSON values and the tree each one stands for.

use vstd::prelude::*;

verus! {

/// One JSON value. A number is kept as the text `serde_json` writes for it:
/// one text for each number, with a fraction or an exponent exactly where it
/// is a floating-point one, so no precision is lost between reading and
/// writing it.
pub enum Json {
    Null,
    Bool(bool),
    Number(String),
    Text(String),
    Array(Vec<Json>),
    Object(Vec<Member>),
}

/// One property of a JSON object.
pub struct Member {
    pub name: String,
    pub value: Json,
}

/// The mathematical content of a JSON value.
#[verifier::ext_equal]
pub enum Tree {
    Null,
    Bool(bool),
    Number(Seq<char>),
    Text(Seq<char>),
    Array(Seq<Tree>),
    Object(Seq<(Seq<char>, Tree)>),
}

impl View for Json {
    type V = Tree;

    open spec fn view(&self) -> Tree {
        tree_of(*self)
    }
}

impl View for Member {
    type V = (Seq<char>, Tree);

    open spec fn view(&self) -> (Seq<char>, Tree) {
        (self.name@, self.value@)
    }
}

/// The mathematical content of a JSON value.
pub open spec fn tree_of(value: Json) -> Tree
    decreases value,
{
    match value {
        Json::Null => Tree::Null,
        Json::Bool(flag) => Tree::Bool(flag),
        Json::Number(number) => Tree::Number(number@),
        Json::Text(text) => Tree::Text(text@),
        Json::Array(items) => Tree::Array(
            Seq::new(
                items@.len(),
                |i: int|
                    if 0 <= i < items@.len() {
                        tree_of(items@[i])
                    } else {
                        Tree::Null
                    },
            ),
        ),
        Json::Object(members) => Tree::Object(
            Seq::new(
                members@.len(),
                |i: int|
                    if 0 <= i < members@.len() {
                        (members@[i].name@, tree_of(members@[i].value))
                    } else {
                        (Seq::empty(), Tree::Null)
                    },
            ),
        ),
    }
}

/// The trees of a list of values.
pub open spec fn trees(items: Seq<Json>) -> Seq<Tree> {
    items.map_values(|item: Json| item@)
}

/// The names and trees of a list of properties.
pub open spec fn fields(members: Seq<Member>) -> Seq<(Seq<char>, Tree)> {
    members.map_values(|member: Member| member@)
}

/// An array stands for the trees of its items.
pub broadcast proof fn lemma_array_view(items: Vec<Json>)
    ensures
        #[trigger] Json::Array(items)@ == Tree::Array(trees(items@)),
{
    assert(Json::Array(items)@->Array_0 =~= trees(items@));
}

/// An object stands for the names and trees of its properties.
pub broadcast proof fn lemma_object_view(members: Vec<Member>)
    ensures
        #[trigger] Json::Object(members)@ == Tree::Object(fields(members@)),
{
    assert(Json::Object(members)@->Object_0 =~= fields(members@));
}

/// An item is smaller than the array that holds it.
pub proof fn lemma_item_smaller(value: Json, i: int)
    requires
        value is Array,
        0 <= i < value->Array_0@.len(),
    ensures
        decreases_to!(value => value->Array_0@[i]),
{
    assert(decreases_to!(value => value->Array_0));
    assert(decreases_to!(value->Array_0 => value->Array_0@));
    assert(decreases_to!(value->Array_0@ => value->Array_0@[i]));
}

/// The value of a property is smaller than the object that holds it.
pub proof fn lemma_member_smaller(value: Json, i: int)
    requires
        value is Object,
        0 <= i < value->Object_0@.len(),
    ensures
        decreases_to!(value => value->Object_0@[i].value),
{
    let members = value->Object_0;
    assert(decreases_to!(value => value->Object_0));
    assert(decreases_to!(members => members@));
    assert(decreases_to!(members@ => members@[i]));
    assert(decreases_to!(members@[i] => members@[i].value));
}

/// What arrays and objects stand for.
pub broadcast group group_json_view {
    lemma_array_view,
    lemma_object_view,
}

} // verus!
