//! Enabling and disabling one zone-based firewall policy.
//!
//! The upstream interface has no partial update that can flip the switch, so
//! the whole policy goes back as it was read, property by property, with that
//! one property replaced.

use serde_json::Value;
use vstd::prelude::*;
use vstd::string::*;

use crate::changes::{
    no_field_message,
    reject_unknown_change_fields,
    unknown_fields_message,
    unknown_in,
    unrequested,
    wire_property,
    words,
    WireName,
};
use crate::control::{confirmed, is_confirmed};
use crate::encode::{
    encode_flag,
    encode_text,
    flag_or_null,
    maybe_text,
    present,
    push_field,
    push_present,
    some_text,
    text_or_null,
};
use crate::error::{invalid_params, is_invalid_params, ToolError};
use crate::firewall::PolicyView;
use crate::json::{lemma_lookup, lookup};
use crate::mutation::{planned, verified};
use crate::report::{
    judge,
    judged,
    preview,
    previewed,
    push_head,
    push_tail,
    report_head,
    report_tail,
    Report,
    WriteReport,
};
use crate::text::{
    ascii_lowercase,
    chars_of,
    decimal,
    opt_string,
    precedes,
    same_text,
    text_precedes,
    texts,
    to_ascii_lowercase,
    to_decimal,
};
use crate::tree::{fields, Json, Member, Tree};

verus! {

broadcast use crate::tree::group_json_view;

/// One property of a record, with its value as the text the controller sent.
pub struct RawProperty {
    pub name: String,
    pub text: String,
}

impl View for RawProperty {
    type V = (Seq<char>, Seq<char>);

    open spec fn view(&self) -> (Seq<char>, Seq<char>) {
        (self.name@, self.text@)
    }
}

/// The names and texts of a record.
pub open spec fn raw_of(record: Seq<RawProperty>) -> Seq<(Seq<char>, Seq<char>)> {
    record.map_values(|property: RawProperty| property@)
}

/// One property inside a property: its name, and its text where its value is
/// one.
pub struct SideProperty {
    pub name: String,
    pub text: Option<String>,
}

impl View for SideProperty {
    type V = (Seq<char>, Option<Seq<char>>);

    open spec fn view(&self) -> (Seq<char>, Option<Seq<char>>) {
        (self.name@, opt_string(self.text))
    }
}

/// What is read of a value.
pub enum Reading {
    Flag(bool),
    Text(String),
    /// A number, as a whole one where it is a whole one that fits.
    Number(Option<u64>),
    Object(Vec<SideProperty>),
    Other,
}

/// The content of a [`Reading`].
pub enum Read {
    Flag(bool),
    Text(Seq<char>),
    Number(Option<u64>),
    Object(Seq<(Seq<char>, Option<Seq<char>>)>),
    Other,
}

impl View for Reading {
    type V = Read;

    open spec fn view(&self) -> Read {
        match *self {
            Reading::Flag(flag) => Read::Flag(flag),
            Reading::Text(text) => Read::Text(text@),
            Reading::Number(number) => Read::Number(number),
            Reading::Object(sides) => Read::Object(
                sides@.map_values(|side: SideProperty| side@),
            ),
            Reading::Other => Read::Other,
        }
    }
}

/// A JSON value one layer deep: what a list or an object holds is given by the
/// JSON text of each.
pub enum Layer {
    Null,
    Flag(bool),
    Number(String),
    Text(String),
    Array(Vec<String>),
    Object(Vec<RawProperty>),
}

/// The content of a [`Layer`].
pub enum Parsed {
    Null,
    Flag(bool),
    Number(Seq<char>),
    Text(Seq<char>),
    Array(Seq<Seq<char>>),
    Object(Seq<(Seq<char>, Seq<char>)>),
}

impl View for Layer {
    type V = Parsed;

    open spec fn view(&self) -> Parsed {
        match *self {
            Layer::Null => Parsed::Null,
            Layer::Flag(flag) => Parsed::Flag(flag),
            Layer::Number(number) => Parsed::Number(number@),
            Layer::Text(text) => Parsed::Text(text@),
            Layer::Array(items) => Parsed::Array(texts(items@)),
            Layer::Object(properties) => Parsed::Object(raw_of(properties@)),
        }
    }
}

/// The content of an optional layer.
pub open spec fn opt_parsed(layer: Option<Layer>) -> Option<Parsed> {
    match layer {
        Some(inner) => Some(inner@),
        None => None,
    }
}

/// What `serde_json::from_str` reads a text as, one layer deep, and nothing
/// where the text is not JSON.
pub uninterp spec fn value_parsed(text: Seq<char>) -> Option<Parsed>;

/// Calls `serde_json::from_str` for a `serde_json::Value` and hands the value
/// on, each variant as its own: a number as its text, and the values a list or
/// an object holds as their JSON texts. The result is a function of the text
/// alone; the JSON grammar is not stated.
#[verifier::external_body]
fn parse_value(text: &str) -> (layer: Option<Layer>)
    ensures
        opt_parsed(layer) == value_parsed(text@),
{
    Some(match serde_json::from_str::<Value>(text).ok()? {
        Value::Null => Layer::Null,
        Value::Bool(flag) => Layer::Flag(flag),
        Value::Number(number) => Layer::Number(number.to_string()),
        Value::String(inner) => Layer::Text(inner),
        Value::Array(items) => Layer::Array(items.iter().map(Value::to_string).collect()),
        Value::Object(held) => Layer::Object(held.into_iter().map(
            |(name, value)| RawProperty { name, text: value.to_string() },
        ).collect()),
    })
}

// ---------------------------------------------------------------------------
// Reading a value
// ---------------------------------------------------------------------------

/// Whether a character is a decimal digit.
pub open spec fn is_digit(c: char) -> bool {
    '0' <= c <= '9'
}

/// The number a text of digits writes.
pub open spec fn digits_value(text: Seq<char>) -> nat
    decreases text.len(),
{
    if text.len() == 0 {
        0
    } else {
        digits_value(text.drop_last()) * 10 + digit_value(text.last())
    }
}

/// The number a digit writes.
pub open spec fn digit_value(c: char) -> nat {
    if is_digit(c) {
        (c as u32 - '0' as u32) as nat
    } else {
        0
    }
}

/// The whole number a JSON number is, where it is written with digits alone
/// and fits.
pub open spec fn whole(text: Seq<char>) -> Option<u64> {
    if text.len() > 0 && (forall|i: int| 0 <= i < text.len() ==> is_digit(#[trigger] text[i]))
        && digits_value(text) <= u64::MAX {
        Some(digits_value(text) as u64)
    } else {
        None
    }
}

proof fn lemma_prefix_is_no_larger(text: Seq<char>, at: int)
    requires
        0 <= at <= text.len(),
    ensures
        digits_value(text.take(at)) <= digits_value(text),
    decreases text.len(),
{
    if at == text.len() {
        assert(text.take(at) =~= text);
    } else {
        let rest = text.drop_last();
        lemma_prefix_is_no_larger(rest, at);
        assert(rest.take(at) =~= text.take(at));
    }
}

/// The whole number a JSON number is, where it is written with digits alone
/// and fits.
pub fn whole_number(text: &str) -> (number: Option<u64>)
    ensures
        number == whole(text@),
{
    let chars = chars_of(text);
    if chars.len() == 0 {
        return None;
    }
    let mut value: u64 = 0;
    let mut i: usize = 0;
    while i < chars.len()
        invariant
            i <= chars@.len(),
            chars@ == text@,
            forall|k: int| 0 <= k < i ==> is_digit(#[trigger] text@[k]),
            value == digits_value(text@.take(i as int)),
        decreases chars@.len() - i,
    {
        let c = chars[i];
        if c < '0' || c > '9' {
            assert(!is_digit(text@[i as int]));
            return None;
        }
        let digit: u64 = (c as u32 - '0' as u32) as u64;
        proof {
            assert(text@.take(i + 1).drop_last() =~= text@.take(i as int));
            assert(text@.take(i + 1).last() == c);
            lemma_prefix_is_no_larger(text@, i + 1);
        }
        if value > (u64::MAX - digit) / 10 {
            assert(value * 10 + digit > u64::MAX);
            return None;
        }
        value = value * 10 + digit;
        i += 1;
    }
    assert(text@.take(i as int) =~= text@);
    Some(value)
}

/// The text a JSON text writes, where it writes one.
pub open spec fn text_in(text: Seq<char>) -> Option<Seq<char>> {
    match value_parsed(text) {
        Some(Parsed::Text(inner)) => Some(inner),
        _ => None,
    }
}

/// What is read of a value: an object's names with their values where those
/// are texts, and of a list or a null nothing.
pub open spec fn read_of(parsed: Parsed) -> Read {
    match parsed {
        Parsed::Flag(flag) => Read::Flag(flag),
        Parsed::Text(text) => Read::Text(text),
        Parsed::Number(number) => Read::Number(whole(number)),
        Parsed::Object(properties) => Read::Object(
            properties.map_values(
                |property: (Seq<char>, Seq<char>)| (property.0, text_in(property.1)),
            ),
        ),
        Parsed::Null | Parsed::Array(_) => Read::Other,
    }
}

/// What is read of a text, where it is JSON.
pub open spec fn value_read(text: Seq<char>) -> Option<Read> {
    match value_parsed(text) {
        Some(parsed) => Some(read_of(parsed)),
        None => None,
    }
}

fn side_properties(properties: &Vec<RawProperty>) -> (sides: Vec<SideProperty>)
    ensures
        sides@.map_values(|side: SideProperty| side@) == raw_of(properties@).map_values(
            |property: (Seq<char>, Seq<char>)| (property.0, text_in(property.1)),
        ),
{
    let mut sides: Vec<SideProperty> = Vec::new();
    let mut i: usize = 0;
    while i < properties.len()
        invariant
            i <= properties@.len(),
            sides@.len() == i,
            forall|k: int|
                0 <= k < i ==> (#[trigger] sides@[k])@ == (
                    properties@[k].name@,
                    text_in(properties@[k].text@),
                ),
        decreases properties@.len() - i,
    {
        let text = match parse_value(properties[i].text.as_str()) {
            Some(Layer::Text(inner)) => Some(inner),
            _ => None,
        };
        sides.push(SideProperty { name: properties[i].name.clone(), text });
        i += 1;
    }
    assert(sides@.map_values(|side: SideProperty| side@) =~= raw_of(properties@).map_values(
        |property: (Seq<char>, Seq<char>)| (property.0, text_in(property.1)),
    ));
    sides
}

/// What is read of a value.
pub fn project(layer: Layer) -> (reading: Reading)
    ensures
        reading@ == read_of(layer@),
{
    match layer {
        Layer::Flag(flag) => Reading::Flag(flag),
        Layer::Text(text) => Reading::Text(text),
        Layer::Number(number) => Reading::Number(whole_number(number.as_str())),
        Layer::Object(properties) => Reading::Object(side_properties(&properties)),
        Layer::Null => Reading::Other,
        Layer::Array(_) => Reading::Other,
    }
}

// ---------------------------------------------------------------------------
// Reading a record
// ---------------------------------------------------------------------------

/// One property of a record that could be read.
pub struct ParsedProperty {
    pub name: String,
    pub reading: Reading,
}

impl View for ParsedProperty {
    type V = (Seq<char>, Read);

    open spec fn view(&self) -> (Seq<char>, Read) {
        (self.name@, self.reading@)
    }
}

/// The names and contents of a parsed record.
pub open spec fn record_of(record: Seq<ParsedProperty>) -> Seq<(Seq<char>, Read)> {
    record.map_values(|property: ParsedProperty| property@)
}

/// The properties of a record that can be read. One whose text does not parse
/// is absent here; it still goes back untouched.
pub open spec fn readable(raw: Seq<(Seq<char>, Seq<char>)>) -> Seq<(Seq<char>, Read)> {
    raw.filter_map(
        |property: (Seq<char>, Seq<char>)|
            match value_read(property.1) {
                Some(read) => Some((property.0, read)),
                None => None,
            },
    )
}

/// The properties of a record that can be read.
pub fn parsed_record(raw: &Vec<RawProperty>) -> (record: Vec<ParsedProperty>)
    ensures
        record_of(record@) == readable(raw_of(raw@)),
{
    let mut record: Vec<ParsedProperty> = Vec::new();
    let mut i: usize = 0;
    let ghost all = raw_of(raw@);
    assert(record_of(record@) =~= readable(all.take(0)));
    while i < raw.len()
        invariant
            i <= raw@.len(),
            all == raw_of(raw@),
            record_of(record@) == readable(all.take(i as int)),
        decreases raw@.len() - i,
    {
        let ghost prior = record_of(record@);
        assert(all.take(i + 1).drop_last() =~= all.take(i as int));
        assert(all.take(i + 1).last() == raw@[i as int]@);
        if let Some(layer) = parse_value(raw[i].text.as_str()) {
            let property = ParsedProperty { name: raw[i].name.clone(), reading: project(layer) };
            record.push(property);
            assert(record_of(record@) =~= prior + seq![property@]);
        }
        i += 1;
    }
    assert(all.take(i as int) =~= all);
    record
}

/// What a parsed record holds under a name.
pub open spec fn read_at(record: Seq<(Seq<char>, Read)>, name: Seq<char>) -> Option<Read>
    decreases record.len(),
{
    if record.len() == 0 {
        None
    } else if record[0].0 == name {
        Some(record[0].1)
    } else {
        read_at(record.drop_first(), name)
    }
}

/// The boolean under a name.
pub open spec fn flag_at(record: Seq<(Seq<char>, Read)>, name: Seq<char>) -> Option<bool> {
    match read_at(record, name) {
        Some(Read::Flag(flag)) => Some(flag),
        _ => None,
    }
}

/// The text under a name.
pub open spec fn text_at(record: Seq<(Seq<char>, Read)>, name: Seq<char>) -> Option<Seq<char>> {
    match read_at(record, name) {
        Some(Read::Text(text)) => Some(text),
        _ => None,
    }
}

/// The number under a name, where it is a whole one of at most 32 bits.
pub open spec fn index_at(record: Seq<(Seq<char>, Read)>, name: Seq<char>) -> Option<u32> {
    match read_at(record, name) {
        Some(Read::Number(Some(number))) => if number <= u32::MAX {
            Some(number as u32)
        } else {
            None
        },
        _ => None,
    }
}

/// The text under a name inside a property.
pub open spec fn side_at(sides: Seq<(Seq<char>, Option<Seq<char>>)>, name: Seq<char>) -> Option<
    Seq<char>,
>
    decreases sides.len(),
{
    if sides.len() == 0 {
        None
    } else if sides[0].0 == name {
        sides[0].1
    } else {
        side_at(sides.drop_first(), name)
    }
}

/// The text under a name inside the object under a name.
pub open spec fn endpoint_at(
    record: Seq<(Seq<char>, Read)>,
    side: Seq<char>,
    name: Seq<char>,
) -> Option<Seq<char>> {
    match read_at(record, side) {
        Some(Read::Object(sides)) => side_at(sides, name),
        _ => None,
    }
}

fn find_reading<'a>(record: &'a Vec<ParsedProperty>, name: &str) -> (found: Option<&'a Reading>)
    ensures
        match found {
            Some(reading) => read_at(record_of(record@), name@) == Some(reading@),
            None => read_at(record_of(record@), name@) is None,
        },
{
    let mut i: usize = 0;
    let ghost all = record_of(record@);
    assert(all.skip(0) =~= all);
    while i < record.len()
        invariant
            i <= record@.len(),
            all == record_of(record@),
            read_at(all, name@) == read_at(all.skip(i as int), name@),
        decreases record@.len() - i,
    {
        assert(all.skip(i as int)[0] == record@[i as int]@);
        if same_text(record[i].name.as_str(), name) {
            return Some(&record[i].reading);
        }
        assert(all.skip(i as int).drop_first() =~= all.skip(i + 1));
        i += 1;
    }
    None
}

fn find_flag(record: &Vec<ParsedProperty>, name: &str) -> (flag: Option<bool>)
    ensures
        flag == flag_at(record_of(record@), name@),
{
    match find_reading(record, name) {
        Some(Reading::Flag(flag)) => Some(*flag),
        _ => None,
    }
}

fn find_text(record: &Vec<ParsedProperty>, name: &str) -> (text: Option<String>)
    ensures
        opt_string(text) == text_at(record_of(record@), name@),
{
    match find_reading(record, name) {
        Some(Reading::Text(text)) => Some(text.clone()),
        _ => None,
    }
}

fn find_index(record: &Vec<ParsedProperty>, name: &str) -> (index: Option<u32>)
    ensures
        index == index_at(record_of(record@), name@),
{
    match find_reading(record, name) {
        Some(Reading::Number(Some(number))) => if *number <= u32::MAX as u64 {
            Some(*number as u32)
        } else {
            None
        },
        _ => None,
    }
}

fn find_side(sides: &Vec<SideProperty>, name: &str) -> (text: Option<String>)
    ensures
        opt_string(text) == side_at(sides@.map_values(|side: SideProperty| side@), name@),
{
    let mut i: usize = 0;
    let ghost all = sides@.map_values(|side: SideProperty| side@);
    assert(all.skip(0) =~= all);
    while i < sides.len()
        invariant
            i <= sides@.len(),
            all == sides@.map_values(|side: SideProperty| side@),
            side_at(all, name@) == side_at(all.skip(i as int), name@),
        decreases sides@.len() - i,
    {
        assert(all.skip(i as int)[0] == sides@[i as int]@);
        if same_text(sides[i].name.as_str(), name) {
            return sides[i].text.clone();
        }
        assert(all.skip(i as int).drop_first() =~= all.skip(i + 1));
        i += 1;
    }
    None
}

fn find_endpoint(record: &Vec<ParsedProperty>, side: &str, name: &str) -> (text: Option<String>)
    ensures
        opt_string(text) == endpoint_at(record_of(record@), side@, name@),
{
    match find_reading(record, side) {
        Some(Reading::Object(sides)) => find_side(sides, name),
        _ => None,
    }
}

// ---------------------------------------------------------------------------
// The policy
// ---------------------------------------------------------------------------

/// The settable surface of a policy.
pub open spec fn policy_state(record: Seq<(Seq<char>, Read)>) -> Tree {
    Tree::Object(seq![("enabled"@, flag_or_null(flag_at(record, "enabled"@)))])
}

/// The settable surface of a policy, read from the record the controller
/// returned.
pub fn policy_projection(record: &Vec<ParsedProperty>) -> (value: Json)
    ensures
        value@ == policy_state(record_of(record@)),
{
    let mut members: Vec<Member> = Vec::new();
    push_field(&mut members, "enabled", encode_flag(find_flag(record, "enabled")));
    assert(fields(members@) =~= policy_state(record_of(record@))->Object_0);
    Json::Object(members)
}

/// Whether a view shows the policy a record describes. A record that states
/// no id is shown under the one it was asked for with.
pub open spec fn shows_policy(
    view: PolicyView,
    id: Seq<char>,
    record: Seq<(Seq<char>, Read)>,
) -> bool {
    &&& view.id@ == (match text_at(record, "id"@) {
        Some(own) => own,
        None => id,
    })
    &&& opt_string(view.name) == text_at(record, "name"@)
    &&& view.enabled == flag_at(record, "enabled"@)
    &&& opt_string(view.action) == text_at(record, "action"@)
    &&& view.index == index_at(record, "index"@)
    &&& opt_string(view.ip_protocol_scope) == text_at(record, "ipProtocolScope"@)
    &&& opt_string(view.source_zone_id) == endpoint_at(record, "source"@, "zoneId"@)
    &&& opt_string(view.source_port) == endpoint_at(record, "source"@, "port"@)
    &&& opt_string(view.destination_zone_id) == endpoint_at(record, "destination"@, "zoneId"@)
    &&& opt_string(view.destination_port) == endpoint_at(record, "destination"@, "port"@)
}

/// The policy as the audit read reports it, built from the record the write
/// sends back.
pub fn policy_view_from_record(id: &str, record: &Vec<ParsedProperty>) -> (view: PolicyView)
    ensures
        shows_policy(view, id@, record_of(record@)),
{
    let own = match find_text(record, "id") {
        Some(text) => text,
        None => id.to_owned(),
    };
    PolicyView {
        id: own,
        name: find_text(record, "name"),
        enabled: find_flag(record, "enabled"),
        action: find_text(record, "action"),
        index: find_index(record, "index"),
        ip_protocol_scope: find_text(record, "ipProtocolScope"),
        source_zone_id: find_endpoint(record, "source", "zoneId"),
        source_port: find_endpoint(record, "source", "port"),
        destination_zone_id: find_endpoint(record, "destination", "zoneId"),
        destination_port: find_endpoint(record, "destination", "port"),
    }
}

/// What a policy does to the traffic it matches.
#[derive(Debug, Clone, Copy, PartialEq, Eq, Structural)]
pub enum Effect {
    Blocks,
    Allows,
    Unknown,
}

/// What an action does to traffic. Letter case does not count.
pub open spec fn effect_of(action: Option<Seq<char>>) -> Effect {
    match action {
        Some(word) => {
            let lower = ascii_lowercase(word);
            if lower == "block"@ || lower == "reject"@ || lower == "drop"@ {
                Effect::Blocks
            } else if lower == "allow"@ || lower == "accept"@ {
                Effect::Allows
            } else {
                Effect::Unknown
            }
        },
        None => Effect::Unknown,
    }
}

fn effect(action: &Option<String>) -> (result: Effect)
    ensures
        result == effect_of(opt_string(*action)),
{
    match action {
        Some(word) => {
            let lowered = to_ascii_lowercase(word.as_str());
            let lower = lowered.as_str();
            if same_text(lower, "block") || same_text(lower, "reject") || same_text(lower, "drop") {
                Effect::Blocks
            } else if same_text(lower, "allow") || same_text(lower, "accept") {
                Effect::Allows
            } else {
                Effect::Unknown
            }
        },
        None => Effect::Unknown,
    }
}

/// The consequence of flipping a policy.
pub open spec fn flip_consequence(effect: Effect, wanted: bool) -> Seq<char> {
    match (effect, wanted) {
        (Effect::Blocks, false) => "this policy blocks traffic; disabling it stops this policy from blocking, and whether that traffic is then allowed depends on the policies after it"@,
        (Effect::Blocks, true) => "this policy blocks traffic; enabling it blocks whatever reaches it and matches, unless an earlier policy allows that traffic first"@,
        (Effect::Allows, false) => "this policy allows traffic; disabling it withdraws this policy's allowance, and the policies after it decide"@,
        (Effect::Allows, true) => "this policy allows traffic; enabling it allows whatever reaches it and matches, unless an earlier policy blocks that traffic first"@,
        (Effect::Unknown, _) => "the controller reports no action this server recognizes for this policy, so whether the change permits or blocks traffic could not be stated"@,
    }
}

/// The note that a concurrent edit is not merged.
pub open spec fn resend_note() -> Seq<char> {
    "this change resends the whole policy as it was just read, so an edit made elsewhere between that read and this write is overwritten"@
}

/// The consequences of setting a policy's switch: none where it already
/// stands so, since then nothing is sent.
pub open spec fn policy_consequences(wanted: bool, record: Seq<(Seq<char>, Read)>) -> Seq<
    Seq<char>,
> {
    if flag_at(record, "enabled"@) == Some(wanted) {
        Seq::empty()
    } else {
        seq![flip_consequence(effect_of(text_at(record, "action"@)), wanted), resend_note()]
    }
}

/// What an operator should know before flipping a policy. A policy is one
/// step in an ordered set, so this says what the policy itself stops or
/// starts doing and names what settles the rest.
pub fn firewall_policy_warnings(wanted: bool, record: &Vec<ParsedProperty>) -> (warnings: Vec<
    String,
>)
    ensures
        texts(warnings@) == policy_consequences(wanted, record_of(record@)),
{
    let mut warnings: Vec<String> = Vec::new();
    if find_flag(record, "enabled") == Some(wanted) {
        assert(texts(warnings@) =~= Seq::empty());
        return warnings;
    }
    let action = find_text(record, "action");
    let consequence = match (effect(&action), wanted) {
        (Effect::Blocks, false) =>
            "this policy blocks traffic; disabling it stops this policy from blocking, and whether that traffic is then allowed depends on the policies after it",
        (Effect::Blocks, true) =>
            "this policy blocks traffic; enabling it blocks whatever reaches it and matches, unless an earlier policy allows that traffic first",
        (Effect::Allows, false) =>
            "this policy allows traffic; disabling it withdraws this policy's allowance, and the policies after it decide",
        (Effect::Allows, true) =>
            "this policy allows traffic; enabling it allows whatever reaches it and matches, unless an earlier policy blocks that traffic first",
        (Effect::Unknown, _) =>
            "the controller reports no action this server recognizes for this policy, so whether the change permits or blocks traffic could not be stated",
    };
    warnings.push(consequence.to_owned());
    warnings.push(
        "this change resends the whole policy as it was just read, so an edit made elsewhere between that read and this write is overwritten".to_owned(),
    );
    assert(texts(warnings@) =~= policy_consequences(wanted, record_of(record@)));
    warnings
}

// ---------------------------------------------------------------------------
// The request
// ---------------------------------------------------------------------------

/// What can be changed on one policy: only the switch.
#[derive(Debug, Clone, Copy, PartialEq, Eq, Structural)]
pub struct FirewallPolicyChanges {
    pub enabled: Option<bool>,
}

/// A change of one policy.
pub struct FirewallPoliciesUpdateInput {
    pub policy: String,
    pub changes: FirewallPolicyChanges,
    pub confirm: Option<bool>,
}

/// Every field a change may name.
pub open spec fn policy_field_names() -> Seq<Seq<char>> {
    seq!["enabled"@]
}

/// Every field a change may name.
pub fn firewall_policy_change_fields() -> (names: Vec<&'static str>)
    ensures
        words(names@) == policy_field_names(),
{
    let names: Vec<&'static str> = vec!["enabled"];
    assert(words(names@) =~= policy_field_names());
    names
}

/// The controller property of the switch: it has the name the read uses.
pub open spec fn policy_properties() -> Seq<WireName> {
    seq![WireName { field: "enabled", property: "enabled" }]
}

/// The controller property of the switch.
pub fn policy_wire_names() -> (names: Vec<WireName>)
    ensures
        names@ == policy_properties(),
{
    let names: Vec<WireName> = vec![WireName { field: "enabled", property: "enabled" }];
    assert(names@ =~= policy_properties());
    names
}

/// Refuses raw arguments that name an unknown field.
pub fn check_policy_arguments(arguments: &Json) -> (result: Result<(), ToolError>)
    ensures
        result is Err <==> unknown_in(arguments@, policy_field_names()).len() > 0,
        result matches Err(error) ==> is_invalid_params(
            error,
            unknown_fields_message(
                unknown_in(arguments@, policy_field_names()),
                policy_field_names(),
            ),
        ),
{
    let accepted = firewall_policy_change_fields();
    reject_unknown_change_fields(arguments, &accepted)
}

/// What a change asks for.
pub open spec fn policy_requested(wanted: bool) -> Seq<(Seq<char>, Tree)> {
    seq![("enabled"@, Tree::Bool(wanted))]
}

fn requested_policy_fields(wanted: bool) -> (requested: Vec<Member>)
    ensures
        fields(requested@) == policy_requested(wanted),
{
    let mut requested: Vec<Member> = Vec::new();
    push_field(&mut requested, "enabled", Json::Bool(wanted));
    assert(fields(requested@) =~= policy_requested(wanted));
    requested
}

/// The switch position a change asks for, or its refusal where it asks for
/// none.
pub fn wanted_position(input: &FirewallPoliciesUpdateInput) -> (result: Result<bool, ToolError>)
    ensures
        result is Err <==> input.changes.enabled is None,
        result matches Err(error) ==> is_invalid_params(error, no_field_message()),
        result matches Ok(wanted) ==> input.changes.enabled == Some(wanted),
{
    match input.changes.enabled {
        Some(wanted) => Ok(wanted),
        None => Err(invalid_params("changes names no field to change")),
    }
}

// ---------------------------------------------------------------------------
// What is sent
// ---------------------------------------------------------------------------

/// How JSON writes a boolean.
pub open spec fn literal(wanted: bool) -> Seq<char> {
    if wanted {
        "true"@
    } else {
        "false"@
    }
}

/// A record with one property set: in place where the name is there already,
/// else before the first name that stands after it.
pub open spec fn with_property(
    raw: Seq<(Seq<char>, Seq<char>)>,
    name: Seq<char>,
    text: Seq<char>,
) -> Seq<(Seq<char>, Seq<char>)>
    decreases raw.len(),
{
    if raw.len() == 0 || precedes(name, raw[0].0) {
        seq![(name, text)] + raw
    } else if raw[0].0 == name {
        seq![(name, text)] + raw.drop_first()
    } else {
        seq![raw[0]] + with_property(raw.drop_first(), name, text)
    }
}

/// The text under a name.
pub open spec fn raw_at(raw: Seq<(Seq<char>, Seq<char>)>, name: Seq<char>) -> Option<Seq<char>>
    decreases raw.len(),
{
    if raw.len() == 0 {
        None
    } else if raw[0].0 == name {
        Some(raw[0].1)
    } else {
        raw_at(raw.drop_first(), name)
    }
}

/// The record to send: every property as it was read, and the switch in the
/// position asked for.
pub fn flipped(raw: &Vec<RawProperty>, wanted: bool) -> (sent: Vec<RawProperty>)
    ensures
        raw_of(sent@) == with_property(raw_of(raw@), "enabled"@, literal(wanted)),
{
    let text = if wanted {
        "true"
    } else {
        "false"
    };
    let mut sent: Vec<RawProperty> = Vec::new();
    let mut placed = false;
    let mut i: usize = 0;
    let ghost all = raw_of(raw@);
    let ghost goal = with_property(all, "enabled"@, literal(wanted));
    assert(all.skip(0) =~= all);
    assert(goal =~= raw_of(sent@) + with_property(all.skip(0), "enabled"@, literal(wanted)));
    while i < raw.len()
        invariant
            i <= raw@.len(),
            all == raw_of(raw@),
            text@ == literal(wanted),
            placed ==> goal == raw_of(sent@) + all.skip(i as int),
            !placed ==> goal == raw_of(sent@) + with_property(
                all.skip(i as int),
                "enabled"@,
                literal(wanted),
            ),
        decreases raw@.len() - i,
    {
        let ghost prior = raw_of(sent@);
        let ghost rest = all.skip(i as int);
        assert(rest[0] == raw@[i as int]@);
        assert(rest.drop_first() =~= all.skip(i + 1));
        let name = raw[i].name.as_str();
        if !placed && !text_precedes("enabled", name) && same_text(name, "enabled") {
            let property = RawProperty { name: "enabled".to_owned(), text: text.to_owned() };
            sent.push(property);
            placed = true;
            assert(raw_of(sent@) =~= prior.push(property@));
            assert(goal =~= raw_of(sent@) + all.skip(i + 1));
        } else {
            if !placed && text_precedes("enabled", name) {
                let property = RawProperty { name: "enabled".to_owned(), text: text.to_owned() };
                sent.push(property);
                placed = true;
                assert(raw_of(sent@) =~= prior.push(property@));
                assert(goal =~= raw_of(sent@) + rest);
            }
            let ghost middle = raw_of(sent@);
            let copy = RawProperty { name: raw[i].name.clone(), text: raw[i].text.clone() };
            sent.push(copy);
            assert(raw_of(sent@) =~= middle.push(raw@[i as int]@));
            if placed {
                assert(middle + rest =~= raw_of(sent@) + all.skip(i + 1));
            } else {
                assert(middle + (seq![rest[0]] + with_property(
                    rest.drop_first(),
                    "enabled"@,
                    literal(wanted),
                )) =~= raw_of(sent@) + with_property(
                    all.skip(i + 1),
                    "enabled"@,
                    literal(wanted),
                ));
            }
        }
        i += 1;
    }
    if !placed {
        let ghost prior = raw_of(sent@);
        let property = RawProperty { name: "enabled".to_owned(), text: text.to_owned() };
        sent.push(property);
        assert(raw_of(sent@) =~= prior.push(property@));
        assert(goal =~= raw_of(sent@));
    } else {
        assert(goal =~= raw_of(sent@));
    }
    sent
}

// ---------------------------------------------------------------------------
// The answer
// ---------------------------------------------------------------------------

/// The result of a change.
pub struct FirewallPoliciesUpdateOutput {
    /// The policy, read after a confirmed change and before an unconfirmed
    /// one.
    pub policy: PolicyView,
    pub report: WriteReport,
}

/// What follows once the policy was read.
pub enum PolicyStep {
    /// Answer with this; nothing is sent.
    Answer(FirewallPoliciesUpdateOutput),
    /// Send this record in place of the policy, then read it again.
    Send(Vec<RawProperty>),
}

/// The report of a change that was only described.
pub open spec fn policy_preview(wanted: bool, record: Seq<(Seq<char>, Read)>) -> Report {
    previewed(
        planned(policy_requested(wanted), policy_state(record), Seq::empty()),
        policy_consequences(wanted, record),
    )
}

/// The report of a confirmed change with nothing to do.
pub open spec fn policy_unchanged() -> Report {
    previewed(
        Seq::empty(),
        seq!["the policy already holds that value, so nothing was sent"@],
    )
}

/// The report of a change that was made.
pub open spec fn policy_judgement(
    wanted: bool,
    before: Seq<(Seq<char>, Read)>,
    after: Seq<(Seq<char>, Read)>,
    changed: Seq<Seq<char>>,
) -> Report {
    judged(
        verified(policy_requested(wanted), policy_state(before), policy_state(after), Seq::empty()),
        unrequested(changed, policy_requested(wanted), policy_properties()),
        policy_consequences(wanted, before),
    )
}

/// Whether a step is the one that follows a reading of the policy.
pub open spec fn follows(
    step: PolicyStep,
    input: FirewallPoliciesUpdateInput,
    wanted: bool,
    raw: Seq<(Seq<char>, Seq<char>)>,
    record: Seq<(Seq<char>, Read)>,
) -> bool {
    match step {
        PolicyStep::Send(sent) => {
            &&& confirmed(input.confirm)
            &&& flag_at(record, "enabled"@) != Some(wanted)
            &&& raw_of(sent@) == with_property(raw, "enabled"@, literal(wanted))
        },
        PolicyStep::Answer(output) => {
            &&& !confirmed(input.confirm) || flag_at(record, "enabled"@) == Some(wanted)
            &&& shows_policy(output.policy, input.policy@, record)
            &&& output.report@ == if confirmed(input.confirm) {
                policy_unchanged()
            } else {
                policy_preview(wanted, record)
            }
        },
    }
}

/// What follows once the policy was read and parsed. Nothing is sent unless
/// the call was confirmed, nor where the switch already stands as asked for:
/// a resend that cannot change it could only overwrite an edit made since.
pub fn policy_step(
    input: &FirewallPoliciesUpdateInput,
    wanted: bool,
    raw: &Vec<RawProperty>,
    record: &Vec<ParsedProperty>,
) -> (step: PolicyStep)
    ensures
        follows(step, *input, wanted, raw_of(raw@), record_of(record@)),
{
    if !is_confirmed(input.confirm) {
        let requested = requested_policy_fields(wanted);
        let before = policy_projection(record);
        let warnings = firewall_policy_warnings(wanted, record);
        let hidden: Vec<String> = Vec::new();
        assert(texts(hidden@) =~= Seq::empty());
        let report = preview(&requested, &before, &hidden, warnings);
        let policy = policy_view_from_record(input.policy.as_str(), record);
        return PolicyStep::Answer(FirewallPoliciesUpdateOutput { policy, report });
    }
    if find_flag(record, "enabled") == Some(wanted) {
        let warnings: Vec<String> = vec![
            "the policy already holds that value, so nothing was sent".to_owned(),
        ];
        assert(texts(warnings@) =~= policy_unchanged().warnings);
        let report = WriteReport {
            applied: false,
            changes: Some(Vec::new()),
            fields: None,
            unexpected_changes: None,
            verified: None,
            warnings,
        };
        assert(report@.changes->Some_0 =~= Seq::empty());
        let policy = policy_view_from_record(input.policy.as_str(), record);
        return PolicyStep::Answer(FirewallPoliciesUpdateOutput { policy, report });
    }
    PolicyStep::Send(flipped(raw, wanted))
}

/// What follows once the policy was read.
pub fn firewall_policies_update(
    input: &FirewallPoliciesUpdateInput,
    wanted: bool,
    raw: &Vec<RawProperty>,
) -> (step: PolicyStep)
    ensures
        follows(step, *input, wanted, raw_of(raw@), readable(raw_of(raw@))),
{
    let record = parsed_record(raw);
    policy_step(input, wanted, raw, &record)
}

/// Judges a change by the parsed policy before and after it and the
/// properties that moved between the two readings.
pub fn judge_policy(
    input: &FirewallPoliciesUpdateInput,
    wanted: bool,
    before: &Vec<ParsedProperty>,
    after: &Vec<ParsedProperty>,
    changed: Vec<String>,
) -> (output: FirewallPoliciesUpdateOutput)
    ensures
        shows_policy(output.policy, input.policy@, record_of(after@)),
        output.report@ == policy_judgement(
            wanted,
            record_of(before@),
            record_of(after@),
            texts(changed@),
        ),
{
    let requested = requested_policy_fields(wanted);
    let old_state = policy_projection(before);
    let new_state = policy_projection(after);
    let warnings = firewall_policy_warnings(wanted, before);
    let hidden: Vec<String> = Vec::new();
    assert(texts(hidden@) =~= Seq::empty());
    let names = policy_wire_names();
    let report = judge(&requested, &old_state, &new_state, &hidden, changed, &names, warnings);
    let policy = policy_view_from_record(input.policy.as_str(), after);
    FirewallPoliciesUpdateOutput { policy, report }
}

/// Judges a change by the policy before and after it and the properties that
/// moved between the two readings.
pub fn firewall_policies_updated(
    input: &FirewallPoliciesUpdateInput,
    wanted: bool,
    before: &Vec<RawProperty>,
    after: &Vec<RawProperty>,
    changed: Vec<String>,
) -> (output: FirewallPoliciesUpdateOutput)
    ensures
        shows_policy(output.policy, input.policy@, readable(raw_of(after@))),
        output.report@ == policy_judgement(
            wanted,
            readable(raw_of(before@)),
            readable(raw_of(after@)),
            texts(changed@),
        ),
{
    let old_record = parsed_record(before);
    let new_record = parsed_record(after);
    judge_policy(input, wanted, &old_record, &new_record, changed)
}

/// An index where there is one.
pub open spec fn some_index(index: Option<u32>) -> Option<Tree> {
    match index {
        Some(inner) => Some(Tree::Number(decimal(inner as nat))),
        None => None,
    }
}

/// A policy view as a value. What the record does not state is left out, but
/// for the name, the switch and the action.
pub open spec fn policy_view_fields(view: PolicyView) -> Seq<(Seq<char>, Tree)> {
    seq![("action"@, text_or_null(opt_string(view.action)))] + present(
        "destinationPort"@,
        some_text(opt_string(view.destination_port)),
    ) + present("destinationZoneId"@, some_text(opt_string(view.destination_zone_id))) + seq![
        ("enabled"@, flag_or_null(view.enabled)),
        ("id"@, Tree::Text(view.id@)),
    ] + present("index"@, some_index(view.index)) + present(
        "ipProtocolScope"@,
        some_text(opt_string(view.ip_protocol_scope)),
    ) + seq![("name"@, text_or_null(opt_string(view.name)))] + present(
        "sourcePort"@,
        some_text(opt_string(view.source_port)),
    ) + present("sourceZoneId"@, some_text(opt_string(view.source_zone_id)))
}

/// A policy view as a value.
pub fn encode_policy_view(view: &PolicyView) -> (value: Json)
    ensures
        value@ == Tree::Object(policy_view_fields(*view)),
{
    let mut members: Vec<Member> = Vec::new();
    push_field(&mut members, "action", encode_text(&view.action));
    push_present(&mut members, "destinationPort", maybe_text(&view.destination_port));
    push_present(&mut members, "destinationZoneId", maybe_text(&view.destination_zone_id));
    push_field(&mut members, "enabled", encode_flag(view.enabled));
    push_field(&mut members, "id", Json::Text(view.id.clone()));
    let index = match view.index {
        Some(inner) => Some(Json::Number(to_decimal(inner as u64))),
        None => None,
    };
    push_present(&mut members, "index", index);
    push_present(&mut members, "ipProtocolScope", maybe_text(&view.ip_protocol_scope));
    push_field(&mut members, "name", encode_text(&view.name));
    push_present(&mut members, "sourcePort", maybe_text(&view.source_port));
    push_present(&mut members, "sourceZoneId", maybe_text(&view.source_zone_id));
    assert(fields(members@) =~= policy_view_fields(*view));
    Json::Object(members)
}

/// The result of a change as a value.
pub fn encode_policies_update(output: &FirewallPoliciesUpdateOutput) -> (value: Json)
    ensures
        value@ == Tree::Object(
            report_head(output.report@) + seq![
                ("policy"@, Tree::Object(policy_view_fields(output.policy))),
            ] + report_tail(output.report@),
        ),
{
    let mut members: Vec<Member> = Vec::new();
    push_head(&mut members, &output.report);
    push_field(&mut members, "policy", encode_policy_view(&output.policy));
    push_tail(&mut members, &output.report);
    assert(fields(members@) =~= report_head(output.report@) + seq![
        ("policy"@, Tree::Object(policy_view_fields(output.policy))),
    ] + report_tail(output.report@));
    Json::Object(members)
}

// ---------------------------------------------------------------------------
// Laws
// ---------------------------------------------------------------------------

/// Setting one property leaves every other one exactly as it was read, those
/// that are not modeled too: none is dropped, added or rewritten.
pub proof fn law_resend_changes_one_property_only(
    raw: Seq<(Seq<char>, Seq<char>)>,
    name: Seq<char>,
    text: Seq<char>,
    other: Seq<char>,
)
    ensures
        raw_at(with_property(raw, name, text), name) == Some(text),
        other != name ==> raw_at(with_property(raw, name, text), other) == raw_at(raw, other),
        raw.len() <= with_property(raw, name, text).len() <= raw.len() + 1,
    decreases raw.len(),
{
    let set = with_property(raw, name, text);
    if raw.len() == 0 || precedes(name, raw[0].0) {
        assert(set.drop_first() =~= raw);
    } else if raw[0].0 == name {
        assert(set.drop_first() =~= raw.drop_first());
    } else {
        law_resend_changes_one_property_only(raw.drop_first(), name, text, other);
        assert(set.drop_first() =~= with_property(raw.drop_first(), name, text));
    }
}

/// The switch is the only field a change may name, and it has a controller
/// property.
pub proof fn law_the_switch_has_a_controller_property()
    ensures
        forall|k: int|
            #![trigger policy_field_names()[k]]
            0 <= k < policy_field_names().len() ==> wire_property(
                policy_properties(),
                policy_field_names()[k],
            ) is Some,
        forall|k: int|
            #![trigger policy_properties()[k]]
            0 <= k < policy_properties().len() ==> policy_field_names().contains(
                policy_properties()[k].field@,
            ),
{
    assert(policy_field_names()[0] == "enabled"@);
}

/// The switch is emitted by the read under the name a change gives it.
pub proof fn law_changes_name_what_the_read_emits(view: PolicyView, k: int)
    requires
        0 <= k < policy_field_names().len(),
    ensures
        lookup(policy_view_fields(view), policy_field_names()[k]) is Some,
{
    let emitted = policy_view_fields(view);
    let before = seq![("action"@, text_or_null(opt_string(view.action)))] + present(
        "destinationPort"@,
        some_text(opt_string(view.destination_port)),
    ) + present("destinationZoneId"@, some_text(opt_string(view.destination_zone_id)));
    assert(emitted[before.len() as int].0 == "enabled"@);
    lemma_lookup(emitted, policy_field_names()[k]);
}

} // verus!
