//! Keeping configured secrets out of results: scrubbing, verifying, and the
//! fixed order in which a result is finished.

use vstd::prelude::*;
use vstd::string::*;

use crate::error::{internal_error, invalid_params, is_internal, is_invalid_params, ToolError};
use crate::json::{render, rendered, set_field, with_field};
use crate::mutation::{survives, REDACTION_MARKER};
use crate::registry::ToolBehavior;
use crate::text::{
    byte_len, chars_contain, chars_of, contains, count_bytes, occurs, occurs_at, texts,
};
use crate::tree::{fields, lemma_item_smaller, lemma_member_smaller, trees, Json, Member, Tree};

verus! {

broadcast use crate::tree::group_json_view;

/// The property under which a result carries its trust labels.
pub const TRUST_ANNOTATIONS_KEY: &'static str = "io.modelcontextprotocol/trust-annotations";

/// Hard ceiling on one structured result's serialized size. A result over
/// budget is a caller-recoverable error, never a truncated or unbounded dump.
/// A tool whose result carries credentials this call created is exempt, since
/// there is nothing for the caller to recover by narrowing.
pub const MAXIMUM_RESULT_BYTES: usize = 49152;

// ---------------------------------------------------------------------------
// Secrets in a text
// ---------------------------------------------------------------------------

/// Whether some non-empty secret stands anywhere in the text.
pub open spec fn discloses(text: Seq<char>, secrets: Seq<Seq<char>>) -> bool {
    exists|k: int|
        0 <= k < secrets.len() && (#[trigger] secrets[k]).len() > 0 && contains(text, secrets[k])
}

/// Whether some occurrence of a non-empty secret begins before `start` and
/// ends after `p`.
pub open spec fn spans(text: Seq<char>, secrets: Seq<Seq<char>>, start: int, p: int) -> bool {
    exists|k: int, at: int|
        0 <= k < secrets.len() && (#[trigger] secrets[k]).len() > 0 && #[trigger] occurs_at(
            text,
            secrets[k],
            at,
        ) && at < start && p < at + secrets[k].len()
}

/// Whether the character at `p` is part of an occurrence of a secret.
pub open spec fn covered(text: Seq<char>, secrets: Seq<Seq<char>>, p: int) -> bool {
    spans(text, secrets, p + 1, p)
}

/// The text from `p` on, with each run of overlapping secret occurrences
/// replaced by one marker: a character outside every occurrence stays, the
/// first character of a run becomes the marker, and the others go.
pub open spec fn substituted(text: Seq<char>, secrets: Seq<Seq<char>>, p: int) -> Seq<char>
    decreases text.len() - p,
{
    if p < 0 || p >= text.len() {
        Seq::empty()
    } else {
        let rest = substituted(text, secrets, p + 1);
        if !covered(text, secrets, p) {
            seq![text[p]] + rest
        } else if !spans(text, secrets, p, p) {
            REDACTION_MARKER@ + rest
        } else {
            rest
        }
    }
}

/// The text a scrub leaves: unchanged where it holds no secret; with the
/// secrets replaced where that leaves none; else the marker alone.
pub open spec fn scrubbed(text: Seq<char>, secrets: Seq<Seq<char>>) -> Seq<char> {
    if !discloses(text, secrets) {
        text
    } else if !discloses(substituted(text, secrets, 0), secrets) {
        substituted(text, secrets, 0)
    } else {
        REDACTION_MARKER@
    }
}

/// The characters of each secret.
fn secret_chars(secrets: &Vec<String>) -> (lists: Vec<Vec<char>>)
    ensures
        lists@.len() == secrets@.len(),
        forall|k: int| 0 <= k < secrets@.len() ==> (#[trigger] lists@[k])@ == texts(secrets@)[k],
{
    let mut lists: Vec<Vec<char>> = Vec::new();
    let mut i: usize = 0;
    while i < secrets.len()
        invariant
            i <= secrets@.len(),
            lists@.len() == i,
            forall|k: int| 0 <= k < i ==> (#[trigger] lists@[k])@ == texts(secrets@)[k],
        decreases secrets@.len() - i,
    {
        lists.push(chars_of(secrets[i].as_str()));
        i += 1;
    }
    lists
}

/// Whether some non-empty secret stands anywhere in the text.
pub fn text_discloses(text: &str, secrets: &Vec<String>) -> (result: bool)
    ensures
        result == discloses(text@, texts(secrets@)),
{
    let chars = chars_of(text);
    let mut i: usize = 0;
    while i < secrets.len()
        invariant
            i <= secrets@.len(),
            chars@ == text@,
            forall|k: int|
                0 <= k < i ==> !((#[trigger] texts(secrets@)[k]).len() > 0 && contains(
                    text@,
                    texts(secrets@)[k],
                )),
        decreases secrets@.len() - i,
    {
        let secret = chars_of(secrets[i].as_str());
        assert(texts(secrets@)[i as int] == secret@);
        if secret.len() > 0 && chars_contain(&chars, &secret) {
            return true;
        }
        i += 1;
    }
    false
}

/// The farthest end of a secret that stands at `p`, or `p` where none does.
fn farthest_end(chars: &Vec<char>, lists: &Vec<Vec<char>>, p: usize) -> (end: usize)
    requires
        p < chars@.len(),
    ensures
        p <= end <= chars@.len(),
        end > p ==> exists|k: int|
            0 <= k < lists@.len() && (#[trigger] lists@[k])@.len() > 0 && occurs_at(
                chars@,
                lists@[k]@,
                p as int,
            ) && end == p + lists@[k]@.len(),
        forall|k: int|
            0 <= k < lists@.len() && (#[trigger] lists@[k])@.len() > 0 && occurs_at(
                chars@,
                lists@[k]@,
                p as int,
            ) ==> p + lists@[k]@.len() <= end,
{
    let total: usize = chars.len();
    let mut end: usize = p;
    let mut i: usize = 0;
    while i < lists.len()
        invariant
            p < total == chars@.len(),
            i <= lists@.len(),
            p <= end <= chars@.len(),
            end > p ==> exists|k: int|
                0 <= k < lists@.len() && (#[trigger] lists@[k])@.len() > 0 && occurs_at(
                    chars@,
                    lists@[k]@,
                    p as int,
                ) && end == p + lists@[k]@.len(),
            forall|k: int|
                0 <= k < i && (#[trigger] lists@[k])@.len() > 0 && occurs_at(
                    chars@,
                    lists@[k]@,
                    p as int,
                ) ==> p + lists@[k]@.len() <= end,
        decreases lists@.len() - i,
    {
        let length: usize = lists[i].len();
        if length > 0 && occurs(chars, &lists[i], p) {
            if p + length > end {
                end = p + length;
                assert(lists@[i as int]@.len() > 0);
            }
        }
        i += 1;
    }
    end
}

/// The text with every secret occurrence replaced, or `None` when none match.
///
/// All occurrences count, overlapping ones too, before anything is replaced:
/// replacing one secret at a time would let the first replacement consume
/// part of a longer secret and leave the remainder behind. Where substituting
/// the marker composes another secret, the whole text becomes the marker.
pub fn scrub_text(text: &str, secrets: &Vec<String>) -> (result: Option<String>)
    ensures
        result is Some <==> discloses(text@, texts(secrets@)),
        result matches Some(clean) ==> clean@ == scrubbed(text@, texts(secrets@)),
{
    if !text_discloses(text, secrets) {
        return None;
    }
    let clean = substitute(text, secrets);
    if text_discloses(clean.as_str(), secrets) {
        return Some(REDACTION_MARKER.to_owned());
    }
    Some(clean)
}

/// The text with each run of overlapping secret occurrences replaced by one
/// marker.
fn substitute(text: &str, secrets: &Vec<String>) -> (clean: String)
    ensures
        clean@ == substituted(text@, texts(secrets@), 0),
{
    let chars = chars_of(text);
    let lists = secret_chars(secrets);
    let mut clean = String::new();
    let mut cursor: usize = 0;
    let mut p: usize = 0;
    let ghost all = texts(secrets@);
    assert(clean@ + substituted(text@, all, 0) =~= substituted(text@, all, 0));
    while p < chars.len()
        invariant
            p <= chars@.len(),
            cursor <= chars@.len(),
            chars@ == text@,
            all == texts(secrets@),
            lists@.len() == all.len(),
            forall|k: int| 0 <= k < all.len() ==> (#[trigger] lists@[k])@ == all[k],
            forall|q: int| p <= q ==> (#[trigger] spans(text@, all, p as int, q) <==> q < cursor),
            substituted(text@, all, 0) == clean@ + substituted(text@, all, p as int),
        decreases chars@.len() - p,
    {
        let end = farthest_end(&chars, &lists, p);
        let ghost next = if end > cursor {
            end
        } else {
            cursor
        };
        assert forall|q: int| p <= q implies (#[trigger] spans(text@, all, p + 1, q) <==> q
            < next) by {
            assert(spans(text@, all, p as int, q) <==> q < cursor);
            if q < end {
                let k = choose|k: int|
                    0 <= k < lists@.len() && (#[trigger] lists@[k])@.len() > 0 && occurs_at(
                        chars@,
                        lists@[k]@,
                        p as int,
                    ) && end == p + lists@[k]@.len();
                assert(all[k].len() > 0 && occurs_at(text@, all[k], p as int));
                assert(spans(text@, all, p + 1, q));
            }
            if spans(text@, all, p as int, q) {
                let (k, at) = choose|k: int, at: int|
                    0 <= k < all.len() && (#[trigger] all[k]).len() > 0 && #[trigger] occurs_at(
                        text@,
                        all[k],
                        at,
                    ) && at < p && q < at + all[k].len();
                assert(all[k].len() > 0 && occurs_at(text@, all[k], at) && at < p + 1);
                assert(spans(text@, all, p + 1, q));
            }
            if spans(text@, all, p + 1, q) {
                let (k, at) = choose|k: int, at: int|
                    0 <= k < all.len() && (#[trigger] all[k]).len() > 0 && #[trigger] occurs_at(
                        text@,
                        all[k],
                        at,
                    ) && at < p + 1 && q < at + all[k].len();
                if at < p {
                    assert(spans(text@, all, p as int, q));
                } else {
                    assert(lists@[k]@ == all[k]);
                    assert(p + lists@[k]@.len() <= end);
                }
            }
        }
        assert(covered(text@, all, p as int) <==> p < next);
        assert(spans(text@, all, p as int, p as int) <==> p < cursor);
        let ghost before = clean@;
        let ghost rest = substituted(text@, all, p + 1);
        if p >= cursor {
            if end > p {
                clean.append(REDACTION_MARKER);
                assert(before + (REDACTION_MARKER@ + rest) =~= clean@ + rest);
            } else {
                clean.push(chars[p]);
                assert(before + (seq![text@[p as int]] + rest) =~= clean@ + rest);
            }
        }
        if end > cursor {
            cursor = end;
        }
        p += 1;
    }
    assert(clean@ + substituted(text@, all, p as int) =~= clean@);
    clean
}

// ---------------------------------------------------------------------------
// Secrets in a value
// ---------------------------------------------------------------------------

/// Whether a secret is present in any text of a value. Property names are
/// server-authored and are not texts of the value; numbers and booleans carry
/// no text at all.
pub open spec fn tree_discloses(value: Tree, secrets: Seq<Seq<char>>) -> bool
    decreases value,
{
    match value {
        Tree::Text(text) => discloses(text, secrets),
        Tree::Array(items) => exists|i: int|
            0 <= i < items.len() && tree_discloses(#[trigger] items[i], secrets),
        Tree::Object(members) => exists|i: int|
            0 <= i < members.len() && tree_discloses((#[trigger] members[i]).1, secrets),
        _ => false,
    }
}

/// The value with every text scrubbed and everything else kept.
pub open spec fn scrubbed_tree(value: Tree, secrets: Seq<Seq<char>>) -> Tree
    decreases value,
{
    match value {
        Tree::Text(text) => Tree::Text(scrubbed(text, secrets)),
        Tree::Array(items) => Tree::Array(
            Seq::new(
                items.len(),
                |i: int|
                    if 0 <= i < items.len() {
                        scrubbed_tree(items[i], secrets)
                    } else {
                        Tree::Null
                    },
            ),
        ),
        Tree::Object(members) => Tree::Object(
            Seq::new(
                members.len(),
                |i: int|
                    if 0 <= i < members.len() {
                        (members[i].0, scrubbed_tree(members[i].1, secrets))
                    } else {
                        (Seq::empty(), Tree::Null)
                    },
            ),
        ),
        _ => value,
    }
}

/// Whether any secret is still present where the scrub was responsible for
/// removing it.
pub fn secret_survives(value: &Json, secrets: &Vec<String>) -> (result: bool)
    ensures
        result == tree_discloses(value@, texts(secrets@)),
    decreases value,
{
    match value {
        Json::Text(text) => text_discloses(text.as_str(), secrets),
        Json::Array(items) => {
            let mut i: usize = 0;
            while i < items.len()
                invariant
                    i <= items@.len(),
                    *value == Json::Array(*items),
                    forall|k: int|
                        0 <= k < i ==> !tree_discloses(
                            (#[trigger] items@[k])@,
                            texts(secrets@),
                        ),
                decreases items@.len() - i,
            {
                proof {
                    lemma_item_smaller(*value, i as int);
                }
                if secret_survives(&items[i], secrets) {
                    assert(tree_discloses(value@->Array_0[i as int], texts(secrets@)));
                    return true;
                }
                i += 1;
            }
            false
        },
        Json::Object(members) => {
            let mut i: usize = 0;
            while i < members.len()
                invariant
                    i <= members@.len(),
                    *value == Json::Object(*members),
                    forall|k: int|
                        0 <= k < i ==> !tree_discloses(
                            (#[trigger] members@[k]).value@,
                            texts(secrets@),
                        ),
                decreases members@.len() - i,
            {
                proof {
                    lemma_member_smaller(*value, i as int);
                }
                if secret_survives(&members[i].value, secrets) {
                    assert(tree_discloses(value@->Object_0[i as int].1, texts(secrets@)));
                    return true;
                }
                i += 1;
            }
            false
        },
        _ => false,
    }
}

/// The value with every text scrubbed.
fn scrub(value: &Json, secrets: &Vec<String>) -> (result: Json)
    ensures
        result@ == scrubbed_tree(value@, texts(secrets@)),
    decreases value,
{
    match value {
        Json::Null => Json::Null,
        Json::Bool(flag) => Json::Bool(*flag),
        Json::Number(number) => Json::Number(number.clone()),
        Json::Text(text) => {
            let clean = scrub_text(text.as_str(), secrets);
            match clean {
                Some(clean) => Json::Text(clean),
                None => Json::Text(text.clone()),
            }
        },
        Json::Array(items) => {
            let mut clean: Vec<Json> = Vec::new();
            let mut i: usize = 0;
            while i < items.len()
                invariant
                    i <= items@.len(),
                    *value == Json::Array(*items),
                    clean@.len() == i,
                    forall|k: int|
                        0 <= k < i ==> (#[trigger] clean@[k])@ == scrubbed_tree(
                            items@[k]@,
                            texts(secrets@),
                        ),
                decreases items@.len() - i,
            {
                proof {
                    lemma_item_smaller(*value, i as int);
                }
                let item = scrub(&items[i], secrets);
                clean.push(item);
                i += 1;
            }
            assert(trees(clean@) =~= scrubbed_tree(value@, texts(secrets@))->Array_0);
            Json::Array(clean)
        },
        Json::Object(members) => {
            let mut clean: Vec<Member> = Vec::new();
            let mut i: usize = 0;
            while i < members.len()
                invariant
                    i <= members@.len(),
                    *value == Json::Object(*members),
                    clean@.len() == i,
                    forall|k: int|
                        0 <= k < i ==> (#[trigger] clean@[k]).name@ == members@[k].name@
                            && clean@[k].value@ == scrubbed_tree(
                            members@[k].value@,
                            texts(secrets@),
                        ),
                decreases members@.len() - i,
            {
                proof {
                    lemma_member_smaller(*value, i as int);
                }
                let item = scrub(&members[i].value, secrets);
                clean.push(Member { name: members[i].name.clone(), value: item });
                i += 1;
            }
            assert(fields(clean@) =~= scrubbed_tree(value@, texts(secrets@))->Object_0);
            Json::Object(clean)
        },
    }
}

/// Replaces every occurrence of every secret in the texts of a value.
pub fn scrub_value(value: &mut Json, secrets: &Vec<String>)
    ensures
        final(value)@ == scrubbed_tree(old(value)@, texts(secrets@)),
{
    let clean = scrub(value, secrets);
    *value = clean;
}

/// The answer in place of a result that could not be scrubbed.
pub open spec fn withheld_message() -> Seq<char> {
    "result withheld: credential material could not be redacted"@
}

/// Removes every secret from a result and refuses to return it if any
/// survived. Both the configured controller credentials and the secrets one
/// call happens to handle go through here.
pub fn scrub_and_verify(value: &mut Json, secrets: &Vec<String>) -> (result: Result<(), ToolError>)
    ensures
        final(value)@ == scrubbed_tree(old(value)@, texts(secrets@)),
        result is Err <==> tree_discloses(final(value)@, texts(secrets@)),
        result matches Err(error) ==> is_internal(error, withheld_message()),
{
    scrub_value(value, secrets);
    if secret_survives(value, secrets) {
        return Err(internal_error("result withheld: credential material could not be redacted"));
    }
    Ok(())
}

// ---------------------------------------------------------------------------
// Finishing a result
// ---------------------------------------------------------------------------

/// A successful result: what it returns and the labels beside it.
pub struct ToolResult {
    pub structured_content: Option<Json>,
    pub meta: Vec<Member>,
}

/// The tree of the content of a result.
pub open spec fn content_of(result: ToolResult) -> Option<Tree> {
    match result.structured_content {
        Some(value) => Some(value@),
        None => None,
    }
}

/// The trust labels of a behavior.
pub open spec fn trust_labels(behavior: ToolBehavior) -> Tree {
    Tree::Object(
        seq![
            ("sensitive"@, Tree::Bool(behavior.result_sensitive)),
            ("untrusted"@, Tree::Bool(behavior.result_untrusted)),
        ],
    )
}

/// Puts the declared trust labels beside a result.
pub fn trust_annotated(result: ToolResult, behavior: ToolBehavior) -> (labeled: ToolResult)
    ensures
        labeled.structured_content == result.structured_content,
        fields(labeled.meta@) == with_field(
            fields(result.meta@),
            TRUST_ANNOTATIONS_KEY@,
            trust_labels(behavior),
        ),
{
    let labels: Vec<Member> = vec![
        Member { name: "sensitive".to_owned(), value: Json::Bool(behavior.result_sensitive) },
        Member { name: "untrusted".to_owned(), value: Json::Bool(behavior.result_untrusted) },
    ];
    assert(fields(labels@) =~= trust_labels(behavior)->Object_0);
    let mut meta = result.meta;
    set_field(&mut meta, TRUST_ANNOTATIONS_KEY, Json::Object(labels));
    ToolResult { structured_content: result.structured_content, meta }
}

/// The answer in place of a result over the response budget.
pub open spec fn over_budget_message() -> Seq<char> {
    "result exceeds the response budget; narrow the query or lower the limit"@
}

/// Whether a finished value would be over the response budget.
pub open spec fn over_budget(value: Tree, behavior: ToolBehavior) -> bool {
    !behavior.result_irreplaceable && byte_len(rendered(value)) > MAXIMUM_RESULT_BYTES
}

/// Refuses a value over the response budget, and labels one within it. A
/// result the caller can ask for again may be refused for being too large;
/// one that cannot be produced again is returned whatever its size.
pub fn within_budget(value: Json, size: usize, behavior: ToolBehavior) -> (result: Result<
    ToolResult,
    ToolError,
>)
    ensures
        result is Err <==> !behavior.result_irreplaceable && size > MAXIMUM_RESULT_BYTES,
        result matches Err(error) ==> is_invalid_params(error, over_budget_message()),
        result matches Ok(done) ==> {
            &&& content_of(done) == Some(value@)
            &&& fields(done.meta@) == seq![(TRUST_ANNOTATIONS_KEY@, trust_labels(behavior))]
        },
{
    if !behavior.result_irreplaceable && size > MAXIMUM_RESULT_BYTES {
        return Err(
            invalid_params(
                "result exceeds the response budget; narrow the query or lower the limit",
            ),
        );
    }
    let bare = ToolResult { structured_content: Some(value), meta: Vec::new() };
    let done = trust_annotated(bare, behavior);
    assert(fields(done.meta@) =~= seq![(TRUST_ANNOTATIONS_KEY@, trust_labels(behavior))]);
    Ok(done)
}

/// Finalizes one successful result in a fixed order: scrub configured secret
/// values, verify none remain, enforce the response budget on exactly what
/// would be returned, then apply trust labels.
pub fn finalize(result: ToolResult, secrets: &Vec<String>, behavior: ToolBehavior) -> (finished:
    Result<ToolResult, ToolError>)
    ensures
        content_of(result) is None ==> {
            &&& finished is Ok
            &&& content_of(finished->Ok_0) is None
            &&& fields(finished->Ok_0.meta@) == with_field(
                fields(result.meta@),
                TRUST_ANNOTATIONS_KEY@,
                trust_labels(behavior),
            )
        },
        content_of(result) matches Some(value) ==> {
            let clean = scrubbed_tree(value, texts(secrets@));
            match finished {
                Ok(done) => {
                    &&& !tree_discloses(clean, texts(secrets@))
                    &&& !over_budget(clean, behavior)
                    &&& content_of(done) == Some(clean)
                    &&& fields(done.meta@) == seq![(TRUST_ANNOTATIONS_KEY@, trust_labels(behavior))]
                },
                Err(error) => if tree_discloses(clean, texts(secrets@)) {
                    is_internal(error, withheld_message())
                } else {
                    over_budget(clean, behavior) && is_invalid_params(error, over_budget_message())
                },
            }
        },
{
    match result.structured_content {
        None => Ok(trust_annotated(result, behavior)),
        Some(value) => {
            let mut value = value;
            let verified = scrub_and_verify(&mut value, secrets);
            if let Err(error) = verified {
                return Err(error);
            }
            let text = render(&value);
            let size = count_bytes(text.as_str());
            within_budget(value, size, behavior)
        },
    }
}

// ---------------------------------------------------------------------------
// Laws
// ---------------------------------------------------------------------------

/// Whether every secret is one that configuration accepts: none is part of
/// the marker.
pub open spec fn acceptable(secrets: Seq<Seq<char>>) -> bool {
    forall|k: int| 0 <= k < secrets.len() ==> !survives(#[trigger] secrets[k])
}

/// A scrubbed text discloses no secret, where no secret is part of the
/// marker.
pub proof fn law_scrubbed_text_discloses_nothing(text: Seq<char>, secrets: Seq<Seq<char>>)
    requires
        acceptable(secrets),
    ensures
        !discloses(scrubbed(text, secrets), secrets),
{
    if discloses(REDACTION_MARKER@, secrets) {
        let k = choose|k: int|
            0 <= k < secrets.len() && (#[trigger] secrets[k]).len() > 0 && contains(
                REDACTION_MARKER@,
                secrets[k],
            );
        assert(survives(secrets[k]));
    }
}

/// A scrubbed value discloses no secret in any of its texts, where no secret
/// is part of the marker. So a result is never withheld there.
pub proof fn law_scrubbed_value_discloses_nothing(value: Tree, secrets: Seq<Seq<char>>)
    requires
        acceptable(secrets),
    ensures
        !tree_discloses(scrubbed_tree(value, secrets), secrets),
    decreases value,
{
    let clean = scrubbed_tree(value, secrets);
    match value {
        Tree::Text(text) => {
            law_scrubbed_text_discloses_nothing(text, secrets);
        },
        Tree::Array(items) => {
            assert forall|i: int| 0 <= i < items.len() implies !tree_discloses(
                clean->Array_0[i],
                secrets,
            ) by {
                assert(decreases_to!(value => value->Array_0));
                assert(decreases_to!(value->Array_0 => value->Array_0[i]));
                law_scrubbed_value_discloses_nothing(items[i], secrets);
                assert(clean->Array_0[i] == scrubbed_tree(items[i], secrets));
            }
        },
        Tree::Object(members) => {
            assert forall|i: int| 0 <= i < members.len() implies !tree_discloses(
                (#[trigger] clean->Object_0[i]).1,
                secrets,
            ) by {
                assert(decreases_to!(value => value->Object_0));
                assert(decreases_to!(value->Object_0 => value->Object_0[i]));
                assert(decreases_to!(value->Object_0[i] => value->Object_0[i].1));
                law_scrubbed_value_discloses_nothing(members[i].1, secrets);
                assert(clean->Object_0[i].1 == scrubbed_tree(members[i].1, secrets));
            }
        },
        _ => {},
    }
}

/// A text without secrets is left alone by the substitution itself, so
/// scrubbing changes a text only where a secret stands in it.
pub proof fn law_substitution_keeps_what_is_not_secret(
    text: Seq<char>,
    secrets: Seq<Seq<char>>,
    p: int,
)
    requires
        0 <= p <= text.len(),
        !discloses(text, secrets),
    ensures
        substituted(text, secrets, p) == text.skip(p),
    decreases text.len() - p,
{
    if p < text.len() {
        law_substitution_keeps_what_is_not_secret(text, secrets, p + 1);
        if covered(text, secrets, p) {
            let (k, at) = choose|k: int, at: int|
                0 <= k < secrets.len() && (#[trigger] secrets[k]).len() > 0 && #[trigger] occurs_at(
                    text,
                    secrets[k],
                    at,
                ) && at < p + 1 && p < at + secrets[k].len();
            assert(contains(text, secrets[k]));
        }
        assert(seq![text[p]] + text.skip(p + 1) =~= text.skip(p));
    } else {
        assert(text.skip(p) =~= Seq::<char>::empty());
    }
}

/// Scrubbing a second time changes nothing, where no secret is part of the
/// marker.
pub proof fn law_scrubbing_is_idempotent(text: Seq<char>, secrets: Seq<Seq<char>>)
    requires
        acceptable(secrets),
    ensures
        scrubbed(scrubbed(text, secrets), secrets) == scrubbed(text, secrets),
{
    law_scrubbed_text_discloses_nothing(text, secrets);
}

/// Scrubbing keeps the shape of a value: the same items, the same property
/// names in the same order, the same numbers and flags.
pub proof fn law_scrubbing_keeps_the_shape(value: Tree, secrets: Seq<Seq<char>>)
    ensures
        match (value, scrubbed_tree(value, secrets)) {
            (Tree::Text(_), Tree::Text(_)) => true,
            (Tree::Array(items), Tree::Array(clean)) => clean.len() == items.len(),
            (Tree::Object(members), Tree::Object(clean)) => clean.len() == members.len()
                && forall|i: int|
                0 <= i < members.len() ==> (#[trigger] clean[i]).0 == members[i].0,
            (kept, clean) => kept == clean && !(kept is Text) && !(kept is Array) && !(
            kept is Object),
        },
{
}

} // verus!
