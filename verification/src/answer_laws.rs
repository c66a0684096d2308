//! What holds of what leaves the server: redaction, the response budget, the
//! labels of results, the catalog, and the JSON forms of views and reports.

use vstd::prelude::*;
use vstd::string::*;

use crate::catalog::{action_metadata, server_instructions};
use crate::encode::present;
use crate::error::{api_error, protect_events_api_error, ApiError, ErrorKind, ToolError};
use crate::firewall::{PolicyView, PortForwardView};
use crate::json::{escaped, lookup, property, quoted, render, rendered, rendered_items};
use crate::mutation::{FieldOutcome, FieldStatus, PlannedChange};
use crate::networks::{encode_wlan_view, WlanView};
use crate::policies::{encode_policies_update, encode_policy_view, FirewallPoliciesUpdateOutput};
use crate::port_forwards::{
    encode_forward_view, encode_port_forwards_update, PortForwardsUpdateOutput,
};
use crate::redaction::{
    covered, discloses, finalize, scrub_text, scrubbed, scrubbed_tree, secret_survives, spans,
    substituted, text_discloses, tree_discloses, trust_annotated, within_budget, ToolResult,
};
use crate::registry::{
    find_tool, registry, tool_registry, tools_for_surface, ToolBehavior, ToolKind, ToolSpec,
    ToolSurface,
};
use crate::report::{encode_change, encode_outcome};
use crate::text::{byte_len, contains, decimal, occurs_at, opt_string, texts};
use crate::tree::{fields, Json, Member, Tree};

verus! {

broadcast use crate::tree::group_json_view;

// ---------------------------------------------------------------------------
// Redaction
// ---------------------------------------------------------------------------

/// Whether a text holds one of several secrets. An empty secret hides nothing.
pub open spec fn holds_secret(text: Seq<char>, secrets: Seq<String>) -> bool {
    exists|k: int|
        0 <= k < secrets.len() && (#[trigger] secrets[k])@.len() > 0 && contains(
            text,
            secrets[k]@,
        )
}

proof fn lemma_holds_secret(text: Seq<char>, secrets: Seq<String>)
    ensures
        discloses(text, texts(secrets)) == holds_secret(text, secrets),
{
    let list = texts(secrets);
    if discloses(text, list) {
        let k = choose|k: int|
            0 <= k < list.len() && (#[trigger] list[k]).len() > 0 && contains(text, list[k]);
        assert(secrets[k]@.len() > 0 && contains(text, secrets[k]@));
    }
    if holds_secret(text, secrets) {
        let k = choose|k: int|
            0 <= k < secrets.len() && (#[trigger] secrets[k])@.len() > 0 && contains(
                text,
                secrets[k]@,
            );
        assert(list[k].len() > 0 && contains(text, list[k]));
    }
}

/// A text is scrubbed exactly where it holds a secret.
pub proof fn law_texts_are_scrubbed_where_they_hold_a_secret(
    text: &str,
    secrets: &Vec<String>,
    found: bool,
    clean: Option<String>,
)
    requires
        call_ensures(text_discloses, (text, secrets), found),
        call_ensures(scrub_text, (text, secrets), clean),
    ensures
        found <==> holds_secret(text@, secrets@),
        clean is Some <==> holds_secret(text@, secrets@),
{
    lemma_holds_secret(text@, secrets@);
}

/// A secret that stands once in a text is replaced by the marker, and the text
/// around it stays, where no secret stands in the result.
pub proof fn law_a_secret_becomes_the_marker(
    before: Seq<char>,
    secret: Seq<char>,
    after: Seq<char>,
)
    requires
        secret.len() > 0,
        forall|at: int|
            occurs_at(before + secret + after, secret, at) ==> at == before.len(),
        !contains(before + "[redacted]"@ + after, secret),
    ensures
        scrubbed(before + secret + after, seq![secret]) == before + "[redacted]"@ + after,
{
    let text = before + secret + after;
    let secrets = seq![secret];
    let start = before.len() as int;
    let end = start + secret.len();
    assert(text.subrange(start, end) =~= secret);
    assert(occurs_at(text, secret, start));
    assert(contains(text, secret));
    assert(secrets[0] == secret);
    assert forall|p: int, from: int| #[trigger] spans(text, secrets, from, p) <==> start < from && p
        < end by {
        if spans(text, secrets, from, p) {
            let (k, at) = choose|k: int, at: int|
                0 <= k < secrets.len() && (#[trigger] secrets[k]).len() > 0 && #[trigger] occurs_at(
                    text,
                    secrets[k],
                    at,
                ) && at < from && p < at + secrets[k].len();
            assert(at == start);
        }
        if start < from && p < end {
            assert(occurs_at(text, secrets[0], start));
        }
    }
    lemma_substituted_tail(text, secrets, start, end, end);
    lemma_substituted_middle(text, secrets, start, end, start);
    lemma_substituted_head(text, secrets, start, end, 0);
    assert(text.skip(end) =~= after);
    assert(text.subrange(0, start) =~= before);
    let done = substituted(text, secrets, 0);
    assert(done =~= before + "[redacted]"@ + after);
    if discloses(done, secrets) {
        let k = choose|k: int|
            0 <= k < secrets.len() && (#[trigger] secrets[k]).len() > 0 && contains(
                done,
                secrets[k],
            );
    }
}

proof fn lemma_substituted_tail(
    text: Seq<char>,
    secrets: Seq<Seq<char>>,
    start: int,
    end: int,
    p: int,
)
    requires
        0 <= start < end <= p <= text.len(),
        forall|q: int, from: int| #[trigger] spans(text, secrets, from, q) <==> start < from && q
            < end,
    ensures
        substituted(text, secrets, p) == text.skip(p),
    decreases text.len() - p,
{
    if p < text.len() {
        lemma_substituted_tail(text, secrets, start, end, p + 1);
        assert(!covered(text, secrets, p));
        assert(seq![text[p]] + text.skip(p + 1) =~= text.skip(p));
    } else {
        assert(text.skip(p) =~= Seq::<char>::empty());
    }
}

proof fn lemma_substituted_middle(
    text: Seq<char>,
    secrets: Seq<Seq<char>>,
    start: int,
    end: int,
    p: int,
)
    requires
        0 <= start <= p < end <= text.len(),
        forall|q: int, from: int| #[trigger] spans(text, secrets, from, q) <==> start < from && q
            < end,
        substituted(text, secrets, end) == text.skip(end),
    ensures
        p > start ==> substituted(text, secrets, p) == text.skip(end),
        p == start ==> substituted(text, secrets, p) == "[redacted]"@ + text.skip(end),
    decreases end - p,
{
    assert(covered(text, secrets, p));
    if p + 1 < end {
        lemma_substituted_middle(text, secrets, start, end, p + 1);
    }
    if p > start {
        assert(spans(text, secrets, p, p));
    } else {
        assert(!spans(text, secrets, p, p));
    }
}

proof fn lemma_substituted_head(
    text: Seq<char>,
    secrets: Seq<Seq<char>>,
    start: int,
    end: int,
    p: int,
)
    requires
        0 <= p <= start < end <= text.len(),
        forall|q: int, from: int| #[trigger] spans(text, secrets, from, q) <==> start < from && q
            < end,
    ensures
        substituted(text, secrets, p) == text.subrange(p, start) + substituted(
            text,
            secrets,
            start,
        ),
    decreases start - p,
{
    if p < start {
        lemma_substituted_head(text, secrets, start, end, p + 1);
        assert(!covered(text, secrets, p));
        assert(seq![text[p]] + (text.subrange(p + 1, start) + substituted(text, secrets, start))
            =~= text.subrange(p, start) + substituted(text, secrets, start));
    } else {
        assert(text.subrange(p, start) + substituted(text, secrets, start) =~= substituted(
            text,
            secrets,
            start,
        ));
    }
}

/// A value is scrubbed text by text, however deep: each item and each value of
/// a property as it would be scrubbed alone, and a text that holds no secret
/// stays. Names, numbers and flags stay.
pub proof fn law_values_are_scrubbed_text_by_text(value: Tree, secrets: Seq<Seq<char>>)
    ensures
        ({
            let clean = scrubbed_tree(value, secrets);
            &&& value matches Tree::Text(text) ==> clean is Text && (!discloses(text, secrets)
                ==> clean == value)
            &&& value matches Tree::Array(items) ==> clean is Array && clean->Array_0.len()
                == items.len() && forall|i: int|
                0 <= i < items.len() ==> #[trigger] clean->Array_0[i] == scrubbed_tree(
                    items[i],
                    secrets,
                )
            &&& value matches Tree::Object(members) ==> clean is Object && clean->Object_0.len()
                == members.len() && forall|i: int|
                0 <= i < members.len() ==> #[trigger] clean->Object_0[i] == (
                    members[i].0,
                    scrubbed_tree(members[i].1, secrets),
                )
            &&& value is Null || value is Bool || value is Number ==> clean == value
        }),
{
}

/// A secret survives in a value exactly where it stands in one of its texts.
pub proof fn law_secrets_survive_in_texts(value: &Json, secrets: &Vec<String>, found: bool)
    requires
        call_ensures(secret_survives, (value, secrets), found),
    ensures
        value@ matches Tree::Text(text) ==> (found <==> holds_secret(text, secrets@)),
        value@ matches Tree::Array(items) ==> (found <==> exists|i: int|
            0 <= i < items.len() && tree_discloses(#[trigger] items[i], texts(secrets@))),
        value@ matches Tree::Object(members) ==> (found <==> exists|i: int|
            0 <= i < members.len() && tree_discloses((#[trigger] members[i]).1, texts(secrets@))),
        value@ is Null || value@ is Bool || value@ is Number ==> !found,
{
    if value@ is Text {
        lemma_holds_secret(value@->Text_0, secrets@);
    }
}

// ---------------------------------------------------------------------------
// Results
// ---------------------------------------------------------------------------

/// A result within 48 KiB is handed out as it is, and one beyond is refused
/// unless it is irreplaceable.
pub proof fn law_results_stay_within_the_budget(
    value: Json,
    size: usize,
    behavior: ToolBehavior,
    result: Result<ToolResult, ToolError>,
)
    requires
        call_ensures(within_budget, (value, size, behavior), result),
    ensures
        result is Ok <==> size <= 49_152 || behavior.result_irreplaceable,
        result matches Ok(done) ==> done.structured_content is Some
            && done.structured_content->Some_0@ == value@ && labels(done, behavior),
        result matches Err(error) ==> error.kind == ErrorKind::InvalidParams,
{
    if result is Ok {
        let meta = fields(result->Ok_0.meta@);
        lemma_labels(meta, Seq::empty(), behavior);
    }
}

/// Whether a result says how far to trust it: whether it is sensitive, and
/// that it is untrusted, as the behavior of its tool states.
pub open spec fn labels(result: ToolResult, behavior: ToolBehavior) -> bool {
    let meta = fields(result.meta@);
    lookup(meta, "io.modelcontextprotocol/trust-annotations"@) matches Some(label) && {
        &&& property(label, "sensitive"@) == Some(Tree::Bool(behavior.result_sensitive))
        &&& property(label, "untrusted"@) == Some(Tree::Bool(behavior.result_untrusted))
    }
}

proof fn lemma_trust_labels(behavior: ToolBehavior)
    ensures
        property(crate::redaction::trust_labels(behavior), "sensitive"@) == Some(
            Tree::Bool(behavior.result_sensitive),
        ),
        property(crate::redaction::trust_labels(behavior), "untrusted"@) == Some(
            Tree::Bool(behavior.result_untrusted),
        ),
{
    reveal_strlit("sensitive");
    reveal_strlit("untrusted");
    assert("sensitive"@[0] == 's' && "untrusted"@[0] == 'u');
    reveal_with_fuel(lookup, 3);
}

proof fn lemma_labels(
    meta: Seq<(Seq<char>, Tree)>,
    before: Seq<(Seq<char>, Tree)>,
    behavior: ToolBehavior,
)
    requires
        meta == crate::json::with_field(
            before,
            "io.modelcontextprotocol/trust-annotations"@,
            crate::redaction::trust_labels(behavior),
        ) || meta == seq![
            (
                "io.modelcontextprotocol/trust-annotations"@,
                crate::redaction::trust_labels(behavior),
            ),
        ],
    ensures
        lookup(meta, "io.modelcontextprotocol/trust-annotations"@) matches Some(label) && {
            &&& property(label, "sensitive"@) == Some(Tree::Bool(behavior.result_sensitive))
            &&& property(label, "untrusted"@) == Some(Tree::Bool(behavior.result_untrusted))
        },
{
    lemma_trust_labels(behavior);
    crate::json::lemma_set_lookup(
        before,
        "io.modelcontextprotocol/trust-annotations"@,
        crate::redaction::trust_labels(behavior),
        "io.modelcontextprotocol/trust-annotations"@,
    );
}

/// Labeling a result keeps its content and every other label it has.
pub proof fn law_labels_are_added_to_results(
    result: ToolResult,
    behavior: ToolBehavior,
    labeled: ToolResult,
    other: Seq<char>,
)
    requires
        call_ensures(trust_annotated, (result, behavior), labeled),
    ensures
        labeled.structured_content == result.structured_content,
        labels(labeled, behavior),
        other != "io.modelcontextprotocol/trust-annotations"@ ==> lookup(
            fields(labeled.meta@),
            other,
        ) == lookup(fields(result.meta@), other),
{
    lemma_labels(fields(labeled.meta@), fields(result.meta@), behavior);
    crate::json::lemma_set_lookup(
        fields(result.meta@),
        "io.modelcontextprotocol/trust-annotations"@,
        crate::redaction::trust_labels(behavior),
        other,
    );
}

/// A result that is handed out is labeled, holds no secret, is the content
/// scrubbed and nothing else, and is within the budget unless irreplaceable.
pub proof fn law_results_are_scrubbed_labeled_and_bounded(
    result: ToolResult,
    secrets: &Vec<String>,
    behavior: ToolBehavior,
    finished: Result<ToolResult, ToolError>,
)
    requires
        call_ensures(finalize, (result, secrets, behavior), finished),
    ensures
        finished matches Ok(done) ==> {
            &&& labels(done, behavior)
            &&& done.structured_content is Some <==> result.structured_content is Some
            &&& done.structured_content matches Some(value) ==> {
                &&& !tree_discloses(value@, texts(secrets@))
                &&& value@ == scrubbed_tree(result.structured_content->Some_0@, texts(secrets@))
                &&& byte_len(rendered(value@)) <= 49_152 || behavior.result_irreplaceable
            }
        },
        result.structured_content is None ==> finished is Ok,
        result.structured_content matches Some(value) ==> {
            let clean = scrubbed_tree(value@, texts(secrets@));
            finished is Ok <==> !tree_discloses(clean, texts(secrets@)) && (byte_len(
                rendered(clean),
            ) <= 49_152 || behavior.result_irreplaceable)
        },
{
    if finished is Ok {
        lemma_labels(fields(finished->Ok_0.meta@), fields(result.meta@), behavior);
    }
}

// ---------------------------------------------------------------------------
// JSON texts
// ---------------------------------------------------------------------------

/// A value is written as JSON: words for null and the flags, a number as it
/// is, a text quoted, and an array and an object in their brackets.
pub proof fn law_values_are_written_as_json(value: &Json, text: String)
    requires
        call_ensures(render, (value,), text),
    ensures
        value@ is Null ==> text@ == "null"@,
        value@ == Tree::Bool(true) ==> text@ == "true"@,
        value@ == Tree::Bool(false) ==> text@ == "false"@,
        value@ matches Tree::Number(number) ==> text@ == number,
        value@ matches Tree::Text(inner) ==> text@ == quoted(inner),
        value@ matches Tree::Array(items) ==> text@.len() >= 2 && text@.first() == '['
            && text@.last() == ']',
        value@ matches Tree::Object(members) ==> text@.len() >= 2 && text@.first() == '{'
            && text@.last() == '}',
{
    reveal_strlit("[");
    reveal_strlit("]");
    reveal_strlit("{");
    reveal_strlit("}");
    if value@ is Array {
        let inner = rendered_items(value@->Array_0);
        assert(text@ == "["@ + inner + "]"@);
        assert(text@[0] == '[');
        assert(text@[text@.len() - 1] == ']');
    }
    if value@ is Object {
        let inner = crate::json::rendered_members(value@->Object_0);
        assert(text@ == "{"@ + inner + "}"@);
        assert(text@[0] == '{');
        assert(text@[text@.len() - 1] == '}');
    }
}

/// Items and properties are written in order with a comma between them, a
/// property as its quoted name, a colon and its value.
pub proof fn law_items_are_written_in_order(
    items: Seq<Tree>,
    item: Tree,
    members: Seq<(Seq<char>, Tree)>,
    member: (Seq<char>, Tree),
)
    ensures
        rendered_items(Seq::empty()) == Seq::<char>::empty(),
        items.len() == 0 ==> rendered_items(items.push(item)) == rendered(item),
        items.len() > 0 ==> rendered_items(items.push(item)) == rendered_items(items) + ","@
            + rendered(item),
        crate::json::rendered_members(Seq::empty()) == Seq::<char>::empty(),
        members.len() == 0 ==> crate::json::rendered_members(members.push(member)) == quoted(
            member.0,
        ) + ":"@ + rendered(member.1),
        members.len() > 0 ==> crate::json::rendered_members(members.push(member))
            == crate::json::rendered_members(members) + ","@ + (quoted(member.0) + ":"@ + rendered(
            member.1,
        )),
{
    assert(items.push(item).drop_last() =~= items);
    assert(members.push(member).drop_last() =~= members);
}

/// No two characters are escaped alike, and no character is written as a bare
/// quote, backslash or control character.
pub proof fn law_escapes_tell_characters_apart(a: char, b: char)
    ensures
        escaped(a) == escaped(b) ==> a == b,
        escaped(a).len() == 1 ==> escaped(a)[0] == a && a != '"' && a != '\\' && a as u32 >= 32,
        escaped(a).len() > 1 ==> escaped(a)[0] == '\\',
{
    reveal_strlit("0123456789abcdef");
    let digits = "0123456789abcdef"@;
    assert forall|m: int, n: int|
        0 <= m < 16 && 0 <= n < 16 && #[trigger] digits[m] == #[trigger] digits[n] implies m == n by {
    }
    if escaped(a) == escaped(b) {
        assert(escaped(a).len() == escaped(b).len());
        if escaped(a).len() == 1 {
            assert(escaped(a)[0] == escaped(b)[0]);
        } else if escaped(a).len() == 2 {
            assert(escaped(a)[1] == escaped(b)[1]);
        } else {
            assert(escaped(a)[4] == escaped(b)[4]);
            assert(escaped(a)[5] == escaped(b)[5]);
        }
    }
}

// ---------------------------------------------------------------------------
// Failures
// ---------------------------------------------------------------------------

/// A failure of the controller is answered in the server's own words.
pub proof fn law_failures_are_answered_in_own_words(error: ApiError, answer: ToolError)
    requires
        call_ensures(api_error, (error,), answer),
    ensures
        answer.kind == ErrorKind::Internal,
        answer.message@ == match error {
            ApiError::Config(_) => "invalid controller configuration"@,
            ApiError::Status { status } => "controller returned HTTP "@ + decimal(status as nat),
            ApiError::RateLimited => "controller rate limited the request"@,
            ApiError::Rejected => "controller rejected the request"@,
            ApiError::Transport(_) => "controller transport failure"@,
            ApiError::ResponseTooLarge => "unexpected controller response"@,
            ApiError::InvalidJson => "unexpected controller response"@,
            ApiError::SchemaMismatch => "unexpected controller response"@,
            ApiError::Decode(_) => "unexpected controller response"@,
        },
{
}

// ---------------------------------------------------------------------------
// Catalog
// ---------------------------------------------------------------------------

/// The tools that change something on a controller.
pub open spec fn write_kinds() -> Seq<ToolKind> {
    seq![
        ToolKind::WlansUpdate,
        ToolKind::ClientsControl,
        ToolKind::DevicesControl,
        ToolKind::GuestsAuthorize,
        ToolKind::PortForwardsUpdate,
        ToolKind::FirewallPoliciesUpdate,
        ToolKind::VouchersCreate,
    ]
}

/// The tools of the Protect surface.
pub open spec fn protect_kinds() -> Seq<ToolKind> {
    seq![
        ToolKind::CamerasSearch,
        ToolKind::CamerasStatus,
        ToolKind::ProtectOverview,
        ToolKind::ProtectEvents,
    ]
}

/// A tool requires write access exactly where it is one of the writes, and is
/// served by Protect exactly where it is one of its tools.
pub proof fn law_kinds_are_classified(kind: ToolKind, write: bool, surface: ToolSurface)
    requires
        call_ensures(ToolKind::requires_write_access, (kind,), write),
        call_ensures(ToolKind::surface, (kind,), surface),
    ensures
        write <==> write_kinds().contains(kind),
        surface == ToolSurface::Protect <==> protect_kinds().contains(kind),
{
    let writes = write_kinds();
    let protect = protect_kinds();
    assert(writes[0] == ToolKind::WlansUpdate && writes[1] == ToolKind::ClientsControl);
    assert(writes[2] == ToolKind::DevicesControl && writes[3] == ToolKind::GuestsAuthorize);
    assert(writes[4] == ToolKind::PortForwardsUpdate);
    assert(writes[5] == ToolKind::FirewallPoliciesUpdate && writes[6] == ToolKind::VouchersCreate);
    assert(protect[0] == ToolKind::CamerasSearch && protect[1] == ToolKind::CamerasStatus);
    assert(protect[2] == ToolKind::ProtectOverview && protect[3] == ToolKind::ProtectEvents);
}

/// Each tool of the catalog has its own name.
pub proof fn law_tools_have_their_names(list: Vec<ToolSpec>, i: int)
    requires
        call_ensures(tool_registry, (), list),
        0 <= i < list@.len(),
    ensures
        list@.len() == 21,
        list@[i].name@ == match list@[i].kind {
            ToolKind::NetworkOverview => "network.overview"@,
            ToolKind::ClientsSearch => "clients.search"@,
            ToolKind::ClientsContext => "clients.context"@,
            ToolKind::DevicesSearch => "devices.search"@,
            ToolKind::DevicesStatus => "devices.status"@,
            ToolKind::FirewallRead => "firewall.read"@,
            ToolKind::NetworksRead => "networks.read"@,
            ToolKind::CamerasSearch => "cameras.search"@,
            ToolKind::CamerasStatus => "cameras.status"@,
            ToolKind::ProtectOverview => "protect.overview"@,
            ToolKind::ProtectEvents => "protect.events"@,
            ToolKind::WifiDiagnose => "wifi.diagnose"@,
            ToolKind::EventsSearch => "events.search"@,
            ToolKind::StatsQuery => "stats.query"@,
            ToolKind::WlansUpdate => "wlans.update"@,
            ToolKind::ClientsControl => "clients.control"@,
            ToolKind::DevicesControl => "devices.control"@,
            ToolKind::GuestsAuthorize => "guests.authorize"@,
            ToolKind::PortForwardsUpdate => "port_forwards.update"@,
            ToolKind::FirewallPoliciesUpdate => "firewall.policies.update"@,
            ToolKind::VouchersCreate => "vouchers.create"@,
        },
{
    assert(registry()[i].kind == list@[i].kind);
}

/// A result is marked sensitive where it holds configuration, identities of
/// the Protect console or credentials; a retry is safe where the tool reads or
/// sets a state, and not where it acts or mints.
pub proof fn law_tools_state_sensitivity_and_retries(list: Vec<ToolSpec>, i: int)
    requires
        call_ensures(tool_registry, (), list),
        0 <= i < list@.len(),
    ensures
        list@[i].behavior.result_sensitive <==> {
            ||| list@[i].kind == ToolKind::FirewallRead
            ||| list@[i].kind == ToolKind::NetworksRead
            ||| list@[i].kind == ToolKind::CamerasSearch
            ||| list@[i].kind == ToolKind::CamerasStatus
            ||| list@[i].kind == ToolKind::ProtectOverview
            ||| list@[i].kind == ToolKind::ProtectEvents
            ||| list@[i].kind == ToolKind::WlansUpdate
            ||| list@[i].kind == ToolKind::PortForwardsUpdate
            ||| list@[i].kind == ToolKind::FirewallPoliciesUpdate
            ||| list@[i].kind == ToolKind::VouchersCreate
        },
        !list@[i].behavior.idempotent <==> {
            ||| list@[i].kind == ToolKind::ClientsControl
            ||| list@[i].kind == ToolKind::DevicesControl
            ||| list@[i].kind == ToolKind::VouchersCreate
        },
{
    assert(registry()[i].kind == list@[i].kind);
}

/// A surface lists the tools it serves, in catalog order, and finds each of
/// them by its name and no other.
pub proof fn law_surfaces_serve_their_tools(
    surface: ToolSurface,
    list: Vec<ToolSpec>,
    name: &str,
    result: Result<ToolSpec, ToolError>,
    spec: ToolSpec,
    served: ToolSurface,
)
    requires
        call_ensures(tools_for_surface, (surface,), list),
        call_ensures(find_tool, (surface, name), result),
        call_ensures(ToolKind::surface, (spec.kind,), served),
    ensures
        list@.contains(spec) <==> registry().contains(spec) && served == surface,
        result matches Ok(found) ==> list@.contains(found) && found.name@ == name@,
        result is Err ==> forall|i: int|
            0 <= i < list@.len() ==> (#[trigger] list@[i]).name@ != name@,
        result matches Err(error) ==> error.kind == ErrorKind::InvalidParams,
{
    let test = |one: ToolSpec| one.kind.served_by() == surface;
    crate::rows::lemma_filter_contains(registry(), test, spec);
    if let Ok(found) = result {
        crate::rows::lemma_filter_contains(registry(), test, found);
    }
    if result is Err {
        assert forall|i: int| 0 <= i < list@.len() implies (#[trigger] list@[i]).name@
            != name@ by {
            assert(list@.contains(list@[i]));
            crate::rows::lemma_filter_contains(registry(), test, list@[i]);
            let k = choose|k: int| 0 <= k < registry().len() && registry()[k] == list@[i];
            assert(registry()[k].name@ != name@);
        }
    }
}

/// The metadata of a tool states its outcome, whether it is to be reviewed,
/// and how sensitive what it takes and returns is.
pub proof fn law_metadata_states_the_behavior(behavior: ToolBehavior, meta: Vec<Member>)
    requires
        call_ensures(action_metadata, (behavior,), meta),
    ensures
        meta@.len() == 1,
        ({
            let all = fields(meta@)[0].1;
            let taken = property(all, "inputMetadata"@);
            let given = property(all, "returnMetadata"@);
            &&& fields(meta@)[0].0 == "io.modelcontextprotocol/action-metadata"@
            &&& property(all, "outcome"@) == Some(Tree::Text(behavior.outcome@))
            &&& property(all, "requiresReview"@) == Some(Tree::Bool(behavior.requires_review))
            &&& taken is Some && given is Some
            &&& property(taken->Some_0, "destination"@) == Some(Tree::Text("internal"@))
            &&& property(given->Some_0, "source"@) == Some(Tree::Text("first-party"@))
            &&& property(taken->Some_0, "sensitivity"@) == Some(
                Tree::Text(
                    if behavior.input_sensitive {
                        "sensitive"@
                    } else {
                        "operational"@
                    },
                ),
            )
            &&& property(given->Some_0, "sensitivity"@) == Some(
                Tree::Text(
                    if behavior.result_sensitive {
                        "sensitive"@
                    } else {
                        "operational"@
                    },
                ),
            )
        }),
{
    reveal_strlit("inputMetadata");
    reveal_strlit("outcome");
    reveal_strlit("requiresReview");
    reveal_strlit("returnMetadata");
    reveal_strlit("destination");
    reveal_strlit("sensitivity");
    reveal_strlit("source");
    assert("inputMetadata"@.len() == 13 && "outcome"@.len() == 7 && "requiresReview"@.len() == 14);
    assert("returnMetadata"@.len() == 14);
    assert("requiresReview"@[2] == 'q' && "returnMetadata"@[2] == 't');
    assert("destination"@[0] == 'd' && "sensitivity"@[0] == 's');
    assert("sensitivity"@.len() == 11 && "source"@.len() == 6);
    assert(fields(meta@).len() == meta@.len());
    reveal_with_fuel(lookup, 5);
}

/// Each surface introduces itself by its own console.
pub proof fn law_surfaces_introduce_themselves(surface: ToolSurface, text: &'static str)
    requires
        call_ensures(server_instructions, (surface,), text),
    ensures
        surface == ToolSurface::Network ==> text@
            == "Curated operational interface for a UniFi Network controller; tools/list is the authoritative catalog."@,
        surface == ToolSurface::Protect ==> text@
            == "Curated read-only interface for a UniFi Protect console; tools/list is the authoritative catalog."@,
{
}

// ---------------------------------------------------------------------------
// JSON forms
// ---------------------------------------------------------------------------

proof fn lemma_contains_joined(
    a: Seq<(Seq<char>, Tree)>,
    b: Seq<(Seq<char>, Tree)>,
    member: (Seq<char>, Tree),
)
    ensures
        (a + b).contains(member) <==> a.contains(member) || b.contains(member),
{
    let all = a + b;
    if a.contains(member) {
        let k = choose|k: int| 0 <= k < a.len() && a[k] == member;
        assert(all[k] == member);
    }
    if b.contains(member) {
        let k = choose|k: int| 0 <= k < b.len() && b[k] == member;
        assert(all[a.len() + k] == member);
    }
    if all.contains(member) {
        let k = choose|k: int| 0 <= k < all.len() && all[k] == member;
        if k < a.len() {
            assert(a[k] == member);
        } else {
            assert(b[k - a.len()] == member);
        }
    }
}

/// A text as a JSON value, null where it is absent.
pub open spec fn text_value(text: Option<String>) -> Tree {
    if text is Some {
        Tree::Text(text->Some_0@)
    } else {
        Tree::Null
    }
}

/// A flag as a JSON value, null where it is absent.
pub open spec fn flag_value(flag: Option<bool>) -> Tree {
    if flag is Some {
        Tree::Bool(flag->Some_0)
    } else {
        Tree::Null
    }
}

/// The JSON form of a wireless network has its own fields under their names,
/// and a passphrase only where the view has one.
pub proof fn law_wlan_views_are_written_field_by_field(view: &WlanView, value: Json)
    requires
        call_ensures(encode_wlan_view, (view,), value),
    ensures
        value@ is Object,
        value@->Object_0.contains(("enabled"@, flag_value(view.enabled))),
        value@->Object_0.contains(("hidden"@, flag_value(view.hidden))),
        value@->Object_0.contains(("id"@, Tree::Text(view.id@))),
        value@->Object_0.contains(("network"@, text_value(view.network))),
        value@->Object_0.contains(("security"@, text_value(view.security))),
        value@->Object_0.contains(("ssid"@, text_value(view.ssid))),
        view.passphrase is Some ==> value@->Object_0.contains(
            ("passphrase"@, Tree::Text(view.passphrase->Some_0@)),
        ),
        value@->Object_0.len() == if view.passphrase is Some {
            7nat
        } else {
            6nat
        },
{
    let all = value@->Object_0;
    assert(all[0] == ("enabled"@, flag_value(view.enabled)));
    assert(all[1] == ("hidden"@, flag_value(view.hidden)));
    assert(all[2] == ("id"@, Tree::Text(view.id@)));
    assert(all[3] == ("network"@, text_value(view.network)));
    if view.passphrase is Some {
        assert(all[4] == ("passphrase"@, Tree::Text(view.passphrase->Some_0@)));
        assert(all[5] == ("security"@, text_value(view.security)));
        assert(all[6] == ("ssid"@, text_value(view.ssid)));
    } else {
        assert(all[4] == ("security"@, text_value(view.security)));
        assert(all[5] == ("ssid"@, text_value(view.ssid)));
    }
}

/// The JSON form of a port forward has its own fields under their names.
pub proof fn law_forward_views_are_written_field_by_field(view: &PortForwardView, value: Json)
    requires
        call_ensures(encode_forward_view, (view,), value),
    ensures
        value@ is Object,
        value@->Object_0.len() == 8,
        value@->Object_0.contains(("destinationPort"@, text_value(view.destination_port))),
        value@->Object_0.contains(("enabled"@, flag_value(view.enabled))),
        value@->Object_0.contains(("forwardPort"@, text_value(view.forward_port))),
        value@->Object_0.contains(("forwardTo"@, text_value(view.forward_to))),
        value@->Object_0.contains(("id"@, Tree::Text(view.id@))),
        value@->Object_0.contains(("name"@, text_value(view.name))),
        value@->Object_0.contains(("protocol"@, text_value(view.protocol))),
        value@->Object_0.contains(("source"@, text_value(view.source))),
{
    let all = value@->Object_0;
    assert(all[0] == ("destinationPort"@, text_value(view.destination_port)));
    assert(all[1] == ("enabled"@, flag_value(view.enabled)));
    assert(all[2] == ("forwardPort"@, text_value(view.forward_port)));
    assert(all[3] == ("forwardTo"@, text_value(view.forward_to)));
    assert(all[4] == ("id"@, Tree::Text(view.id@)));
    assert(all[5] == ("name"@, text_value(view.name)));
    assert(all[6] == ("protocol"@, text_value(view.protocol)));
    assert(all[7] == ("source"@, text_value(view.source)));
}

/// The JSON form of a policy has its own fields under their names; an index, a
/// scope, a zone and a port only where the view has one.
pub proof fn law_policy_views_are_written_field_by_field(view: &PolicyView, value: Json)
    requires
        call_ensures(encode_policy_view, (view,), value),
    ensures
        value@ is Object,
        value@->Object_0.contains(("action"@, text_value(view.action))),
        value@->Object_0.contains(("enabled"@, flag_value(view.enabled))),
        value@->Object_0.contains(("id"@, Tree::Text(view.id@))),
        value@->Object_0.contains(("name"@, text_value(view.name))),
        view.destination_port is Some ==> value@->Object_0.contains(
            ("destinationPort"@, Tree::Text(view.destination_port->Some_0@)),
        ),
        view.destination_zone_id is Some ==> value@->Object_0.contains(
            ("destinationZoneId"@, Tree::Text(view.destination_zone_id->Some_0@)),
        ),
        view.index is Some ==> value@->Object_0.contains(
            ("index"@, Tree::Number(decimal(view.index->Some_0 as nat))),
        ),
        view.ip_protocol_scope is Some ==> value@->Object_0.contains(
            ("ipProtocolScope"@, Tree::Text(view.ip_protocol_scope->Some_0@)),
        ),
        view.source_port is Some ==> value@->Object_0.contains(
            ("sourcePort"@, Tree::Text(view.source_port->Some_0@)),
        ),
        view.source_zone_id is Some ==> value@->Object_0.contains(
            ("sourceZoneId"@, Tree::Text(view.source_zone_id->Some_0@)),
        ),
        value@->Object_0.len() == 4 + (if view.destination_port is Some {
            1int
        } else {
            0
        }) + (if view.destination_zone_id is Some {
            1int
        } else {
            0
        }) + (if view.index is Some {
            1int
        } else {
            0
        }) + (if view.ip_protocol_scope is Some {
            1int
        } else {
            0
        }) + (if view.source_port is Some {
            1int
        } else {
            0
        }) + (if view.source_zone_id is Some {
            1int
        } else {
            0
        }),
{
    let all = value@->Object_0;
    let a = seq![("action"@, text_value(view.action))];
    let b = present("destinationPort"@, crate::encode::some_text(opt_string(view.destination_port)));
    let c = present(
        "destinationZoneId"@,
        crate::encode::some_text(opt_string(view.destination_zone_id)),
    );
    let d = seq![("enabled"@, flag_value(view.enabled)), ("id"@, Tree::Text(view.id@))];
    let e = present("index"@, crate::policies::some_index(view.index));
    let f = present(
        "ipProtocolScope"@,
        crate::encode::some_text(opt_string(view.ip_protocol_scope)),
    );
    let g = seq![("name"@, text_value(view.name))];
    let h = present("sourcePort"@, crate::encode::some_text(opt_string(view.source_port)));
    let i = present("sourceZoneId"@, crate::encode::some_text(opt_string(view.source_zone_id)));
    assert(all =~= a + b + c + d + e + f + g + h + i);
    let nb = b.len() as int;
    let nc = c.len() as int;
    let ne = e.len() as int;
    let nf = f.len() as int;
    let nh = h.len() as int;
    assert(all[0] == a[0]);
    if nb == 1 {
        assert(all[1] == b[0]);
    }
    if nc == 1 {
        assert(all[1 + nb] == c[0]);
    }
    assert(all[1 + nb + nc] == d[0]);
    assert(all[2 + nb + nc] == d[1]);
    if ne == 1 {
        assert(all[3 + nb + nc] == e[0]);
    }
    if nf == 1 {
        assert(all[3 + nb + nc + ne] == f[0]);
    }
    assert(all[3 + nb + nc + ne + nf] == g[0]);
    if nh == 1 {
        assert(all[4 + nb + nc + ne + nf] == h[0]);
    }
    if i.len() == 1 {
        assert(all[4 + nb + nc + ne + nf + nh] == i[0]);
    }
}

/// The JSON form of a planned change names its field, and what is held and
/// asked for only where they are shown.
pub proof fn law_changes_are_written_field_by_field(change: &PlannedChange, value: Json)
    requires
        call_ensures(encode_change, (change,), value),
    ensures
        value@ is Object,
        value@->Object_0.contains(("field"@, Tree::Text(change.field@))),
        change.from is Some ==> value@->Object_0.contains(("from"@, change.from->Some_0@)),
        change.to is Some ==> value@->Object_0.contains(("to"@, change.to->Some_0@)),
        value@->Object_0.len() == 1 + (if change.from is Some {
            1int
        } else {
            0
        }) + (if change.to is Some {
            1int
        } else {
            0
        }),
{
    let all = value@->Object_0;
    assert(all[0] == ("field"@, Tree::Text(change.field@)));
    if change.from is Some {
        assert(all[1] == ("from"@, change.from->Some_0@));
        if change.to is Some {
            assert(all[2] == ("to"@, change.to->Some_0@));
        }
    } else if change.to is Some {
        assert(all[1] == ("to"@, change.to->Some_0@));
    }
}

/// The JSON form of an outcome names its field and its status, and the values
/// only where they are shown.
pub proof fn law_outcomes_are_written_field_by_field(outcome: &FieldOutcome, value: Json)
    requires
        call_ensures(encode_outcome, (outcome,), value),
    ensures
        value@ is Object,
        value@->Object_0.contains(("field"@, Tree::Text(outcome.field@))),
        value@->Object_0.contains(
            (
                "status"@,
                Tree::Text(
                    match outcome.status {
                        FieldStatus::Persisted => "persisted"@,
                        FieldStatus::Dropped => "dropped"@,
                        FieldStatus::Coerced => "coerced"@,
                    },
                ),
            ),
        ),
        outcome.observed is Some ==> value@->Object_0.contains(
            ("observed"@, outcome.observed->Some_0@),
        ),
        outcome.requested is Some ==> value@->Object_0.contains(
            ("requested"@, outcome.requested->Some_0@),
        ),
        value@->Object_0.len() == 2 + (if outcome.observed is Some {
            1int
        } else {
            0
        }) + (if outcome.requested is Some {
            1int
        } else {
            0
        }),
{
    let all = value@->Object_0;
    let word = match outcome.status {
        FieldStatus::Persisted => "persisted"@,
        FieldStatus::Dropped => "dropped"@,
        FieldStatus::Coerced => "coerced"@,
    };
    assert(all[0] == ("field"@, Tree::Text(outcome.field@)));
    assert(all.last() == ("status"@, Tree::Text(word)));
    assert(all[all.len() - 1] == ("status"@, Tree::Text(word)));
    if outcome.observed is Some {
        assert(all[1] == ("observed"@, outcome.observed->Some_0@));
        if outcome.requested is Some {
            assert(all[2] == ("requested"@, outcome.requested->Some_0@));
        }
    } else if outcome.requested is Some {
        assert(all[1] == ("requested"@, outcome.requested->Some_0@));
    }
}

/// The answers of writes hold the view they are about under its name, and
/// whether the write was applied.
pub proof fn law_write_answers_hold_their_view(
    policies: &FirewallPoliciesUpdateOutput,
    forwards: &PortForwardsUpdateOutput,
    policy_answer: Json,
    forward_answer: Json,
    policy: Json,
    forward: Json,
)
    requires
        call_ensures(encode_policies_update, (policies,), policy_answer),
        call_ensures(encode_port_forwards_update, (forwards,), forward_answer),
        call_ensures(encode_policy_view, (&policies.policy,), policy),
        call_ensures(encode_forward_view, (&forwards.forward,), forward),
    ensures
        policy_answer@ is Object && forward_answer@ is Object,
        policy_answer@->Object_0.contains(("policy"@, policy@)),
        forward_answer@->Object_0.contains(("forward"@, forward@)),
        policy_answer@->Object_0.contains(("applied"@, Tree::Bool(policies.report.applied))),
        forward_answer@->Object_0.contains(("applied"@, Tree::Bool(forwards.report.applied))),
        policies.report.verified is Some ==> policy_answer@->Object_0.contains(
            ("verified"@, Tree::Bool(policies.report.verified->Some_0)),
        ),
        forwards.report.verified is Some ==> forward_answer@->Object_0.contains(
            ("verified"@, Tree::Bool(forwards.report.verified->Some_0)),
        ),
{
    lemma_report_members(policies.report@, ("policy"@, policy@));
    lemma_report_members(forwards.report@, ("forward"@, forward@));
}

proof fn lemma_report_members(report: crate::report::Report, view: (Seq<char>, Tree))
    ensures
        ({
            let all = crate::report::report_head(report) + seq![view]
                + crate::report::report_tail(report);
            &&& all.contains(view)
            &&& all.contains(("applied"@, Tree::Bool(report.applied)))
            &&& report.verified is Some ==> all.contains(
                ("verified"@, Tree::Bool(report.verified->Some_0)),
            )
        }),
{
    let head = crate::report::report_head(report);
    let tail = crate::report::report_tail(report);
    let applied = ("applied"@, Tree::Bool(report.applied));
    assert(head[0] == applied);
    assert(seq![view][0] == view);
    lemma_contains_joined(head, seq![view], view);
    lemma_contains_joined(head, seq![view], applied);
    lemma_contains_joined(head + seq![view], tail, view);
    lemma_contains_joined(head + seq![view], tail, applied);
    if report.verified is Some {
        let verified = ("verified"@, Tree::Bool(report.verified->Some_0));
        let moved = present(
            "unexpectedChanges"@,
            match report.unexpected_changes {
                Some(list) => Some(Tree::Array(crate::encode::text_items(list))),
                None => None,
            },
        );
        assert(tail[moved.len() as int] == verified);
        lemma_contains_joined(head + seq![view], tail, verified);
    }
}

/// The JSON form of a report holds its plan or its outcomes item by item, what
/// moved without being asked for, and its warnings where it has any.
pub proof fn law_reports_are_written_field_by_field(
    output: &PortForwardsUpdateOutput,
    value: Json,
    i: int,
)
    requires
        call_ensures(encode_port_forwards_update, (output,), value),
    ensures
        output.report.warnings@.len() > 0 ==> exists|list: Seq<Tree>|
            #[trigger] value@->Object_0.contains(("warnings"@, Tree::Array(list))) && list.len()
                == output.report.warnings@.len() && (0 <= i < list.len() ==> list[i] == Tree::Text(
                output.report.warnings@[i]@,
            )),
        output.report.warnings@.len() == 0 ==> value@->Object_0.len() == 2 + (
        if output.report.changes is Some {
            1int
        } else {
            0
        }) + (if output.report.fields is Some {
            1int
        } else {
            0
        }) + (if output.report.unexpected_changes is Some {
            1int
        } else {
            0
        }) + (if output.report.verified is Some {
            1int
        } else {
            0
        }),
        output.report.unexpected_changes is Some ==> exists|list: Seq<Tree>|
            #[trigger] value@->Object_0.contains(("unexpectedChanges"@, Tree::Array(list)))
                && list.len() == output.report.unexpected_changes->Some_0@.len() && (0 <= i
                < list.len() ==> list[i] == Tree::Text(
                output.report.unexpected_changes->Some_0@[i]@,
            )),
        output.report.changes is Some ==> exists|list: Seq<Tree>|
            #[trigger] value@->Object_0.contains(("changes"@, Tree::Array(list))) && list.len()
                == output.report.changes->Some_0@.len() && (0 <= i < list.len() ==> list[i]
                == crate::report::change_tree(output.report.changes->Some_0@[i]@)),
        output.report.fields is Some ==> exists|list: Seq<Tree>|
            #[trigger] value@->Object_0.contains(("fields"@, Tree::Array(list))) && list.len()
                == output.report.fields->Some_0@.len() && (0 <= i < list.len() ==> list[i]
                == crate::report::outcome_tree(output.report.fields->Some_0@[i]@)),
{
    let report = output.report@;
    let all = value@->Object_0;
    let head = crate::report::report_head(report);
    let tail = crate::report::report_tail(report);
    let view = (
        "forward"@,
        Tree::Object(crate::port_forwards::forward_view_fields(output.forward)),
    );
    assert(all == head + seq![view] + tail);
    let plan = present(
        "changes"@,
        match report.changes {
            Some(list) => Some(
                Tree::Array(
                    list.map_values(
                        |change: crate::mutation::Change| crate::report::change_tree(change),
                    ),
                ),
            ),
            None => None,
        },
    );
    let moved = present(
        "unexpectedChanges"@,
        match report.unexpected_changes {
            Some(list) => Some(Tree::Array(crate::encode::text_items(list))),
            None => None,
        },
    );
    let verified = present("verified"@, crate::encode::some_flag(report.verified));
    if output.report.warnings@.len() > 0 {
        let list = crate::encode::text_items(report.warnings);
        let member = ("warnings"@, Tree::Array(list));
        assert(report.warnings.len() == output.report.warnings@.len());
        assert(tail[(moved.len() + verified.len()) as int] == member);
        lemma_contains_joined(head + seq![view], tail, member);
        if 0 <= i < list.len() {
            assert(report.warnings[i] == output.report.warnings@[i]@);
        }
        assert(all.contains(member));
    }
    if output.report.unexpected_changes is Some {
        let texts_moved = report.unexpected_changes->Some_0;
        let list = crate::encode::text_items(texts_moved);
        let member = ("unexpectedChanges"@, Tree::Array(list));
        assert(tail[0] == member);
        lemma_contains_joined(head + seq![view], tail, member);
        if 0 <= i < list.len() {
            assert(texts_moved[i] == output.report.unexpected_changes->Some_0@[i]@);
        }
        assert(all.contains(member));
    }
    if output.report.changes is Some {
        let list = report.changes->Some_0.map_values(
            |change: crate::mutation::Change| crate::report::change_tree(change),
        );
        let member = ("changes"@, Tree::Array(list));
        assert(head[1] == member);
        lemma_contains_joined(head, seq![view], member);
        lemma_contains_joined(head + seq![view], tail, member);
        if 0 <= i < list.len() {
            assert(report.changes->Some_0[i] == output.report.changes->Some_0@[i]@);
        }
        assert(all.contains(member));
    }
    if output.report.fields is Some {
        let list = report.fields->Some_0.map_values(
            |outcome: crate::mutation::Outcome| crate::report::outcome_tree(outcome),
        );
        let member = ("fields"@, Tree::Array(list));
        assert(head[(1 + plan.len()) as int] == member);
        lemma_contains_joined(head, seq![view], member);
        lemma_contains_joined(head + seq![view], tail, member);
        if 0 <= i < list.len() {
            assert(report.fields->Some_0[i] == output.report.fields->Some_0@[i]@);
        }
        assert(all.contains(member));
    }
    if output.report.warnings@.len() == 0 {
        assert(report.warnings.len() == 0);
    }
}

/// A server names itself by its surface.
pub proof fn law_servers_are_named_by_surface(surface: ToolSurface, name: &'static str)
    requires
        call_ensures(ToolSurface::server_name, (surface,), name),
    ensures
        surface == ToolSurface::Network ==> name@ == "unifi"@,
        surface == ToolSurface::Protect ==> name@ == "unifi-protect"@,
{
}

/// A page of detections that cannot be cut is the caller's to mend; any other
/// failure of a search for detections is answered as failures are.
pub proof fn law_detection_failures_are_answered(
    error: ApiError,
    answer: ToolError,
    plain: ToolError,
)
    requires
        call_ensures(protect_events_api_error, (error,), answer),
        call_ensures(api_error, (error,), plain),
    ensures
        ({
            let boundary = error is Config && error->Config_0@
                == "Protect event page boundary exceeds the requested limit; retry with a higher limit"@;
            &&& boundary ==> answer.kind == ErrorKind::InvalidParams && answer.message@
                == error->Config_0@
            &&& !boundary ==> answer.kind == plain.kind && answer.message@ == plain.message@
        }),
{
}

// ---------------------------------------------------------------------------
// Runs of secrets
// ---------------------------------------------------------------------------

/// Whether one occurrence of a secret covers two places of a text.
pub open spec fn one_covers(text: Seq<char>, secrets: Seq<Seq<char>>, p: int, q: int) -> bool {
    exists|k: int, at: int|
        0 <= k < secrets.len() && (#[trigger] secrets[k]).len() > 0 && #[trigger] occurs_at(
            text,
            secrets[k],
            at,
        ) && at <= p <= q < at + secrets[k].len()
}

/// Every secret is substituted wherever it stands, however often: a character
/// that no secret covers stays, one that begins a covered stretch becomes the
/// marker, and the rest of the stretch is dropped.
pub proof fn law_every_secret_is_substituted(text: Seq<char>, secrets: Seq<Seq<char>>, p: int)
    requires
        0 <= p < text.len(),
    ensures
        ({
            let rest = substituted(text, secrets, p + 1);
            let here = one_covers(text, secrets, p, p);
            let before = one_covers(text, secrets, p - 1, p);
            &&& !here ==> substituted(text, secrets, p) == seq![text[p]] + rest
            &&& here && !before ==> substituted(text, secrets, p) == "[redacted]"@ + rest
            &&& here && before ==> substituted(text, secrets, p) == rest
        }),
        substituted(text, secrets, text.len() as int) == Seq::<char>::empty(),
{
    assert(covered(text, secrets, p) == one_covers(text, secrets, p, p)) by {
        if covered(text, secrets, p) {
            let (k, at) = choose|k: int, at: int|
                0 <= k < secrets.len() && (#[trigger] secrets[k]).len() > 0 && #[trigger] occurs_at(
                    text,
                    secrets[k],
                    at,
                ) && at < p + 1 && p < at + secrets[k].len();
            assert(occurs_at(text, secrets[k], at) && at <= p);
        }
    }
    assert(spans(text, secrets, p, p) == one_covers(text, secrets, p - 1, p)) by {
        if spans(text, secrets, p, p) {
            let (k, at) = choose|k: int, at: int|
                0 <= k < secrets.len() && (#[trigger] secrets[k]).len() > 0 && #[trigger] occurs_at(
                    text,
                    secrets[k],
                    at,
                ) && at < p && p < at + secrets[k].len();
            assert(occurs_at(text, secrets[k], at) && at <= p - 1);
        }
    }
}

/// A text with a secret is its substitution, unless a secret would stand in
/// that too: then the marker alone is left.
pub proof fn law_scrubbed_texts_are_substituted_or_replaced(
    text: Seq<char>,
    secrets: Seq<Seq<char>>,
)
    requires
        discloses(text, secrets),
    ensures
        !discloses(substituted(text, secrets, 0), secrets) ==> scrubbed(text, secrets)
            == substituted(text, secrets, 0),
        discloses(substituted(text, secrets, 0), secrets) ==> scrubbed(text, secrets)
            == "[redacted]"@,
{
}

/// A text is quoted character by character between two quotes.
pub proof fn law_texts_are_quoted_character_by_character(text: Seq<char>, c: char)
    ensures
        quoted(Seq::empty()) == seq!['"', '"'],
        quoted(text.push(c)) == quoted(text).drop_last() + escaped(c) + seq!['"'],
{
    let each = |one: char| escaped(one);
    let parts = text.map_values(each);
    let all = text.push(c).map_values(each);
    assert(all =~= parts.push(escaped(c)));
    assert(Seq::<char>::empty().map_values(each) =~= Seq::empty());
    assert(Seq::<Seq<char>>::empty().flatten() =~= Seq::<char>::empty());
    assert(quoted(Seq::empty()) =~= seq!['"', '"']);
    parts.lemma_flatten_push(escaped(c));
    assert(all.flatten() == parts.flatten() + escaped(c));
    assert(quoted(text).drop_last() =~= seq!['"'] + parts.flatten());
    assert(quoted(text.push(c)) =~= quoted(text).drop_last() + escaped(c) + seq!['"']);
}

} // verus!
