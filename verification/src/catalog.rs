//! What the catalog publishes beside a tool's schemas.

use vstd::prelude::*;
use vstd::string::*;

use crate::encode::push_field;
use crate::registry::{ToolBehavior, ToolSurface};
use crate::tree::{fields, Json, Member, Tree};

verus! {

broadcast use crate::tree::group_json_view;

/// The metadata key the gateway reads a tool's declared behavior under.
pub const ACTION_METADATA_KEY: &'static str = "io.modelcontextprotocol/action-metadata";

/// How long a catalog stays fresh for clients that cache it.
pub const CATALOG_TTL_MILLISECONDS: u64 = 300_000;

/// The word for how sensitive data is.
pub open spec fn sensitivity_name(sensitive: bool) -> Seq<char> {
    if sensitive {
        "sensitive"@
    } else {
        "operational"@
    }
}

fn sensitivity(sensitive: bool) -> (word: String)
    ensures
        word@ == sensitivity_name(sensitive),
{
    if sensitive {
        "sensitive".to_owned()
    } else {
        "operational".to_owned()
    }
}

/// The metadata of a behavior.
pub open spec fn behavior_fields(behavior: ToolBehavior) -> Seq<(Seq<char>, Tree)> {
    seq![
        (
            "inputMetadata"@,
            Tree::Object(
                seq![
                    ("destination"@, Tree::Text("internal"@)),
                    ("sensitivity"@, Tree::Text(sensitivity_name(behavior.input_sensitive))),
                ],
            ),
        ),
        ("outcome"@, Tree::Text(behavior.outcome@)),
        ("requiresReview"@, Tree::Bool(behavior.requires_review)),
        (
            "returnMetadata"@,
            Tree::Object(
                seq![
                    ("sensitivity"@, Tree::Text(sensitivity_name(behavior.result_sensitive))),
                    ("source"@, Tree::Text("first-party"@)),
                ],
            ),
        ),
    ]
}

/// The metadata a tool of that behavior is published with.
pub fn action_metadata(behavior: ToolBehavior) -> (meta: Vec<Member>)
    ensures
        fields(meta@) == seq![(ACTION_METADATA_KEY@, Tree::Object(behavior_fields(behavior)))],
{
    let mut input: Vec<Member> = Vec::new();
    push_field(&mut input, "destination", Json::Text("internal".to_owned()));
    push_field(&mut input, "sensitivity", Json::Text(sensitivity(behavior.input_sensitive)));
    let mut result: Vec<Member> = Vec::new();
    push_field(&mut result, "sensitivity", Json::Text(sensitivity(behavior.result_sensitive)));
    push_field(&mut result, "source", Json::Text("first-party".to_owned()));
    assert(fields(input@) =~= behavior_fields(behavior)[0].1->Object_0);
    assert(fields(result@) =~= behavior_fields(behavior)[3].1->Object_0);
    let mut members: Vec<Member> = Vec::new();
    push_field(&mut members, "inputMetadata", Json::Object(input));
    push_field(&mut members, "outcome", Json::Text(behavior.outcome.to_owned()));
    push_field(&mut members, "requiresReview", Json::Bool(behavior.requires_review));
    push_field(&mut members, "returnMetadata", Json::Object(result));
    assert(fields(members@) =~= behavior_fields(behavior));
    let mut meta: Vec<Member> = Vec::new();
    push_field(&mut meta, ACTION_METADATA_KEY, Json::Object(members));
    assert(fields(meta@) =~= seq![
        (ACTION_METADATA_KEY@, Tree::Object(behavior_fields(behavior))),
    ]);
    meta
}

/// What a server of a surface says of itself.
pub open spec fn instructions_of(surface: ToolSurface) -> &'static str {
    match surface {
        ToolSurface::Network => "Curated operational interface for a UniFi Network controller; tools/list is the authoritative catalog.",
        ToolSurface::Protect => "Curated read-only interface for a UniFi Protect console; tools/list is the authoritative catalog.",
    }
}

/// What a server of a surface says of itself.
pub fn server_instructions(surface: ToolSurface) -> (text: &'static str)
    ensures
        text == instructions_of(surface),
{
    match surface {
        ToolSurface::Network =>
            "Curated operational interface for a UniFi Network controller; tools/list is the authoritative catalog.",
        ToolSurface::Protect =>
            "Curated read-only interface for a UniFi Protect console; tools/list is the authoritative catalog.",
    }
}

} // verus!
