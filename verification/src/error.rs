//! The errors a tool call answers with.

use vstd::prelude::*;
use vstd::string::*;

use crate::text::{decimal, join2, to_decimal};

verus! {

/// Which side a failed call is answerable to.
#[derive(Debug, Clone, Copy, PartialEq, Eq, Structural)]
pub enum ErrorKind {
    /// The caller can mend the request.
    InvalidParams,
    /// The server or the controller behind it failed.
    Internal,
}

/// A failed call: server-authored text only.
#[derive(Debug)]
pub struct ToolError {
    pub kind: ErrorKind,
    pub message: String,
}

/// Whether an error blames the caller with that message.
pub open spec fn is_invalid_params(error: ToolError, message: Seq<char>) -> bool {
    error.kind == ErrorKind::InvalidParams && error.message@ == message
}

/// Whether an error is an internal one with that message.
pub open spec fn is_internal(error: ToolError, message: Seq<char>) -> bool {
    error.kind == ErrorKind::Internal && error.message@ == message
}

/// An error the caller can mend.
pub fn invalid_params(message: &str) -> (error: ToolError)
    ensures
        is_invalid_params(error, message@),
{
    ToolError { kind: ErrorKind::InvalidParams, message: message.to_owned() }
}

/// An error of the server or the controller.
pub fn internal_error(message: &str) -> (error: ToolError)
    ensures
        is_internal(error, message@),
{
    ToolError { kind: ErrorKind::Internal, message: message.to_owned() }
}

/// What can go wrong between this server and a controller. The texts a
/// controller or a transport supplied are carried, and never shown.
#[derive(Debug)]
pub enum ApiError {
    Config(String),
    Status { status: u16 },
    RateLimited,
    Rejected,
    Transport(String),
    ResponseTooLarge,
    InvalidJson,
    SchemaMismatch,
    Decode(String),
}

/// The server's own words for a controller failure.
pub open spec fn api_error_message(error: ApiError) -> Seq<char> {
    match error {
        ApiError::Config(_) => "invalid controller configuration"@,
        ApiError::Status { status } => "controller returned HTTP "@ + decimal(status as nat),
        ApiError::RateLimited => "controller rate limited the request"@,
        ApiError::Rejected => "controller rejected the request"@,
        ApiError::Transport(_) => "controller transport failure"@,
        ApiError::ResponseTooLarge
        | ApiError::InvalidJson
        | ApiError::SchemaMismatch
        | ApiError::Decode(_) => "unexpected controller response"@,
    }
}

/// Answers a controller failure in the server's own words. The numeric HTTP
/// status is the only datum taken from the controller.
pub fn api_error(error: ApiError) -> (answer: ToolError)
    ensures
        is_internal(answer, api_error_message(error)),
{
    match error {
        ApiError::Config(_) => internal_error("invalid controller configuration"),
        ApiError::Status { status } => {
            let code = to_decimal(status as u64);
            let message = join2("controller returned HTTP ", code.as_str());
            ToolError { kind: ErrorKind::Internal, message }
        },
        ApiError::RateLimited => internal_error("controller rate limited the request"),
        ApiError::Rejected => internal_error("controller rejected the request"),
        ApiError::Transport(_) => internal_error("controller transport failure"),
        ApiError::ResponseTooLarge
        | ApiError::InvalidJson
        | ApiError::SchemaMismatch
        | ApiError::Decode(_) => internal_error("unexpected controller response"),
    }
}

/// The recovery instruction for an event page that cannot be split.
pub open spec fn event_boundary_message() -> Seq<char> {
    "Protect event page boundary exceeds the requested limit; retry with a higher limit"@
}

/// Answers a failure of the event history: the recovery instruction for a
/// page boundary is kept, and every other failure is answered by
/// [`api_error`].
pub fn protect_events_api_error(error: ApiError) -> (answer: ToolError)
    ensures
        (error is Config && error->Config_0@ == event_boundary_message()) ==> is_invalid_params(
            answer,
            event_boundary_message(),
        ),
        !(error is Config && error->Config_0@ == event_boundary_message()) ==> is_internal(
            answer,
            api_error_message(error),
        ),
{
    if let ApiError::Config(message) = &error {
        let boundary =
            "Protect event page boundary exceeds the requested limit; retry with a higher limit";
        if crate::text::same_text(message.as_str(), boundary) {
            return invalid_params(boundary);
        }
    }
    api_error(error)
}

/// A controller failure is answered with the same words whatever text came
/// with it.
pub proof fn law_controller_text_never_shows(a: ApiError, b: ApiError)
    requires
        (a is Config && b is Config) || (a is Transport && b is Transport) || (a is Decode && b is Decode),
    ensures
        api_error_message(a) == api_error_message(b),
{
}

} // verus!
