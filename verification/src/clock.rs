//! The current time, and windows that end at it.

use vstd::prelude::*;
use vstd::string::*;

use crate::error::{internal_error, is_internal, ToolError};

verus! {

/// Milliseconds in an hour.
pub const HOUR_MS: u64 = 3_600_000;

/// A point on the system clock.
#[verifier::external_type_specification]
#[verifier::external_body]
pub struct ExSystemTime(std::time::SystemTime);

/// `SystemTime::now` returns the system time; nothing is claimed of it.
pub assume_specification[ std::time::SystemTime::now ]() -> std::time::SystemTime;

/// `Duration::as_millis` returns the whole milliseconds of a duration; which
/// duration a clock gave is not known, so nothing is claimed of the number.
pub assume_specification[ std::time::Duration::as_millis ](
    duration: &std::time::Duration,
) -> (millis: u128);

/// Calls `SystemTime::duration_since` with the Unix epoch: the time elapsed
/// since it, absent where the clock stands before it. Nothing is claimed of
/// the duration.
#[verifier::external_body]
fn since_epoch(time: std::time::SystemTime) -> (elapsed: Option<std::time::Duration>) {
    time.duration_since(std::time::UNIX_EPOCH).ok()
}

/// The answer to a clock reading, where it is no error: the reading itself.
pub open spec fn reading_accepted(elapsed: Option<u128>) -> bool {
    elapsed matches Some(millis) && millis <= u64::MAX
}

/// Whether an error is one a clock reading is refused with.
pub open spec fn is_clock_error(error: ToolError) -> bool {
    is_internal(error, "system clock before epoch"@) || is_internal(
        error,
        "system clock out of range"@,
    )
}

/// The milliseconds since the epoch a clock reading stands for. A clock
/// before the epoch gave no reading.
pub fn clock_reading(elapsed: Option<u128>) -> (result: Result<u64, ToolError>)
    ensures
        result is Ok <==> reading_accepted(elapsed),
        result matches Ok(millis) ==> Some(millis as u128) == elapsed,
        elapsed is None ==> is_internal(result->Err_0, "system clock before epoch"@),
        elapsed is Some && !reading_accepted(elapsed) ==> is_internal(
            result->Err_0,
            "system clock out of range"@,
        ),
{
    match elapsed {
        None => Err(internal_error("system clock before epoch")),
        Some(millis) => if millis > u64::MAX as u128 {
            Err(internal_error("system clock out of range"))
        } else {
            Ok(millis as u64)
        },
    }
}

/// The current time in milliseconds since the epoch.
pub fn current_time_ms() -> (result: Result<u64, ToolError>)
    ensures
        result matches Err(error) ==> is_clock_error(error),
{
    let elapsed = match since_epoch(std::time::SystemTime::now()) {
        Some(duration) => Some(duration.as_millis()),
        None => None,
    };
    clock_reading(elapsed)
}

/// Where a window of that many hours begins that ends at `end`: never before
/// the epoch.
pub open spec fn window_start(end: int, hours: int) -> int {
    if end >= hours * HOUR_MS {
        end - hours * HOUR_MS
    } else {
        0
    }
}

/// Where a window of that many hours begins that ends at `end`.
pub fn start_of_window(end: u64, hours: u32) -> (start: u64)
    ensures
        start == window_start(end as int, hours as int),
{
    let span: u64 = hours as u64 * HOUR_MS;
    if end >= span {
        end - span
    } else {
        0
    }
}

} // verus!
