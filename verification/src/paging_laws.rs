//! What holds of pages, filters, scans and windows of time.

use vstd::prelude::*;
use vstd::string::*;

use crate::clock::{clock_reading, start_of_window};
use crate::error::{ErrorKind, ToolError};
use crate::paging::{
    default_search_limit, next_offset, page, take_page, trim_query, validate_filter, validate_page,
};
use crate::rows::{first_where, flag_if};
use crate::scan::{count_probe, page_at, scan_step, PageRequest};
use crate::text::{byte_len, lowercase, trimmed};
use crate::text_laws::is_blank;

verus! {

/// A page may be asked for exactly where it has 1 to 200 rows and begins at
/// no more than 10,000; the refusal is the caller's to mend.
pub proof fn law_page_bounds(offset: u16, limit: u16, result: Result<(), ToolError>)
    requires
        call_ensures(validate_page, (offset, limit), result),
    ensures
        result is Ok <==> 1 <= limit <= 200 && offset <= 10_000,
        result matches Err(error) ==> error.kind == ErrorKind::InvalidParams,
        limit == 0 || limit > 200 ==> result->Err_0.message@ == "limit must be between 1 and 200"@,
        1 <= limit <= 200 && offset > 10_000 ==> result->Err_0.message@
            == "offset must not exceed 10000"@,
{
}

/// A search asks for fifty rows where the caller does not say.
pub proof fn law_default_page(limit: u16)
    requires
        call_ensures(default_search_limit, (), limit),
    ensures
        limit == 50,
{
}

/// A filter is accepted where it is not blank and its text without the white
/// space around it has at most 128 bytes; it is compared in lowercase.
pub proof fn law_filters_are_bounded_and_lowered(
    value: Option<&str>,
    result: Result<Option<String>, ToolError>,
)
    requires
        call_ensures(validate_filter, (value,), result),
    ensures
        value is None ==> result is Ok && result->Ok_0 is None,
        value matches Some(raw) ==> {
            &&& result is Ok <==> !is_blank(raw@) && byte_len(trimmed(raw@)) <= 128
            &&& result matches Ok(filter) ==> filter is Some && filter->Some_0@ == lowercase(
                trimmed(raw@),
            )
        },
        result matches Err(error) ==> error.kind == ErrorKind::InvalidParams && error.message@
            == "filters must be 1-128 characters"@,
{
    if let Some(raw) = value {
        crate::text_laws::law_trimming_takes_white_space_off_the_ends(raw@);
    }
}

/// A query is taken without the white space around it, where it is not blank
/// and has at most 128 bytes.
pub proof fn law_queries_are_bounded(raw: &str, result: Option<String>)
    requires
        call_ensures(trim_query, (raw,), result),
    ensures
        result is Some <==> !is_blank(raw@) && byte_len(trimmed(raw@)) <= 128,
        result matches Some(text) ==> text@ == trimmed(raw@),
{
    crate::text_laws::law_trimming_takes_white_space_off_the_ends(raw@);
}

/// A page holds the rows from its offset on, in their order: as many as its
/// limit, or as there are.
pub proof fn law_a_page_holds_the_rows_from_its_offset<T>(
    rows: Vec<T>,
    offset: usize,
    limit: usize,
    taken: Vec<T>,
)
    requires
        call_ensures(take_page::<T>, (rows, offset, limit), taken),
    ensures
        forall|i: int| 0 <= i < taken@.len() ==> #[trigger] taken@[i] == rows@[offset + i],
        taken@.len() <= limit,
        offset + taken@.len() <= rows@.len() || taken@.len() == 0,
        taken@.len() < limit ==> offset + taken@.len() >= rows@.len(),
{
}

/// The next page is advertised exactly where rows remain and it may be asked
/// for, and it begins behind the last row that was returned.
pub proof fn law_the_next_page_begins_where_this_one_ends(
    offset: usize,
    returned: usize,
    total: usize,
    next: Option<u16>,
)
    requires
        call_ensures(next_offset, (offset, returned, total), next),
    ensures
        next is Some <==> offset + returned < total && offset + returned <= 10_000,
        next matches Some(at) ==> at == offset + returned,
{
}

/// The first row that meets a test is the one no row before it meets.
pub proof fn law_the_first_match_is_the_first<T>(rows: Seq<T>, test: spec_fn(T) -> bool)
    ensures
        first_where(rows, test) is None <==> forall|i: int|
            0 <= i < rows.len() ==> !test(#[trigger] rows[i]),
        first_where(rows, test) matches Some(row) ==> exists|k: int|
            {
                &&& 0 <= k < rows.len()
                &&& #[trigger] rows[k] == row
                &&& test(row)
                &&& forall|i: int| 0 <= i < k ==> !test(#[trigger] rows[i])
            },
    decreases rows.len(),
{
    if rows.len() > 0 && !test(rows[0]) {
        let rest = rows.drop_first();
        law_the_first_match_is_the_first(rest, test);
        if first_where(rest, test) is None {
            assert forall|i: int| 0 <= i < rows.len() implies !test(#[trigger] rows[i]) by {
                if i > 0 {
                    assert(rest[i - 1] == rows[i]);
                }
            }
        } else {
            let row = first_where(rest, test)->Some_0;
            let k = choose|k: int|
                {
                    &&& 0 <= k < rest.len()
                    &&& #[trigger] rest[k] == row
                    &&& test(row)
                    &&& forall|i: int| 0 <= i < k ==> !test(#[trigger] rest[i])
                };
            assert(rows[k + 1] == row);
            assert forall|i: int| 0 <= i < k + 1 implies !test(#[trigger] rows[i]) by {
                if i > 0 {
                    assert(rest[i - 1] == rows[i]);
                }
            }
        }
    } else if rows.len() > 0 {
        assert(rows[0] == first_where(rows, test)->Some_0);
    }
}

/// A signal is shown where it is up and left out where it is not.
pub proof fn law_signals_show_only_when_up(flag: bool, shown: Option<bool>)
    requires
        call_ensures(flag_if, (flag,), shown),
    ensures
        flag ==> shown == Some(true),
        !flag ==> shown is None,
{
}

/// A scan goes on exactly while a page held rows, more are reported, and
/// fewer than its ceiling were gathered; it is called truncated only where
/// rows remain.
pub proof fn law_scans_stop_for_a_reason(
    fetched: nat,
    start: int,
    offset: int,
    total: int,
    ceiling: int,
)
    ensures
        ({
            let step = scan_step(fetched, start, offset, total, ceiling);
            &&& step is Continue <==> fetched > 0 && offset < total && offset - start < ceiling
            &&& step is Truncated <==> fetched > 0 && offset < total && offset - start >= ceiling
            &&& step is Complete <==> fetched == 0 || offset >= total
        }),
{
}

/// A section is read two hundred rows at a time, and a count is probed with
/// one.
pub proof fn law_page_requests(offset: u64, request: PageRequest, probe: PageRequest)
    requires
        call_ensures(page_at, (offset,), request),
        call_ensures(count_probe, (), probe),
    ensures
        request.offset == offset && request.limit == 200,
        probe.offset == 0 && probe.limit == 1,
{
}

/// A window of hours ends where it is asked to and begins that many hours
/// before, or at the epoch.
pub proof fn law_windows_reach_back_whole_hours(end: u64, hours: u32, start: u64)
    requires
        call_ensures(start_of_window, (end, hours), start),
    ensures
        start <= end,
        end - start <= hours * 3_600_000,
        start > 0 ==> end - start == hours * 3_600_000,
{
}

/// A reading of the clock is accepted where it lies behind the epoch and
/// fits, and is then the milliseconds since it.
pub proof fn law_clock_readings(elapsed: Option<u128>, result: Result<u64, ToolError>)
    requires
        call_ensures(clock_reading, (elapsed,), result),
    ensures
        match elapsed {
            None => result is Err && result->Err_0.message@ == "system clock before epoch"@,
            Some(millis) => if millis <= 0xffff_ffff_ffff_ffff {
                result is Ok && result->Ok_0 == millis
            } else {
                result is Err && result->Err_0.message@ == "system clock out of range"@
            },
        },
        result matches Err(error) ==> error.kind == ErrorKind::Internal,
{
}

} // verus!
