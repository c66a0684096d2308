//! Pages and filters shared by the list tools.

use vstd::prelude::*;
use vstd::string::*;

use crate::error::{invalid_params, is_invalid_params, ToolError};
use crate::text::{byte_len, count_bytes, lowercase, opt_string, opt_text, to_lowercase, trim, trimmed};

verus! {

/// Most rows one page may hold.
pub const MAXIMUM_SEARCH_LIMIT: u16 = 200;

/// Rows a page holds where the caller does not say.
pub const DEFAULT_SEARCH_LIMIT: u16 = 50;

/// Farthest offset a page may start at.
pub const MAXIMUM_SEARCH_OFFSET: u16 = 10_000;

/// Longest accepted filter, in bytes.
pub const MAXIMUM_QUERY_LENGTH: usize = 128;

/// Rows a page holds where the caller does not say.
pub fn default_search_limit() -> (limit: u16)
    ensures
        limit == DEFAULT_SEARCH_LIMIT,
{
    DEFAULT_SEARCH_LIMIT
}

/// Whether a page size is accepted.
pub open spec fn limit_accepted(limit: int) -> bool {
    1 <= limit <= MAXIMUM_SEARCH_LIMIT
}

/// Whether a page offset is accepted.
pub open spec fn offset_accepted(offset: int) -> bool {
    offset <= MAXIMUM_SEARCH_OFFSET
}

/// Refuses a page that is empty, too large, or too far on.
pub fn validate_page(offset: u16, limit: u16) -> (result: Result<(), ToolError>)
    ensures
        result is Ok <==> limit_accepted(limit as int) && offset_accepted(offset as int),
        !limit_accepted(limit as int) ==> is_invalid_params(
            result->Err_0,
            "limit must be between 1 and 200"@,
        ),
        limit_accepted(limit as int) && !offset_accepted(offset as int) ==> is_invalid_params(
            result->Err_0,
            "offset must not exceed 10000"@,
        ),
{
    if limit < 1 || limit > MAXIMUM_SEARCH_LIMIT {
        return Err(invalid_params("limit must be between 1 and 200"));
    }
    if offset > MAXIMUM_SEARCH_OFFSET {
        return Err(invalid_params("offset must not exceed 10000"));
    }
    Ok(())
}

/// Whether a selector or filter holds something and not too much, once
/// trimmed.
pub open spec fn query_accepted(raw: Seq<char>) -> bool {
    trimmed(raw).len() > 0 && byte_len(trimmed(raw)) <= MAXIMUM_QUERY_LENGTH
}

/// Whether a filter is accepted: an absent one always is.
pub open spec fn filter_accepted(value: Option<Seq<char>>) -> bool {
    match value {
        None => true,
        Some(raw) => query_accepted(raw),
    }
}

/// What a filter is matched as: trimmed and lowercase.
pub open spec fn filter_text(value: Option<Seq<char>>) -> Option<Seq<char>> {
    match value {
        None => None,
        Some(raw) => Some(lowercase(trimmed(raw))),
    }
}

/// The refusal of a filter.
pub open spec fn filter_message() -> Seq<char> {
    "filters must be 1-128 characters"@
}

/// The refusal of a search: of its limit, else of its offset, else of one of
/// its filters.
pub open spec fn page_refused(error: ToolError, offset: int, limit: int) -> bool {
    if !limit_accepted(limit) {
        is_invalid_params(error, "limit must be between 1 and 200"@)
    } else if !offset_accepted(offset) {
        is_invalid_params(error, "offset must not exceed 10000"@)
    } else {
        is_invalid_params(error, filter_message())
    }
}

/// Trims a selector; none where it is empty or oversized.
pub fn trim_query(raw: &str) -> (result: Option<String>)
    ensures
        result is Some <==> query_accepted(raw@),
        result matches Some(text) ==> text@ == trimmed(raw@),
{
    let inner = trim(raw);
    if inner.as_str().is_empty() || count_bytes(inner.as_str()) > MAXIMUM_QUERY_LENGTH {
        return None;
    }
    Some(inner)
}

/// Trims a filter and rejects empty or oversized values instead of silently
/// matching everything or nothing.
pub fn validate_filter(value: Option<&str>) -> (result: Result<Option<String>, ToolError>)
    ensures
        result is Ok <==> filter_accepted(opt_text(value)),
        result matches Ok(filter) ==> opt_string(filter) == filter_text(opt_text(value)),
        result matches Err(error) ==> is_invalid_params(error, filter_message()),
{
    match value {
        None => Ok(None),
        Some(raw) => {
            match trim_query(raw) {
                Some(inner) => Ok(Some(to_lowercase(inner.as_str()))),
                None => Err(invalid_params("filters must be 1-128 characters")),
            }
        },
    }
}

/// The slice of an optional string.
pub fn as_slice(value: &Option<String>) -> (slice: Option<&str>)
    ensures
        opt_text(slice) == opt_string(*value),
{
    match value {
        Some(text) => Some(text.as_str()),
        None => None,
    }
}

// ---------------------------------------------------------------------------
// Pages
// ---------------------------------------------------------------------------

/// The rows of one page.
pub open spec fn page<T>(rows: Seq<T>, offset: int, limit: int) -> Seq<T> {
    if offset >= rows.len() {
        Seq::empty()
    } else if offset + limit >= rows.len() {
        rows.subrange(offset, rows.len() as int)
    } else {
        rows.subrange(offset, offset + limit)
    }
}

/// The rows of one page.
pub fn take_page<T>(rows: Vec<T>, offset: usize, limit: usize) -> (taken: Vec<T>)
    ensures
        taken@ == page(rows@, offset as int, limit as int),
{
    let ghost all = rows@;
    let mut rows = rows;
    if offset >= rows.len() {
        return Vec::new();
    }
    let mut taken = rows.split_off(offset);
    taken.truncate(limit);
    assert(taken@ =~= page(all, offset as int, limit as int));
    taken
}

/// The offset of the page behind one, where that page has rows and may be
/// asked for.
pub open spec fn next_page(offset: int, returned: int, total: int) -> Option<int> {
    if offset + returned < total && offset_accepted(offset + returned) {
        Some(offset + returned)
    } else {
        None
    }
}

/// An optional offset as a number.
pub open spec fn opt_int(value: Option<u16>) -> Option<int> {
    match value {
        Some(n) => Some(n as int),
        None => None,
    }
}

/// The next page's offset, emitted only when that page is actually
/// requestable within the accepted offset bound; otherwise the caller sees
/// no continuation and narrows the query instead of chasing an unreachable
/// page.
pub fn next_offset(offset: usize, returned: usize, total: usize) -> (next: Option<u16>)
    ensures
        opt_int(next) == next_page(offset as int, returned as int, total as int),
{
    let consumed: usize = offset.saturating_add(returned);
    if consumed < total && consumed <= MAXIMUM_SEARCH_OFFSET as usize {
        Some(consumed as u16)
    } else {
        None
    }
}

/// An advertised page can be asked for, and holds a row.
pub proof fn law_advertised_pages_are_reachable<T>(rows: Seq<T>, offset: int, limit: int)
    requires
        0 <= offset,
        limit_accepted(limit),
    ensures
        next_page(offset, page(rows, offset, limit).len() as int, rows.len() as int) matches Some(
            next,
        ) ==> {
            &&& offset_accepted(next)
            &&& page(rows, next, limit).len() > 0
            &&& next > offset || page(rows, offset, limit).len() == 0
        },
{
}

/// Following the advertised pages misses no row and repeats none: a page and
/// what lies behind the advertised offset are all the rows from its offset
/// on, and where no page is advertised the page reaches the last row, unless
/// the next offset would be out of bounds. No page is longer than its limit.
pub proof fn law_pages_join_up<T>(rows: Seq<T>, offset: int, limit: int)
    requires
        0 <= offset <= rows.len(),
        limit_accepted(limit),
    ensures
        ({
            let shown = page(rows, offset, limit);
            &&& shown.len() <= limit
            &&& match next_page(offset, shown.len() as int, rows.len() as int) {
                Some(next) => rows.skip(offset) == shown + rows.skip(next),
                None => rows.skip(offset) == shown || !offset_accepted(offset + shown.len()),
            }
        }),
{
    let shown = page(rows, offset, limit);
    match next_page(offset, shown.len() as int, rows.len() as int) {
        Some(next) => {
            assert(rows.skip(offset) =~= shown + rows.skip(next));
        },
        None => {
            if offset_accepted(offset + shown.len()) {
                assert(rows.skip(offset) =~= shown);
            }
        },
    }
}

} // verus!
