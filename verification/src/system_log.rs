//! Normalization for the Network application system-log API.

use vstd::prelude::*;
use vstd::string::*;

use crate::clock::{current_time_ms, is_clock_error, start_of_window, window_start};
use crate::display::{bounded, CUT_MARK, EVENT_MESSAGE_CEILING};
use crate::error::{api_error, api_error_message, is_internal, ApiError, ToolError};
use crate::text::{chars_of, join2, opt_string, same_text, slice_text};

verus! {

/// An entity a log entry mentions.
pub struct SystemLogEntity {
    pub id: Option<String>,
    pub name: Option<String>,
}

/// The entities a log entry may mention.
pub struct SystemLogParameters {
    pub client: Option<SystemLogEntity>,
    pub device: Option<SystemLogEntity>,
    pub device_from: Option<SystemLogEntity>,
    pub device_to: Option<SystemLogEntity>,
    pub wlan: Option<SystemLogEntity>,
    pub network: Option<SystemLogEntity>,
}

/// One entry of the system log.
pub struct SystemLogEntry {
    pub timestamp: Option<u64>,
    pub key: Option<String>,
    pub event: Option<String>,
    pub message_raw: Option<String>,
    pub title_raw: Option<String>,
    pub category: Option<String>,
    pub severity: Option<String>,
    pub parameters: SystemLogParameters,
}

/// One log entry as it is shown.
pub struct LogEventRow {
    pub time: Option<u64>,
    pub key: Option<String>,
    pub message: Option<String>,
    pub category: Option<String>,
    pub severity: Option<String>,
    pub client_mac: Option<String>,
}

/// The window of that many hours that ends now.
pub fn log_window(hours: u32) -> (result: Result<(u64, u64), ToolError>)
    ensures
        result matches Ok(window) ==> window.0 == window_start(window.1 as int, hours as int),
        result matches Err(error) ==> is_clock_error(error),
{
    let end = current_time_ms()?;
    Ok((start_of_window(end, hours), end))
}

/// Answers a failed read of the log, naming what was read.
pub fn read_error(error: ApiError) -> (answer: ToolError)
    ensures
        is_internal(answer, "Network system-log read failed: "@ + api_error_message(error)),
{
    let inner = api_error(error);
    let message = join2("Network system-log read failed: ", inner.message.as_str());
    ToolError { kind: inner.kind, message }
}

// ---------------------------------------------------------------------------
// Messages
// ---------------------------------------------------------------------------

/// A text that holds something.
pub open spec fn non_empty(text: Option<Seq<char>>) -> Option<Seq<char>> {
    match text {
        Some(inner) if inner.len() > 0 => Some(inner),
        _ => None,
    }
}

/// What stands for an entity: its name, else its id.
pub open spec fn entity_text(entity: Option<SystemLogEntity>) -> Option<Seq<char>> {
    match entity {
        Some(inner) => match non_empty(opt_string(inner.name)) {
            Some(name) => Some(name),
            None => non_empty(opt_string(inner.id)),
        },
        None => None,
    }
}

/// What stands for a token: only known entities have one.
pub open spec fn token_text(token: Seq<char>, parameters: SystemLogParameters) -> Option<Seq<char>> {
    if token == "CLIENT"@ {
        entity_text(parameters.client)
    } else if token == "DEVICE"@ {
        entity_text(parameters.device)
    } else if token == "DEVICE_FROM"@ {
        entity_text(parameters.device_from)
    } else if token == "DEVICE_TO"@ {
        entity_text(parameters.device_to)
    } else if token == "WLAN"@ {
        entity_text(parameters.wlan)
    } else if token == "NETWORK"@ {
        entity_text(parameters.network)
    } else {
        None
    }
}

/// Where a closing brace stands first, from a position on.
pub open spec fn closing(text: Seq<char>, from: int) -> Option<int>
    decreases text.len() - from,
{
    if from < 0 || from >= text.len() {
        None
    } else if text[from] == '}' {
        Some(from)
    } else {
        closing(text, from + 1)
    }
}

/// The text from a position on with each `{TOKEN}` of a known entity
/// replaced, in one pass: what is put in is never read again.
pub open spec fn expanded(text: Seq<char>, parameters: SystemLogParameters, from: int) -> Seq<char>
    decreases text.len() - from,
{
    if from < 0 || from >= text.len() {
        Seq::empty()
    } else if text[from] != '{' {
        seq![text[from]] + expanded(text, parameters, from + 1)
    } else {
        match closing(text, from + 1) {
            None => text.subrange(from, text.len() as int),
            Some(end) => if end <= from || end >= text.len() {
                Seq::empty()
            } else {
                let part = match token_text(text.subrange(from + 1, end), parameters) {
                    Some(replacement) => replacement,
                    None => text.subrange(from, end + 1),
                };
                part + expanded(text, parameters, end + 1)
            },
        }
    }
}

/// The text a message is made of: the raw message, else the raw title.
pub open spec fn raw_text(entry: SystemLogEntry) -> Option<Seq<char>> {
    match non_empty(opt_string(entry.message_raw)) {
        Some(text) => Some(text),
        None => opt_string(entry.title_raw),
    }
}

/// The message of an entry.
pub open spec fn message_text(entry: SystemLogEntry) -> Option<Seq<char>> {
    match raw_text(entry) {
        Some(text) => Some(bounded(expanded(text, entry.parameters, 0))),
        None => None,
    }
}

fn entity_chars(entity: &Option<SystemLogEntity>) -> (chars: Option<Vec<char>>)
    ensures
        match chars {
            Some(list) => entity_text(*entity) == Some(list@),
            None => entity_text(*entity) is None,
        },
{
    match entity {
        Some(inner) => {
            if let Some(name) = &inner.name {
                if !name.as_str().is_empty() {
                    return Some(chars_of(name.as_str()));
                }
            }
            if let Some(id) = &inner.id {
                if !id.as_str().is_empty() {
                    return Some(chars_of(id.as_str()));
                }
            }
            None
        },
        None => None,
    }
}

fn token_chars(token: &str, parameters: &SystemLogParameters) -> (chars: Option<Vec<char>>)
    ensures
        match chars {
            Some(list) => token_text(token@, *parameters) == Some(list@),
            None => token_text(token@, *parameters) is None,
        },
{
    if same_text(token, "CLIENT") {
        entity_chars(&parameters.client)
    } else if same_text(token, "DEVICE") {
        entity_chars(&parameters.device)
    } else if same_text(token, "DEVICE_FROM") {
        entity_chars(&parameters.device_from)
    } else if same_text(token, "DEVICE_TO") {
        entity_chars(&parameters.device_to)
    } else if same_text(token, "WLAN") {
        entity_chars(&parameters.wlan)
    } else if same_text(token, "NETWORK") {
        entity_chars(&parameters.network)
    } else {
        None
    }
}

fn find_closing(text: &Vec<char>, from: usize) -> (at: Option<usize>)
    requires
        from <= text@.len(),
    ensures
        match at {
            Some(i) => closing(text@, from as int) == Some(i as int) && from <= i < text@.len(),
            None => closing(text@, from as int) is None,
        },
{
    let mut i: usize = from;
    while i < text.len()
        invariant
            from <= i <= text@.len(),
            closing(text@, from as int) == closing(text@, i as int),
        decreases text@.len() - i,
    {
        if text[i] == '}' {
            return Some(i);
        }
        i += 1;
    }
    None
}

/// Whether one text begins with another, or is it.
pub open spec fn begins_with(whole: Seq<char>, start: Seq<char>) -> bool {
    start.len() <= whole.len() && whole.take(start.len() as int) == start
}

/// Appends characters until the output is one longer than the ceiling.
fn append_within(output: &mut Vec<char>, part: &Vec<char>, from: usize, to: usize)
    requires
        from <= to <= part@.len(),
        old(output)@.len() <= EVENT_MESSAGE_CEILING,
    ensures
        final(output)@.len() <= EVENT_MESSAGE_CEILING + 1,
        begins_with(old(output)@ + part@.subrange(from as int, to as int), final(output)@),
        final(output)@.len() <= EVENT_MESSAGE_CEILING ==> final(output)@ == old(output)@
            + part@.subrange(from as int, to as int),
{
    let ghost prior = output@;
    let mut i: usize = from;
    assert(output@ =~= prior + part@.subrange(from as int, i as int));
    while i < to && output.len() <= EVENT_MESSAGE_CEILING
        invariant
            from <= i <= to <= part@.len(),
            output@.len() <= EVENT_MESSAGE_CEILING + 1,
            output@ == prior + part@.subrange(from as int, i as int),
        decreases to - i,
    {
        output.push(part[i]);
        i += 1;
        assert(output@ =~= prior + part@.subrange(from as int, i as int));
    }
    assert((prior + part@.subrange(from as int, to as int)).take(output@.len() as int)
        =~= output@);
}

/// Texts that begin alike beyond the ceiling are shown alike.
proof fn lemma_bounded_prefix(whole: Seq<char>, start: Seq<char>)
    requires
        begins_with(whole, start),
        start.len() > EVENT_MESSAGE_CEILING,
    ensures
        bounded(whole) == bounded(start),
{
    assert(whole.take(EVENT_MESSAGE_CEILING - 1) =~= whole.take(start.len() as int).take(
        EVENT_MESSAGE_CEILING - 1,
    ));
}

proof fn lemma_begins_with_more(a: Seq<char>, b: Seq<char>, start: Seq<char>)
    requires
        begins_with(a, start),
    ensures
        begins_with(a + b, start),
{
    assert((a + b).take(start.len() as int) =~= a.take(start.len() as int));
}

/// The bounded expansion of a text.
fn expand(text: &Vec<char>, parameters: &SystemLogParameters) -> (shown: Vec<char>)
    ensures
        shown@ == bounded(expanded(text@, *parameters, 0)),
{
    let ghost whole = expanded(text@, *parameters, 0);
    let mut output: Vec<char> = Vec::new();
    let mut i: usize = 0;
    assert(output@ + expanded(text@, *parameters, 0) =~= whole);
    assert(whole.take(0) =~= output@);
    while i < text.len() && output.len() <= EVENT_MESSAGE_CEILING
        invariant
            i <= text@.len(),
            whole == expanded(text@, *parameters, 0),
            output@.len() <= EVENT_MESSAGE_CEILING + 1,
            begins_with(whole, output@),
            output@.len() <= EVENT_MESSAGE_CEILING ==> whole == output@ + expanded(
                text@,
                *parameters,
                i as int,
            ),
        decreases text@.len() - i,
    {
        let ghost prior = output@;
        if text[i] != '{' {
            output.push(text[i]);
            assert(prior + (seq![text@[i as int]] + expanded(text@, *parameters, i + 1))
                =~= output@ + expanded(text@, *parameters, i + 1));
            assert(whole.take(output@.len() as int) =~= output@);
            i += 1;
        } else {
            match find_closing(text, i + 1) {
                None => {
                    let ghost part = text@.subrange(i as int, text@.len() as int);
                    append_within(&mut output, text, i, text.len());
                    i = text.len();
                    assert(expanded(text@, *parameters, i as int) =~= Seq::<char>::empty());
                    assert(whole == prior + part);
                    assert(output@ + expanded(text@, *parameters, i as int) =~= output@);
                },
                Some(end) => {
                    let token = slice_text(text, i + 1, end);
                    let ghost rest = expanded(text@, *parameters, end + 1);
                    match token_chars(token.as_str(), parameters) {
                        Some(replacement) => {
                            append_within(&mut output, &replacement, 0, replacement.len());
                            proof {
                                assert(replacement@.subrange(0, replacement@.len() as int)
                                    =~= replacement@);
                                assert(whole == prior + (replacement@ + rest));
                                assert(prior + (replacement@ + rest) =~= (prior + replacement@)
                                    + rest);
                                lemma_begins_with_more(prior + replacement@, rest, output@);
                            }
                        },
                        None => {
                            append_within(&mut output, text, i, end + 1);
                            proof {
                                let part = text@.subrange(i as int, end + 1);
                                assert(whole == prior + (part + rest));
                                assert(prior + (part + rest) =~= (prior + part) + rest);
                                lemma_begins_with_more(prior + part, rest, output@);
                            }
                        },
                    }
                    i = end + 1;
                },
            }
        }
    }
    if output.len() <= EVENT_MESSAGE_CEILING {
        assert(expanded(text@, *parameters, i as int) =~= Seq::<char>::empty());
        assert(whole =~= output@);
        return output;
    }
    proof {
        lemma_bounded_prefix(whole, output@);
    }
    output.truncate(EVENT_MESSAGE_CEILING - 1);
    output.push(CUT_MARK);
    assert(output@ =~= bounded(whole));
    output
}

/// Substitutes only known entity names, in one pass. Inserted text is never
/// interpreted again, and expansion cannot exceed the display ceiling.
pub fn message(entry: &SystemLogEntry) -> (result: Option<String>)
    ensures
        opt_string(result) == message_text(*entry),
{
    let mut raw: Option<Vec<char>> = None;
    if let Some(text) = &entry.message_raw {
        if !text.as_str().is_empty() {
            raw = Some(chars_of(text.as_str()));
        }
    }
    if raw.is_none() {
        if let Some(text) = &entry.title_raw {
            raw = Some(chars_of(text.as_str()));
        }
    }
    match raw {
        Some(chars) => {
            let shown = expand(&chars, &entry.parameters);
            let text = slice_text(&shown, 0, shown.len());
            assert(text@ =~= shown@);
            Some(text)
        },
        None => None,
    }
}

/// Whether a row shows an entry.
pub open spec fn shows_entry(row: LogEventRow, entry: SystemLogEntry) -> bool {
    &&& row.time == entry.timestamp
    &&& row.key == (match entry.key {
        Some(key) => Some(key),
        None => entry.event,
    })
    &&& opt_string(row.message) == message_text(entry)
    &&& row.category == entry.category
    &&& row.severity == entry.severity
    &&& row.client_mac == (match entry.parameters.client {
        Some(client) => client.id,
        None => None,
    })
}

/// The row an entry is shown as.
pub fn event_row(entry: SystemLogEntry) -> (row: LogEventRow)
    ensures
        shows_entry(row, entry),
{
    let message = message(&entry);
    let key = match entry.key {
        Some(key) => Some(key),
        None => entry.event,
    };
    let client_mac = match entry.parameters.client {
        Some(client) => client.id,
        None => None,
    };
    LogEventRow {
        time: entry.timestamp,
        key,
        message,
        category: entry.category,
        severity: entry.severity,
        client_mac,
    }
}

// ---------------------------------------------------------------------------
// Laws
// ---------------------------------------------------------------------------

/// A message never exceeds the display ceiling, whatever the entities are
/// called.
pub proof fn law_message_fits(entry: SystemLogEntry)
    ensures
        message_text(entry) matches Some(text) ==> text.len() <= EVENT_MESSAGE_CEILING,
{
}

/// A text without an opening brace is left as it is.
pub proof fn law_text_without_tokens_stays(
    text: Seq<char>,
    parameters: SystemLogParameters,
    from: int,
)
    requires
        0 <= from <= text.len(),
        forall|i: int| from <= i < text.len() ==> #[trigger] text[i] != '{',
    ensures
        expanded(text, parameters, from) == text.skip(from),
    decreases text.len() - from,
{
    if from < text.len() {
        law_text_without_tokens_stays(text, parameters, from + 1);
        assert(seq![text[from]] + text.skip(from + 1) =~= text.skip(from));
    } else {
        assert(text.skip(from) =~= Seq::<char>::empty());
    }
}

/// A token that names no known entity is left as it is written.
pub proof fn law_unknown_tokens_stay(
    text: Seq<char>,
    parameters: SystemLogParameters,
    from: int,
    end: int,
)
    requires
        0 <= from < end < text.len(),
        text[from] == '{',
        closing(text, from + 1) == Some(end),
        token_text(text.subrange(from + 1, end), parameters) is None,
    ensures
        expanded(text, parameters, from) == text.subrange(from, end + 1) + expanded(
            text,
            parameters,
            end + 1,
        ),
{
}

} // verus!
