//! How controller-reported text is shown and compared.

use vstd::prelude::*;
use vstd::string::*;

use crate::text::{
    ascii_lower, ascii_lowercase, chars_of, is_white_space, lowercase, opt_string, opt_text,
    slice_text, to_ascii_lowercase, to_lowercase, trim, trimmed,
};

verus! {

/// Ceiling on one message's characters in output.
pub const EVENT_MESSAGE_CEILING: usize = 256;

/// The mark at the end of a text that was cut.
pub const CUT_MARK: char = '\u{2026}';

/// A text bounded for display: as it is where it fits, else its beginning
/// with a mark at the end, the mark counting toward the ceiling.
pub open spec fn bounded(text: Seq<char>) -> Seq<char> {
    if text.len() <= EVENT_MESSAGE_CEILING {
        text
    } else {
        text.take(EVENT_MESSAGE_CEILING - 1).push(CUT_MARK)
    }
}

/// A bounded optional text.
pub open spec fn opt_bounded(text: Option<Seq<char>>) -> Option<Seq<char>> {
    match text {
        Some(inner) => Some(bounded(inner)),
        None => None,
    }
}

/// A bounded text, absent where it holds nothing but white space.
pub open spec fn bounded_nonblank(text: Seq<char>) -> Option<Seq<char>> {
    if trimmed(text).len() == 0 {
        None
    } else {
        Some(bounded(text))
    }
}

/// Bounds one line of controller-reported text for display, appending a
/// visible marker when the cut actually happened so a truncated excerpt is
/// never mistaken for the whole message.
pub fn bounded_text(text: String) -> (shown: String)
    ensures
        shown@ == bounded(text@),
        text@.len() <= EVENT_MESSAGE_CEILING ==> shown == text,
{
    let chars = chars_of(text.as_str());
    if chars.len() <= EVENT_MESSAGE_CEILING {
        return text;
    }
    let mut shown = slice_text(&chars, 0, EVENT_MESSAGE_CEILING - 1);
    assert(shown@ =~= text@.take(EVENT_MESSAGE_CEILING - 1));
    shown.push(CUT_MARK);
    shown
}

/// Bounds an optional text.
pub fn bounded_option(text: Option<String>) -> (shown: Option<String>)
    ensures
        opt_string(shown) == opt_bounded(opt_string(text)),
{
    match text {
        Some(text) => Some(bounded_text(text)),
        None => None,
    }
}

/// Bounds a text that holds something other than white space.
pub fn bounded_nonblank_text(text: String) -> (shown: Option<String>)
    ensures
        opt_string(shown) == bounded_nonblank(text@),
{
    let inner = trim(text.as_str());
    if inner.as_str().is_empty() {
        None
    } else {
        Some(bounded_text(text))
    }
}

/// A hardware address in the form addresses are compared in.
pub open spec fn mac_form(mac: Seq<char>) -> Seq<char> {
    ascii_lowercase(trimmed(mac))
}

/// The comparable form of an optional hardware address.
pub open spec fn opt_mac_form(mac: Option<Seq<char>>) -> Option<Seq<char>> {
    match mac {
        Some(text) => Some(mac_form(text)),
        None => None,
    }
}

/// A hardware address in the form addresses are compared in: trimmed, with
/// small letters.
pub fn normalize_mac(mac: &str) -> (form: String)
    ensures
        form@ == mac_form(mac@),
{
    let inner = trim(mac);
    to_ascii_lowercase(inner.as_str())
}

/// The comparable form of an optional hardware address.
pub fn normalize_option(mac: &Option<String>) -> (form: Option<String>)
    ensures
        opt_string(form) == opt_mac_form(opt_string(*mac)),
{
    match mac {
        Some(text) => Some(normalize_mac(text.as_str())),
        None => None,
    }
}

/// What an optional name is sorted by.
pub open spec fn name_key(name: Option<Seq<char>>) -> Seq<char> {
    match name {
        Some(text) => lowercase(text),
        None => lowercase(Seq::empty()),
    }
}

/// What an optional name is sorted by: its lowercase form, or nothing.
pub fn sort_key(name: Option<&str>) -> (key: String)
    ensures
        key@ == name_key(opt_text(name)),
{
    match name {
        Some(text) => to_lowercase(text),
        None => {
            let nothing = String::new();
            to_lowercase(nothing.as_str())
        },
    }
}

/// The word for how a client is connected.
pub open spec fn connection_text(is_wired: Option<bool>) -> &'static str {
    match is_wired {
        Some(true) => "wired",
        Some(false) => "wireless",
        None => "unknown",
    }
}

/// The word for how a client is connected. Where the controller omits the
/// type none is made up.
pub fn connection_word(is_wired: Option<bool>) -> (word: &'static str)
    ensures
        word == connection_text(is_wired),
{
    match is_wired {
        Some(true) => "wired",
        Some(false) => "wireless",
        None => "unknown",
    }
}

// ---------------------------------------------------------------------------
// Laws
// ---------------------------------------------------------------------------

/// A displayed text never exceeds the ceiling, and displaying it again
/// changes nothing.
pub proof fn law_bounded_text_fits_and_stays(text: Seq<char>)
    ensures
        bounded(text).len() <= EVENT_MESSAGE_CEILING,
        bounded(bounded(text)) == bounded(text),
        bounded(text) != text <==> text.len() > EVENT_MESSAGE_CEILING,
{
}

proof fn lemma_trimmed_is_trimmed(text: Seq<char>)
    ensures
        trimmed(text).len() > 0 ==> !is_white_space(trimmed(text).first()) && !is_white_space(
            trimmed(text).last(),
        ),
    decreases text.len(),
{
    if text.len() > 0 {
        if is_white_space(text.first()) {
            lemma_trimmed_is_trimmed(text.drop_first());
        } else if is_white_space(text.last()) {
            lemma_trimmed_is_trimmed(text.drop_last());
        }
    }
}

proof fn lemma_lower_keeps_space(c: char)
    ensures
        is_white_space(ascii_lower(c)) == is_white_space(c),
        ascii_lower(ascii_lower(c)) == ascii_lower(c),
{
    reveal(is_white_space);
}

/// A comparable address is its own comparable form.
pub proof fn law_normalized_mac_stays(mac: Seq<char>)
    ensures
        mac_form(mac_form(mac)) == mac_form(mac),
{
    let inner = trimmed(mac);
    let form = ascii_lowercase(inner);
    lemma_trimmed_is_trimmed(mac);
    assert forall|i: int| 0 <= i < form.len() implies is_white_space(#[trigger] form[i])
        == is_white_space(inner[i]) && ascii_lower(form[i]) == form[i] by {
        lemma_lower_keeps_space(inner[i]);
    }
    if form.len() > 0 {
        assert(form[0] == form.first() && form[form.len() - 1] == form.last());
        assert(inner[0] == inner.first() && inner[inner.len() - 1] == inner.last());
    }
    assert(trimmed(form) == form);
    assert(ascii_lowercase(form) =~= form);
}

} // verus!
