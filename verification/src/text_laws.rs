//! What holds of texts and of the forms they are compared and shown in.

use vstd::prelude::*;
use vstd::string::*;

use crate::display::{
    bounded_nonblank_text, bounded_option, bounded_text, connection_word, mac_form, normalize_mac,
};
use crate::text::{
    ascii_lower, ascii_lowercase, contains, decimal, digit, eq_ignoring_ascii_case, is_white_space,
    occurs_at, precedes, same_ignoring_ascii_case, text_contains, text_precedes, trimmed,
};

verus! {

// ---------------------------------------------------------------------------
// Parts of texts
// ---------------------------------------------------------------------------

/// A text holds every text it has between two parts, and what it holds stands
/// between two parts of it.
pub proof fn law_a_text_holds_its_parts(hay: Seq<char>, needle: Seq<char>)
    ensures
        contains(hay, needle) <==> exists|before: Seq<char>, after: Seq<char>|
            hay == #[trigger] (before + needle + after),
{
    if contains(hay, needle) {
        let at = choose|at: int| occurs_at(hay, needle, at);
        let before = hay.take(at);
        let after = hay.skip(at + needle.len());
        assert(hay =~= before + needle + after);
    }
    if exists|before: Seq<char>, after: Seq<char>| hay == #[trigger] (before + needle + after) {
        let (before, after) = choose|before: Seq<char>, after: Seq<char>|
            hay == #[trigger] (before + needle + after);
        let at = before.len() as int;
        assert(hay.subrange(at, at + needle.len()) =~= needle);
        assert(occurs_at(hay, needle, at));
    }
}

/// Looking for a text answers whether it stands anywhere.
pub proof fn law_a_search_in_a_text_misses_nothing(hay: &str, needle: &str, found: bool)
    requires
        call_ensures(text_contains, (hay, needle), found),
    ensures
        found <==> exists|before: Seq<char>, after: Seq<char>|
            hay@ == #[trigger] (before + needle@ + after),
{
    law_a_text_holds_its_parts(hay@, needle@);
}

// ---------------------------------------------------------------------------
// White space around texts
// ---------------------------------------------------------------------------

/// The characters that count as white space.
pub open spec fn white_space_codes() -> Seq<u32> {
    seq![
        9u32, 10u32, 11u32, 12u32, 13u32, 32u32, 133u32, 160u32, 5760u32, 8192u32, 8193u32,
        8194u32, 8195u32, 8196u32, 8197u32, 8198u32, 8199u32, 8200u32, 8201u32, 8202u32, 8232u32,
        8233u32, 8239u32, 8287u32, 12288u32,
    ]
}

/// A character counts as white space exactly where it is one of the listed
/// ones.
pub proof fn law_white_space_is_a_fixed_set(c: char)
    ensures
        is_white_space(c) <==> white_space_codes().contains(c as u32),
{
    reveal(is_white_space);
    let codes = white_space_codes();
    let u = c as u32;
    if is_white_space(c) {
        let at: int = if 9 <= u <= 13 {
            u - 9
        } else if u == 32 {
            5
        } else if u == 133 {
            6
        } else if u == 160 {
            7
        } else if u == 5760 {
            8
        } else if 8192 <= u <= 8202 {
            u - 8192 + 9
        } else if u == 8232 {
            20
        } else if u == 8233 {
            21
        } else if u == 8239 {
            22
        } else if u == 8287 {
            23
        } else {
            24
        };
        assert(codes[at] == u);
    }
    if codes.contains(u) {
        let at = choose|at: int| 0 <= at < codes.len() && codes[at] == u;
        assert(is_white_space(c));
    }
}

/// Whether every character of a text is white space.
pub open spec fn is_blank(text: Seq<char>) -> bool {
    forall|i: int| 0 <= i < text.len() ==> is_white_space(#[trigger] text[i])
}

proof fn lemma_trim_splits(text: Seq<char>) -> (parts: (Seq<char>, Seq<char>))
    ensures
        text == parts.0 + trimmed(text) + parts.1,
        is_blank(parts.0),
        is_blank(parts.1),
        trimmed(text).len() > 0 ==> !is_white_space(trimmed(text).first()) && !is_white_space(
            trimmed(text).last(),
        ),
    decreases text.len(),
{
    if text.len() == 0 {
        assert(text =~= Seq::<char>::empty() + trimmed(text) + Seq::<char>::empty());
        (Seq::empty(), Seq::empty())
    } else if is_white_space(text.first()) {
        let (before, after) = lemma_trim_splits(text.drop_first());
        let more = seq![text.first()] + before;
        let rest = text.drop_first();
        assert(text =~= seq![text.first()] + rest);
        assert(trimmed(text) == trimmed(rest));
        assert(seq![text.first()] + (before + trimmed(rest) + after) =~= more + trimmed(rest)
            + after);
        (more, after)
    } else if is_white_space(text.last()) {
        let (before, after) = lemma_trim_splits(text.drop_last());
        let more = after.push(text.last());
        let rest = text.drop_last();
        assert(text =~= rest.push(text.last()));
        assert(trimmed(text) == trimmed(rest));
        assert((before + trimmed(rest) + after).push(text.last()) =~= before + trimmed(rest)
            + more);
        (before, more)
    } else {
        assert(text =~= Seq::<char>::empty() + trimmed(text) + Seq::<char>::empty());
        (Seq::empty(), Seq::empty())
    }
}

/// Trimming takes white space off both ends and nothing else: what is left
/// neither begins nor ends with it.
pub proof fn law_trimming_takes_white_space_off_the_ends(text: Seq<char>)
    ensures
        exists|before: Seq<char>, after: Seq<char>|
            {
                &&& text == #[trigger] (before + trimmed(text) + after)
                &&& is_blank(before)
                &&& is_blank(after)
            },
        trimmed(text).len() > 0 ==> !is_white_space(trimmed(text).first()) && !is_white_space(
            trimmed(text).last(),
        ),
        trimmed(text).len() == 0 <==> is_blank(text),
{
    let (before, after) = lemma_trim_splits(text);
    assert(text == before + trimmed(text) + after);
    if is_blank(text) && trimmed(text).len() > 0 {
        assert(text[before.len() as int] == trimmed(text).first());
    }
    if trimmed(text).len() == 0 {
        assert forall|i: int| 0 <= i < text.len() implies is_white_space(#[trigger] text[i]) by {
            if i < before.len() {
                assert(text[i] == before[i]);
            } else {
                assert(text[i] == after[i - before.len()]);
            }
        }
    }
}

/// What trimming leaves does not depend on the white space around it.
pub proof fn law_surrounding_white_space_does_not_matter(
    before: Seq<char>,
    text: Seq<char>,
    after: Seq<char>,
)
    requires
        is_blank(before),
        is_blank(after),
        text.len() > 0,
        !is_white_space(text.first()),
        !is_white_space(text.last()),
    ensures
        trimmed(before + text + after) == text,
    decreases before.len() + after.len(),
{
    let all = before + text + after;
    if before.len() > 0 {
        assert(all.first() == before[0]);
        assert(all.drop_first() =~= before.drop_first() + text + after);
        assert forall|i: int| 0 <= i < before.drop_first().len() implies is_white_space(
            #[trigger] before.drop_first()[i],
        ) by {
            assert(before.drop_first()[i] == before[i + 1]);
        }
        law_surrounding_white_space_does_not_matter(before.drop_first(), text, after);
    } else if after.len() > 0 {
        assert(all.first() == text.first());
        assert(all.last() == after[after.len() - 1]);
        assert(all.drop_last() =~= before + text + after.drop_last());
        assert forall|i: int| 0 <= i < after.drop_last().len() implies is_white_space(
            #[trigger] after.drop_last()[i],
        ) by {
            assert(after.drop_last()[i] == after[i]);
        }
        law_surrounding_white_space_does_not_matter(before, text, after.drop_last());
    } else {
        assert(all =~= text);
    }
}

// ---------------------------------------------------------------------------
// Letter case
// ---------------------------------------------------------------------------

/// Lowering an ASCII capital gives the small letter at the same place of the
/// alphabet.
pub proof fn law_capitals_have_small_letters(i: int)
    requires
        0 <= i < 26,
    ensures
        "ABCDEFGHIJKLMNOPQRSTUVWXYZ"@.len() == 26,
        ascii_lower("ABCDEFGHIJKLMNOPQRSTUVWXYZ"@[i]) == "abcdefghijklmnopqrstuvwxyz"@[i],
{
    reveal_strlit("ABCDEFGHIJKLMNOPQRSTUVWXYZ");
    reveal_strlit("abcdefghijklmnopqrstuvwxyz");
}

/// Every other character stays as it is.
pub proof fn law_other_characters_keep_their_case(c: char)
    requires
        !"ABCDEFGHIJKLMNOPQRSTUVWXYZ"@.contains(c),
    ensures
        ascii_lower(c) == c,
{
    reveal_strlit("ABCDEFGHIJKLMNOPQRSTUVWXYZ");
    if 'A' <= c <= 'Z' {
        let at = c as u32 - 'A' as u32;
        assert("ABCDEFGHIJKLMNOPQRSTUVWXYZ"@[at as int] == c);
    }
}

/// Two texts are the same but for ASCII case exactly where they are as long
/// as each other and stand letter for letter for the same small letters.
pub proof fn law_case_is_ignored_letter_by_letter(a: &str, b: &str, same: bool)
    requires
        call_ensures(same_ignoring_ascii_case, (a, b), same),
    ensures
        same <==> a@.len() == b@.len() && forall|i: int|
            0 <= i < a@.len() ==> ascii_lower(#[trigger] a@[i]) == ascii_lower(b@[i]),
{
    let x = ascii_lowercase(a@);
    let y = ascii_lowercase(b@);
    assert(x.len() == a@.len() && y.len() == b@.len());
    assert(same == (x == y));
    if same {
        assert forall|i: int| 0 <= i < a@.len() implies ascii_lower(#[trigger] a@[i])
            == ascii_lower(b@[i]) by {
            assert(x[i] == y[i]);
        }
    }
    if a@.len() == b@.len() && forall|i: int|
        0 <= i < a@.len() ==> ascii_lower(#[trigger] a@[i]) == ascii_lower(b@[i]) {
        assert forall|i: int| 0 <= i < x.len() implies x[i] == y[i] by {
            assert(ascii_lower(a@[i]) == ascii_lower(b@[i]));
        }
        assert(x =~= y);
    }
}

/// A text equals itself whatever the case of its ASCII letters.
pub proof fn law_lowered_text_is_the_same_but_for_case(text: Seq<char>)
    ensures
        eq_ignoring_ascii_case(ascii_lowercase(text), text),
        ascii_lowercase(text).len() == text.len(),
{
    let lower = ascii_lowercase(text);
    assert forall|i: int| 0 <= i < text.len() implies ascii_lower(lower[i]) == lower[i] by {}
    assert(ascii_lowercase(lower) =~= lower);
}

// ---------------------------------------------------------------------------
// Numbers and order
// ---------------------------------------------------------------------------

/// The number a text of decimal digits writes.
pub open spec fn read_back(text: Seq<char>) -> nat
    decreases text.len(),
{
    if text.len() == 0 {
        0
    } else {
        read_back(text.drop_last()) * 10 + (text.last() as nat - '0' as nat) as nat
    }
}

/// A number is written with decimal digits alone that read back as it, and
/// with no zero in front.
pub proof fn law_decimals_read_back(n: nat)
    ensures
        read_back(decimal(n)) == n,
        decimal(n).len() > 0,
        decimal(n)[0] == '0' ==> n == 0,
        forall|i: int| 0 <= i < decimal(n).len() ==> '0' <= #[trigger] decimal(n)[i] <= '9',
    decreases n,
{
    let text = decimal(n);
    if n < 10 {
        assert(text.drop_last() =~= Seq::empty());
        assert(read_back(text.drop_last()) == 0);
        assert(text.last() == digit(n));
    } else {
        law_decimals_read_back(n / 10);
        assert(text.drop_last() =~= decimal(n / 10));
        assert(text.last() == digit(n % 10));
        assert(text[0] == decimal(n / 10)[0]);
        assert forall|i: int| 0 <= i < text.len() implies '0' <= #[trigger] text[i] <= '9' by {
            if i < text.len() - 1 {
                assert(text[i] == decimal(n / 10)[i]);
            }
        }
    }
}

/// A text stands before another exactly where they agree up to a place at
/// which it ends, or has the smaller character.
pub proof fn law_texts_stand_in_dictionary_order(a: &str, b: &str, before: bool)
    requires
        call_ensures(text_precedes, (a, b), before),
    ensures
        before <==> exists|k: int| #[trigger] parts_at(a@, b@, k),
{
    lemma_dictionary_order(a@, b@);
}

/// Whether two texts agree before a place, and the first ends there or has
/// the smaller character.
pub open spec fn parts_at(a: Seq<char>, b: Seq<char>, k: int) -> bool {
    &&& 0 <= k <= a.len()
    &&& k < b.len()
    &&& a.take(k) == b.take(k)
    &&& k == a.len() || a[k] < b[k]
}

proof fn lemma_dictionary_order(a: Seq<char>, b: Seq<char>)
    ensures
        precedes(a, b) <==> exists|k: int| #[trigger] parts_at(a, b, k),
    decreases a.len(),
{
    if b.len() == 0 {
    } else if a.len() == 0 {
        assert(a.take(0) =~= b.take(0));
        assert(parts_at(a, b, 0));
    } else if a[0] != b[0] {
        if a[0] < b[0] {
            assert(a.take(0) =~= b.take(0));
            assert(parts_at(a, b, 0));
        }
        if exists|k: int| #[trigger] parts_at(a, b, k) {
            let k = choose|k: int| #[trigger] parts_at(a, b, k);
            if k > 0 {
                assert(a.take(k)[0] == b.take(k)[0]);
            }
        }
    } else {
        let x = a.drop_first();
        let y = b.drop_first();
        lemma_dictionary_order(x, y);
        if precedes(x, y) {
            let k = choose|k: int| #[trigger] parts_at(x, y, k);
            assert(a.take(k + 1) =~= seq![a[0]] + x.take(k));
            assert(b.take(k + 1) =~= seq![b[0]] + y.take(k));
            assert(parts_at(a, b, k + 1));
        }
        if exists|k: int| #[trigger] parts_at(a, b, k) {
            let k = choose|k: int| #[trigger] parts_at(a, b, k);
            if k > 0 {
                assert(x.take(k - 1) =~= a.take(k).drop_first());
                assert(y.take(k - 1) =~= b.take(k).drop_first());
                assert(parts_at(x, y, k - 1));
            }
        }
    }
}

// ---------------------------------------------------------------------------
// Texts as they are shown
// ---------------------------------------------------------------------------

/// A shown text is the text itself up to 256 characters; a longer one shows
/// its first 255 characters and an ellipsis.
pub proof fn law_shown_texts_are_whole_or_cut(text: String, shown: String)
    requires
        call_ensures(bounded_text, (text,), shown),
    ensures
        text@.len() <= 256 ==> shown@ == text@,
        text@.len() > 256 ==> {
            &&& shown@.len() == 256
            &&& shown@.last() == '\u{2026}'
            &&& forall|i: int| 0 <= i < 255 ==> #[trigger] shown@[i] == text@[i]
        },
{
}

/// An absent text is shown as absent, and any other as it would be alone.
pub proof fn law_absent_texts_stay_absent(text: Option<String>, shown: Option<String>)
    requires
        call_ensures(bounded_option, (text,), shown),
    ensures
        shown is Some <==> text is Some,
        text matches Some(inner) ==> {
            &&& inner@.len() <= 256 ==> shown->Some_0@ == inner@
            &&& inner@.len() > 256 ==> shown->Some_0@ == inner@.take(255).push('\u{2026}')
        },
{
}

/// A text of white space alone is shown as absent; any other is shown.
pub proof fn law_blank_texts_are_absent(text: String, shown: Option<String>)
    requires
        call_ensures(bounded_nonblank_text, (text,), shown),
    ensures
        shown is None <==> is_blank(text@),
        shown matches Some(inner) ==> (text@.len() <= 256 ==> inner@ == text@) && (text@.len()
            > 256 ==> inner@ == text@.take(255).push('\u{2026}')),
{
    law_trimming_takes_white_space_off_the_ends(text@);
}

/// Two addresses have the same comparable form where they differ in ASCII
/// case and surrounding white space alone, and only there.
pub proof fn law_addresses_compare_without_case_and_space(a: Seq<char>, b: Seq<char>)
    ensures
        mac_form(a) == mac_form(b) <==> trimmed(a).len() == trimmed(b).len() && forall|i: int|
            0 <= i < trimmed(a).len() ==> ascii_lower(#[trigger] trimmed(a)[i]) == ascii_lower(
                trimmed(b)[i],
            ),
{
    let x = trimmed(a);
    let y = trimmed(b);
    let fx = mac_form(a);
    let fy = mac_form(b);
    assert(fx.len() == x.len() && fy.len() == y.len());
    if fx == fy {
        assert forall|i: int| 0 <= i < x.len() implies ascii_lower(#[trigger] x[i]) == ascii_lower(
            y[i],
        ) by {
            assert(fx[i] == fy[i]);
        }
    }
    if x.len() == y.len() && forall|i: int|
        0 <= i < x.len() ==> ascii_lower(#[trigger] x[i]) == ascii_lower(y[i]) {
        assert forall|i: int| 0 <= i < fx.len() implies fx[i] == fy[i] by {
            assert(ascii_lower(x[i]) == ascii_lower(y[i]));
        }
        assert(fx =~= fy);
    }
}

/// The comparable form of an address is the address without white space
/// around it, each letter small.
pub proof fn law_comparable_address_is_small_and_bare(mac: &str, form: String)
    requires
        call_ensures(normalize_mac, (mac,), form),
    ensures
        form@.len() == trimmed(mac@).len(),
        forall|i: int|
            0 <= i < form@.len() ==> #[trigger] form@[i] == ascii_lower(trimmed(mac@)[i]),
{
}

/// The medium of a client is named by what it reports, and an unreported one
/// is called unknown.
pub proof fn law_the_medium_is_named(is_wired: Option<bool>, word: &'static str)
    requires
        call_ensures(connection_word, (is_wired,), word),
    ensures
        word@ == "wired"@ <==> is_wired == Some(true),
        word@ == "wireless"@ <==> is_wired == Some(false),
        word@ == "unknown"@ <==> is_wired is None,
{
    reveal_strlit("wired");
    reveal_strlit("wireless");
    reveal_strlit("unknown");
    assert("wired"@.len() == 5 && "wireless"@.len() == 8 && "unknown"@.len() == 7);
}

} // verus!
