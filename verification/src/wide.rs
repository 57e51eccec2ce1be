//! UTF-16 text, as Windows hands names over, and its ties to Rust strings.

use vstd::prelude::*;
use widestring::{U16CString, U16Str, U16String};

verus! {

/// The UTF-16 code units of one character: the character itself below U+10000, a surrogate pair
/// from there on.
pub open spec fn char_units(c: char) -> Seq<u16> {
    if (c as int) < 0x10000 {
        seq![c as u16]
    } else {
        seq![
            (0xD800 + (c as int - 0x10000) / 0x400) as u16,
            (0xDC00 + (c as int - 0x10000) % 0x400) as u16,
        ]
    }
}

/// The UTF-16 encoding of a text.
pub open spec fn utf16(text: Seq<char>) -> Seq<u16>
    decreases text.len(),
{
    if text.len() == 0 {
        Seq::empty()
    } else {
        char_units(text[0]) + utf16(text.drop_first())
    }
}

/// Whether some text has the code units `units`.
pub open spec fn is_utf16(units: Seq<u16>) -> bool {
    exists|text: Seq<char>| utf16(text) == units
}

/// The text whose code units are `units`; there is at most one, see [`utf16_injective`].
pub open spec fn text_of(units: Seq<u16>) -> Seq<char> {
    choose|text: Seq<char>| utf16(text) == units
}

/// The two encodings of one character agree only if the characters do, and neither is a proper
/// prefix of the other.
proof fn char_units_prefix_free(a: char, b: char, rest_a: Seq<u16>, rest_b: Seq<u16>)
    requires
        char_units(a) + rest_a == char_units(b) + rest_b,
    ensures
        a == b,
        rest_a == rest_b,
{
    let left = char_units(a) + rest_a;
    let right = char_units(b) + rest_b;
    assert(left[0] == char_units(a)[0]);
    assert(right[0] == char_units(b)[0]);
    if (a as int) < 0x10000 && (b as int) < 0x10000 {
        assert(a as int == b as int);
        assert(rest_a =~= left.skip(1));
        assert(rest_b =~= right.skip(1));
    } else if (a as int) >= 0x10000 && (b as int) >= 0x10000 {
        assert(left[1] == char_units(a)[1]);
        assert(right[1] == char_units(b)[1]);
        assert(a as int == b as int);
        assert(rest_a =~= left.skip(2));
        assert(rest_b =~= right.skip(2));
    }
}

/// Two texts with the same code units are the same text.
pub proof fn utf16_injective(a: Seq<char>, b: Seq<char>)
    requires
        utf16(a) == utf16(b),
    ensures
        a == b,
    decreases a.len(),
{
    if a.len() == 0 {
        if b.len() != 0 {
            assert(utf16(b).len() >= char_units(b[0]).len());
        }
        assert(a =~= b);
    } else if b.len() == 0 {
        assert(utf16(a).len() >= char_units(a[0]).len());
    } else {
        char_units_prefix_free(a[0], b[0], utf16(a.drop_first()), utf16(b.drop_first()));
        utf16_injective(a.drop_first(), b.drop_first());
        assert(a =~= seq![a[0]] + a.drop_first());
        assert(b =~= seq![b[0]] + b.drop_first());
    }
}

/// Decoding undoes encoding: the text of a text's own code units is that text.
pub proof fn decode_of_encode(text: Seq<char>)
    ensures
        is_utf16(utf16(text)),
        text_of(utf16(text)) == text,
{
    utf16_injective(text_of(utf16(text)), text);
}

/// The code units of two texts, one after the other, are those of the texts one after the other.
pub proof fn utf16_concat(a: Seq<char>, b: Seq<char>)
    ensures
        utf16(a + b) == utf16(a) + utf16(b),
    decreases a.len(),
{
    if a.len() == 0 {
        assert(a + b =~= b);
        assert(utf16(a) + utf16(b) =~= utf16(b));
    } else {
        utf16_concat(a.drop_first(), b);
        assert((a + b).drop_first() =~= a.drop_first() + b);
        assert(utf16(a + b) =~= utf16(a) + utf16(b));
    }
}

/// Only U+0000 has a zero among its code units.
proof fn char_units_nul(c: char)
    ensures
        char_units(c).contains(0u16) <==> c == '\0',
{
    if (c as int) < 0x10000 {
        assert(char_units(c)[0] == c as int);
    } else {
        assert(char_units(c)[0] == 0xD800 + (c as int - 0x10000) / 0x400);
        assert(char_units(c)[1] == 0xDC00 + (c as int - 0x10000) % 0x400);
    }
}

/// A text has a zero code unit exactly if it holds the character U+0000.
pub proof fn utf16_nul(text: Seq<char>)
    ensures
        utf16(text).contains(0u16) <==> text.contains('\0'),
    decreases text.len(),
{
    if text.len() > 0 {
        let first = char_units(text[0]);
        let rest = text.drop_first();
        utf16_nul(rest);
        assert(text =~= seq![text[0]] + rest);
        char_units_nul(text[0]);
        if utf16(text).contains(0u16) {
            let i = choose|i: int| 0 <= i < utf16(text).len() && utf16(text)[i] == 0u16;
            if i < first.len() {
                assert(first[i] == 0u16);
                assert(text[0] == '\0');
            } else {
                assert(utf16(rest)[i - first.len()] == 0u16);
                let j = choose|j: int| 0 <= j < rest.len() && rest[j] == '\0';
                assert(text[j + 1] == '\0');
            }
        }
        if text.contains('\0') {
            let j = choose|j: int| 0 <= j < text.len() && text[j] == '\0';
            if j == 0 {
                let i = choose|i: int| 0 <= i < first.len() && first[i] == 0u16;
                assert(utf16(text)[i] == 0u16);
            } else {
                assert(rest[j - 1] == '\0');
                let i = choose|i: int| 0 <= i < utf16(rest).len() && utf16(rest)[i] == 0u16;
                assert(utf16(text)[i + first.len()] == 0u16);
            }
        }
    }
}

/// Decodes UTF-16 through `widestring::U16Str::to_string`, which hands the units to
/// `String::from_utf16`. Trusted: a text comes back exactly if the units are well-formed UTF-16,
/// that is if some text has them as its encoding, and what comes back is that text.
#[verifier::external_body]
pub(crate) fn decode_units(units: &[u16]) -> (text: Option<String>)
    ensures
        text matches Some(t) ==> utf16(t@) == units@,
        text is None ==> !is_utf16(units@),
{
    U16Str::from_slice(units).to_string().ok()
}

/// Encodes a text through `widestring::U16String::from_str`. Trusted: the units are those of
/// `str::encode_utf16`, the UTF-16 encoding of the text, with nothing appended.
#[verifier::external_body]
pub(crate) fn encode_text(text: &str) -> (units: Vec<u16>)
    ensures
        units@ == utf16(text@),
{
    U16String::from_str(text).into_vec()
}

/// Appends the terminating zero through `widestring::U16CString::from_ustr`. Trusted: it fails
/// exactly if there is a zero among the units already.
#[verifier::external_body]
pub(crate) fn terminate_units(units: &[u16]) -> (terminated: Option<Vec<u16>>)
    ensures
        terminated is None <==> units@.contains(0u16),
        terminated matches Some(t) ==> t@ == units@.push(0u16),
{
    U16CString::from_ustr(U16Str::from_slice(units)).ok().map(U16CString::into_vec_with_nul)
}

/// Encodes a text as zero-terminated UTF-16 through `widestring::U16CString::from_str`. Trusted:
/// it fails exactly if there is a zero among the text's code units.
#[verifier::external_body]
pub(crate) fn terminate_text(text: &str) -> (terminated: Option<Vec<u16>>)
    ensures
        terminated is None <==> utf16(text@).contains(0u16),
        terminated matches Some(t) ==> t@ == utf16(text@).push(0u16),
{
    U16CString::from_str(text).ok().map(U16CString::into_vec_with_nul)
}

/// The text of a file name that Windows handed over, or nothing if the name is not UTF-16.
pub fn name_text(units: &[u16]) -> (text: Option<String>)
    ensures
        text is Some <==> is_utf16(units@),
        text matches Some(t) ==> t@ == text_of(units@),
{
    let text: Option<String> = decode_units(units);
    proof {
        if text is Some {
            decode_of_encode(text->0@);
        }
    }
    text
}

} // verus!
