//! What numbers, texts and names look like in writing: facts that fix each notation on its own
//! terms.

use crate::fields::{field_value, first_end, first_marked, marked, quoting};
use crate::names::{folded, lower, same_name};
use crate::path::{
    before_colon, components, file_part, pieces, stream_of, stream_part, stream_type, valid_name,
    StreamType,
};
use crate::text::{
    decimal, digits_value, is_digit_byte, parsed_u64, signed_decimal, unsigned_digits,
};
use crate::wide::{utf16};
use vstd::prelude::*;

verus! {

/// A number below ten is written as its digit; one digit more at the end is ten times the number
/// and that digit.
pub proof fn decimal_by_digits(n: nat, d: nat)
    requires
        d < 10,
    ensures
        decimal(d).len() == 1,
        decimal(d)[0] as int == 48 + d,
        n > 0 ==> decimal(10 * n + d) == decimal(n).push(decimal(d)[0]),
{
    assert((10 * n + d) / 10 == n);
    assert((10 * n + d) % 10 == d);
}

/// A number that is not negative is written without a sign, a negative one with a minus sign before
/// its magnitude.
pub proof fn signs(n: nat)
    ensures
        signed_decimal(n as int) == decimal(n),
        n > 0 ==> signed_decimal(-(n as int)) == seq!['-'] + decimal(n),
{
}

/// The last digit counts once, and those before it ten times.
proof fn digits_push(bytes: Seq<u8>, c: u8)
    ensures
        digits_value(bytes.push(c)) == 10 * digits_value(bytes) + (c - 0x30) as nat,
{
    assert(bytes.push(c).drop_last() =~= bytes);
}

/// Numbers are read digit by digit: a single digit is its value, another digit makes ten times the
/// number and that digit where that fits into 64 bits, and everything else is no number. A plus
/// sign may stand in front.
pub proof fn numbers_are_read_by_digits(bytes: Seq<u8>, c: u8)
    ensures
        parsed_u64(Seq::<u8>::empty()) is None,
        parsed_u64(seq![43u8]) is None,
        parsed_u64(seq![c]) == if 48 <= c <= 57 {
            Some((c - 48) as u64)
        } else {
            None
        },
        parsed_u64(seq![43u8, c]) == parsed_u64(seq![c]),
        bytes.len() > 0 && bytes != seq![43u8] ==> parsed_u64(bytes.push(c)) == (
        match parsed_u64(bytes) {
            Some(v) => if 48 <= c <= 57 && 10 * v + (c - 48) <= 0xFFFF_FFFF_FFFF_FFFF {
                Some((10 * v + (c - 48)) as u64)
            } else {
                None
            },
            None => None,
        }),
{
    reveal_with_fuel(digits_value, 2);
    assert(seq![c].drop_last() =~= Seq::empty());
    assert(seq![43u8, c].drop_first() =~= seq![c]);
    assert(seq![43u8].drop_first() =~= Seq::empty());
    assert(seq![c][0] == c);
    if c == 43 {
        assert(seq![c] =~= seq![43u8]);
    } else {
        assert(unsigned_digits(seq![c]) == seq![c]);
        if 48 <= c <= 57 {
            assert forall|i: int| 0 <= i < seq![c].len() implies is_digit_byte(
                #[trigger] seq![c][i],
            ) by {}
        } else {
            assert(!is_digit_byte(seq![c][0]));
        }
    }
    if bytes.len() > 0 && bytes != seq![43u8] {
        let digits = unsigned_digits(bytes);
        let more = unsigned_digits(bytes.push(c));
        if bytes[0] == 43 {
            assert(bytes.push(c).drop_first() =~= bytes.drop_first().push(c));
            if bytes.len() == 1 {
                assert(bytes =~= seq![43u8]);
            }
        }
        assert(more =~= digits.push(c));
        assert(digits.len() > 0);
        digits_push(digits, c);
        assert forall|i: int| 0 <= i < digits.len() implies #[trigger] more[i] == digits[i] by {}
        assert(more[digits.len() as int] == c);
        if forall|i: int| 0 <= i < more.len() ==> is_digit_byte(#[trigger] more[i]) {
            assert forall|i: int| 0 <= i < digits.len() implies is_digit_byte(
                #[trigger] digits[i],
            ) by {
                assert(is_digit_byte(more[i]));
            }
            assert(is_digit_byte(more[digits.len() as int]));
        }
        if (forall|i: int| 0 <= i < digits.len() ==> is_digit_byte(#[trigger] digits[i]))
            && is_digit_byte(c) {
            assert forall|i: int| 0 <= i < more.len() implies is_digit_byte(#[trigger] more[i]) by {
                if i < digits.len() {
                    assert(is_digit_byte(digits[i]));
                }
            }
        }
    }
}

/// A character is one code unit, its own number, or two that hold its number past 0x10000 in ten
/// bits each; a text has those of its characters, one after the other.
pub proof fn units_of_characters(c: char, rest: Seq<char>)
    ensures
        utf16(Seq::empty()) == Seq::<u16>::empty(),
        (c as int) < 0x10000 ==> utf16(seq![c] + rest) == seq![c as u16] + utf16(rest),
        (c as int) >= 0x10000 ==> exists|high: u16, low: u16|
            {
                &&& 0xD800 <= high < 0xDC00
                &&& 0xDC00 <= low < 0xE000
                &&& (high - 0xD800) * 0x400 + (low - 0xDC00) + 0x10000 == c as int
                &&& utf16(seq![c] + rest) == #[trigger] seq![high, low] + utf16(rest)
            },
{
    let text = seq![c] + rest;
    assert(text.drop_first() =~= rest);
    assert(text[0] == c);
    if (c as int) >= 0x10000 {
        let over = c as int - 0x10000;
        let high = (0xD800 + over / 0x400) as u16;
        let low = (0xDC00 + over % 0x400) as u16;
        assert(over < 0x100000);
        assert(utf16(text) == seq![high, low] + utf16(rest));
    }
}

/// Two names are the same exactly if they have the same length, and units in the same place are
/// equal or are the capital and the small form of one ASCII letter.
pub proof fn names_are_the_same_but_for_case(a: Seq<u16>, b: Seq<u16>)
    ensures
        same_name(a, b) <==> a.len() == b.len() && forall|i: int|
            0 <= i < a.len() ==> {
                ||| #[trigger] a[i] == b[i]
                ||| 65 <= a[i] <= 90 && b[i] == a[i] + 32
                ||| 65 <= b[i] <= 90 && a[i] == b[i] + 32
            },
{
    assert(folded(a).len() == a.len() && folded(b).len() == b.len());
    if same_name(a, b) {
        assert forall|i: int| 0 <= i < a.len() implies {
            ||| #[trigger] a[i] == b[i]
            ||| 65 <= a[i] <= 90 && b[i] == a[i] + 32
            ||| 65 <= b[i] <= 90 && a[i] == b[i] + 32
        } by {
            assert(folded(a)[i] == folded(b)[i]);
        }
    }
    if a.len() == b.len() && forall|i: int|
        0 <= i < a.len() ==> {
            ||| #[trigger] a[i] == b[i]
            ||| 65 <= a[i] <= 90 && b[i] == a[i] + 32
            ||| 65 <= b[i] <= 90 && a[i] == b[i] + 32
        } {
        assert forall|i: int| 0 <= i < a.len() implies folded(a)[i] == folded(b)[i] by {
            assert(a[i] == a[i]);
        }
        assert(folded(a) =~= folded(b));
    }
}

/// The lower-case form of a unit adds 32 to an ASCII capital, and nothing to any other unit.
pub proof fn lower_case_of_units(c: u16)
    ensures
        65 <= c <= 90 ==> lower(c) == c + 32,
        !(65 <= c <= 90) ==> lower(c) == c,
{
}

/// What the pieces of a path make of one more unit.
proof fn pieces_push(units: Seq<u16>, c: u16)
    ensures
        pieces(units.push(c)) == if c != 0x5C {
            (pieces(units).0, pieces(units).1.push(c))
        } else if pieces(units).1.len() > 0 {
            (pieces(units).0.push(pieces(units).1), Seq::empty())
        } else {
            pieces(units)
        },
{
    assert(units.push(c).drop_last() =~= units);
}

/// A path that goes on behind a backslash has the components of both of its parts.
proof fn components_behind(a: Seq<u16>, b: Seq<u16>)
    ensures
        pieces(a + seq![0x5Cu16] + b).0 == components(a) + pieces(b).0,
        pieces(a + seq![0x5Cu16] + b).1 == pieces(b).1,
    decreases b.len(),
{
    if b.len() == 0 {
        assert(a + seq![0x5Cu16] + b =~= a.push(0x5Cu16));
        pieces_push(a, 0x5C);
        assert(components(a) + pieces(b).0 =~= components(a));
        if pieces(a).1.len() == 0 {
            assert(pieces(a).1 =~= Seq::empty());
        }
    } else {
        let rest = b.drop_last();
        components_behind(a, rest);
        assert(a + seq![0x5Cu16] + b =~= (a + seq![0x5Cu16] + rest).push(b.last()));
        assert(b =~= rest.push(b.last()));
        pieces_push(a + seq![0x5Cu16] + rest, b.last());
        pieces_push(rest, b.last());
        assert((components(a) + pieces(rest).0).push(pieces(rest).1) =~= components(a) + pieces(
            rest,
        ).0.push(pieces(rest).1));
    }
}

/// A name without backslashes is one piece.
proof fn one_piece(name: Seq<u16>)
    requires
        forall|i: int| 0 <= i < name.len() ==> name[i] != 0x5C,
    ensures
        pieces(name).0 == Seq::<Seq<u16>>::empty(),
        pieces(name).1 == name,
    decreases name.len(),
{
    if name.len() > 0 {
        one_piece(name.drop_last());
        assert(name =~= name.drop_last().push(name.last()));
        pieces_push(name.drop_last(), name.last());
    }
}

/// Backslashes separate the components of a path: a path with a backslash in it has the components
/// of what stands before and of what stands behind it, and a path without one is a single
/// component, or none if it is empty.
pub proof fn backslashes_separate(a: Seq<u16>, b: Seq<u16>)
    ensures
        components(a + seq![0x5Cu16] + b) == components(a) + components(b),
        (forall|i: int| 0 <= i < a.len() ==> a[i] != 0x5C) ==> components(a) == if a.len() > 0 {
            seq![a]
        } else {
            Seq::empty()
        },
{
    components_behind(a, b);
    let whole = a + seq![0x5Cu16] + b;
    assert((components(a) + pieces(b).0).push(pieces(b).1) =~= components(a) + pieces(b).0.push(
        pieces(b).1,
    ));
    assert(components(whole) =~= components(a) + components(b));
    if forall|i: int| 0 <= i < a.len() ==> a[i] != 0x5C {
        one_piece(a);
        assert(components(a) =~= if a.len() > 0 {
            seq![a]
        } else {
            Seq::empty()
        });
    }
}

/// The first colon is where nothing before it is a colon.
proof fn colon_at(a: Seq<u16>, b: Seq<u16>)
    requires
        forall|i: int| 0 <= i < a.len() ==> a[i] != 58,
        b.len() > 0 ==> b[0] == 58,
    ensures
        before_colon(a + b) == a.len(),
    decreases a.len(),
{
    if a.len() == 0 {
        assert(a + b =~= b);
    } else {
        assert((a + b).drop_first() =~= a.drop_first() + b);
        colon_at(a.drop_first(), b);
    }
}

/// The last component of a path is the name of a file up to its first colon; what stands behind it
/// names a stream, and behind another colon one of three types, or else the whole is no name.
pub proof fn colons_name_streams(file: Seq<u16>, stream: Seq<u16>, kind: Seq<u16>)
    requires
        forall|i: int| 0 <= i < file.len() ==> file[i] != 58,
        forall|i: int| 0 <= i < stream.len() ==> stream[i] != 58,
    ensures
        file_part(file) == file && stream_part(file) is None && valid_name(file),
        ({
            let name = file + seq![58u16] + stream;
            &&& file_part(name) == file
            &&& valid_name(name)
            &&& stream_part(name) == Some(stream)
            &&& stream_of(stream) == Some((stream, StreamType::Data))
        }),
        ({
            let name = file + seq![58u16] + stream + seq![58u16] + kind;
            let data = same_name(kind, utf16("$DATA"@));
            let index = same_name(kind, utf16("$INDEX_ALLOCATION"@));
            let bitmap = same_name(kind, utf16("$BITMAP"@));
            &&& file_part(name) == file
            &&& stream_part(name) == Some(stream + seq![58u16] + kind)
            &&& valid_name(name) <==> data || index || bitmap
            &&& data ==> stream_of(stream + seq![58u16] + kind) == Some((stream, StreamType::Data))
            &&& index && !data ==> stream_of(stream + seq![58u16] + kind) == Some(
                (stream, StreamType::IndexAllocation),
            )
            &&& bitmap && !data && !index ==> stream_of(stream + seq![58u16] + kind) == Some(
                (stream, StreamType::Bitmap),
            )
        }),
{
    let colon = seq![58u16];
    colon_at(file, Seq::empty());
    assert(file + Seq::<u16>::empty() =~= file);
    assert(file.take(file.len() as int) =~= file);
    colon_at(stream, Seq::empty());
    assert(stream + Seq::<u16>::empty() =~= stream);
    let name = file + colon + stream;
    assert(name =~= file + (colon + stream));
    colon_at(file, colon + stream);
    assert(name.take(file.len() as int) =~= file);
    assert(name.skip(file.len() as int + 1) =~= stream);
    let part = stream + colon + kind;
    let full = file + colon + stream + colon + kind;
    assert(full =~= file + (colon + part));
    colon_at(file, colon + part);
    assert(full.take(file.len() as int) =~= file);
    assert(full.skip(file.len() as int + 1) =~= part);
    assert(part =~= stream + (colon + kind));
    colon_at(stream, colon + kind);
    assert(part.take(stream.len() as int) =~= stream);
    assert(part.skip(stream.len() as int + 1) =~= kind);
    assert(stream_type(kind) == stream_type(kind));
}

/// A quote opens and closes a quotation, and behind a backslash in one it does neither.
pub proof fn quotations(text: Seq<char>, c: char)
    ensures
        !quoting(Seq::empty()).0,
        !quoting(text).0 ==> quoting(text.push(c)) == (c == '"', false),
        quoting(text) == (true, true) ==> quoting(text.push(c)) == (true, false),
        quoting(text) == (true, false) ==> quoting(text.push(c)) == (c != '"', c == '\\'),
{
    assert(text.push(c).drop_last() =~= text);
}

/// The value of a field is read as it stands: where the marker first stands outside of quotations,
/// up to the first end behind it.
pub proof fn field_is_read(
    head: Seq<char>,
    marker: Seq<char>,
    value: Seq<char>,
    end: char,
    tail: Seq<char>,
)
    requires
        marker.len() > 0,
        !quoting(head).0,
        !value.contains(end),
        forall|at: int|
            0 <= at < head.len() && !(#[trigger] quoting(head.take(at))).0 ==> (head + marker
                + value + seq![end] + tail).subrange(at, at + marker.len()) != marker,
    ensures
        field_value(head + marker + value + seq![end] + tail, marker, end) == Some(value),
{
    let text = head + marker + value + seq![end] + tail;
    let at = head.len() as int;
    let start = at + marker.len();
    let to = start + value.len();
    assert(text.take(at) =~= head);
    assert(text.subrange(at, start) =~= marker);
    assert(text.subrange(start, to) =~= value);
    assert(text[to] == end);
    assert forall|m: int| 0 <= m < at implies !#[trigger] marked(text, marker, m) by {
        assert(text.take(m) =~= head.take(m));
        assert(text.take(m) == head.take(m));
    }
    first_mark_found(text, marker, 0, at);
    assert forall|m: int| start <= m < to implies text[m] != end by {
        assert(text[m] == value[m - start]);
        assert(value.contains(value[m - start]));
    }
    first_end_found(text, end, start, to);
}

/// The first mark is found.
proof fn first_mark_found(text: Seq<char>, marker: Seq<char>, from: int, at: int)
    requires
        0 <= from <= at < text.len(),
        marked(text, marker, at),
        forall|m: int| from <= m < at ==> !#[trigger] marked(text, marker, m),
    ensures
        first_marked(text, marker, from) == Some(at),
    decreases at - from,
{
    if from < at {
        assert(!marked(text, marker, from));
        first_mark_found(text, marker, from + 1, at);
    }
}

/// The first end is found.
proof fn first_end_found(text: Seq<char>, end: char, from: int, to: int)
    requires
        0 <= from <= to < text.len(),
        text[to] == end,
        forall|m: int| from <= m < to ==> text[m] != end,
    ensures
        first_end(text, end, from) == Some(to),
    decreases to - from,
{
    if from < to {
        first_end_found(text, end, from + 1, to);
    }
}

} // verus!
