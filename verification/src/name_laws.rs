//! What holds of names, of what is kept under them, of paths made of them, and of numbers written
//! in decimal.

use crate::names::{
    collected, collected_distinct, distinct, folded, has_name, holds_at, lookup, names_of, place,
    place_unique, put, put_distinct, put_names, same_name, without, without_distinct,
};
use crate::path::{components, pieces, SEPARATOR};
use crate::text::{decimal, digits_value, is_digit_byte, parsed_u64, unsigned_digits};
use vstd::prelude::*;

verus! {

/// Being the same name is an equivalence, and the same names have the same length.
pub proof fn same_name_equivalence(a: Seq<u16>, b: Seq<u16>, c: Seq<u16>)
    ensures
        same_name(a, a),
        same_name(a, b) ==> same_name(b, a),
        same_name(a, b) && same_name(b, c) ==> same_name(a, c),
        same_name(a, b) ==> a.len() == b.len(),
{
    assert(folded(a).len() == a.len());
    assert(folded(b).len() == b.len());
}

/// A value that was put under a name is found under it, and under no other name is anything else
/// found than before.
pub proof fn lookup_after_put<V>(
    items: Seq<(Seq<u16>, V)>,
    name: Seq<u16>,
    value: V,
    other: Seq<u16>,
)
    requires
        distinct(items),
    ensures
        lookup(put(items, name, value), other) == if same_name(name, other) {
            Some(value)
        } else {
            lookup(items, other)
        },
{
    let after = put(items, name, value);
    put_distinct(items, name, value);
    let spot = if has_name(items, name) {
        place(items, name)
    } else {
        items.len() as int
    };
    if has_name(items, name) {
        assert(holds_at(items, name, spot));
    }
    if same_name(name, other) {
        assert(holds_at(after, other, spot));
        place_unique(after, other, spot);
    } else {
        if has_name(items, other) {
            let at = place(items, other);
            assert(holds_at(items, other, at));
            assert(holds_at(after, other, at));
            place_unique(after, other, at);
        }
        if has_name(after, other) {
            let at = place(after, other);
            assert(holds_at(after, other, at));
            assert(at != spot);
            assert(holds_at(items, other, at));
        }
    }
}

/// A name whose value was taken away has none, and under no other name is anything else found
/// than before.
pub proof fn lookup_after_removal<V>(
    items: Seq<(Seq<u16>, V)>,
    name: Seq<u16>,
    other: Seq<u16>,
)
    requires
        distinct(items),
    ensures
        lookup(without(items, name), other) == if same_name(name, other) {
            None
        } else {
            lookup(items, other)
        },
{
    let after = without(items, name);
    without_distinct(items, name);
    if has_name(items, name) {
        let spot = place(items, name);
        assert(holds_at(items, name, spot));
        assert forall|i: int| 0 <= i < after.len() implies #[trigger] after[i] == items[if i
            < spot {
            i
        } else {
            i + 1
        }] by {}
        if has_name(after, other) {
            let at = place(after, other);
            assert(holds_at(after, other, at));
            let from = if at < spot {
                at
            } else {
                at + 1
            };
            assert(holds_at(items, other, from));
            place_unique(items, other, from);
            if same_name(name, other) {
                place_unique(items, name, from);
            }
        }
        if has_name(items, other) && !same_name(name, other) {
            let at = place(items, other);
            assert(holds_at(items, other, at));
            let to = if at < spot {
                at
            } else {
                at - 1
            };
            assert(after[to] == items[at]);
            assert(holds_at(after, other, to));
            place_unique(after, other, to);
        }
    } else {
        if has_name(items, other) {
            let at = place(items, other);
            assert(holds_at(items, other, at));
            if same_name(name, other) {
                assert(holds_at(items, name, at));
            }
        }
    }
}

/// Of the pairs that are put one after the other, each name keeps the value that was put last.
pub proof fn collected_keeps_last<V>(pairs: Seq<(Seq<u16>, V)>, k: int)
    requires
        0 <= k < pairs.len(),
        forall|m: int| k < m < pairs.len() ==> !same_name((#[trigger] pairs[m]).0, pairs[k].0),
    ensures
        lookup(collected(pairs), pairs[k].0) == Some(pairs[k].1),
    decreases pairs.len(),
{
    let rest = pairs.drop_last();
    collected_distinct(rest);
    lookup_after_put(collected(rest), pairs.last().0, pairs.last().1, pairs[k].0);
    if k < pairs.len() - 1 {
        assert(pairs.last() == pairs[pairs.len() - 1]);
        assert forall|m: int| k < m < rest.len() implies !same_name(
            (#[trigger] rest[m]).0,
            rest[k].0,
        ) by {
            assert(rest[m] == pairs[m]);
        }
        collected_keeps_last(rest, k);
    }
}

/// A name is left exactly if it was put.
pub proof fn collected_names<V>(pairs: Seq<(Seq<u16>, V)>, name: Seq<u16>)
    ensures
        has_name(collected(pairs), name) <==> exists|k: int|
            0 <= k < pairs.len() && same_name((#[trigger] pairs[k]).0, name),
    decreases pairs.len(),
{
    if pairs.len() == 0 {
        if has_name(collected(pairs), name) {
            assert(holds_at(collected(pairs), name, place(collected(pairs), name)));
        }
    } else {
        let rest = pairs.drop_last();
        collected_names(rest, name);
        collected_distinct(rest);
        lookup_after_put(collected(rest), pairs.last().0, pairs.last().1, name);
        if has_name(collected(rest), name) {
            let k = choose|k: int|
                0 <= k < rest.len() && same_name((#[trigger] rest[k]).0, name);
            assert(pairs[k] == rest[k]);
        }
        if same_name(pairs.last().0, name) {
            assert(same_name(pairs[pairs.len() - 1].0, name));
        }
        if exists|k: int| 0 <= k < pairs.len() && same_name((#[trigger] pairs[k]).0, name) {
            let k = choose|k: int|
                0 <= k < pairs.len() && same_name((#[trigger] pairs[k]).0, name);
            if k < rest.len() {
                assert(same_name(rest[k].0, name));
            }
        }
    }
}

/// Every value that is left was one of the values that were put.
pub proof fn collected_value_from<V>(pairs: Seq<(Seq<u16>, V)>, i: int)
    requires
        0 <= i < collected(pairs).len(),
    ensures
        exists|j: int| 0 <= j < pairs.len() && (#[trigger] pairs[j]).1 == collected(pairs)[i].1,
    decreases pairs.len(),
{
    let rest = pairs.drop_last();
    let before = collected(rest);
    let name = pairs.last().0;
    if has_name(before, name) {
        assert(holds_at(before, name, place(before, name)));
    }
    if i < before.len() && collected(pairs)[i] == before[i] {
        collected_value_from(rest, i);
        let j = choose|j: int| 0 <= j < rest.len() && (#[trigger] rest[j]).1 == before[i].1;
        assert(pairs[j] == rest[j]);
    } else {
        assert(pairs[pairs.len() - 1].1 == collected(pairs)[i].1);
    }
}

/// Which names are left does not depend on the values.
pub proof fn collected_names_alike<V, W>(pairs: Seq<(Seq<u16>, V)>, others: Seq<(Seq<u16>, W)>)
    requires
        names_of(pairs) == names_of(others),
    ensures
        names_of(collected(pairs)) == names_of(collected(others)),
    decreases pairs.len(),
{
    assert(names_of(pairs).len() == pairs.len());
    assert(names_of(others).len() == others.len());
    if pairs.len() == 0 {
        assert(names_of(collected(pairs)) =~= names_of(collected(others)));
    } else {
        let (p, q) = (pairs.drop_last(), others.drop_last());
        assert(names_of(p) =~= names_of(pairs).drop_last());
        assert(names_of(q) =~= names_of(others).drop_last());
        collected_names_alike(p, q);
        assert(names_of(pairs).last() == pairs.last().0);
        assert(names_of(others).last() == others.last().0);
        put_names(
            collected(p),
            collected(q),
            pairs.last().0,
            pairs.last().1,
            others.last().1,
        );
    }
}

/// Whether components are names: not empty, and without backslashes.
pub open spec fn are_names(parts: Seq<Seq<u16>>) -> bool {
    forall|i: int|
        0 <= i < parts.len() ==> (#[trigger] parts[i]).len() > 0 && !parts[i].contains(SEPARATOR)
}

/// Components, one after the other.
pub open spec fn concatenated(parts: Seq<Seq<u16>>) -> Seq<u16>
    decreases parts.len(),
{
    if parts.len() == 0 {
        Seq::empty()
    } else {
        concatenated(parts.drop_last()) + parts.last()
    }
}

/// The units of a path that are no backslashes.
pub open spec fn unseparated(units: Seq<u16>) -> Seq<u16> {
    units.filter(|unit: u16| unit != SEPARATOR)
}

/// Pieces of a path are names, and nothing of the path is lost in them.
proof fn pieces_are_names(units: Seq<u16>)
    ensures
        are_names(pieces(units).0),
        !pieces(units).1.contains(SEPARATOR),
        concatenated(pieces(units).0) + pieces(units).1 == unseparated(units),
    decreases units.len(),
{
    reveal(Seq::filter);
    let (done, current) = pieces(units);
    if units.len() == 0 {
        assert(concatenated(done) + current =~= unseparated(units));
    } else {
        let rest = units.drop_last();
        pieces_are_names(rest);
        let (before, part) = pieces(rest);
        if units.last() != SEPARATOR {
            assert(current =~= part.push(units.last()));
            assert forall|i: int| 0 <= i < current.len() implies current[i] != SEPARATOR by {
                if i < part.len() {
                    assert(part.contains(part[i]));
                }
            }
            assert(concatenated(done) + current =~= (concatenated(before) + part).push(
                units.last(),
            ));
        } else if part.len() > 0 {
            assert(done.drop_last() =~= before);
            assert forall|i: int| 0 <= i < done.len() implies (#[trigger] done[i]).len() > 0
                && !done[i].contains(SEPARATOR) by {
                if i < before.len() {
                    assert(done[i] == before[i]);
                } else {
                    assert(done[i] == part);
                }
            }
            assert(concatenated(done) + current =~= concatenated(before) + part);
        }
    }
}

/// The components of a path are names, and together are all of the path but its backslashes.
pub proof fn components_are_names(units: Seq<u16>)
    ensures
        are_names(components(units)),
        concatenated(components(units)) == unseparated(units),
{
    pieces_are_names(units);
    let (done, current) = pieces(units);
    if current.len() > 0 {
        let parts = components(units);
        assert(parts.drop_last() =~= done);
        assert forall|i: int| 0 <= i < parts.len() implies (#[trigger] parts[i]).len() > 0
            && !parts[i].contains(SEPARATOR) by {
            if i < done.len() {
                assert(parts[i] == done[i]);
            }
        }
    } else {
        assert(concatenated(done) + current =~= concatenated(done));
    }
}

/// A path has no components exactly if it is made of backslashes alone, as the root's is.
pub proof fn root_has_no_components(units: Seq<u16>)
    ensures
        components(units).len() == 0 <==> forall|i: int|
            0 <= i < units.len() ==> #[trigger] units[i] == SEPARATOR,
    decreases units.len(),
{
    if units.len() > 0 {
        let rest = units.drop_last();
        root_has_no_components(rest);
        if forall|i: int| 0 <= i < units.len() ==> #[trigger] units[i] == SEPARATOR {
            assert forall|i: int| 0 <= i < rest.len() implies #[trigger] rest[i] == SEPARATOR by {
                assert(rest[i] == units[i]);
            }
        }
        if components(units).len() == 0 {
            assert(units.last() == SEPARATOR);
            assert forall|i: int| 0 <= i < units.len() implies #[trigger] units[i] == SEPARATOR by {
                if i < rest.len() {
                    assert(rest[i] == units[i]);
                }
            }
        }
    }
}

/// The bytes of a text of ASCII characters.
pub open spec fn ascii(text: Seq<char>) -> Seq<u8> {
    Seq::new(text.len(), |i: int| text[i] as u8)
}

/// The digits of a number are digits, and write the number down.
proof fn decimal_digits(n: nat)
    ensures
        decimal(n).len() > 0,
        forall|i: int| 0 <= i < decimal(n).len() ==> is_digit_byte(#[trigger] ascii(decimal(n))[i]),
        digits_value(ascii(decimal(n))) == n,
    decreases n,
{
    let bytes = ascii(decimal(n));
    if n < 10 {
        assert(bytes.drop_last() =~= Seq::empty());
        assert(digits_value(bytes.drop_last()) == 0);
        assert(bytes.last() == 0x30 + n);
    } else {
        decimal_digits(n / 10);
        let before = ascii(decimal(n / 10));
        assert(bytes.drop_last() =~= before);
        assert(bytes.last() == 0x30 + n % 10);
        assert forall|i: int| 0 <= i < decimal(n).len() implies is_digit_byte(
            #[trigger] bytes[i],
        ) by {
            if i < before.len() {
                assert(bytes[i] == before[i]);
            }
        }
    }
}

/// A number that is written in decimal and read again is the same number.
pub proof fn parse_of_decimal(n: u64)
    ensures
        parsed_u64(ascii(decimal(n as nat))) == Some(n),
{
    decimal_digits(n as nat);
    let bytes = ascii(decimal(n as nat));
    assert(is_digit_byte(bytes[0]));
    assert(unsigned_digits(bytes) == bytes);
}

} // verus!
