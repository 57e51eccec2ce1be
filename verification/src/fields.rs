//! Fields of a value, read from the text that `Debug` gives of it.

use vstd::prelude::*;

verus! {

/// Whether a text ends inside of quotes, and if so, whether with a backslash that takes the next
/// character's meaning away.
pub open spec fn quoting(text: Seq<char>) -> (bool, bool)
    decreases text.len(),
{
    if text.len() == 0 {
        (false, false)
    } else {
        quoting_after(quoting(text.drop_last()), text.last())
    }
}

/// What one more character makes of being inside of quotes.
pub open spec fn quoting_after(before: (bool, bool), c: char) -> (bool, bool) {
    let (inside, escaped) = before;
    if !inside {
        (c == '"', false)
    } else if escaped {
        (true, false)
    } else {
        (c != '"', c == '\\')
    }
}

/// Whether `marker` stands at a place of the text, and begins outside of quotes.
pub open spec fn marked(text: Seq<char>, marker: Seq<char>, at: int) -> bool {
    &&& 0 <= at <= text.len() - marker.len()
    &&& !quoting(text.take(at)).0
    &&& text.subrange(at, at + marker.len()) == marker
}

/// The first place from `from` on where `marker` stands.
pub open spec fn first_marked(text: Seq<char>, marker: Seq<char>, from: int) -> Option<int>
    decreases text.len() - from,
{
    if from >= text.len() {
        None
    } else if marked(text, marker, from) {
        Some(from)
    } else {
        first_marked(text, marker, from + 1)
    }
}

/// The first place from `from` on where the character `end` stands.
pub open spec fn first_end(text: Seq<char>, end: char, from: int) -> Option<int>
    decreases text.len() - from,
{
    if from >= text.len() {
        None
    } else if text[from] == end {
        Some(from)
    } else {
        first_end(text, end, from + 1)
    }
}

/// What stands between the first `marker` outside of quotes and the next `end`.
pub open spec fn field_value(text: Seq<char>, marker: Seq<char>, end: char) -> Option<Seq<char>> {
    match first_marked(text, marker, 0) {
        Some(at) => match first_end(text, end, at + marker.len()) {
            Some(to) => Some(text.subrange(at + marker.len(), to)),
            None => None,
        },
        None => None,
    }
}

/// The characters of a text.
fn characters(text: &str) -> (chars: Vec<char>)
    ensures
        chars@ == text@,
{
    let mut rest = text.chars();
    let mut chars: Vec<char> = Vec::new();
    loop
        invariant
            chars@.len() <= text@.len(),
            chars@ == text@.take(chars@.len() as int),
            vstd::std_specs::iter::IteratorSpec::remaining(&rest) == text@.skip(
                chars@.len() as int,
            ),
            vstd::std_specs::iter::IteratorSpec::decrease(&rest) is Some,
        decreases vstd::std_specs::iter::IteratorSpec::decrease(&rest)->0,
    {
        match rest.next() {
            None => {
                assert(text@.take(text@.len() as int) =~= text@);
                return chars;
            },
            Some(c) => {
                let ghost done = chars@.len() as int;
                assert(c == text@[done]);
                assert(text@.skip(done).drop_first() =~= text@.skip(done + 1));
                assert(text@.take(done + 1) =~= text@.take(done).push(c));
                chars.push(c);
            },
        }
    }
}

/// Whether `marker` stands at a place.
fn stands_at(text: &Vec<char>, marker: &Vec<char>, at: usize) -> (yes: bool)
    requires
        at <= text@.len(),
    ensures
        yes == (at <= text@.len() - marker@.len() && text@.subrange(
            at as int,
            at + marker@.len(),
        ) == marker@),
{
    if text.len() - at < marker.len() {
        return false;
    }
    let ghost part = text@.subrange(at as int, at + marker@.len());
    let mut i: usize = 0;
    while i < marker.len()
        invariant
            i <= marker@.len(),
            at + marker@.len() <= text.len(),
            part == text@.subrange(at as int, at + marker@.len()),
            forall|j: int| 0 <= j < i ==> part[j] == #[trigger] marker@[j],
        decreases marker@.len() - i,
    {
        if text[at + i] != marker[i] {
            assert(part[i as int] != marker@[i as int]);
            return false;
        }
        i = i + 1;
    }
    assert(part =~= marker@);
    true
}

/// Reads what stands between the first `marker` outside of quotes and the next `end`.
pub fn read_field(text: &str, marker: &str, end: char) -> (value: Option<String>)
    ensures
        match value {
            Some(v) => field_value(text@, marker@, end) == Some(v@),
            None => field_value(text@, marker@, end) is None,
        },
{
    let chars: Vec<char> = characters(text);
    let wanted: Vec<char> = characters(marker);
    let mut inside: bool = false;
    let mut escaped: bool = false;
    let mut at: usize = 0;
    while at < chars.len()
        invariant
            chars@ == text@,
            wanted@ == marker@,
            at <= chars@.len(),
            (inside, escaped) == quoting(text@.take(at as int)),
            first_marked(text@, marker@, 0) == first_marked(text@, marker@, at as int),
        decreases chars@.len() - at,
    {
        if !inside && stands_at(&chars, &wanted, at) {
            let start: usize = at + wanted.len();
            let mut to: usize = start;
            while to < chars.len()
                invariant
                    chars@ == text@,
                    start <= to <= chars@.len(),
                    start == at + marker@.len(),
                    first_marked(text@, marker@, 0) == Some(at as int),
                    first_end(text@, end, start as int) == first_end(text@, end, to as int),
                decreases chars@.len() - to,
            {
                if chars[to] == end {
                    return Some(String::from_str(text.substring_char(start, to)));
                }
                to = to + 1;
            }
            return None;
        }
        let c: char = chars[at];
        assert(text@.take(at + 1).drop_last() =~= text@.take(at as int));
        if !inside {
            inside = c == '"';
            escaped = false;
        } else if escaped {
            escaped = false;
        } else {
            inside = c != '"';
            escaped = c == '\\';
        }
        at = at + 1;
    }
    None
}

} // verus!
