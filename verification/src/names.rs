//! Names of directory entries, which are told apart without regard to the case of ASCII letters,
//! and what is kept under such names.

use vstd::prelude::*;

verus! {

/// The lower-case form of a code unit: that of an ASCII capital letter, and the unit itself
/// otherwise.
pub open spec fn lower(c: u16) -> u16 {
    if 'A' as u16 <= c <= 'Z' as u16 {
        (c + 32) as u16
    } else {
        c
    }
}

/// Lower-cases one code unit.
pub fn u16_tolower(c: u16) -> (r: u16)
    ensures
        r == lower(c),
{
    if c >= 'A' as u16 && c <= 'Z' as u16 {
        c + 'a' as u16 - 'A' as u16
    } else {
        c
    }
}

/// A name in lower case.
pub open spec fn folded(units: Seq<u16>) -> Seq<u16> {
    Seq::new(units.len(), |i: int| lower(units[i]))
}

/// Whether two names are the same name: equal but for the case of ASCII letters.
pub open spec fn same_name(a: Seq<u16>, b: Seq<u16>) -> bool {
    folded(a) == folded(b)
}

/// A borrowed entry name.
#[derive(Debug)]
pub struct EntryNameRef<'a> {
    pub units: &'a [u16],
}

impl<'a> EntryNameRef<'a> {
    /// The name with these code units.
    pub fn new(units: &'a [u16]) -> (name: Self)
        ensures
            name.units == units,
    {
        EntryNameRef { units }
    }

    /// What a name hands to a hasher: its code units in lower case, so that equal names have
    /// equal hashes.
    pub fn hash_units(&self) -> (units: Vec<u16>)
        ensures
            units@ == folded(self.units@),
    {
        let mut out: Vec<u16> = Vec::new();
        let mut i: usize = 0;
        while i < self.units.len()
            invariant
                i <= self.units@.len(),
                out@ =~= folded(self.units@).take(i as int),
            decreases self.units@.len() - i,
        {
            out.push(u16_tolower(self.units[i]));
            i = i + 1;
        }
        out
    }
}

impl<'a> PartialEq for EntryNameRef<'a> {
    fn eq(&self, other: &Self) -> (same: bool) {
        if self.units.len() != other.units.len() {
            assert(folded(self.units@).len() != folded(other.units@).len());
            return false;
        }
        let mut i: usize = 0;
        while i < self.units.len()
            invariant
                i <= self.units@.len(),
                self.units@.len() == other.units@.len(),
                forall|j: int| 0 <= j < i ==> lower(#[trigger] self.units@[j]) == lower(other.units@[j]),
            decreases self.units@.len() - i,
        {
            if u16_tolower(self.units[i]) != u16_tolower(other.units[i]) {
                assert(folded(self.units@)[i as int] != folded(other.units@)[i as int]);
                return false;
            }
            i = i + 1;
        }
        assert(folded(self.units@) =~= folded(other.units@));
        true
    }
}

impl<'a> vstd::std_specs::cmp::PartialEqSpecImpl for EntryNameRef<'a> {
    open spec fn obeys_eq_spec() -> bool {
        true
    }

    open spec fn eq_spec(&self, other: &Self) -> bool {
        same_name(self.units@, other.units@)
    }
}

/// An owned entry name.
#[derive(Debug)]
pub struct EntryName {
    pub units: Vec<u16>,
}

impl EntryName {
    /// The name that has a text's code units.
    pub fn from_text(text: &str) -> (name: Self)
        ensures
            name.units@ == crate::wide::utf16(text@),
    {
        EntryName { units: crate::wide::encode_text(text) }
    }

    /// The name, borrowed.
    pub fn borrow(&self) -> (name: EntryNameRef<'_>)
        ensures
            name.units@ == self.units@,
    {
        EntryNameRef::new(self.units.as_slice())
    }

    /// What the name hands to a hasher.
    pub fn hash_units(&self) -> (units: Vec<u16>)
        ensures
            units@ == folded(self.units@),
    {
        self.borrow().hash_units()
    }
}

impl Clone for EntryName {
    fn clone(&self) -> (name: Self)
        ensures
            name.units@ == self.units@,
    {
        let units: Vec<u16> = self.units.clone();
        assert(units@ =~= self.units@);
        EntryName { units }
    }
}

impl PartialEq for EntryName {
    fn eq(&self, other: &Self) -> (same: bool) {
        self.borrow() == other.borrow()
    }
}

impl vstd::std_specs::cmp::PartialEqSpecImpl for EntryName {
    open spec fn obeys_eq_spec() -> bool {
        true
    }

    open spec fn eq_spec(&self, other: &Self) -> bool {
        same_name(self.units@, other.units@)
    }
}

/// Values under names: at most one value under each name.
#[derive(Debug)]
pub struct NameMap<V> {
    pub items: Vec<(EntryName, V)>,
}

/// Whether `at` is the place of the name `name`.
pub open spec fn holds_at<V>(items: Seq<(Seq<u16>, V)>, name: Seq<u16>, at: int) -> bool {
    0 <= at < items.len() && same_name(items[at].0, name)
}

/// Whether there is a value under the name `name`.
pub open spec fn has_name<V>(items: Seq<(Seq<u16>, V)>, name: Seq<u16>) -> bool {
    exists|at: int| holds_at(items, name, at)
}

/// The place of the name `name`.
pub open spec fn place<V>(items: Seq<(Seq<u16>, V)>, name: Seq<u16>) -> int {
    choose|at: int| holds_at(items, name, at)
}

/// Whether no name occurs twice.
pub open spec fn distinct<V>(items: Seq<(Seq<u16>, V)>) -> bool {
    forall|i: int, j: int|
        0 <= i < j < items.len() ==> !same_name((#[trigger] items[i]).0, (#[trigger] items[j]).0)
}

/// The value under a name.
pub open spec fn lookup<V>(items: Seq<(Seq<u16>, V)>, name: Seq<u16>) -> Option<V> {
    if has_name(items, name) {
        Some(items[place(items, name)].1)
    } else {
        None
    }
}

/// The items after a value was put under a name: it takes the place of the value that was there,
/// and the name keeps its spelling; a new name goes to the end.
pub open spec fn put<V>(items: Seq<(Seq<u16>, V)>, name: Seq<u16>, value: V) -> Seq<
    (Seq<u16>, V),
> {
    if has_name(items, name) {
        items.update(place(items, name), (items[place(items, name)].0, value))
    } else {
        items.push((name, value))
    }
}

/// The items after the value under a name was taken away.
pub open spec fn without<V>(items: Seq<(Seq<u16>, V)>, name: Seq<u16>) -> Seq<(Seq<u16>, V)> {
    if has_name(items, name) {
        items.remove(place(items, name))
    } else {
        items
    }
}

/// What putting one pair after the other into an empty map leaves in it.
pub open spec fn collected<V>(pairs: Seq<(Seq<u16>, V)>) -> Seq<(Seq<u16>, V)>
    decreases pairs.len(),
{
    if pairs.len() == 0 {
        Seq::empty()
    } else {
        put(collected(pairs.drop_last()), pairs.last().0, pairs.last().1)
    }
}

/// The names alone.
pub open spec fn names_of<V>(items: Seq<(Seq<u16>, V)>) -> Seq<Seq<u16>> {
    items.map_values(|item: (Seq<u16>, V)| item.0)
}

/// Which names there are after a value was put under a name does not depend on the values.
pub proof fn put_names<V, W>(
    items: Seq<(Seq<u16>, V)>,
    others: Seq<(Seq<u16>, W)>,
    name: Seq<u16>,
    value: V,
    other: W,
)
    requires
        names_of(items) == names_of(others),
    ensures
        names_of(put(items, name, value)) == names_of(put(others, name, other)),
{
    assert(items.len() == names_of(items).len());
    assert(others.len() == names_of(others).len());
    assert forall|i: int| 0 <= i < items.len() implies (#[trigger] items[i]).0 == others[i].0 by {
        assert(names_of(items)[i] == names_of(others)[i]);
    }
    if has_name(items, name) {
        let at = place(items, name);
        assert(holds_at(items, name, at));
        assert(holds_at(others, name, at));
        assert(has_name(others, name));
    }
    if has_name(others, name) {
        let at = place(others, name);
        assert(holds_at(others, name, at));
        assert(items[at].0 == others[at].0);
        assert(holds_at(items, name, at));
        assert(has_name(items, name));
    }
    assert(names_of(put(items, name, value)) =~= names_of(put(others, name, other)));
}

/// In a map without duplicates a name has one place.
pub proof fn place_unique<V>(items: Seq<(Seq<u16>, V)>, name: Seq<u16>, at: int)
    requires
        distinct(items),
        holds_at(items, name, at),
    ensures
        has_name(items, name),
        place(items, name) == at,
{
    let p = place(items, name);
    assert(holds_at(items, name, p));
    if p < at {
        assert(same_name(items[p].0, items[at].0));
    } else if at < p {
        assert(same_name(items[at].0, items[p].0));
    }
}

/// Putting a value keeps the names distinct.
pub proof fn put_distinct<V>(items: Seq<(Seq<u16>, V)>, name: Seq<u16>, value: V)
    requires
        distinct(items),
    ensures
        distinct(put(items, name, value)),
{
    let after = put(items, name, value);
    if has_name(items, name) {
        let p = place(items, name);
        assert(holds_at(items, name, p));
        assert forall|i: int, j: int| 0 <= i < j < after.len() implies !same_name(
            (#[trigger] after[i]).0,
            (#[trigger] after[j]).0,
        ) by {
            assert(after[i].0 == items[i].0);
            assert(after[j].0 == items[j].0);
        }
    } else {
        assert forall|i: int, j: int| 0 <= i < j < after.len() implies !same_name(
            (#[trigger] after[i]).0,
            (#[trigger] after[j]).0,
        ) by {
            assert(after[i] == items[i]);
            if j < items.len() {
                assert(after[j] == items[j]);
            } else {
                assert(!holds_at(items, name, i));
            }
        }
    }
}

/// Taking a value away keeps the names distinct.
pub proof fn without_distinct<V>(items: Seq<(Seq<u16>, V)>, name: Seq<u16>)
    requires
        distinct(items),
    ensures
        distinct(without(items, name)),
{
    let after = without(items, name);
    if has_name(items, name) {
        let p = place(items, name);
        assert(holds_at(items, name, p));
        assert forall|i: int, j: int| 0 <= i < j < after.len() implies !same_name(
            (#[trigger] after[i]).0,
            (#[trigger] after[j]).0,
        ) by {
            let i0 = if i < p { i } else { i + 1 };
            let j0 = if j < p { j } else { j + 1 };
            assert(after[i] == items[i0]);
            assert(after[j] == items[j0]);
        }
    }
}

/// What was collected has distinct names.
pub proof fn collected_distinct<V>(pairs: Seq<(Seq<u16>, V)>)
    ensures
        distinct(collected(pairs)),
    decreases pairs.len(),
{
    if pairs.len() > 0 {
        collected_distinct(pairs.drop_last());
        put_distinct(collected(pairs.drop_last()), pairs.last().0, pairs.last().1);
    }
}

/// Every name that is left was one of the names that were put.
pub proof fn collected_from<V>(pairs: Seq<(Seq<u16>, V)>, i: int)
    requires
        0 <= i < collected(pairs).len(),
    ensures
        exists|j: int| 0 <= j < pairs.len() && (#[trigger] pairs[j]).0 == collected(pairs)[i].0,
    decreases pairs.len(),
{
    let rest = pairs.drop_last();
    let before = collected(rest);
    let name = pairs.last().0;
    if has_name(before, name) {
        assert(holds_at(before, name, place(before, name)));
    }
    if i < before.len() {
        collected_from(rest, i);
        let j = choose|j: int| 0 <= j < rest.len() && (#[trigger] rest[j]).0 == before[i].0;
        assert(pairs[j] == rest[j]);
    } else {
        assert(pairs[pairs.len() - 1].0 == collected(pairs)[i].0);
    }
}

impl<V> View for NameMap<V> {
    type V = Seq<(Seq<u16>, V)>;

    open spec fn view(&self) -> Seq<(Seq<u16>, V)> {
        self.items@.map_values(|item: (EntryName, V)| (item.0.units@, item.1))
    }
}

impl<V> NameMap<V> {
    /// Whether no name occurs twice.
    pub open spec fn wf(&self) -> bool {
        distinct(self@)
    }

    /// A map with nothing in it.
    pub fn new() -> (map: Self)
        ensures
            map@ == Seq::<(Seq<u16>, V)>::empty(),
            map.wf(),
    {
        let map = NameMap { items: Vec::new() };
        assert(map@ =~= Seq::<(Seq<u16>, V)>::empty());
        map
    }

    /// Where the name `name` stands, if it does.
    fn find(&self, name: EntryNameRef<'_>) -> (at: Option<usize>)
        requires
            self.wf(),
        ensures
            at is Some <==> has_name(self@, name.units@),
            at matches Some(i) ==> i == place(self@, name.units@) && holds_at(
                self@,
                name.units@,
                i as int,
            ),
    {
        let mut i: usize = 0;
        while i < self.items.len()
            invariant
                i <= self.items@.len(),
                self.wf(),
                forall|j: int| 0 <= j < i ==> !holds_at(self@, name.units@, j),
            decreases self.items@.len() - i,
        {
            assert(self@[i as int].0 == self.items@[i as int].0.units@);
            if self.items[i].0.borrow() == name {
                proof {
                    assert(holds_at(self@, name.units@, i as int));
                    place_unique(self@, name.units@, i as int);
                }
                return Some(i);
            }
            i = i + 1;
        }
        None
    }

    /// The value under a name.
    pub fn get(&self, name: EntryNameRef<'_>) -> (value: Option<&V>)
        requires
            self.wf(),
        ensures
            match value {
                Some(v) => lookup(self@, name.units@) == Some(*v),
                None => lookup(self@, name.units@) is None,
            },
    {
        match self.find(name) {
            Some(i) => Some(&self.items[i].1),
            None => None,
        }
    }

    /// Puts a value under a name. The value that was there is handed back, and the name keeps
    /// its spelling.
    pub fn insert(&mut self, name: EntryName, value: V) -> (before: Option<V>)
        requires
            old(self).wf(),
        ensures
            final(self).wf(),
            final(self)@ == put(old(self)@, name.units@, value),
            before == lookup(old(self)@, name.units@),
    {
        proof {
            put_distinct(self@, name.units@, value);
        }
        match self.find(name.borrow()) {
            Some(i) => {
                let (spelling, before) = self.items.remove(i);
                self.items.insert(i, (spelling, value));
                assert(self@ =~= put(old(self)@, name.units@, value));
                Some(before)
            },
            None => {
                self.items.push((name, value));
                assert(self@ =~= put(old(self)@, name.units@, value));
                None
            },
        }
    }

    /// Takes the value under a name away and hands it back.
    pub fn remove(&mut self, name: EntryNameRef<'_>) -> (before: Option<V>)
        requires
            old(self).wf(),
        ensures
            final(self).wf(),
            final(self)@ == without(old(self)@, name.units@),
            before == lookup(old(self)@, name.units@),
    {
        proof {
            without_distinct(self@, name.units@);
        }
        match self.find(name) {
            Some(i) => {
                let (_, before) = self.items.remove(i);
                assert(self@ =~= without(old(self)@, name.units@));
                Some(before)
            },
            None => None,
        }
    }
}

} // verus!
