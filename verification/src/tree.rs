//! The tree of files and directories below the root, and the handles through which they, and the
//! entries made for one opening, are used.

use crate::names::{holds_at, place_unique, EntryName, NameMap};
use crate::stat::{Stat, Timestamp};
use std::collections::HashMap;
use vstd::prelude::*;

verus! {

broadcast use vstd::std_specs::hash::group_hash_axioms;

/// A file and its length.
#[derive(Debug)]
pub struct FileEntry {
    pub stat: Stat,
    pub len: u64,
}

impl FileEntry {
    /// A file with nothing in it.
    pub fn new(stat: Stat) -> (file: Self)
        ensures
            file == (FileEntry { stat, len: 0 }),
    {
        Self { stat, len: 0 }
    }
}

/// A directory of the tree and the entries in it.
#[derive(Debug)]
pub struct DirEntry {
    pub stat: Stat,
    pub children: NameMap<Entry>,
}

impl DirEntry {
    /// A directory with nothing in it.
    pub fn new(stat: Stat) -> (dir: Self)
        ensures
            dir.stat == stat,
            dir.children@.len() == 0,
            dir.children.wf(),
    {
        Self { stat, children: NameMap::new() }
    }
}

/// Refers to an entry of the tree. Two references are equal if they are to the same entry.
#[derive(Debug, Clone, Copy, Eq)]
pub enum Entry {
    File(u64),
    Directory(u64),
}

/// Whether two references are to the same entry: to a file or a directory both, with the same key,
/// whatever is kept about them.
pub open spec fn same_entry(a: Entry, b: Entry) -> bool {
    match a {
        Entry::File(file) => match b {
            Entry::File(other_file) => file == other_file,
            Entry::Directory(_) => false,
        },
        Entry::Directory(dir) => match b {
            Entry::Directory(other_dir) => dir == other_dir,
            Entry::File(_) => false,
        },
    }
}

impl PartialEq for Entry {
    fn eq(&self, other: &Self) -> (same: bool) {
        match self {
            Entry::File(file) => match other {
                Entry::File(other_file) => *file == *other_file,
                Entry::Directory(_) => false,
            },
            Entry::Directory(dir) => match other {
                Entry::Directory(other_dir) => *dir == *other_dir,
                Entry::File(_) => false,
            },
        }
    }
}

impl vstd::std_specs::cmp::PartialEqSpecImpl for Entry {
    open spec fn obeys_eq_spec() -> bool {
        true
    }

    open spec fn eq_spec(&self, other: &Self) -> bool {
        same_entry(*self, *other)
    }
}

/// Being the same entry is being equal, and so an equivalence; a file is never a directory; and
/// entries with different keys are different, however alike what the tree keeps about them is.
pub proof fn same_entry_is_identity(a: Entry, b: Entry, c: Entry, key: u64, other_key: u64)
    ensures
        same_entry(a, b) <==> a == b,
        same_entry(a, a),
        same_entry(a, b) ==> same_entry(b, a),
        same_entry(a, b) && same_entry(b, c) ==> same_entry(a, c),
        !same_entry(Entry::File(key), Entry::Directory(other_key)),
        same_entry(Entry::File(key), Entry::File(other_key)) <==> key == other_key,
        same_entry(Entry::Directory(key), Entry::Directory(other_key)) <==> key == other_key,
{
}

impl Entry {
    /// Whether the entry is a directory.
    pub fn is_dir(&self) -> (yes: bool)
        ensures
            yes == (self is Directory),
    {
        match self {
            Entry::File(_) => false,
            Entry::Directory(_) => true,
        }
    }
}

/// A directory that was made for one handle: the folder of an artist, or that of an album. The
/// folders of an artist's albums are kept in it by what is known about them, as they are empty.
#[derive(Debug)]
pub struct Folder {
    pub stat: Stat,
    pub children: NameMap<Stat>,
}

/// The key of the root directory.
pub const ROOT: u64 = 0;

/// The tree below the root.
#[derive(Debug)]
pub struct Tree {
    pub files: HashMap<u64, FileEntry>,
    pub dirs: HashMap<u64, DirEntry>,
}

/// The place of an entry in a directory.
pub open spec fn child_index(children: Seq<(Seq<u16>, Entry)>, entry: Entry) -> int {
    choose|i: int| 0 <= i < children.len() && (#[trigger] children[i]).1 == entry
}

/// Whether a directory has an entry in it.
pub open spec fn lists(children: Seq<(Seq<u16>, Entry)>, entry: Entry) -> bool {
    exists|i: int| 0 <= i < children.len() && (#[trigger] children[i]).1 == entry
}

/// Whether the directory above an entry of the tree is there and has the entry in it.
pub open spec fn attached(tree: Tree, entry: Entry) -> bool {
    match tree.stat_of(entry).parent {
        Some(parent) => tree.dirs@.contains_key(parent) && lists(
            tree.dirs@[parent].children@,
            entry,
        ),
        None => false,
    }
}

/// The name under which a directory has an entry.
fn child_name(children: &NameMap<Entry>, entry: Entry) -> (name: EntryName)
    requires
        children.wf(),
        lists(children@, entry),
    ensures
        exists|i: int|
            0 <= i < children@.len() && (#[trigger] children@[i]).1 == entry && children@[i].0
                == name.units@,
{
    let mut i: usize = 0;
    while i < children.items.len()
        invariant
            i <= children.items@.len(),
            lists(children@, entry),
            forall|j: int| 0 <= j < i ==> (#[trigger] children@[j]).1 != entry,
        decreases children.items@.len() - i,
    {
        if children.items[i].1 == entry {
            assert(children@[i as int].1 == entry);
            return children.items[i].0.clone();
        }
        assert(children@[i as int].1 != entry);
        i = i + 1;
    }
    vstd::pervasive::unreached()
}

impl Tree {
    /// Whether the entry is in the tree.
    pub open spec fn has(&self, entry: Entry) -> bool {
        match entry {
            Entry::File(key) => self.files@.contains_key(key),
            Entry::Directory(key) => self.dirs@.contains_key(key),
        }
    }

    /// What is kept about an entry.
    pub open spec fn stat_of(&self, entry: Entry) -> Stat {
        match entry {
            Entry::File(key) => self.files@[key].stat,
            Entry::Directory(key) => self.dirs@[key].stat,
        }
    }

    /// Whether the directory `key` has the entry `entry` at its place `i`.
    pub open spec fn holds(&self, key: u64, i: int, entry: Entry) -> bool {
        &&& self.dirs@.contains_key(key)
        &&& 0 <= i < self.dirs@[key].children@.len()
        &&& self.dirs@[key].children@[i].1 == entry
    }

    /// Whether the tree is sound: it has a root, no directory holds a name twice, what the
    /// directories hold is there, and nothing is held in two places or in itself, or the root in
    /// any place.
    pub open spec fn wf(&self) -> bool {
        &&& self.dirs@.contains_key(ROOT)
        &&& forall|key: u64| #[trigger]
            self.dirs@.contains_key(key) ==> self.dirs@[key].children.wf()
        &&& forall|key: u64, i: int, entry: Entry| #[trigger]
            self.holds(key, i, entry) ==> self.has(entry) && entry != Entry::Directory(ROOT)
                && entry != Entry::Directory(key)
        &&& forall|k1: u64, i1: int, k2: u64, i2: int, entry: Entry| #[trigger]
            self.holds(k1, i1, entry) && #[trigger] self.holds(k2, i2, entry) ==> k1 == k2 && i1
                == i2
    }

    /// Whether there is nothing in the tree but an empty root.
    pub open spec fn bare(&self) -> bool {
        &&& self.files@.dom() =~= Set::empty()
        &&& self.dirs@.dom() =~= set![ROOT]
        &&& self.dirs@[ROOT].children@.len() == 0
    }

    /// Whether this is the tree `before` with `stat` for one of its entries.
    pub open spec fn restated(&self, before: Tree, entry: Entry, stat: Stat) -> bool {
        match entry {
            Entry::File(key) => {
                &&& self.files@ == before.files@.insert(
                    key,
                    FileEntry { stat, len: before.files@[key].len },
                )
                &&& self.dirs@ == before.dirs@
            },
            Entry::Directory(key) => {
                &&& self.files@ == before.files@
                &&& self.dirs@ == before.dirs@.insert(
                    key,
                    DirEntry { stat, children: before.dirs@[key].children },
                )
            },
        }
    }

    /// A tree with nothing but an empty root in it.
    pub fn new(stat: Stat) -> (tree: Self)
        ensures
            tree.wf(),
            tree.bare(),
            tree.stat_of(Entry::Directory(ROOT)) == stat,
    {
        let mut dirs: HashMap<u64, DirEntry> = HashMap::new();
        dirs.insert(ROOT, DirEntry::new(stat));
        Tree { files: HashMap::new(), dirs }
    }

    /// What is kept about an entry.
    pub fn stat(&self, entry: Entry) -> (stat: &Stat)
        requires
            self.has(entry),
        ensures
            *stat == self.stat_of(entry),
    {
        match entry {
            Entry::File(key) => &self.files.get(&key).unwrap().stat,
            Entry::Directory(key) => &self.dirs.get(&key).unwrap().stat,
        }
    }

    /// The length of a file of the tree.
    pub fn len_of(&self, key: u64) -> (len: u64)
        requires
            self.files@.contains_key(key),
        ensures
            len == self.files@[key].len,
    {
        self.files.get(&key).unwrap().len
    }

    /// What is kept about an entry, to be changed.
    pub fn stat_mut(&mut self, entry: Entry) -> (stat: &mut Stat)
        requires
            old(self).has(entry),
        ensures
            *stat == old(self).stat_of(entry),
            final(self).restated(*old(self), entry, *final(stat)),
    {
        match entry {
            Entry::File(key) => match self.files.entry(key) {
                std::collections::hash_map::Entry::Occupied(slot) => &mut slot.into_mut().stat,
                std::collections::hash_map::Entry::Vacant(_) => vstd::pervasive::unreached(),
            },
            Entry::Directory(key) => match self.dirs.entry(key) {
                std::collections::hash_map::Entry::Occupied(slot) => &mut slot.into_mut().stat,
                std::collections::hash_map::Entry::Vacant(_) => vstd::pervasive::unreached(),
            },
        }
    }

    /// Whether this is the tree `before` without the entry `entry`, whose directory was thereby
    /// modified at the time `now`.
    pub open spec fn unlinked(&self, before: Tree, entry: Entry, now: Timestamp) -> bool {
        let parent = before.stat_of(entry).parent->0;
        let dir = before.dirs@[parent];
        &&& self.dirs@.contains_key(parent)
        &&& self.dirs@[parent].stat == Stat { mtime: now, atime: now, ..dir.stat }
        &&& self.dirs@[parent].children@ == dir.children@.remove(
            child_index(dir.children@, entry),
        )
        &&& match entry {
            Entry::File(key) => {
                &&& self.files@ == before.files@.remove(key)
                &&& self.dirs@.remove(parent) == before.dirs@.remove(parent)
            },
            Entry::Directory(key) => {
                &&& self.files@ == before.files@
                &&& self.dirs@.remove(parent) == before.dirs@.remove(parent).remove(key)
            },
        }
    }

    /// Takes an entry out of its directory `parent`, and out of the tree.
    pub fn unlink(&mut self, parent: u64, entry: Entry, now: Timestamp)
        requires
            old(self).wf(),
            old(self).has(entry),
            old(self).stat_of(entry).parent == Some(parent),
            attached(*old(self), entry),
        ensures
            final(self).unlinked(*old(self), entry, now),
            final(self).wf(),
            !old(self).bare(),
    {
        let ghost before = *self;
        let ghost children = self.dirs@[parent].children@;
        let ghost index = child_index(children, entry);
        assert(self.holds(parent, index, entry));
        let dir = self.dir_mut(parent);
        dir.stat.update_mtime(now);
        let name: EntryName = child_name(&dir.children, entry);
        proof {
            let i = choose|i: int|
                0 <= i < children.len() && (#[trigger] children[i]).1 == entry && children[i].0
                    == name.units@;
            assert(before.holds(parent, i, entry));
            assert(i == index);
            assert(holds_at(children, name.units@, index));
            place_unique(children, name.units@, index);
        }
        dir.children.remove(name.borrow());
        match entry {
            Entry::File(key) => {
                self.files.remove(&key);
            },
            Entry::Directory(key) => {
                self.dirs.remove(&key);
            },
        }
        proof {
            assert(self.dirs@[parent].children@ =~= children.remove(index));
            match entry {
                Entry::File(key) => {
                    assert(self.dirs@.remove(parent) =~= before.dirs@.remove(parent));
                },
                Entry::Directory(key) => {
                    assert(self.dirs@.remove(parent) =~= before.dirs@.remove(parent).remove(key));
                },
            }
            unlinked_sound(before, *self, entry, now);
        }
    }

    /// Finds out whether the directory above an entry is there and has the entry in it.
    pub fn is_attached(&self, entry: Entry) -> (yes: bool)
        requires
            self.has(entry),
        ensures
            yes == attached(*self, entry),
    {
        match self.stat(entry).parent {
            Some(parent) => match self.dirs.get(&parent) {
                Some(dir) => {
                    let mut i: usize = 0;
                    while i < dir.children.items.len()
                        invariant
                            i <= dir.children.items@.len(),
                            self.stat_of(entry).parent == Some(parent),
                            self.dirs@.contains_key(parent),
                            *dir == self.dirs@[parent],
                            forall|j: int| 0 <= j < i ==> (#[trigger] dir.children@[j]).1 != entry,
                        decreases dir.children.items@.len() - i,
                    {
                        if dir.children.items[i].1 == entry {
                            assert(dir.children@[i as int].1 == entry);
                            return true;
                        }
                        assert(dir.children@[i as int].1 != entry);
                        i = i + 1;
                    }
                    false
                },
                None => false,
            },
            None => false,
        }
    }

    /// A directory of the tree, to be changed.
    fn dir_mut(&mut self, key: u64) -> (dir: &mut DirEntry)
        requires
            old(self).dirs@.contains_key(key),
        ensures
            *dir == old(self).dirs@[key],
            final(self).files@ == old(self).files@,
            final(self).dirs@ == old(self).dirs@.insert(key, *final(dir)),
    {
        match self.dirs.entry(key) {
            std::collections::hash_map::Entry::Occupied(slot) => slot.into_mut(),
            std::collections::hash_map::Entry::Vacant(_) => vstd::pervasive::unreached(),
        }
    }
}

/// Changing what is kept about an entry leaves the tree sound, and bare if it was.
pub proof fn restated_sound(before: Tree, after: Tree, entry: Entry, stat: Stat)
    requires
        before.has(entry),
        after.restated(before, entry, stat),
    ensures
        after.has(entry),
        after.stat_of(entry) == stat,
        forall|other: Entry| #[trigger] after.has(other) <==> before.has(other),
        forall|other: Entry| other != entry && #[trigger]
            before.has(other) ==> after.stat_of(other) == before.stat_of(other),
        before.wf() ==> after.wf(),
        before.bare() ==> after.bare(),
{
    assert forall|key: u64, i: int, e: Entry| #[trigger] after.holds(key, i, e) implies before.holds(
        key,
        i,
        e,
    ) by {}
    if before.wf() {
        assert forall|key: u64| #[trigger] after.dirs@.contains_key(key) implies after.dirs@[key].children.wf() by {
            assert(before.dirs@.contains_key(key));
        }
        assert forall|key: u64, i: int, e: Entry| #[trigger] after.holds(key, i, e) implies after.has(e)
            && e != Entry::Directory(ROOT) && e != Entry::Directory(key) by {
            assert(before.holds(key, i, e));
        }
        assert forall|k1: u64, i1: int, k2: u64, i2: int, e: Entry| #[trigger]
            after.holds(k1, i1, e) && #[trigger] after.holds(k2, i2, e) implies k1 == k2 && i1 == i2 by {
            assert(before.holds(k1, i1, e));
            assert(before.holds(k2, i2, e));
        }
    }
    if before.bare() {
        assert(after.files@.dom() =~= before.files@.dom());
        assert(after.dirs@.dom() =~= before.dirs@.dom());
    }
}

/// Taking an entry out leaves the tree sound.
proof fn unlinked_sound(before: Tree, after: Tree, entry: Entry, now: Timestamp)
    requires
        before.wf(),
        before.has(entry),
        attached(before, entry),
        after.unlinked(before, entry, now),
        after.dirs@[before.stat_of(entry).parent->0].children.wf(),
    ensures
        after.wf(),
        !before.bare(),
{
    let parent = before.stat_of(entry).parent->0;
    let children = before.dirs@[parent].children@;
    let index = child_index(children, entry);
    assert(before.holds(parent, index, entry));
    assert forall|key: u64, i: int, e: Entry| #[trigger] after.holds(key, i, e) implies before.holds(
        key,
        if key == parent && i >= index {
            i + 1
        } else {
            i
        },
        e,
    ) && e != entry by {
        let i0 = if key == parent && i >= index {
            i + 1
        } else {
            i
        };
        if key == parent {
            assert(after.dirs@[parent].children@[i] == children[i0]);
        } else {
            assert(after.dirs@.remove(parent).contains_key(key));
            assert(after.dirs@.remove(parent)[key] == after.dirs@[key]);
            assert(before.dirs@.remove(parent)[key] == before.dirs@[key]);
        }
        assert(before.holds(key, i0, e));
    }
    assert forall|key: u64| #[trigger] after.dirs@.contains_key(key) implies after.dirs@[key].children.wf() by {
        if key != parent {
            assert(after.dirs@.remove(parent).contains_key(key));
            assert(before.dirs@.contains_key(key));
            assert(after.dirs@.remove(parent)[key] == after.dirs@[key]);
            assert(before.dirs@.remove(parent)[key] == before.dirs@[key]);
        }
    }
    assert forall|e: Entry| e != entry && #[trigger] before.has(e) implies after.has(e) by {
        match e {
            Entry::File(key) => {},
            Entry::Directory(key) => {
                if key != parent {
                    assert(before.dirs@.remove(parent).contains_key(key));
                    assert(after.dirs@.remove(parent).contains_key(key));
                }
            },
        }
    }
    assert(before.has(Entry::Directory(ROOT)));
    assert(after.has(Entry::Directory(ROOT)));
}

/// What a handle was opened on.
#[derive(Debug)]
pub enum OpenEntry {
    /// An entry of the tree, which other handles may be on too.
    Shared(Entry),
    /// A song's file, made for this handle.
    File(FileEntry),
    /// The folder of an artist or an album, made for this handle.
    Folder(Folder),
}

impl OpenEntry {
    /// What is kept about the entry.
    pub open spec fn stat_in(&self, tree: Tree) -> Stat {
        match self {
            OpenEntry::Shared(entry) => tree.stat_of(*entry),
            OpenEntry::File(file) => file.stat,
            OpenEntry::Folder(folder) => folder.stat,
        }
    }

    /// Whether the entry is in the tree, if it is of the tree.
    pub open spec fn is_in(&self, tree: Tree) -> bool {
        match self {
            OpenEntry::Shared(entry) => tree.has(*entry),
            _ => true,
        }
    }

    /// Whether the entry is a directory.
    pub open spec fn directory(&self) -> bool {
        match self {
            OpenEntry::Shared(entry) => entry is Directory,
            OpenEntry::File(_) => false,
            OpenEntry::Folder(_) => true,
        }
    }

    /// Whether the entry is a directory.
    pub fn is_dir(&self) -> (yes: bool)
        ensures
            yes == self.directory(),
    {
        match self {
            OpenEntry::Shared(entry) => entry.is_dir(),
            OpenEntry::File(_) => false,
            OpenEntry::Folder(_) => true,
        }
    }

    /// The length of the entry, which is 0 for a directory.
    pub open spec fn length(&self, tree: Tree) -> u64 {
        match self {
            OpenEntry::Shared(Entry::File(key)) => tree.files@[*key].len,
            OpenEntry::File(file) => file.len,
            _ => 0,
        }
    }

    /// The length of the entry, which is 0 for a directory.
    pub fn len(&self, tree: &Tree) -> (len: u64)
        requires
            self.is_in(*tree),
        ensures
            len == self.length(*tree),
    {
        match self {
            OpenEntry::Shared(entry) => match entry {
                Entry::File(key) => tree.len_of(*key),
                Entry::Directory(_) => 0,
            },
            OpenEntry::File(file) => file.len,
            OpenEntry::Folder(_) => 0,
        }
    }

    /// What is kept about the entry.
    pub fn stat<'a>(&'a self, tree: &'a Tree) -> (stat: &'a Stat)
        requires
            self.is_in(*tree),
        ensures
            *stat == self.stat_in(*tree),
    {
        match self {
            OpenEntry::Shared(entry) => tree.stat(*entry),
            OpenEntry::File(file) => &file.stat,
            OpenEntry::Folder(folder) => &folder.stat,
        }
    }

    /// Whether these are `before` and the tree that goes with it, with `stat` for the entry.
    pub open spec fn restated(
        &self,
        tree: Tree,
        before: OpenEntry,
        tree_before: Tree,
        stat: Stat,
    ) -> bool {
        match before {
            OpenEntry::Shared(entry) => *self == before && tree.restated(tree_before, entry, stat),
            OpenEntry::File(file) => *self == OpenEntry::File(FileEntry { stat, len: file.len })
                && tree == tree_before,
            OpenEntry::Folder(folder) => *self == OpenEntry::Folder(
                Folder { stat, children: folder.children },
            ) && tree == tree_before,
        }
    }

    /// What is kept about the entry, to be changed.
    pub fn stat_mut<'a>(&'a mut self, tree: &'a mut Tree) -> (stat: &'a mut Stat)
        requires
            old(self).is_in(*old(tree)),
        ensures
            *stat == old(self).stat_in(*old(tree)),
            final(self).restated(*final(tree), *old(self), *old(tree), *final(stat)),
    {
        match self {
            OpenEntry::Shared(entry) => tree.stat_mut(*entry),
            OpenEntry::File(file) => &mut file.stat,
            OpenEntry::Folder(folder) => &mut folder.stat,
        }
    }
}

} // verus!
