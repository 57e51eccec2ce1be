//! Paths in the tree: their components, and the stream that the last one may name.

use crate::names::{EntryName, EntryNameRef, lookup, same_name};
use crate::nt::{NtStatus, STATUS_OBJECT_NAME_INVALID, STATUS_OBJECT_PATH_NOT_FOUND};
use crate::tree::{DirEntry, Entry, Tree, ROOT};
use crate::wide::utf16;
use vstd::prelude::*;

verus! {

broadcast use vstd::std_specs::hash::group_hash_axioms;

/// The longest component of a path, in code units; the same as on NTFS.
pub const MAX_COMPONENT_LENGTH: u32 = 255;

/// The backslash, which separates the components of a path.
pub const SEPARATOR: u16 = 0x5C;

/// The colon, which separates a file name from the name of a stream, and that from its type.
pub const COLON: u16 = 0x3A;

/// The components of a path that are complete, and what there is of the next one.
pub open spec fn pieces(units: Seq<u16>) -> (Seq<Seq<u16>>, Seq<u16>)
    decreases units.len(),
{
    if units.len() == 0 {
        (Seq::empty(), Seq::empty())
    } else {
        let (done, current) = pieces(units.drop_last());
        if units.last() != SEPARATOR {
            (done, current.push(units.last()))
        } else if current.len() > 0 {
            (done.push(current), Seq::empty())
        } else {
            (done, current)
        }
    }
}

/// The components of a path: what stands between its backslashes, where that is not empty.
pub open spec fn components(units: Seq<u16>) -> Seq<Seq<u16>> {
    let (done, current) = pieces(units);
    if current.len() > 0 {
        done.push(current)
    } else {
        done
    }
}

/// The components of owned units.
pub open spec fn views(parts: Seq<Vec<u16>>) -> Seq<Seq<u16>> {
    parts.map_values(|part: Vec<u16>| part@)
}

/// Splits a path into its components.
fn split_components(units: &[u16]) -> (parts: Vec<Vec<u16>>)
    ensures
        views(parts@) == components(units@),
{
    let mut parts: Vec<Vec<u16>> = Vec::new();
    let mut current: Vec<u16> = Vec::new();
    let mut i: usize = 0;
    assert(units@.take(0) =~= Seq::<u16>::empty());
    while i < units.len()
        invariant
            i <= units@.len(),
            views(parts@) =~= pieces(units@.take(i as int)).0,
            current@ =~= pieces(units@.take(i as int)).1,
        decreases units@.len() - i,
    {
        assert(units@.take(i + 1).drop_last() =~= units@.take(i as int));
        let unit: u16 = units[i];
        if unit != SEPARATOR {
            current.push(unit);
        } else if current.len() > 0 {
            let ghost before = views(parts@);
            let ghost part = current@;
            parts.push(current);
            current = Vec::new();
            assert(views(parts@) =~= before.push(part));
        }
        i = i + 1;
    }
    assert(units@.take(units@.len() as int) =~= units@);
    if current.len() > 0 {
        let ghost before = views(parts@);
        let ghost part = current@;
        parts.push(current);
        assert(views(parts@) =~= before.push(part));
    }
    parts
}

/// The kinds of streams that a file or a directory can have.
#[derive(Debug, Clone, Copy, PartialEq, Eq, Structural)]
pub enum StreamType {
    Data,
    IndexAllocation,
    Bitmap,
}

/// The stream that a path names.
#[derive(Debug)]
pub struct StreamInfo {
    pub name: Vec<u16>,
    pub type_: StreamType,
}

/// The last component of a path: the name of a file or directory, and that of a stream of it.
#[derive(Debug)]
pub struct FullName {
    pub file_name: Vec<u16>,
    pub stream_info: Option<StreamInfo>,
}

/// How many units stand before the first colon.
pub open spec fn before_colon(units: Seq<u16>) -> nat
    decreases units.len(),
{
    if units.len() == 0 || units[0] == COLON {
        0
    } else {
        1 + before_colon(units.drop_first())
    }
}

/// Finds the first colon, or the end.
fn find_colon(units: &[u16]) -> (at: usize)
    ensures
        at == before_colon(units@),
        at <= units@.len(),
{
    let mut at: usize = 0;
    assert(units@.skip(0) =~= units@);
    while at < units.len() && units[at] != COLON
        invariant
            at <= units@.len(),
            before_colon(units@) == at + before_colon(units@.skip(at as int)),
        decreases units@.len() - at,
    {
        assert(units@.skip(at as int).drop_first() =~= units@.skip(at + 1));
        at = at + 1;
    }
    at
}

/// The type of a stream by its name.
pub open spec fn stream_type(name: Seq<u16>) -> Option<StreamType> {
    if same_name(name, utf16("$DATA"@)) {
        Some(StreamType::Data)
    } else if same_name(name, utf16("$INDEX_ALLOCATION"@)) {
        Some(StreamType::IndexAllocation)
    } else if same_name(name, utf16("$BITMAP"@)) {
        Some(StreamType::Bitmap)
    } else {
        None
    }
}

fn parse_stream_type(name: EntryNameRef<'_>) -> (type_: Option<StreamType>)
    ensures
        type_ == stream_type(name.units@),
{
    if name == EntryName::from_text("$DATA").borrow() {
        Some(StreamType::Data)
    } else if name == EntryName::from_text("$INDEX_ALLOCATION").borrow() {
        Some(StreamType::IndexAllocation)
    } else if name == EntryName::from_text("$BITMAP").borrow() {
        Some(StreamType::Bitmap)
    } else {
        None
    }
}

/// The name of a file or directory: what stands before the first colon.
pub open spec fn file_part(name: Seq<u16>) -> Seq<u16> {
    name.take(before_colon(name) as int)
}

/// What stands behind the first colon, if there is one.
pub open spec fn stream_part(name: Seq<u16>) -> Option<Seq<u16>> {
    if before_colon(name) < name.len() {
        Some(name.skip(before_colon(name) as int + 1))
    } else {
        None
    }
}

/// The name and type of the stream that `part` stands for: the type is named behind another
/// colon, and is a data stream if it is not named. A type that is not known makes no stream.
pub open spec fn stream_of(part: Seq<u16>) -> Option<(Seq<u16>, StreamType)> {
    let at = before_colon(part);
    if at < part.len() {
        match stream_type(part.skip(at as int + 1)) {
            Some(type_) => Some((part.take(at as int), type_)),
            None => None,
        }
    } else {
        Some((part, StreamType::Data))
    }
}

/// Whether `name` is a valid last component.
pub open spec fn valid_name(name: Seq<u16>) -> bool {
    match stream_part(name) {
        Some(part) => stream_of(part) is Some,
        None => true,
    }
}

impl FullName {
    /// Whether this is what `name` says.
    pub open spec fn reads(&self, name: Seq<u16>) -> bool {
        &&& self.file_name@ == file_part(name)
        &&& match stream_part(name) {
            Some(part) => {
                &&& self.stream_info is Some
                &&& stream_of(part) == Some(
                    (self.stream_info->0.name@, self.stream_info->0.type_),
                )
            },
            None => self.stream_info is None,
        }
    }

    /// Reads the last component of a path.
    pub fn new(name: &[u16]) -> (full: Result<Self, NtStatus>)
        ensures
            match full {
                Ok(full) => valid_name(name@) && full.reads(name@),
                Err(status) => !valid_name(name@) && status == STATUS_OBJECT_NAME_INVALID,
            },
    {
        let first: usize = find_colon(name);
        let file_name: Vec<u16> = vstd::slice::slice_to_vec(
            vstd::slice::slice_subrange(name, 0, first),
        );
        assert(file_name@ =~= file_part(name@));
        if first == name.len() {
            return Ok(Self { file_name, stream_info: None });
        }
        let ghost part = name@.skip(first + 1);
        let rest: &[u16] = vstd::slice::slice_subrange(name, first + 1, name.len());
        assert(rest@ =~= part);
        let second: usize = find_colon(rest);
        let stream_name: Vec<u16> = vstd::slice::slice_to_vec(
            vstd::slice::slice_subrange(rest, 0, second),
        );
        if second == rest.len() {
            assert(stream_name@ =~= part);
            return Ok(
                Self {
                    file_name,
                    stream_info: Some(StreamInfo { name: stream_name, type_: StreamType::Data }),
                },
            );
        }
        let kind: &[u16] = vstd::slice::slice_subrange(rest, second + 1, rest.len());
        assert(kind@ =~= part.skip(second + 1));
        assert(stream_name@ =~= part.take(second as int));
        match parse_stream_type(EntryNameRef::new(kind)) {
            Some(type_) => Ok(
                Self { file_name, stream_info: Some(StreamInfo { name: stream_name, type_ }) },
            ),
            None => Err(STATUS_OBJECT_NAME_INVALID),
        }
    }
}

/// The directory that the components `parts` lead to from the directory `dir`.
pub open spec fn walked(tree: Tree, dir: u64, parts: Seq<Seq<u16>>) -> Result<u64, NtStatus>
    decreases parts.len(),
{
    if parts.len() == 0 {
        Ok(dir)
    } else if parts[0].len() > MAX_COMPONENT_LENGTH {
        Err(STATUS_OBJECT_NAME_INVALID)
    } else {
        match lookup(tree.dirs@[dir].children@, parts[0]) {
            Some(Entry::Directory(next)) => walked(tree, next, parts.drop_first()),
            _ => Err(STATUS_OBJECT_PATH_NOT_FOUND),
        }
    }
}

/// Goes from directory to directory along the components `parts[from..to]`.
fn find_dir_entry(tree: &Tree, dir: u64, parts: &Vec<Vec<u16>>, from: usize, to: usize) -> (found:
    Result<u64, NtStatus>)
    requires
        tree.wf(),
        tree.dirs@.contains_key(dir),
        from <= to <= parts@.len(),
    ensures
        found == walked(*tree, dir, views(parts@).subrange(from as int, to as int)),
        found matches Ok(key) ==> tree.dirs@.contains_key(key),
    decreases to - from,
{
    let ghost left = views(parts@).subrange(from as int, to as int);
    if from == to {
        return Ok(dir);
    }
    assert(left[0] == parts@[from as int]@);
    assert(left.drop_first() =~= views(parts@).subrange(from + 1, to as int));
    if parts[from].len() > MAX_COMPONENT_LENGTH as usize {
        return Err(STATUS_OBJECT_NAME_INVALID);
    }
    let entry: &DirEntry = tree.dirs.get(&dir).unwrap();
    match entry.children.get(EntryNameRef::new(parts[from].as_slice())) {
        Some(child) => match child {
            Entry::Directory(next) => {
                proof {
                    let children = tree.dirs@[dir].children@;
                    let i = crate::names::place(children, left[0]);
                    assert(crate::names::holds_at(children, left[0], i));
                    assert(tree.holds(dir, i, Entry::Directory(*next)));
                }
                find_dir_entry(tree, *next, parts, from + 1, to)
            },
            Entry::File(_) => Err(STATUS_OBJECT_PATH_NOT_FOUND),
        },
        None => Err(STATUS_OBJECT_PATH_NOT_FOUND),
    }
}

/// What a path leads to: nothing but the root, or the last component's name in the directory
/// with a key.
#[derive(Debug)]
pub struct PathInfo {
    pub name: FullName,
    pub parent: u64,
}

/// Whether `info` is what the path `units` leads to in the tree.
pub open spec fn leads_to(
    tree: Tree,
    units: Seq<u16>,
    info: Result<Option<PathInfo>, NtStatus>,
) -> bool {
    let parts = components(units);
    if parts.len() == 0 {
        info == Ok::<Option<PathInfo>, NtStatus>(None)
    } else if parts.last().len() > MAX_COMPONENT_LENGTH || !valid_name(parts.last()) {
        info == Err::<Option<PathInfo>, NtStatus>(STATUS_OBJECT_NAME_INVALID)
    } else {
        match walked(tree, ROOT, parts.drop_last()) {
            Ok(parent) => {
                &&& info is Ok
                &&& info->Ok_0 is Some
                &&& info->Ok_0->0.name.reads(parts.last())
                &&& info->Ok_0->0.parent == parent
            },
            Err(status) => info == Err::<Option<PathInfo>, NtStatus>(status),
        }
    }
}

/// Finds out what a path leads to in the tree.
pub fn split_path(tree: &Tree, path: &[u16]) -> (info: Result<Option<PathInfo>, NtStatus>)
    requires
        tree.wf(),
    ensures
        leads_to(*tree, path@, info),
        info matches Ok(Some(found)) ==> tree.dirs@.contains_key(found.parent),
{
    let parts: Vec<Vec<u16>> = split_components(path);
    let count: usize = parts.len();
    assert(views(parts@).len() == parts@.len());
    if count == 0 {
        return Ok(None);
    }
    let last: usize = count - 1;
    assert(views(parts@).last() == parts@[last as int]@);
    assert(views(parts@).drop_last() =~= views(parts@).subrange(0, last as int));
    if parts[last].len() > MAX_COMPONENT_LENGTH as usize {
        return Err(STATUS_OBJECT_NAME_INVALID);
    }
    match FullName::new(parts[last].as_slice()) {
        Ok(name) => match find_dir_entry(tree, ROOT, &parts, 0, last) {
            Ok(parent) => Ok(Some(PathInfo { name, parent })),
            Err(status) => Err(status),
        },
        Err(status) => Err(status),
    }
}

} // verus!
