//! How something is opened: the decisions about what is, or is not, in the tree, and what a
//! program gets.

use crate::handle::EntryHandle;
use crate::names::{
    collected, holds_at, lookup, names_of, place, put_names, EntryName, EntryNameRef, NameMap,
};
use crate::nt::{
    NtStatus, FILE_APPEND_DATA, FILE_ATTRIBUTE_ARCHIVE, FILE_ATTRIBUTE_HIDDEN,
    FILE_ATTRIBUTE_READONLY, FILE_ATTRIBUTE_SYSTEM, FILE_CREATE, FILE_DELETE_ON_CLOSE,
    FILE_DIRECTORY_FILE, FILE_MAXIMUM_DISPOSITION, FILE_NON_DIRECTORY_FILE, FILE_OPEN,
    FILE_OPEN_IF, FILE_OVERWRITE, FILE_OVERWRITE_IF, FILE_SUPERSEDE, FILE_WRITE_DATA,
    STATUS_ACCESS_DENIED, STATUS_CANNOT_DELETE, STATUS_DELETE_PENDING, STATUS_FILE_IS_A_DIRECTORY,
    STATUS_INVALID_PARAMETER, STATUS_NOT_A_DIRECTORY, STATUS_OBJECT_NAME_COLLISION,
    STATUS_OBJECT_NAME_INVALID, STATUS_OBJECT_NAME_NOT_FOUND,
};
use crate::path::{
    components, file_part, leads_to, split_path, valid_name, walked, PathInfo,
    MAX_COMPONENT_LENGTH,
};
use crate::security::SecurityDescriptor;
use crate::stat::{Attributes, Stat, Timestamp, SUPPORTED_ATTRS};
use crate::subsonic::IdentifiedAlbum;
use crate::tree::{restated_sound, DirEntry, Entry, FileEntry, OpenEntry, Tree, ROOT};
use crate::wide::utf16;
use vstd::prelude::*;

verus! {

broadcast use vstd::std_specs::hash::group_hash_axioms;

/// What a program asks for when it opens something.
#[derive(Debug, Clone, Copy)]
pub struct OpenRequest {
    /// The access that is wanted.
    pub desired_access: u32,
    /// The attributes for something that is made or overwritten.
    pub file_attributes: u32,
    /// What to do if there is, or is not, something of the name already.
    pub create_disposition: u32,
    /// Options.
    pub create_options: u32,
}

/// Whether one of the bits `flags` is set.
pub open spec fn set_in(value: u32, flags: u32) -> bool {
    value & flags > 0
}

impl OpenRequest {
    /// Whether what is opened is to be deleted when it is closed.
    pub open spec fn deletes(&self) -> bool {
        set_in(self.create_options, FILE_DELETE_ON_CLOSE)
    }

    /// Whether what is opened is to be deleted when it is closed.
    pub fn delete_on_close(&self) -> (yes: bool)
        ensures
            yes == self.deletes(),
    {
        self.create_options & FILE_DELETE_ON_CLOSE > 0
    }
}

/// Whether an entry is hidden and of the system, and the request does not say so.
pub open spec fn hidden_from(stat: Stat, request: OpenRequest) -> bool {
    &&& set_in(stat.attrs.value, FILE_ATTRIBUTE_HIDDEN)
    &&& set_in(stat.attrs.value, FILE_ATTRIBUTE_SYSTEM)
    &&& !(set_in(request.file_attributes, FILE_ATTRIBUTE_HIDDEN) && set_in(
        request.file_attributes,
        FILE_ATTRIBUTE_SYSTEM,
    ))
}

/// The decision about opening an entry that there is: the error, or whether the entry is
/// overwritten.
pub open spec fn existing_decision(
    stat: Stat,
    is_dir: bool,
    request: OpenRequest,
) -> Result<bool, NtStatus> {
    let readonly = set_in(stat.attrs.value, FILE_ATTRIBUTE_READONLY);
    let disposition = request.create_disposition;
    if readonly && (set_in(request.desired_access, FILE_WRITE_DATA) || set_in(
        request.desired_access,
        FILE_APPEND_DATA,
    )) {
        Err(STATUS_ACCESS_DENIED)
    } else if stat.delete_pending {
        Err(STATUS_DELETE_PENDING)
    } else if readonly && request.deletes() {
        Err(STATUS_CANNOT_DELETE)
    } else if !is_dir {
        if set_in(request.create_options, FILE_DIRECTORY_FILE) {
            Err(STATUS_NOT_A_DIRECTORY)
        } else if disposition == FILE_SUPERSEDE || disposition == FILE_OVERWRITE || disposition
            == FILE_OVERWRITE_IF {
            if disposition != FILE_SUPERSEDE && readonly || hidden_from(stat, request) {
                Err(STATUS_ACCESS_DENIED)
            } else {
                Ok(true)
            }
        } else if disposition == FILE_CREATE {
            Err(STATUS_OBJECT_NAME_COLLISION)
        } else {
            Ok(false)
        }
    } else if set_in(request.create_options, FILE_NON_DIRECTORY_FILE) {
        Err(STATUS_FILE_IS_A_DIRECTORY)
    } else if disposition == FILE_OPEN || disposition == FILE_OPEN_IF {
        Ok(false)
    } else if disposition == FILE_CREATE {
        Err(STATUS_OBJECT_NAME_COLLISION)
    } else {
        Err(STATUS_INVALID_PARAMETER)
    }
}

/// Decides about opening an entry that there is.
pub fn decide_existing(stat: &Stat, is_dir: bool, request: OpenRequest) -> (decision: Result<
    bool,
    NtStatus,
>)
    ensures
        decision == existing_decision(*stat, is_dir, request),
{
    let is_readonly: bool = stat.attrs.value & FILE_ATTRIBUTE_READONLY > 0;
    let is_hidden_system: bool = stat.attrs.value & FILE_ATTRIBUTE_HIDDEN > 0 && stat.attrs.value
        & FILE_ATTRIBUTE_SYSTEM > 0 && !(request.file_attributes & FILE_ATTRIBUTE_HIDDEN > 0
        && request.file_attributes & FILE_ATTRIBUTE_SYSTEM > 0);
    let disposition: u32 = request.create_disposition;
    if is_readonly && (request.desired_access & FILE_WRITE_DATA > 0 || request.desired_access
        & FILE_APPEND_DATA > 0) {
        return Err(STATUS_ACCESS_DENIED);
    }
    if stat.delete_pending {
        return Err(STATUS_DELETE_PENDING);
    }
    if is_readonly && request.delete_on_close() {
        return Err(STATUS_CANNOT_DELETE);
    }
    if !is_dir {
        if request.create_options & FILE_DIRECTORY_FILE > 0 {
            return Err(STATUS_NOT_A_DIRECTORY);
        }
        if disposition == FILE_SUPERSEDE || disposition == FILE_OVERWRITE || disposition
            == FILE_OVERWRITE_IF {
            if disposition != FILE_SUPERSEDE && is_readonly || is_hidden_system {
                return Err(STATUS_ACCESS_DENIED);
            }
            return Ok(true);
        }
        if disposition == FILE_CREATE {
            return Err(STATUS_OBJECT_NAME_COLLISION);
        }
        return Ok(false);
    }
    if request.create_options & FILE_NON_DIRECTORY_FILE > 0 {
        return Err(STATUS_FILE_IS_A_DIRECTORY);
    }
    if disposition == FILE_OPEN || disposition == FILE_OPEN_IF {
        Ok(false)
    } else if disposition == FILE_CREATE {
        Err(STATUS_OBJECT_NAME_COLLISION)
    } else {
        Err(STATUS_INVALID_PARAMETER)
    }
}

/// The error of opening something that there is not, in a directory. Nothing can be made, so
/// there always is one.
pub open spec fn missing_error(parent: Stat, request: OpenRequest) -> NtStatus {
    let disposition = request.create_disposition;
    if parent.delete_pending {
        STATUS_DELETE_PENDING
    } else if set_in(request.create_options, FILE_DIRECTORY_FILE) {
        if disposition == FILE_CREATE || disposition == FILE_OPEN_IF {
            STATUS_ACCESS_DENIED
        } else if disposition == FILE_OPEN {
            STATUS_OBJECT_NAME_NOT_FOUND
        } else {
            STATUS_INVALID_PARAMETER
        }
    } else if disposition == FILE_OPEN || disposition == FILE_OVERWRITE {
        STATUS_OBJECT_NAME_NOT_FOUND
    } else {
        STATUS_ACCESS_DENIED
    }
}

/// The error of making something new: the file system cannot be written to.
pub fn create_new() -> (error: NtStatus)
    ensures
        error == STATUS_ACCESS_DENIED,
{
    STATUS_ACCESS_DENIED
}

/// Finds the error of opening something that there is not.
pub fn decide_missing(parent: &Stat, request: OpenRequest) -> (error: NtStatus)
    ensures
        error == missing_error(*parent, request),
{
    let disposition: u32 = request.create_disposition;
    if parent.delete_pending {
        return STATUS_DELETE_PENDING;
    }
    if request.create_options & FILE_DIRECTORY_FILE > 0 {
        if disposition == FILE_CREATE || disposition == FILE_OPEN_IF {
            create_new()
        } else if disposition == FILE_OPEN {
            STATUS_OBJECT_NAME_NOT_FOUND
        } else {
            STATUS_INVALID_PARAMETER
        }
    } else if disposition == FILE_OPEN || disposition == FILE_OVERWRITE {
        STATUS_OBJECT_NAME_NOT_FOUND
    } else {
        create_new()
    }
}

/// The error of opening the root, if there is one.
pub open spec fn root_error(request: OpenRequest) -> Option<NtStatus> {
    if request.create_disposition == FILE_OPEN || request.create_disposition == FILE_OPEN_IF {
        if set_in(request.create_options, FILE_NON_DIRECTORY_FILE) {
            Some(STATUS_FILE_IS_A_DIRECTORY)
        } else {
            None
        }
    } else {
        Some(STATUS_INVALID_PARAMETER)
    }
}

/// Decides about opening the root.
pub fn decide_root(request: OpenRequest) -> (error: Option<NtStatus>)
    ensures
        error == root_error(request),
{
    if request.create_disposition == FILE_OPEN || request.create_disposition == FILE_OPEN_IF {
        if request.create_options & FILE_NON_DIRECTORY_FILE > 0 {
            Some(STATUS_FILE_IS_A_DIRECTORY)
        } else {
            None
        }
    } else {
        Some(STATUS_INVALID_PARAMETER)
    }
}

/// What a path is about, in the tree.
#[derive(Debug)]
pub enum Target {
    /// Nothing that could be.
    Nowhere(NtStatus),
    /// The root.
    Root,
    /// An entry that there is.
    Existing(Entry),
    /// A name that there is not, in a directory.
    Missing(u64),
}

/// What the path `units` is about in the tree.
pub open spec fn target(tree: Tree, units: Seq<u16>) -> Target {
    let parts = components(units);
    if parts.len() == 0 {
        Target::Root
    } else if parts.last().len() > MAX_COMPONENT_LENGTH || !valid_name(parts.last()) {
        Target::Nowhere(STATUS_OBJECT_NAME_INVALID)
    } else {
        match walked(tree, ROOT, parts.drop_last()) {
            Ok(parent) => match lookup(tree.dirs@[parent].children@, file_part(parts.last())) {
                Some(entry) => Target::Existing(entry),
                None => Target::Missing(parent),
            },
            Err(status) => Target::Nowhere(status),
        }
    }
}

/// What a path is about, where it is known what it leads to.
pub open spec fn info_target(tree: Tree, info: Result<Option<PathInfo>, NtStatus>) -> Target {
    match info {
        Ok(None) => Target::Root,
        Ok(Some(found)) => match lookup(
            tree.dirs@[found.parent].children@,
            found.name.file_name@,
        ) {
            Some(entry) => Target::Existing(entry),
            None => Target::Missing(found.parent),
        },
        Err(status) => Target::Nowhere(status),
    }
}

/// What a path leads to says what it is about.
pub proof fn leads_to_target(tree: Tree, units: Seq<u16>, info: Result<Option<PathInfo>, NtStatus>)
    requires
        leads_to(tree, units, info),
    ensures
        info_target(tree, info) == target(tree, units),
{
}

/// What a program gets that opened something.
#[derive(Debug)]
pub struct CreateFileInfo {
    pub context: EntryHandle,
    pub is_dir: bool,
    pub new_file_created: bool,
}

/// The names of albums, in order.
pub open spec fn album_names(albums: Seq<IdentifiedAlbum>) -> Seq<(Seq<u16>, ())> {
    albums.map_values(|album: IdentifiedAlbum| (utf16(album.album@), ()))
}

/// Whether these are the folders of albums, as an artist's folder holds them: one for each name.
pub open spec fn are_album_folders(
    children: NameMap<Stat>,
    albums: Seq<IdentifiedAlbum>,
    desc: Seq<u8>,
    now: Timestamp,
) -> bool {
    &&& children.wf()
    &&& names_of(children@) == names_of(collected(album_names(albums)))
    &&& forall|i: int|
        0 <= i < children@.len() ==> (#[trigger] children@[i]).1.is_new(
            1,
            0,
            desc,
            Some(ROOT),
            now,
        )
}

/// Makes the folders of albums.
pub(crate) fn album_folders(
    albums: &Vec<IdentifiedAlbum>,
    default_desc: &SecurityDescriptor,
    now: Timestamp,
) -> (children: NameMap<Stat>)
    ensures
        are_album_folders(children, albums@, default_desc.bytes@, now),
{
    let mut children: NameMap<Stat> = NameMap::new();
    let mut j: usize = 0;
    assert(album_names(albums@.take(0)) =~= Seq::empty());
    assert(names_of(children@) =~= names_of(Seq::<(Seq<u16>, ())>::empty()));
    while j < albums.len()
        invariant
            j <= albums@.len(),
            are_album_folders(children, albums@.take(j as int), default_desc.bytes@, now),
        decreases albums@.len() - j,
    {
        let stat = Stat::new(1, 0, default_desc.clone(), Some(ROOT), now);
        let name = EntryName::from_text(albums[j].album.as_str());
        proof {
            let before = album_names(albums@.take(j as int));
            let after = album_names(albums@.take(j + 1));
            assert(after.drop_last() =~= before);
            assert(after.last() == (name.units@, ()));
            put_names(children@, collected(before), name.units@, stat, ());
        }
        children.insert(name, stat);
        j = j + 1;
    }
    assert(albums@.take(j as int) =~= albums@);
    children
}

/// Whether this is kept about an entry that was made for one handle, which is open.
pub open spec fn just_opened(stat: Stat, desc: Seq<u8>, now: Timestamp) -> bool {
    &&& stat.handle_count == 1
    &&& (Stat { handle_count: 0, ..stat }).is_new(1, 0, desc, Some(ROOT), now)
}

/// Whether a folder was opened that was made for its handle and holds the folders of albums.
pub open spec fn opens_folder(
    result: Result<CreateFileInfo, NtStatus>,
    albums: Seq<IdentifiedAlbum>,
    desc: Seq<u8>,
    now: Timestamp,
) -> bool {
    &&& result matches Ok(made)
    &&& made.is_dir
    &&& !made.new_file_created
    &&& made.context == EntryHandle::fresh(made.context.entry, false)
    &&& made.context.entry matches OpenEntry::Folder(folder)
    &&& just_opened(folder.stat, desc, now)
    &&& are_album_folders(folder.children, albums, desc, now)
}

/// Whether a file was opened that was made for its handle and has the length `len`.
pub open spec fn opens_song(
    result: Result<CreateFileInfo, NtStatus>,
    len: u64,
    desc: Seq<u8>,
    now: Timestamp,
) -> bool {
    &&& result matches Ok(made)
    &&& !made.is_dir
    &&& !made.new_file_created
    &&& made.context == EntryHandle::fresh(made.context.entry, false)
    &&& made.context.entry matches OpenEntry::File(file)
    &&& just_opened(file.stat, desc, now)
    &&& file.len == len
}

/// What is kept about an entry of the tree once it was opened, and overwritten where that was
/// asked for.
pub open spec fn stat_once_opened(
    stat: Stat,
    overwritten: bool,
    request: OpenRequest,
    now: Timestamp,
) -> Stat {
    let counted = Stat { handle_count: (stat.handle_count + 1) as u32, ..stat };
    if overwritten {
        Stat {
            attrs: Attributes {
                value: (request.file_attributes | FILE_ATTRIBUTE_ARCHIVE) & SUPPORTED_ATTRS,
            },
            mtime: now,
            atime: now,
            ..counted
        }
    } else {
        counted
    }
}

/// Whether an entry of the tree was opened, which leaves this of it.
pub open spec fn opens_shared(
    result: Result<CreateFileInfo, NtStatus>,
    after: Tree,
    before: Tree,
    entry: Entry,
    delete_on_close: bool,
    stat: Stat,
) -> bool {
    &&& result matches Ok(made)
    &&& made.is_dir == (entry is Directory)
    &&& !made.new_file_created
    &&& made.context == EntryHandle::fresh(OpenEntry::Shared(entry), delete_on_close)
    &&& after.restated(before, entry, stat)
}

/// Whether `result` and the tree `after` are what opening a path in the tree `before` leads to.
/// `delete_on_close` says whether the root, if it is opened, is to be deleted when it is closed.
pub open spec fn tree_outcome(
    result: Result<CreateFileInfo, NtStatus>,
    after: Tree,
    before: Tree,
    units: Seq<u16>,
    request: OpenRequest,
    delete_on_close: bool,
    now: Timestamp,
) -> bool {
    if request.create_disposition > FILE_MAXIMUM_DISPOSITION {
        result == Err::<CreateFileInfo, NtStatus>(STATUS_INVALID_PARAMETER) && after == before
    } else {
        match target(before, units) {
            Target::Nowhere(status) => result == Err::<CreateFileInfo, NtStatus>(status) && after
                == before,
            Target::Root => {
                let root = Entry::Directory(ROOT);
                match root_error(request) {
                    Some(status) => result == Err::<CreateFileInfo, NtStatus>(status) && after
                        == before,
                    None => opens_shared(
                        result,
                        after,
                        before,
                        root,
                        delete_on_close,
                        stat_once_opened(before.stat_of(root), false, request, now),
                    ),
                }
            },
            Target::Existing(entry) => {
                let stat = before.stat_of(entry);
                match existing_decision(stat, entry is Directory, request) {
                    Err(status) => result == Err::<CreateFileInfo, NtStatus>(status) && after
                        == before,
                    Ok(overwritten) => opens_shared(
                        result,
                        after,
                        before,
                        entry,
                        request.deletes(),
                        stat_once_opened(stat, overwritten, request, now),
                    ),
                }
            },
            Target::Missing(parent) => result == Err::<CreateFileInfo, NtStatus>(
                missing_error(before.dirs@[parent].stat, request),
            ) && after == before,
        }
    }
}

/// Whether one more handle can be counted on what opening a path in the tree opens, if it opens
/// anything.
pub open spec fn countable(tree: Tree, units: Seq<u16>, request: OpenRequest) -> bool {
    request.create_disposition <= FILE_MAXIMUM_DISPOSITION ==> match target(tree, units) {
        Target::Root => root_error(request) is None ==> tree.stat_of(
            Entry::Directory(ROOT),
        ).handle_count < u32::MAX,
        Target::Existing(entry) => existing_decision(
            tree.stat_of(entry),
            entry is Directory,
            request,
        ) is Ok ==> tree.stat_of(entry).handle_count < u32::MAX,
        _ => true,
    }
}

/// Finds out what the path is about in the tree.
pub(crate) fn find_target(tree: &Tree, file_name: &[u16]) -> (found: Target)
    requires
        tree.wf(),
    ensures
        found == target(*tree, file_name@),
        found matches Target::Existing(entry) ==> tree.has(entry),
        found matches Target::Missing(parent) ==> tree.dirs@.contains_key(parent),
{
    let info: Result<Option<PathInfo>, NtStatus> = split_path(tree, file_name);
    proof {
        leads_to_target(*tree, file_name@, info);
    }
    match info {
        Ok(None) => Target::Root,
        Ok(Some(found)) => {
            let dir = tree.dirs.get(&found.parent).unwrap();
            match dir.children.get(EntryNameRef::new(found.name.file_name.as_slice())) {
                Some(entry) => {
                    proof {
                        let children = tree.dirs@[found.parent].children@;
                        let i = place(children, found.name.file_name@);
                        assert(holds_at(children, found.name.file_name@, i));
                        assert(tree.holds(found.parent, i, *entry));
                    }
                    Target::Existing(*entry)
                },
                None => Target::Missing(found.parent),
            }
        },
        Err(status) => Target::Nowhere(status),
    }
}

/// Opens an entry of the tree, and overwrites it where `overwritten` says so.
fn open_shared(
    tree: &mut Tree,
    entry: Entry,
    overwritten: bool,
    delete_on_close: bool,
    request: OpenRequest,
    now: Timestamp,
) -> (info: CreateFileInfo)
    requires
        old(tree).has(entry),
        old(tree).stat_of(entry).handle_count < u32::MAX,
    ensures
        opens_shared(
            Ok(info),
            *final(tree),
            *old(tree),
            entry,
            delete_on_close,
            stat_once_opened(old(tree).stat_of(entry), overwritten, request, now),
        ),
{
    let ghost before = *tree;
    if overwritten {
        let stat = tree.stat_mut(entry);
        stat.attrs = Attributes::new(request.file_attributes | FILE_ATTRIBUTE_ARCHIVE);
        stat.update_mtime(now);
        proof {
            restated_sound(before, *tree, entry, tree.stat_of(entry));
        }
    }
    let context = EntryHandle::new(tree, OpenEntry::Shared(entry), delete_on_close);
    proof {
        let stat = stat_once_opened(before.stat_of(entry), overwritten, request, now);
        match entry {
            Entry::File(key) => {
                assert(tree.files@ =~= before.files@.insert(
                    key,
                    FileEntry { stat, len: before.files@[key].len },
                ));
            },
            Entry::Directory(key) => {
                assert(tree.dirs@ =~= before.dirs@.insert(
                    key,
                    DirEntry { stat, children: before.dirs@[key].children },
                ));
            },
        }
    }
    CreateFileInfo { context, is_dir: entry.is_dir(), new_file_created: false }
}

/// Opens a path in the tree.
pub(crate) fn open_in_tree(
    tree: &mut Tree,
    file_name: &[u16],
    request: OpenRequest,
    delete_on_close: bool,
    now: Timestamp,
) -> (result: Result<CreateFileInfo, NtStatus>)
    requires
        old(tree).wf(),
        countable(*old(tree), file_name@, request),
    ensures
        tree_outcome(
            result,
            *final(tree),
            *old(tree),
            file_name@,
            request,
            delete_on_close,
            now,
        ),
        result matches Ok(made) ==> made.context.entry.is_in(*old(tree)),
{
    if request.create_disposition > FILE_MAXIMUM_DISPOSITION {
        return Err(STATUS_INVALID_PARAMETER);
    }
    match find_target(tree, file_name) {
        Target::Nowhere(status) => Err(status),
        Target::Root => match decide_root(request) {
            Some(status) => Err(status),
            None => Ok(
                open_shared(tree, Entry::Directory(ROOT), false, delete_on_close, request, now),
            ),
        },
        Target::Existing(entry) => {
            match decide_existing(tree.stat(entry), entry.is_dir(), request) {
                Err(status) => Err(status),
                Ok(overwritten) => {
                    let deletes: bool = request.delete_on_close();
                    Ok(open_shared(tree, entry, overwritten, deletes, request, now))
                },
            }
        },
        Target::Missing(parent) => {
            Err(decide_missing(tree.stat(Entry::Directory(parent)), request))
        },
    }
}

} // verus!
