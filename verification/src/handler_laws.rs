//! What holds of the file system as a whole: nothing is ever written or made, handles are counted
//! right, and what is shown of something is what opening it gives.

use crate::catalogue::{
    artist_path, listing, listing_exists, located, named, name_at, root_path, shown_in, Located,
};
use crate::folder_laws::{
    artist_apart, artist_shows_albums, found_has_path, path_tells_depth, plain_names,
    shown_name_opens,
};
use crate::handle::{
    closable, closes, enabled_after, later, time_after, EntryHandle, FileTimeOperation,
};
use crate::handler::{create_outcome, SubFSHandler};
use crate::name_laws::{collected_names, collected_names_alike, collected_value_from};
use crate::names::{
    collected, collected_distinct, collected_from, has_name, holds_at, lookup, names_of, place,
    same_name,
};
use crate::nt::{
    NtStatus, FILE_ATTRIBUTE_ARCHIVE, FILE_ATTRIBUTE_DIRECTORY, FILE_ATTRIBUTE_HIDDEN,
    FILE_ATTRIBUTE_NORMAL, FILE_ATTRIBUTE_NOT_CONTENT_INDEXED, FILE_ATTRIBUTE_OFFLINE,
    FILE_ATTRIBUTE_READONLY, FILE_ATTRIBUTE_SYSTEM, FILE_ATTRIBUTE_TEMPORARY, FILE_CREATE,
    FILE_DIRECTORY_FILE, FILE_OPEN_IF, FILE_OVERWRITE_IF, FILE_SUPERSEDE, STATUS_ACCESS_DENIED,
};
use crate::opening::{
    album_names, opens_folder, opens_shared, opens_song, set_in, stat_once_opened, target, tree_outcome,
    CreateFileInfo, OpenRequest, Target,
};
use crate::path::{components, walked};
use crate::requests::{
    are_find_data, in_range, is_find_data, range, shown_pairs, FindData, Shown,
};
use crate::stat::{output_attrs, Stat, Timestamp, SUPPORTED_ATTRS};
use crate::subsonic::{IdentifiedAlbum, IdentifiedArtist};
use crate::text::decimal;
use crate::tree::{attached, child_index, restated_sound, Entry, OpenEntry, Tree, ROOT};
use crate::updates::restated_by;
use crate::wide::{is_utf16, text_of, utf16};
use vstd::prelude::*;

verus! {

/// Whether two trees have the same directories with the same entries in them, and the same files
/// with the same lengths.
pub open spec fn same_contents(a: Tree, b: Tree) -> bool {
    &&& a.dirs@.dom() == b.dirs@.dom()
    &&& a.files@.dom() == b.files@.dom()
    &&& forall|key: u64| #[trigger]
        b.dirs@.contains_key(key) ==> a.dirs@[key].children@ == b.dirs@[key].children@
    &&& forall|key: u64| #[trigger]
        b.files@.contains_key(key) ==> a.files@[key].len == b.files@[key].len
}

/// Changing what is kept about an entry changes no contents.
proof fn restated_same_contents(before: Tree, after: Tree, entry: Entry, stat: Stat)
    requires
        before.has(entry),
        after.restated(before, entry, stat),
    ensures
        same_contents(after, before),
{
    assert(after.dirs@.dom() =~= before.dirs@.dom());
    assert(after.files@.dom() =~= before.files@.dom());
}

/// What opening a path is about is in the tree.
proof fn target_is_in(tree: Tree, units: Seq<u16>)
    requires
        tree.wf(),
    ensures
        target(tree, units) matches Target::Existing(entry) ==> tree.has(entry),
{
    if let Target::Existing(entry) = target(tree, units) {
        let parts = components(units);
        let parent = walked(tree, ROOT, parts.drop_last())->Ok_0;
        walked_is_in(tree, ROOT, parts.drop_last());
        let children = tree.dirs@[parent].children@;
        let name = crate::path::file_part(parts.last());
        let i = place(children, name);
        assert(holds_at(children, name, i));
        assert(tree.holds(parent, i, entry));
    }
}

/// A path leads from directory to directory of the tree.
proof fn walked_is_in(tree: Tree, dir: u64, parts: Seq<Seq<u16>>)
    requires
        tree.wf(),
        tree.dirs@.contains_key(dir),
    ensures
        walked(tree, dir, parts) matches Ok(key) ==> tree.dirs@.contains_key(key),
    decreases parts.len(),
{
    if parts.len() > 0 {
        let children = tree.dirs@[dir].children@;
        if let Some(Entry::Directory(next)) = lookup(children, parts[0]) {
            let i = place(children, parts[0]);
            assert(holds_at(children, parts[0], i));
            assert(tree.holds(dir, i, Entry::Directory(next)));
            walked_is_in(tree, next, parts.drop_first());
        }
    }
}

/// Opening makes nothing: whatever is asked for, the tree holds what it held before, nothing is
/// marked for deletion, and where there is an error, nothing changes at all.
pub proof fn opening_makes_nothing(
    result: Result<CreateFileInfo, NtStatus>,
    after: Tree,
    before: Tree,
    units: Seq<u16>,
    request: OpenRequest,
    delete_on_close: bool,
    now: Timestamp,
)
    requires
        before.wf(),
        tree_outcome(result, after, before, units, request, delete_on_close, now),
    ensures
        after.wf(),
        same_contents(after, before),
        result matches Ok(made) ==> !made.new_file_created,
        result is Err ==> after == before,
        before.bare() ==> after.bare(),
        forall|entry: Entry| #[trigger]
            before.has(entry) ==> after.stat_of(entry).delete_pending == before.stat_of(
                entry,
            ).delete_pending,
{
    target_is_in(before, units);
    if result is Ok {
        let entry = result->Ok_0.context.entry->Shared_0;
        assert(before.has(Entry::Directory(ROOT)));
        let stat = match target(before, units) {
            Target::Existing(e) => stat_once_opened(
                before.stat_of(e),
                crate::opening::existing_decision(
                    before.stat_of(e),
                    e is Directory,
                    request,
                )->Ok_0,
                request,
                now,
            ),
            _ => stat_once_opened(before.stat_of(Entry::Directory(ROOT)), false, request, now),
        };
        restated_sound(before, after, entry, stat);
        restated_same_contents(before, after, entry, stat);
    }
}

/// In a tree with nothing in it, opening succeeds for the root alone: for a path without
/// components.
pub proof fn only_root_opens(
    result: Result<CreateFileInfo, NtStatus>,
    after: Tree,
    before: Tree,
    units: Seq<u16>,
    request: OpenRequest,
    delete_on_close: bool,
    now: Timestamp,
)
    requires
        before.wf(),
        before.bare(),
        tree_outcome(result, after, before, units, request, delete_on_close, now),
    ensures
        components(units).len() > 0 ==> result is Err && after == before,
        result matches Ok(made) ==> made.context.entry == OpenEntry::Shared(Entry::Directory(ROOT)),
{
    let parts = components(units);
    let children = before.dirs@[ROOT].children@;
    assert forall|name: Seq<u16>| !has_name(children, name) by {
        if has_name(children, name) {
            assert(holds_at(children, name, place(children, name)));
        }
    }
    if parts.len() > 0 {
        let rest = parts.drop_last();
        if rest.len() > 0 {
            assert(walked(before, ROOT, rest) is Err);
        }
        assert(!(target(before, units) is Existing));
        assert(!(target(before, units) is Root));
    }
}

/// Making something new is denied: a name that is not there is not made, in a directory that is not
/// being deleted.
pub proof fn creation_is_denied(
    result: Result<CreateFileInfo, NtStatus>,
    after: Tree,
    before: Tree,
    units: Seq<u16>,
    request: OpenRequest,
    delete_on_close: bool,
    now: Timestamp,
)
    requires
        tree_outcome(result, after, before, units, request, delete_on_close, now),
        target(before, units) matches Target::Missing(parent)
            && !before.dirs@[parent].stat.delete_pending,
        request.create_disposition == FILE_CREATE || request.create_disposition == FILE_OPEN_IF || (
        (request.create_disposition == FILE_SUPERSEDE || request.create_disposition
            == FILE_OVERWRITE_IF) && !set_in(request.create_options, FILE_DIRECTORY_FILE)),
    ensures
        result == Err::<CreateFileInfo, NtStatus>(STATUS_ACCESS_DENIED),
        after == before,
{
}

/// Whether two sets of what is kept about an entry agree in what no request about something open
/// changes: the number, the count of handles, the pending deletion and the directory above.
pub open spec fn alike(a: Stat, b: Stat) -> bool {
    &&& a.id == b.id
    &&& a.handle_count == b.handle_count
    &&& a.delete_pending == b.delete_pending
    &&& a.parent == b.parent
}

/// What can happen to a file system.
pub enum Event {
    /// Something is opened, or is refused to be.
    Create {
        result: Result<CreateFileInfo, NtStatus>,
        units: Seq<u16>,
        request: OpenRequest,
        delete_on_close: bool,
        desc: Seq<u8>,
        content_length: Seq<u8>,
        now: Timestamp,
    },
    /// What is kept about something open is changed.
    Update { handle: EntryHandle, handle_after: EntryHandle, stat: Stat },
    /// A handle is closed.
    Close { handle: EntryHandle, now: Timestamp },
    /// A number for an entry is given out.
    Number,
    /// Something is asked that changes nothing.
    Ask,
}

/// Whether an event leads from one file system to the next.
pub open spec fn leads(event: Event, before: SubFSHandler, after: SubFSHandler) -> bool {
    &&& after.wf()
    &&& match event {
        Event::Create { result, units, request, delete_on_close, desc, content_length, now } =>
        create_outcome(
            result,
            after,
            before,
            units,
            request,
            delete_on_close,
            desc,
            content_length,
            now,
        ),
        Event::Update { handle, handle_after, stat } => {
            &&& before.knows(handle)
            &&& restated_by(after, handle_after, before, handle, stat)
            &&& alike(stat, handle.entry.stat_in(before.tree))
        },
        Event::Close { handle, now } => {
            &&& before.knows(handle)
            &&& after == (SubFSHandler { tree: after.tree, ..before })
            &&& closes(handle, before.tree, after.tree, now)
        },
        Event::Number => after == (SubFSHandler { id_counter: after.id_counter, ..before }),
        Event::Ask => after == before,
    }
}

/// No event puts anything into an empty tree, or marks its root for deletion.
proof fn event_keeps_empty(event: Event, before: SubFSHandler, after: SubFSHandler)
    requires
        before.wf(),
        before.tree.bare(),
        !before.tree.stat_of(Entry::Directory(ROOT)).delete_pending,
        leads(event, before, after),
    ensures
        after.tree.bare(),
        !after.tree.stat_of(Entry::Directory(ROOT)).delete_pending,
        after.info == before.info,
        event matches Event::Create { result, .. } ==> (result matches Ok(made)
            ==> !made.new_file_created),
{
    let root = Entry::Directory(ROOT);
    assert(before.tree.has(root));
    match event {
        Event::Create { result, units, request, delete_on_close, desc, content_length, now } => {
            if located(before.info.desired_folders@, text_of(units)) is None {
                opening_makes_nothing(
                    result,
                    after.tree,
                    before.tree,
                    units,
                    request,
                    delete_on_close,
                    now,
                );
            }
        },
        Event::Update { handle, handle_after, stat } => {
            if let OpenEntry::Shared(entry) = handle.entry {
                restated_sound(before.tree, after.tree, entry, stat);
            }
        },
        Event::Close { handle, now } => {
            if let OpenEntry::Shared(entry) = handle.entry {
                match entry {
                    Entry::File(key) => {
                        assert(before.tree.files@.dom().contains(key));
                    },
                    Entry::Directory(key) => {
                        assert(before.tree.dirs@.dom().contains(key));
                    },
                }
                let stat = before.tree.stat_of(entry);
                restated_sound(
                    before.tree,
                    after.tree,
                    entry,
                    Stat {
                        handle_count: (stat.handle_count - 1) as u32,
                        delete_pending: false,
                        ..stat
                    },
                );
            }
        },
        Event::Number => {},
        Event::Ask => {},
    }
}

/// Whatever is asked of a new file system, and in whatever order, nothing is ever made: its tree
/// stays empty, its folders stay what they are, its root is never to be deleted, and no opening
/// says that it made something.
pub proof fn nothing_is_ever_made(states: Seq<SubFSHandler>, events: Seq<Event>, n: int)
    requires
        states.len() == events.len() + 1,
        states[0].wf(),
        states[0].tree.bare(),
        !states[0].tree.stat_of(Entry::Directory(ROOT)).delete_pending,
        forall|i: int|
            0 <= i < events.len() ==> leads(#[trigger] events[i], states[i], states[i + 1]),
        0 <= n <= events.len(),
    ensures
        states[n].wf(),
        states[n].tree.bare(),
        !states[n].tree.stat_of(Entry::Directory(ROOT)).delete_pending,
        states[n].info == states[0].info,
        forall|i: int|
            0 <= i < n ==> (#[trigger] events[i] matches Event::Create { result, .. } ==> (
            result matches Ok(made) ==> !made.new_file_created)),
    decreases n,
{
    if n > 0 {
        nothing_is_ever_made(states, events, n - 1);
        assert(leads(events[n - 1], states[n - 1], states[n - 1 + 1]));
        event_keeps_empty(events[n - 1], states[n - 1], states[n]);
    }
}

/// The root can always be closed, though it was to be deleted: it counts one handle less, is not
/// marked for deletion, and stays with all that is in it.
pub proof fn root_is_never_deleted(
    handler: SubFSHandler,
    handle: EntryHandle,
    after: Tree,
    now: Timestamp,
)
    requires
        handler.wf(),
        handle.entry == OpenEntry::Shared(Entry::Directory(ROOT)),
        handler.tree.stat_of(Entry::Directory(ROOT)).handle_count > 0,
        closes(handle, handler.tree, after, now),
    ensures
        closable(handle, handler.tree),
        after.has(Entry::Directory(ROOT)),
        ({
            let stat = handler.tree.stat_of(Entry::Directory(ROOT));
            after.stat_of(Entry::Directory(ROOT)) == Stat {
                handle_count: (stat.handle_count - 1) as u32,
                delete_pending: false,
                ..stat
            }
        }),
        same_contents(after, handler.tree),
{
    let root = Entry::Directory(ROOT);
    let stat = handler.tree.stat_of(root);
    let closed = Stat {
        handle_count: (stat.handle_count - 1) as u32,
        delete_pending: false,
        ..stat
    };
    restated_sound(handler.tree, after, root, closed);
    restated_same_contents(handler.tree, after, root, closed);
}

/// Requests that change what is kept about something open change no contents, and leave an empty
/// tree empty.
pub proof fn updates_keep_contents(
    after: SubFSHandler,
    handle_after: EntryHandle,
    before: SubFSHandler,
    handle_before: EntryHandle,
    stat: Stat,
)
    requires
        before.wf(),
        before.knows(handle_before),
        restated_by(after, handle_after, before, handle_before, stat),
    ensures
        same_contents(after.tree, before.tree),
        before.tree.bare() ==> after.tree.bare(),
        after.info == before.info,
        handle_after.entry.length(after.tree) == handle_before.entry.length(before.tree),
        handle_after.entry.directory() == handle_before.entry.directory(),
{
    if let OpenEntry::Shared(entry) = handle_before.entry {
        restated_sound(before.tree, after.tree, entry, stat);
        restated_same_contents(before.tree, after.tree, entry, stat);
    }
}

/// Opening an entry of the tree without overwriting it and then closing it leaves the tree as it
/// was, where the entry is not to be deleted.
pub proof fn open_then_close(
    result: Result<CreateFileInfo, NtStatus>,
    opened: Tree,
    before: Tree,
    entry: Entry,
    request: OpenRequest,
    now: Timestamp,
    after: Tree,
)
    requires
        before.has(entry),
        before.stat_of(entry).handle_count < u32::MAX,
        !before.stat_of(entry).delete_pending,
        opens_shared(
            result,
            opened,
            before,
            entry,
            false,
            stat_once_opened(before.stat_of(entry), false, request, now),
        ),
        after.restated(
            opened,
            entry,
            Stat {
                handle_count: (opened.stat_of(entry).handle_count - 1) as u32,
                delete_pending: false,
                ..opened.stat_of(entry)
            },
        ),
    ensures
        !result->Ok_0.context.deletes(opened),
        after.files@ == before.files@,
        after.dirs@ == before.dirs@,
{
    let stat = stat_once_opened(before.stat_of(entry), false, request, now);
    restated_sound(before, opened, entry, stat);
    let closed = Stat {
        handle_count: (opened.stat_of(entry).handle_count - 1) as u32,
        delete_pending: false,
        ..opened.stat_of(entry)
    };
    assert(closed == before.stat_of(entry));
    match entry {
        Entry::File(key) => {
            assert(after.files@ =~= before.files@);
        },
        Entry::Directory(key) => {
            assert(after.dirs@ =~= before.dirs@);
        },
    }
}

/// How many of the handles are on an entry of the tree.
pub open spec fn handles_on(handles: Seq<EntryHandle>, entry: Entry) -> nat
    decreases handles.len(),
{
    if handles.len() == 0 {
        0
    } else {
        handles_on(handles.drop_last(), entry) + if handles.last().entry == OpenEntry::Shared(
            entry,
        ) {
            1nat
        } else {
            0nat
        }
    }
}

/// Whether the tree counts these handles: for each entry, as many as are on it.
pub open spec fn counts(tree: Tree, handles: Seq<EntryHandle>) -> bool {
    &&& forall|entry: Entry| #[trigger]
        tree.has(entry) ==> tree.stat_of(entry).handle_count == handles_on(handles, entry)
    &&& forall|i: int| 0 <= i < handles.len() ==> (#[trigger] handles[i]).entry.is_in(tree)
}

/// Taking one handle out of many takes one from the number on its entry, and none from another.
proof fn handles_on_removal(handles: Seq<EntryHandle>, i: int, entry: Entry)
    requires
        0 <= i < handles.len(),
    ensures
        handles_on(handles, entry) == handles_on(handles.remove(i), entry) + if handles[i].entry
            == OpenEntry::Shared(entry) {
            1nat
        } else {
            0nat
        },
    decreases handles.len(),
{
    if i == handles.len() - 1 {
        assert(handles.remove(i) =~= handles.drop_last());
    } else {
        handles_on_removal(handles.drop_last(), i, entry);
        assert(handles.remove(i).drop_last() =~= handles.drop_last().remove(i));
        assert(handles.remove(i).last() == handles.last());
    }
}

/// A new file system counts no handles.
pub proof fn new_counts_none(tree: Tree)
    requires
        tree.bare(),
        tree.stat_of(Entry::Directory(ROOT)).handle_count == 0,
    ensures
        counts(tree, Seq::empty()),
{
    assert forall|entry: Entry| #[trigger] tree.has(entry) implies tree.stat_of(entry).handle_count
        == handles_on(Seq::empty(), entry) by {
        match entry {
            Entry::File(key) => {
                assert(tree.files@.dom().contains(key));
            },
            Entry::Directory(key) => {
                assert(tree.dirs@.dom().contains(key));
            },
        }
    }
}

/// Opening an entry of the tree keeps the handles counted.
pub proof fn opening_counts(
    result: Result<CreateFileInfo, NtStatus>,
    after: Tree,
    before: Tree,
    entry: Entry,
    delete_on_close: bool,
    overwritten: bool,
    request: OpenRequest,
    now: Timestamp,
    handles: Seq<EntryHandle>,
)
    requires
        before.has(entry),
        before.stat_of(entry).handle_count < u32::MAX,
        opens_shared(
            result,
            after,
            before,
            entry,
            delete_on_close,
            stat_once_opened(before.stat_of(entry), overwritten, request, now),
        ),
        counts(before, handles),
    ensures
        counts(after, handles.push(result->Ok_0.context)),
{
    let stat = stat_once_opened(before.stat_of(entry), overwritten, request, now);
    restated_sound(before, after, entry, stat);
    let more = handles.push(result->Ok_0.context);
    assert(more.drop_last() =~= handles);
    assert forall|other: Entry| #[trigger] after.has(other) implies after.stat_of(
        other,
    ).handle_count == handles_on(more, other) by {
        assert(before.has(other));
    }
    assert forall|i: int| 0 <= i < more.len() implies (#[trigger] more[i]).entry.is_in(after) by {
        if i < handles.len() {
            assert(more[i] == handles[i]);
        }
    }
}

/// Opening something that is made for its handle keeps the handles counted.
pub proof fn own_opening_counts(tree: Tree, handle: EntryHandle, handles: Seq<EntryHandle>)
    requires
        !(handle.entry is Shared),
        counts(tree, handles),
    ensures
        counts(tree, handles.push(handle)),
{
    let more = handles.push(handle);
    assert(more.drop_last() =~= handles);
    assert forall|i: int| 0 <= i < more.len() implies (#[trigger] more[i]).entry.is_in(tree) by {
        if i < handles.len() {
            assert(more[i] == handles[i]);
        }
    }
}

/// Deleting an entry takes it out of the tree, and nothing else; of the others only the directory
/// that it was in is modified.
pub proof fn deletion_takes_one(before: Tree, after: Tree, entry: Entry, now: Timestamp)
    requires
        before.wf(),
        before.has(entry),
        attached(before, entry),
        after.unlinked(before, entry, now),
    ensures
        !after.has(entry),
        forall|other: Entry|
            other != entry ==> (#[trigger] after.has(other) <==> before.has(other)),
        forall|other: Entry| #[trigger]
            after.has(other) ==> after.stat_of(other) == if other == Entry::Directory(
                before.stat_of(entry).parent->0,
            ) {
                Stat { mtime: now, atime: now, ..before.stat_of(other) }
            } else {
                before.stat_of(other)
            },
{
    let parent = before.stat_of(entry).parent->0;
    let children = before.dirs@[parent].children@;
    let index = child_index(children, entry);
    assert(before.holds(parent, index, entry));
    assert(entry != Entry::Directory(parent));
    assert forall|key: u64| key != parent implies (#[trigger] after.dirs@.contains_key(key)
        <==> before.dirs@.contains_key(key) && entry != Entry::Directory(key)) && (
    after.dirs@.contains_key(key) ==> after.dirs@[key] == before.dirs@[key]) by {
        assert(after.dirs@.remove(parent).contains_key(key) <==> after.dirs@.contains_key(key));
        assert(before.dirs@.remove(parent).contains_key(key) <==> before.dirs@.contains_key(key));
        if after.dirs@.contains_key(key) {
            assert(after.dirs@.remove(parent)[key] == after.dirs@[key]);
            assert(before.dirs@.remove(parent)[key] == before.dirs@[key]);
        }
    }
    assert forall|other: Entry| other != entry implies (#[trigger] after.has(other)
        <==> before.has(other)) by {}
}

/// Every open handle on an entry of the tree is counted.
pub proof fn open_is_counted(tree: Tree, handles: Seq<EntryHandle>, i: int)
    requires
        0 <= i < handles.len(),
        counts(tree, handles),
        handles[i].entry is Shared,
    ensures
        handles[i].entry.stat_in(tree).handle_count > 0,
{
    assert(handles[i].entry.is_in(tree));
    handles_on_removal(handles, i, handles[i].entry->Shared_0);
}

/// Closing a handle keeps the others counted.
pub proof fn closing_counts(
    before: Tree,
    handles: Seq<EntryHandle>,
    i: int,
    after: Tree,
    now: Timestamp,
)
    requires
        before.wf(),
        0 <= i < handles.len(),
        counts(before, handles),
        closable(handles[i], before),
        closes(handles[i], before, after, now),
    ensures
        counts(after, handles.remove(i)),
{
    let fewer = handles.remove(i);
    assert(handles[i].entry.is_in(before));
    if let OpenEntry::Shared(entry) = handles[i].entry {
        handles_on_removal(handles, i, entry);
        if handles[i].deletes(before) {
            deletion_takes_one(before, after, entry, now);
        } else {
            restated_sound(
                before,
                after,
                entry,
                Stat {
                    handle_count: (before.stat_of(entry).handle_count - 1) as u32,
                    delete_pending: false,
                    ..before.stat_of(entry)
                },
            );
        }
    }
    assert forall|other: Entry| #[trigger] after.has(other) implies after.stat_of(
        other,
    ).handle_count == handles_on(fewer, other) by {
        assert(before.has(other));
        handles_on_removal(handles, i, other);
    }
    assert forall|j: int| 0 <= j < fewer.len() implies (#[trigger] fewer[j]).entry.is_in(after) by {
        let from = if j < i {
            j
        } else {
            j + 1
        };
        assert(fewer[j] == handles[from]);
        assert(handles[from].entry.is_in(before));
        if let OpenEntry::Shared(entry) = handles[i].entry {
            if handles[i].deletes(before) && fewer[j].entry == handles[i].entry {
                handles_on_removal(fewer, j, entry);
            }
        }
    }
}

/// Closing never moves a time back, and moves it on to a delayed time that is later.
pub proof fn delayed_times_are_kept(time: Timestamp, delayed: Option<Timestamp>)
    ensures
        later(time, delayed) >= time,
        delayed matches Some(t) ==> later(time, delayed) >= t,
        later(time, delayed) == time || delayed == Some(later(time, delayed)),
        later(later(time, delayed), delayed) == later(time, delayed),
{
}

/// A time that was disabled is not set until it is resumed, and then it is.
pub proof fn disabled_time_stays(time: Timestamp, new: Timestamp, enabled: bool)
    ensures
        ({
            let off = enabled_after(FileTimeOperation::DisableUpdate, enabled);
            let on = enabled_after(FileTimeOperation::ResumeUpdate, off);
            &&& time_after(FileTimeOperation::SetTime(new), time, off) == time
            &&& time_after(FileTimeOperation::SetTime(new), time, on) == new
            &&& enabled_after(FileTimeOperation::SetTime(new), enabled) == enabled
            &&& time_after(FileTimeOperation::DontChange, time, enabled) == time
            &&& enabled_after(FileTimeOperation::DontChange, enabled) == enabled
        }),
{
}

/// The attributes that can be kept are exactly seven; keeping them again changes nothing; and what
/// is shown is never nothing, says `directory` exactly of directories, and holds what is kept.
pub proof fn attributes_are_masked(attrs: u32, is_dir: bool)
    ensures
        SUPPORTED_ATTRS == FILE_ATTRIBUTE_ARCHIVE | FILE_ATTRIBUTE_HIDDEN
            | FILE_ATTRIBUTE_NOT_CONTENT_INDEXED | FILE_ATTRIBUTE_OFFLINE
            | FILE_ATTRIBUTE_READONLY | FILE_ATTRIBUTE_SYSTEM | FILE_ATTRIBUTE_TEMPORARY,
        ({
            let kept = attrs & SUPPORTED_ATTRS;
            let shown = output_attrs(kept, is_dir);
            &&& kept & SUPPORTED_ATTRS == kept
            &&& shown != 0
            &&& (shown & FILE_ATTRIBUTE_DIRECTORY != 0) == is_dir
            &&& shown & SUPPORTED_ATTRS == kept
            &&& (shown == FILE_ATTRIBUTE_NORMAL) == (kept == 0 && !is_dir)
        }),
{
    assert(SUPPORTED_ATTRS == FILE_ATTRIBUTE_ARCHIVE | FILE_ATTRIBUTE_HIDDEN
        | FILE_ATTRIBUTE_NOT_CONTENT_INDEXED | FILE_ATTRIBUTE_OFFLINE | FILE_ATTRIBUTE_READONLY
        | FILE_ATTRIBUTE_SYSTEM | FILE_ATTRIBUTE_TEMPORARY) by (bit_vector);
    let kept = attrs & SUPPORTED_ATTRS;
    assert(kept & SUPPORTED_ATTRS == kept && kept & FILE_ATTRIBUTE_DIRECTORY == 0 && kept
        != FILE_ATTRIBUTE_NORMAL && (kept | FILE_ATTRIBUTE_DIRECTORY) != 0 && (kept
        | FILE_ATTRIBUTE_DIRECTORY) & FILE_ATTRIBUTE_DIRECTORY != 0 && (kept
        | FILE_ATTRIBUTE_DIRECTORY) & SUPPORTED_ATTRS == kept && (kept | FILE_ATTRIBUTE_DIRECTORY)
        != FILE_ATTRIBUTE_NORMAL && FILE_ATTRIBUTE_NORMAL & FILE_ATTRIBUTE_DIRECTORY == 0
        && FILE_ATTRIBUTE_NORMAL & SUPPORTED_ATTRS == 0) by (bit_vector)
        requires
            kept == attrs & SUPPORTED_ATTRS,
    ;
}

/// A song that is opened has the size and the attributes that its album's folder shows of it, where
/// the server tells the same length of it.
pub proof fn song_is_as_shown(
    result: Result<CreateFileInfo, NtStatus>,
    len: u64,
    desc: Seq<u8>,
    now: Timestamp,
    tree: Tree,
    data: FindData,
    name: Seq<u16>,
    then: Timestamp,
)
    requires
        opens_song(result, len, desc, now),
        is_find_data(data, name, Shown { is_dir: false, len }, then),
    ensures
        ({
            let handle = result->Ok_0.context;
            &&& handle.entry.length(tree) == data.file_size
            &&& output_attrs(
                handle.entry.stat_in(tree).attrs.value,
                handle.entry.directory(),
            ) == data.attributes
        }),
{
    assert(0u32 & SUPPORTED_ATTRS == 0) by (bit_vector);
}

/// A folder that is opened is a directory, without a size, as the folder above shows it.
pub proof fn folder_is_as_shown(
    result: Result<CreateFileInfo, NtStatus>,
    albums: Seq<IdentifiedAlbum>,
    desc: Seq<u8>,
    now: Timestamp,
    tree: Tree,
    data: FindData,
    name: Seq<u16>,
    then: Timestamp,
)
    requires
        opens_folder(result, albums, desc, now),
        is_find_data(data, name, Shown { is_dir: true, len: 0 }, then),
    ensures
        ({
            let handle = result->Ok_0.context;
            &&& handle.entry.length(tree) == data.file_size
            &&& output_attrs(
                handle.entry.stat_in(tree).attrs.value,
                handle.entry.directory(),
            ) == data.attributes
        }),
{
    assert(0u32 & SUPPORTED_ATTRS == 0) by (bit_vector);
    assert(0u32 | FILE_ATTRIBUTE_DIRECTORY == FILE_ATTRIBUTE_DIRECTORY) by (bit_vector);
}

/// The name of a shown entry, without the zero at its end.
pub open spec fn shown_name(data: FindData) -> Seq<u16> {
    data.file_name@.drop_last()
}

/// A directory shows no name twice, shows everything that is in it, and shows nothing else.
pub proof fn everything_is_shown_once(
    folders: Seq<(IdentifiedArtist, Vec<IdentifiedAlbum>)>,
    list: Seq<Located>,
    lengths: Seq<Vec<u8>>,
    data: Seq<FindData>,
    now: Timestamp,
)
    requires
        are_find_data(data, collected(shown_pairs(folders, list, lengths)), now),
    ensures
        forall|i: int, j: int|
            0 <= i < j < data.len() ==> !same_name(
                shown_name(#[trigger] data[i]),
                shown_name(#[trigger] data[j]),
            ),
        forall|k: int|
            0 <= k < list.len() ==> exists|i: int|
                0 <= i < data.len() && same_name(
                    shown_name(data[i]),
                    utf16(name_at(folders, #[trigger] list[k])),
                ),
        forall|i: int|
            0 <= i < data.len() ==> exists|k: int|
                0 <= k < list.len() && shown_name(#[trigger] data[i]) == utf16(
                    name_at(folders, list[k]),
                ),
{
    let pairs = shown_pairs(folders, list, lengths);
    let items = collected(pairs);
    collected_distinct(pairs);
    assert forall|i: int| 0 <= i < data.len() implies shown_name(#[trigger] data[i])
        == items[i].0 by {
        assert(is_find_data(data[i], items[i].0, items[i].1, now));
        assert(items[i].0.push(0u16).drop_last() =~= items[i].0);
    }
    assert forall|i: int, j: int| 0 <= i < j < data.len() implies !same_name(
        shown_name(#[trigger] data[i]),
        shown_name(#[trigger] data[j]),
    ) by {
        assert(!same_name(items[i].0, items[j].0));
    }
    assert forall|k: int| 0 <= k < list.len() implies exists|i: int|
        0 <= i < data.len() && same_name(
            shown_name(data[i]),
            utf16(name_at(folders, #[trigger] list[k])),
        ) by {
        let name = utf16(name_at(folders, list[k]));
        assert(same_name(pairs[k].0, name));
        collected_names(pairs, name);
        let i = place(items, name);
        assert(holds_at(items, name, i));
        assert(same_name(shown_name(data[i]), name));
    }
    assert forall|i: int| 0 <= i < data.len() implies exists|k: int|
        0 <= k < list.len() && shown_name(#[trigger] data[i]) == utf16(
            name_at(folders, list[k]),
        ) by {
        collected_from(pairs, i);
        let k = choose|k: int| 0 <= k < pairs.len() && (#[trigger] pairs[k]).0 == items[i].0;
        assert(shown_name(data[i]) == utf16(name_at(folders, list[k])));
    }
}

/// Whatever a directory shows can be opened, by the directory's path and the name that is shown;
/// and where names hold no backslash, it opens as what it is shown as, a file or a directory.
#[verifier::spinoff_prover]
pub proof fn shown_entries_open(
    folders: Seq<(IdentifiedArtist, Vec<IdentifiedAlbum>)>,
    path: Seq<char>,
    lengths: Seq<Vec<u8>>,
    data: Seq<FindData>,
    now: Timestamp,
    i: int,
)
    requires
        folders.len() <= usize::MAX,
        are_find_data(
            data,
            collected(shown_pairs(folders, listing(folders, path), lengths)),
            now,
        ),
        0 <= i < data.len(),
    ensures
        ({
            let units = if path == root_path() {
                utf16(path) + shown_name(data[i])
            } else {
                utf16(path) + seq!['\\' as u16] + shown_name(data[i])
            };
            &&& is_utf16(units)
            &&& located(folders, text_of(units)) is Some
            &&& plain_names(folders) ==> data[i].attributes == if located(
                folders,
                text_of(units),
            )->0 is Song {
                FILE_ATTRIBUTE_NORMAL
            } else {
                FILE_ATTRIBUTE_DIRECTORY
            }
        }),
{
    let list = listing(folders, path);
    listing_exists(folders, path);
    everything_is_shown_once(folders, list, lengths, data, now);
    assert(shown_name(data[i]) == shown_name(data[i]));
    let k = choose|k: int|
        0 <= k < list.len() && shown_name(data[i]) == utf16(name_at(folders, list[k]));
    assert(list.contains(list[k]));
    assert(shown_in(folders, path, list[k]));
    shown_name_opens(folders, path, list[k]);
    if plain_names(folders) {
        let units = if path == root_path() {
            utf16(path) + shown_name(data[i])
        } else {
            utf16(path) + seq!['\\' as u16] + shown_name(data[i])
        };
        found_has_path(folders, text_of(units));
        let found = located(folders, text_of(units))->0;
        same_path_same_kind(folders, text_of(units), list[k], found);
        shown_as_kind(folders, path, lengths, data, now, i, k);
    }
}

/// Where names hold no backslash, things with one path are of one kind.
proof fn same_path_same_kind(
    folders: Seq<(IdentifiedArtist, Vec<IdentifiedAlbum>)>,
    path: Seq<char>,
    a: Located,
    b: Located,
)
    requires
        plain_names(folders),
        named(folders, path, a),
        named(folders, path, b),
    ensures
        a is Song <==> b is Song,
{
    path_tells_depth(folders, a);
    path_tells_depth(folders, b);
}

/// Where names hold no backslash, an entry is shown as the kind of anything in the listing.
proof fn shown_as_kind(
    folders: Seq<(IdentifiedArtist, Vec<IdentifiedAlbum>)>,
    path: Seq<char>,
    lengths: Seq<Vec<u8>>,
    data: Seq<FindData>,
    now: Timestamp,
    i: int,
    k: int,
)
    requires
        folders.len() <= usize::MAX,
        plain_names(folders),
        are_find_data(
            data,
            collected(shown_pairs(folders, listing(folders, path), lengths)),
            now,
        ),
        0 <= i < data.len(),
        0 <= k < listing(folders, path).len(),
    ensures
        data[i].attributes == if listing(folders, path)[k] is Song {
            FILE_ATTRIBUTE_NORMAL
        } else {
            FILE_ATTRIBUTE_DIRECTORY
        },
{
    let list = listing(folders, path);
    listing_exists(folders, path);
    let pairs = shown_pairs(folders, list, lengths);
    let items = collected(pairs);
    assert(is_find_data(data[i], items[i].0, items[i].1, now));
    collected_value_from(pairs, i);
    let m = choose|m: int| 0 <= m < pairs.len() && (#[trigger] pairs[m]).1 == items[i].1;
    assert(list.contains(list[m]));
    assert(shown_in(folders, path, list[m]));
    assert(list.contains(list[k]));
    assert(shown_in(folders, path, list[k]));
    path_tells_depth(folders, list[m]);
    path_tells_depth(folders, list[k]);
}

/// The folder that an artist's path opens holds the albums that are shown under that path, where
/// the path tells the artist's folder apart.
pub proof fn artist_holds_what_is_shown(
    folders: Seq<(IdentifiedArtist, Vec<IdentifiedAlbum>)>,
    i: usize,
    result: Result<CreateFileInfo, NtStatus>,
    desc: Seq<u8>,
    now: Timestamp,
    lengths: Seq<Vec<u8>>,
)
    requires
        i < folders.len(),
        artist_apart(folders, i),
        opens_folder(result, folders[i as int].1@, desc, now),
    ensures
        names_of(result->Ok_0.context.entry->Folder_0.children@) == names_of(
            collected(
                shown_pairs(
                    folders,
                    listing(folders, artist_path(folders[i as int].0)),
                    lengths,
                ),
            ),
        ),
{
    artist_shows_albums(folders, i);
    let albums = folders[i as int].1;
    assert(albums@.len() == albums.len());
    let shown = shown_pairs(folders, listing(folders, artist_path(folders[i as int].0)), lengths);
    assert(names_of(album_names(albums@)) =~= names_of(shown));
    collected_names_alike(album_names(albums@), shown);
}

/// From a position on that is not negative, exactly as many bytes are asked for as fit.
pub proof fn range_of_position(offset: i64, len: usize)
    requires
        in_range(offset, len),
        0 <= offset <= usize::MAX,
    ensures
        range(offset, len) == "bytes="@ + decimal(offset as nat) + "-"@ + decimal(
            (offset + len - 1) as nat,
        ),
{
}

} // verus!
