//! What requests are answered, in terms of what was asked and of what the server told.

use crate::catalogue::{listing, located, name_at, song_at, Located};
use crate::handle::{
    closable, closes, enabled_after, later, time_after, EntryHandle, FileTimeOperation,
};
use crate::handler::{comparable, create_need, create_outcome, CreateNeed, SubFSHandler};
use crate::name_laws::{collected_keeps_last, collected_names};
use crate::names::{
    collected, collected_distinct, collected_from, distinct, folded, has_name, holds_at, lookup, names_of,
    place, place_unique, put, same_name,
};
use crate::nt::NtStatus;
use crate::opening::{
    album_names, are_album_folders, countable, existing_decision, missing_error,     root_error, target, tree_outcome, CreateFileInfo, OpenRequest, Target,
};
use crate::path::{
    components, file_part, leads_to, stream_of, stream_part, valid_name, walked, PathInfo,
};
use crate::requests::{
    are_find_data, in_range, is_find_data, measured, range, shown_pairs, terminable, FindData,
};
use crate::stat::{output_attrs, Stat, Timestamp};
use crate::subsonic::{IdentifiedAlbum, IdentifiedArtist};
use crate::text::{decimal, parsed_u64};
use crate::tree::{attached, restated_sound, Entry, OpenEntry, Tree};
use crate::updates::restated_by;
use crate::wide::{is_utf16, text_of, utf16};
use vstd::prelude::*;

verus! {

/// What an entry that was just made has: no attributes, all times the same, one directory above.
pub proof fn new_entries(
    stat: Stat,
    id: u64,
    attrs: u32,
    desc: Seq<u8>,
    parent: Option<u64>,
    now: Timestamp,
)
    ensures
        stat.is_new(id, attrs, desc, parent, now) <==> {
            &&& stat.id == id
            &&& stat.attrs.value == attrs & 0x3127
            &&& stat.ctime == now && stat.mtime == now && stat.atime == now
            &&& stat.sec_desc.bytes@ == desc
            &&& stat.handle_count == 0
            &&& !stat.delete_pending
            &&& stat.parent == parent
        },
{
}

/// A song opens whatever is asked for, as a file as long as the server tells, on a handle of its own
/// that deletes nothing and delays nothing; and the file system stays as it was.
pub proof fn songs_open_whatever_is_asked(
    result: Result<CreateFileInfo, NtStatus>,
    after: SubFSHandler,
    before: SubFSHandler,
    units: Seq<u16>,
    request: OpenRequest,
    delete_on_close: bool,
    desc: Seq<u8>,
    content_length: Seq<u8>,
    now: Timestamp,
)
    requires
        create_outcome(
            result,
            after,
            before,
            units,
            request,
            delete_on_close,
            desc,
            content_length,
            now,
        ),
        located(before.info.desired_folders@, text_of(units)) matches Some(at) && at is Song,
    ensures
        after == before,
        result is Ok,
        ({
            let made = result->Ok_0;
            &&& !made.is_dir
            &&& !made.new_file_created
            &&& made.context.entry matches OpenEntry::File(file)
            &&& file.len == parsed_u64(content_length)->0
            &&& file.stat.id == 1
            &&& file.stat.attrs.value == 0
            &&& file.stat.ctime == now && file.stat.mtime == now && file.stat.atime == now
            &&& file.stat.sec_desc.bytes@ == desc
            &&& file.stat.handle_count == 1
            &&& !file.stat.delete_pending
            &&& file.stat.parent == Some(0u64)
            &&& !made.context.delete_on_close
            &&& made.context.mtime_delayed is None && made.context.atime_delayed is None
            &&& made.context.ctime_enabled && made.context.mtime_enabled
                && made.context.atime_enabled
        }),
{
    assert(0u32 & 0x3127 == 0) by (bit_vector);
}

/// The folder of an artist or an album opens whatever is asked for, as a directory on a handle of its
/// own; that of an artist holds a folder for each name of an album of the artist, that of an album
/// holds nothing; and the file system stays as it was.
pub proof fn folders_open_whatever_is_asked(
    result: Result<CreateFileInfo, NtStatus>,
    after: SubFSHandler,
    before: SubFSHandler,
    units: Seq<u16>,
    request: OpenRequest,
    delete_on_close: bool,
    desc: Seq<u8>,
    content_length: Seq<u8>,
    now: Timestamp,
)
    requires
        create_outcome(
            result,
            after,
            before,
            units,
            request,
            delete_on_close,
            desc,
            content_length,
            now,
        ),
        located(before.info.desired_folders@, text_of(units)) matches Some(at) && !(at is Song),
    ensures
        after == before,
        result is Ok,
        ({
            let made = result->Ok_0;
            &&& made.is_dir
            &&& !made.new_file_created
            &&& made.context.entry matches OpenEntry::Folder(folder)
            &&& folder.stat.id == 1
            &&& folder.stat.attrs.value == 0
            &&& folder.stat.ctime == now && folder.stat.mtime == now && folder.stat.atime == now
            &&& folder.stat.sec_desc.bytes@ == desc
            &&& folder.stat.handle_count == 1
            &&& !folder.stat.delete_pending
            &&& folder.stat.parent == Some(0u64)
            &&& !made.context.delete_on_close
            &&& made.context.mtime_delayed is None && made.context.atime_delayed is None
            &&& made.context.ctime_enabled && made.context.mtime_enabled
                && made.context.atime_enabled
        }),
        ({
            let children = result->Ok_0.context.entry->Folder_0.children@;
            match located(before.info.desired_folders@, text_of(units))->0 {
                Located::Artist(i) => {
                    let albums = before.info.desired_folders@[i as int].1@;
                    &&& forall|j: int|
                        0 <= j < albums.len() ==> exists|c: int|
                            0 <= c < children.len() && same_name(
                                children[c].0,
                                utf16((#[trigger] albums[j]).album@),
                            )
                    &&& forall|c: int|
                        0 <= c < children.len() ==> exists|j: int|
                            0 <= j < albums.len() && (#[trigger] children[c]).0 == utf16(
                                albums[j].album@,
                            )
                    &&& forall|c: int, e: int|
                        0 <= c < e < children.len() ==> !same_name(
                            (#[trigger] children[c]).0,
                            (#[trigger] children[e]).0,
                        )
                },
                _ => children.len() == 0,
            }
        }),
{
    assert(0u32 & 0x3127 == 0) by (bit_vector);
    let folder = result->Ok_0.context.entry->Folder_0;
    let children = folder.children@;
    let albums = match located(before.info.desired_folders@, text_of(units))->0 {
        Located::Artist(i) => before.info.desired_folders@[i as int].1@,
        _ => Seq::<IdentifiedAlbum>::empty(),
    };
    let pairs = album_names(albums);
    let items = collected(pairs);
    assert(are_album_folders(folder.children, albums, desc, now));
    assert(names_of(children).len() == children.len());
    assert(names_of(items).len() == items.len());
    assert forall|c: int| 0 <= c < children.len() implies (#[trigger] children[c]).0
        == items[c].0 by {
        assert(names_of(children)[c] == names_of(items)[c]);
    }
    assert forall|j: int| 0 <= j < albums.len() implies exists|c: int|
        0 <= c < children.len() && same_name(
            children[c].0,
            utf16((#[trigger] albums[j]).album@),
        ) by {
        let name = utf16(albums[j].album@);
        assert(same_name(pairs[j].0, name));
        collected_names(pairs, name);
        let at = place(items, name);
        assert(holds_at(items, name, at));
        assert(children[at].0 == items[at].0);
        assert(same_name(children[at].0, name));
    }
    assert forall|c: int| 0 <= c < children.len() implies exists|j: int|
        0 <= j < albums.len() && (#[trigger] children[c]).0 == utf16(albums[j].album@) by {
        collected_from(pairs, c);
        let j = choose|j: int| 0 <= j < pairs.len() && (#[trigger] pairs[j]).0 == items[c].0;
        assert(children[c].0 == utf16(albums[j].album@));
    }
    if albums.len() == 0 {
        assert(pairs =~= Seq::empty());
    }
}

/// Two requests for one artist, album or song are answered alike, however different they are: as the
/// same kind, with the same length.
pub proof fn requests_are_answered_alike(
    first: Result<CreateFileInfo, NtStatus>,
    second: Result<CreateFileInfo, NtStatus>,
    after_first: SubFSHandler,
    after_second: SubFSHandler,
    before: SubFSHandler,
    units: Seq<u16>,
    one: OpenRequest,
    other: OpenRequest,
    desc: Seq<u8>,
    content_length: Seq<u8>,
    now: Timestamp,
    tree: Tree,
)
    requires
        create_outcome(
            first,
            after_first,
            before,
            units,
            one,
            true,
            desc,
            content_length,
            now,
        ),
        create_outcome(
            second,
            after_second,
            before,
            units,
            other,
            false,
            desc,
            content_length,
            now,
        ),
        located(before.info.desired_folders@, text_of(units)) is Some,
    ensures
        first is Ok && second is Ok,
        first->Ok_0.is_dir == second->Ok_0.is_dir,
        first->Ok_0.context.entry.length(tree) == second->Ok_0.context.entry.length(tree),
        after_first == after_second,
{
    if located(before.info.desired_folders@, text_of(units))->0 is Song {
        songs_open_whatever_is_asked(
            first,
            after_first,
            before,
            units,
            one,
            true,
            desc,
            content_length,
            now,
        );
        songs_open_whatever_is_asked(
            second,
            after_second,
            before,
            units,
            other,
            false,
            desc,
            content_length,
            now,
        );
    }
}

/// What names nothing among the artists, albums and songs is left to the tree, and changes nothing
/// else.
pub proof fn other_paths_are_left_to_the_tree(
    result: Result<CreateFileInfo, NtStatus>,
    after: SubFSHandler,
    before: SubFSHandler,
    units: Seq<u16>,
    request: OpenRequest,
    delete_on_close: bool,
    desc: Seq<u8>,
    content_length: Seq<u8>,
    now: Timestamp,
)
    requires
        create_outcome(
            result,
            after,
            before,
            units,
            request,
            delete_on_close,
            desc,
            content_length,
            now,
        ),
        located(before.info.desired_folders@, text_of(units)) is None,
    ensures
        after.info == before.info,
        after.id_counter == before.id_counter,
        tree_outcome(result, after.tree, before.tree, units, request, delete_on_close, now),
{
}

/// The root opens for the dispositions 1 and 3, unless a file is asked for, and for no others; it
/// counts one handle more, and the operation alone says whether it is to be deleted.
pub proof fn root_opens(
    result: Result<CreateFileInfo, NtStatus>,
    after: Tree,
    before: Tree,
    units: Seq<u16>,
    request: OpenRequest,
    delete_on_close: bool,
    now: Timestamp,
)
    requires
        tree_outcome(result, after, before, units, request, delete_on_close, now),
        forall|i: int| 0 <= i < units.len() ==> #[trigger] units[i] == 0x5C,
        before.wf(),
    ensures
        (request.create_disposition == 1 || request.create_disposition == 3)
            && request.create_options & 0x40 == 0 ==> {
            &&& result matches Ok(made)
            &&& made.is_dir
            &&& !made.new_file_created
            &&& made.context.entry == OpenEntry::Shared(Entry::Directory(0))
            &&& made.context.delete_on_close == delete_on_close
            &&& made.context.mtime_delayed is None && made.context.atime_delayed is None
            &&& made.context.ctime_enabled && made.context.mtime_enabled
                && made.context.atime_enabled
            &&& after.dirs@[0].stat == Stat {
                handle_count: (before.dirs@[0].stat.handle_count + 1) as u32,
                ..before.dirs@[0].stat
            }
            &&& after.dirs@[0].children == before.dirs@[0].children
            &&& after.files@ == before.files@
        },
        (request.create_disposition == 1 || request.create_disposition == 3)
            && request.create_options & 0x40 != 0 ==> {
            &&& result matches Err(status)
            &&& status == 0xC00000BAint - 0x1_0000_0000
            &&& after == before
        },
        request.create_disposition != 1 && request.create_disposition != 3 ==> {
            &&& result matches Err(status)
            &&& status == 0xC000000Dint - 0x1_0000_0000
            &&& after == before
        },
{
    crate::name_laws::root_has_no_components(units);
}

/// What opening a name that is not there is answered: that deletion is under way, that it is not
/// found, that the request makes no sense, or else that access is denied, since nothing is made.
pub proof fn missing_names_are_refused(parent: Stat, request: OpenRequest)
    ensures
        ({
            let status = missing_error(parent, request);
            let d = request.create_disposition;
            let directory = request.create_options & 1 != 0;
            &&& parent.delete_pending ==> status == 0xC0000056int - 0x1_0000_0000
            &&& !parent.delete_pending && d == 1 ==> status == 0xC0000034int - 0x1_0000_0000
            &&& !parent.delete_pending && (d == 2 || d == 3) ==> status == 0xC0000022int
                - 0x1_0000_0000
            &&& !parent.delete_pending && !directory && d == 4 ==> status == 0xC0000034int
                - 0x1_0000_0000
            &&& !parent.delete_pending && !directory && (d == 0 || d >= 5) ==> status
                == 0xC0000022int - 0x1_0000_0000
            &&& !parent.delete_pending && directory && (d == 0 || d >= 4) ==> status
                == 0xC000000Dint - 0x1_0000_0000
        }),
{
}

/// What opening a file that is there is answered, rule by rule.
pub proof fn existing_files_open(stat: Stat, request: OpenRequest)
    ensures
        ({
            let decision = existing_decision(stat, false, request);
            let readonly = stat.attrs.value & 1 != 0;
            let writes = request.desired_access & 2 != 0 || request.desired_access & 4 != 0;
            let deletes = request.create_options & 0x1000 != 0;
            let directory = request.create_options & 1 != 0;
            let hidden = stat.attrs.value & 2 != 0 && stat.attrs.value & 4 != 0 && !(
            request.file_attributes & 2 != 0 && request.file_attributes & 4 != 0);
            let d = request.create_disposition;
            let admitted = !(readonly && (writes || deletes)) && !stat.delete_pending
                && !directory;
            &&& readonly && writes ==> decision is Err && decision->Err_0 == 0xC0000022int
                - 0x1_0000_0000
            &&& !(readonly && writes) && stat.delete_pending ==> decision is Err && decision->Err_0 == 0xC0000056int - 0x1_0000_0000
            &&& readonly && !writes && !stat.delete_pending && deletes ==> decision is Err && decision->Err_0 == 0xC0000121int - 0x1_0000_0000
            &&& !(readonly && (writes || deletes)) && !stat.delete_pending && directory
                ==> decision is Err && decision->Err_0 == 0xC0000103int - 0x1_0000_0000
            &&& admitted && d == 2 ==> decision is Err && decision->Err_0 == 0xC0000035int
                - 0x1_0000_0000
            &&& admitted && (d == 1 || d == 3 || d > 5) ==> decision == Ok::<bool, NtStatus>(false)
            &&& admitted && (d == 0 || d == 4 || d == 5) && (hidden || readonly && d != 0)
                ==> decision is Err && decision->Err_0 == 0xC0000022int - 0x1_0000_0000
            &&& admitted && (d == 0 || d == 4 || d == 5) && !(hidden || readonly && d != 0)
                ==> decision == Ok::<bool, NtStatus>(true)
        }),
{
}

/// What opening a directory that is there is answered, rule by rule.
pub proof fn existing_directories_open(stat: Stat, request: OpenRequest)
    ensures
        ({
            let decision = existing_decision(stat, true, request);
            let readonly = stat.attrs.value & 1 != 0;
            let writes = request.desired_access & 2 != 0 || request.desired_access & 4 != 0;
            let deletes = request.create_options & 0x1000 != 0;
            let file = request.create_options & 0x40 != 0;
            let d = request.create_disposition;
            let admitted = !(readonly && (writes || deletes)) && !stat.delete_pending && !file;
            &&& readonly && writes ==> decision is Err && decision->Err_0 == 0xC0000022int
                - 0x1_0000_0000
            &&& !(readonly && writes) && stat.delete_pending ==> decision is Err && decision->Err_0 == 0xC0000056int - 0x1_0000_0000
            &&& readonly && !writes && !stat.delete_pending && deletes ==> decision is Err && decision->Err_0 == 0xC0000121int - 0x1_0000_0000
            &&& !(readonly && (writes || deletes)) && !stat.delete_pending && file
                ==> decision is Err && decision->Err_0 == 0xC00000BAint - 0x1_0000_0000
            &&& admitted && (d == 1 || d == 3) ==> decision == Ok::<bool, NtStatus>(false)
            &&& admitted && d == 2 ==> decision is Err && decision->Err_0 == 0xC0000035int
                - 0x1_0000_0000
            &&& admitted && d != 1 && d != 2 && d != 3 ==> decision is Err && decision->Err_0 == 0xC000000Dint - 0x1_0000_0000
        }),
{
}

/// What opening an entry of the tree leaves: one handle more on it, and where it is overwritten, the
/// attributes that were asked for, marked as to be archived, and a modification.
pub proof fn existing_entries_are_opened(
    result: Result<CreateFileInfo, NtStatus>,
    after: Tree,
    before: Tree,
    units: Seq<u16>,
    request: OpenRequest,
    delete_on_close: bool,
    now: Timestamp,
    entry: Entry,
    overwritten: bool,
)
    requires
        tree_outcome(result, after, before, units, request, delete_on_close, now),
        request.create_disposition <= 5,
        target(before, units) == Target::Existing(entry),
        before.has(entry),
        existing_decision(before.stat_of(entry), entry is Directory, request) == Ok::<
            bool,
            NtStatus,
        >(overwritten),
    ensures
        ({
            let stat = before.stat_of(entry);
            let counted = Stat { handle_count: (stat.handle_count + 1) as u32, ..stat };
            &&& result matches Ok(made)
            &&& made.is_dir == (entry is Directory)
            &&& !made.new_file_created
            &&& made.context.entry == OpenEntry::Shared(entry)
            &&& made.context.delete_on_close == (request.create_options & 0x1000 != 0)
            &&& after.stat_of(entry).id == stat.id
            &&& after.stat_of(entry).handle_count == counted.handle_count
            &&& after.stat_of(entry).ctime == stat.ctime
            &&& after.stat_of(entry).parent == stat.parent
            &&& after.stat_of(entry).sec_desc == stat.sec_desc
            &&& after.stat_of(entry).delete_pending == stat.delete_pending
            &&& !overwritten ==> after.stat_of(entry) == counted
            &&& overwritten ==> after.stat_of(entry).mtime == now && after.stat_of(entry).atime
                == now && after.stat_of(entry).attrs.value == (request.file_attributes | 0x20)
                & 0x3127
        }),
{
}

/// A refusal of the tree is passed on, and changes nothing.
pub proof fn refusals_are_passed_on(
    result: Result<CreateFileInfo, NtStatus>,
    after: Tree,
    before: Tree,
    units: Seq<u16>,
    request: OpenRequest,
    delete_on_close: bool,
    now: Timestamp,
)
    requires
        tree_outcome(result, after, before, units, request, delete_on_close, now),
    ensures
        request.create_disposition > 5 ==> after == before && (result matches Err(status) && status
            == 0xC000000Dint - 0x1_0000_0000),
        request.create_disposition <= 5 ==> match target(before, units) {
            Target::Nowhere(status) => result == Err::<CreateFileInfo, NtStatus>(status) && after
                == before,
            Target::Missing(parent) => result == Err::<CreateFileInfo, NtStatus>(
                missing_error(before.dirs@[parent].stat, request),
            ) && after == before,
            Target::Existing(entry) => existing_decision(
                before.stat_of(entry),
                entry is Directory,
                request,
            ) matches Err(status) ==> result == Err::<CreateFileInfo, NtStatus>(status) && after
                == before,
            Target::Root => true,
        },
{
}

/// What a path is about in the tree: the root without components; nothing where the last component
/// is no name of at most 255 units; and otherwise the last component's name in the directory that
/// the others lead to.
pub proof fn paths_in_the_tree(tree: Tree, units: Seq<u16>)
    ensures
        ({
            let parts = components(units);
            let last = parts.last();
            &&& parts.len() == 0 <==> target(tree, units) == Target::Root
            &&& parts.len() > 0 && (last.len() > 255 || !valid_name(last)) ==> (
            target(tree, units) matches Target::Nowhere(status) && status == 0xC0000033int
                - 0x1_0000_0000)
            &&& parts.len() > 0 && last.len() <= 255 && valid_name(last) ==> match walked(
                tree,
                0,
                parts.drop_last(),
            ) {
                Ok(dir) => target(tree, units) == match lookup(
                    tree.dirs@[dir].children@,
                    file_part(last),
                ) {
                    Some(entry) => Target::Existing(entry),
                    None => Target::Missing(dir),
                },
                Err(status) => target(tree, units) == Target::Nowhere(status),
            }
        }),
{
}

/// Components lead from directory to directory by their names; a name of more than 255 units is
/// none, and one that is no directory's leads nowhere.
pub proof fn components_lead_down(tree: Tree, dir: u64, name: Seq<u16>, rest: Seq<Seq<u16>>)
    ensures
        walked(tree, dir, Seq::empty()) == Ok::<u64, NtStatus>(dir),
        name.len() > 255 ==> (walked(tree, dir, seq![name] + rest) matches Err(status) && status
            == 0xC0000033int - 0x1_0000_0000),
        name.len() <= 255 ==> match lookup(tree.dirs@[dir].children@, name) {
            Some(Entry::Directory(next)) => walked(tree, dir, seq![name] + rest) == walked(
                tree,
                next,
                rest,
            ),
            _ => walked(tree, dir, seq![name] + rest) matches Err(status) && status
                == 0xC000003Aint - 0x1_0000_0000,
        },
{
    let parts = seq![name] + rest;
    assert(parts[0] == name);
    assert(parts.drop_first() =~= rest);
}

/// A name is looked up without regard to case: the value under the same name is found, and none
/// where there is no such name.
pub proof fn lookup_finds_the_same_name<V>(
    items: Seq<(Seq<u16>, V)>,
    name: Seq<u16>,
    at: int,
    value: V,
)
    requires
        forall|i: int, j: int|
            0 <= i < j < items.len() ==> !same_name(
                (#[trigger] items[i]).0,
                (#[trigger] items[j]).0,
            ),
    ensures
        0 <= at < items.len() && same_name(items[at].0, name) ==> lookup(items, name) == Some(
            items[at].1,
        ),
        (forall|i: int| 0 <= i < items.len() ==> !same_name((#[trigger] items[i]).0, name))
            ==> lookup(items, name) is None && put(items, name, value) == items.push((name, value)),
        0 <= at < items.len() && same_name(items[at].0, name) ==> put(items, name, value)
            == items.update(at, (items[at].0, value)),
{
    assert(distinct(items));
    if 0 <= at < items.len() && same_name(items[at].0, name) {
        assert(holds_at(items, name, at));
        place_unique(items, name, at);
    }
    if has_name(items, name) {
        assert(holds_at(items, name, place(items, name)));
    }
}

/// What has to be known before something is opened: how long a song is, who asks for what is not
/// there in a directory that is not being deleted, and nothing otherwise.
pub proof fn what_has_to_be_known(
    folders: Seq<(IdentifiedArtist, Vec<IdentifiedAlbum>)>,
    tree: Tree,
    units: Seq<u16>,
    request: OpenRequest,
)
    ensures
        match located(folders, text_of(units)) {
            Some(at) => create_need(folders, tree, units, request) == if at is Song {
                CreateNeed::ContentLength(at)
            } else {
                CreateNeed::Nothing
            },
            None => create_need(folders, tree, units, request) == if request.create_disposition
                <= 5 && (target(tree, units) matches Target::Missing(parent)
                && !tree.dirs@[parent].stat.delete_pending) {
                CreateNeed::RequesterToken
            } else {
                CreateNeed::Nothing
            },
        },
        comparable(folders, units) <==> folders.len() == 0 || is_utf16(units),
{
}

/// Handles can be counted up to 32 bits on what a request opens; a request that opens nothing
/// counts none.
pub proof fn handles_have_a_limit(tree: Tree, units: Seq<u16>, request: OpenRequest)
    ensures
        match target(tree, units) {
            Target::Root => countable(tree, units, request) <==> request.create_disposition > 5
                || root_error(request) is Some || tree.dirs@[0].stat.handle_count < 0xFFFF_FFFF,
            Target::Existing(entry) => countable(tree, units, request)
                <==> request.create_disposition > 5 || existing_decision(
                tree.stat_of(entry),
                entry is Directory,
                request,
            ) is Err || tree.stat_of(entry).handle_count < 0xFFFF_FFFF,
            _ => countable(tree, units, request),
        },
{
}

/// What is shown in a folder, entry by entry, over the listing and the lengths that the server
/// tells: names with a zero at their end, as the first of the same name is spelled; the size of the
/// last song of the same name, as the server tells it, and none for a directory; whether it is a
/// directory; and the time of asking.
pub proof fn entries_show_names_and_sizes(
    folders: Seq<(IdentifiedArtist, Vec<IdentifiedAlbum>)>,
    path: Seq<char>,
    lengths: Seq<Vec<u8>>,
    data: Seq<FindData>,
    now: Timestamp,
    i: int,
    k: int,
)
    requires
        are_find_data(
            data,
            collected(shown_pairs(folders, listing(folders, path), lengths)),
            now,
        ),
        0 <= i < data.len(),
        0 <= k < listing(folders, path).len(),
        same_name(
            data[i].file_name@.drop_last(),
            utf16(name_at(folders, listing(folders, path)[k])),
        ),
    ensures
        data[i].file_name@.len() > 0 && data[i].file_name@.last() == 0,
        data[i].creation_time == now,
        data[i].last_access_time == now,
        data[i].last_write_time == now,
        (forall|m: int|
            k < m < listing(folders, path).len() ==> !same_name(
                utf16(name_at(folders, #[trigger] listing(folders, path)[m])),
                utf16(name_at(folders, listing(folders, path)[k])),
            )) ==> {
            &&& listing(folders, path)[k] is Song ==> data[i].file_size == parsed_u64(
                lengths[k]@,
            )->0 && data[i].attributes == 0x80
            &&& !(listing(folders, path)[k] is Song) ==> data[i].file_size == 0
                && data[i].attributes == 0x10
        },
        (forall|m: int|
            0 <= m < k ==> !same_name(
                utf16(name_at(folders, #[trigger] listing(folders, path)[m])),
                utf16(name_at(folders, listing(folders, path)[k])),
            )) ==> data[i].file_name@ == utf16(name_at(folders, listing(folders, path)[k])).push(0),
{
    let list = listing(folders, path);
    let pairs = shown_pairs(folders, list, lengths);
    let items = collected(pairs);
    let name = utf16(name_at(folders, list[k]));
    collected_distinct(pairs);
    assert(is_find_data(data[i], items[i].0, items[i].1, now));
    assert(items[i].0.push(0u16).drop_last() =~= items[i].0);
    assert(holds_at(items, name, i));
    place_unique(items, name, i);
    assert(pairs[k].0 == name);
    if forall|m: int|
        k < m < list.len() ==> !same_name(
            utf16(name_at(folders, #[trigger] list[m])),
            utf16(name_at(folders, list[k])),
        ) {
        assert forall|m: int| k < m < pairs.len() implies !same_name(
            (#[trigger] pairs[m]).0,
            pairs[k].0,
        ) by {
            assert(pairs[m].0 == utf16(name_at(folders, list[m])));
        }
        collected_keeps_last(pairs, k);
    }
    if forall|m: int|
        0 <= m < k ==> !same_name(
            utf16(name_at(folders, #[trigger] list[m])),
            utf16(name_at(folders, list[k])),
        ) {
        assert forall|m: int| 0 <= m < k implies !same_name(
            (#[trigger] pairs[m]).0,
            pairs[k].0,
        ) by {
            assert(pairs[m].0 == utf16(name_at(folders, list[m])));
        }
        collected_spells_first(pairs, k);
        let at = choose|at: int| 0 <= at < items.len() && (#[trigger] items[at]).0 == pairs[k].0;
        assert(holds_at(items, name, at));
        place_unique(items, name, at);
    }
}

/// The first of the pairs with a name spells it.
proof fn collected_spells_first<V>(pairs: Seq<(Seq<u16>, V)>, k: int)
    requires
        0 <= k < pairs.len(),
        forall|m: int| 0 <= m < k ==> !same_name((#[trigger] pairs[m]).0, pairs[k].0),
    ensures
        exists|at: int|
            0 <= at < collected(pairs).len() && (#[trigger] collected(pairs)[at]).0 == pairs[k].0,
    decreases pairs.len(),
{
    let rest = pairs.drop_last();
    let before = collected(rest);
    let name = pairs.last().0;
    if k < pairs.len() - 1 {
        assert forall|m: int| 0 <= m < k implies !same_name(
            (#[trigger] rest[m]).0,
            rest[k].0,
        ) by {
            assert(rest[m] == pairs[m]);
        }
        collected_spells_first(rest, k);
        let at = choose|at: int| 0 <= at < before.len() && (#[trigger] before[at]).0 == rest[k].0;
        if has_name(before, name) {
            assert(holds_at(before, name, place(before, name)));
        }
        assert(collected(pairs)[at].0 == before[at].0);
    } else {
        collected_names(rest, name);
        if has_name(before, name) {
            let m = choose|m: int|
                0 <= m < rest.len() && same_name((#[trigger] rest[m]).0, name);
            assert(same_name(pairs[m].0, pairs[k].0));
        }
        assert(collected(pairs)[before.len() as int].0 == name);
    }
}

/// Everything in the listing of a folder is shown: under its name there is an entry.
#[verifier::spinoff_prover]
pub proof fn listings_are_shown(
    folders: Seq<(IdentifiedArtist, Vec<IdentifiedAlbum>)>,
    path: Seq<char>,
    lengths: Seq<Vec<u8>>,
    data: Seq<FindData>,
    now: Timestamp,
    k: int,
)
    requires
        are_find_data(
            data,
            collected(shown_pairs(folders, listing(folders, path), lengths)),
            now,
        ),
        0 <= k < listing(folders, path).len(),
    ensures
        exists|i: int|
            0 <= i < data.len() && same_name(
                (#[trigger] data[i]).file_name@.drop_last(),
                utf16(name_at(folders, listing(folders, path)[k])),
            ),
{
    let list = listing(folders, path);
    let pairs = shown_pairs(folders, list, lengths);
    let items = collected(pairs);
    let name = utf16(name_at(folders, list[k]));
    assert(pairs[k].0 == name);
    assert(same_name(pairs[k].0, name));
    collected_names(pairs, name);
    let i = place(items, name);
    assert(holds_at(items, name, i));
    assert(is_find_data(data[i], items[i].0, items[i].1, now));
    assert(items[i].0.push(0u16).drop_last() =~= items[i].0);
    assert(same_name(data[i].file_name@.drop_last(), name));
}

/// Every entry that is shown has the name of something in the listing of the folder.
#[verifier::spinoff_prover]
pub proof fn entries_are_in_the_listing(
    folders: Seq<(IdentifiedArtist, Vec<IdentifiedAlbum>)>,
    path: Seq<char>,
    lengths: Seq<Vec<u8>>,
    data: Seq<FindData>,
    now: Timestamp,
    i: int,
)
    requires
        are_find_data(
            data,
            collected(shown_pairs(folders, listing(folders, path), lengths)),
            now,
        ),
        0 <= i < data.len(),
    ensures
        exists|k: int|
            0 <= k < listing(folders, path).len() && data[i].file_name@ == utf16(
                name_at(folders, #[trigger] listing(folders, path)[k]),
            ).push(0),
{
    let list = listing(folders, path);
    let pairs = shown_pairs(folders, list, lengths);
    let items = collected(pairs);
    assert(is_find_data(data[i], items[i].0, items[i].1, now));
    collected_from(pairs, i);
    let k = choose|k: int| 0 <= k < pairs.len() && (#[trigger] pairs[k]).0 == items[i].0;
    assert(list[k] == list[k]);
}

/// No two entries are shown under the same name.
#[verifier::spinoff_prover]
pub proof fn entries_have_different_names(
    folders: Seq<(IdentifiedArtist, Vec<IdentifiedAlbum>)>,
    path: Seq<char>,
    lengths: Seq<Vec<u8>>,
    data: Seq<FindData>,
    now: Timestamp,
    i: int,
    j: int,
)
    requires
        are_find_data(
            data,
            collected(shown_pairs(folders, listing(folders, path), lengths)),
            now,
        ),
        0 <= i < j < data.len(),
    ensures
        !same_name(data[i].file_name@.drop_last(), data[j].file_name@.drop_last()),
{
    let pairs = shown_pairs(folders, listing(folders, path), lengths);
    let items = collected(pairs);
    collected_distinct(pairs);
    assert(is_find_data(data[i], items[i].0, items[i].1, now));
    assert(is_find_data(data[j], items[j].0, items[j].1, now));
    assert(items[i].0.push(0u16).drop_last() =~= items[i].0);
    assert(items[j].0.push(0u16).drop_last() =~= items[j].0);
    assert(!same_name(items[i].0, items[j].0));
}

/// A song is as long once it is opened as its folder shows it, where the server tells the same of it
/// both times.
pub proof fn opened_songs_are_as_long_as_shown(
    folders: Seq<(IdentifiedArtist, Vec<IdentifiedAlbum>)>,
    path: Seq<char>,
    lengths: Seq<Vec<u8>>,
    data: Seq<FindData>,
    shown_at: Timestamp,
    i: int,
    k: int,
    result: Result<CreateFileInfo, NtStatus>,
    after: SubFSHandler,
    before: SubFSHandler,
    units: Seq<u16>,
    request: OpenRequest,
    delete_on_close: bool,
    desc: Seq<u8>,
    now: Timestamp,
)
    requires
        are_find_data(
            data,
            collected(shown_pairs(folders, listing(folders, path), lengths)),
            shown_at,
        ),
        0 <= i < data.len(),
        0 <= k < listing(folders, path).len(),
        same_name(
            data[i].file_name@.drop_last(),
            utf16(name_at(folders, listing(folders, path)[k])),
        ),
        forall|m: int|
            k < m < listing(folders, path).len() ==> !same_name(
                utf16(name_at(folders, #[trigger] listing(folders, path)[m])),
                utf16(name_at(folders, listing(folders, path)[k])),
            ),
        listing(folders, path)[k] is Song,
        before.info.desired_folders@ == folders,
        located(folders, text_of(units)) matches Some(at) && at is Song,
        create_outcome(
            result,
            after,
            before,
            units,
            request,
            delete_on_close,
            desc,
            lengths[k]@,
            now,
        ),
    ensures
        result matches Ok(made) && made.context.entry matches OpenEntry::File(file) && file.len
            == data[i].file_size,
{
    entries_show_names_and_sizes(folders, path, lengths, data, shown_at, i, k);
    songs_open_whatever_is_asked(
        result,
        after,
        before,
        units,
        request,
        delete_on_close,
        desc,
        lengths[k]@,
        now,
    );
}

/// A folder can be listed exactly if the server told a length of each song in it that has a URL, and
/// no name in it holds a zero.
pub proof fn folders_that_can_be_listed(
    folders: Seq<(IdentifiedArtist, Vec<IdentifiedAlbum>)>,
    list: Seq<Located>,
    lengths: Seq<Vec<u8>>,
)
    ensures
        measured(folders, list, lengths) <==> lengths.len() == list.len() && forall|n: int|
            0 <= n < list.len() && #[trigger] list[n] is Song ==> song_at(folders, list[n]).url
                is Some && parsed_u64(lengths[n]@) is Some,
        terminable(folders, list) <==> forall|n: int|
            0 <= n < list.len() ==> !utf16(name_at(folders, #[trigger] list[n])).contains(0u16),
{
}

/// The bytes that are asked for are numbered from the offset on, both ends counted, and there are as
/// many as fit; they can be asked for exactly if the last one has a number.
pub proof fn ranges_of_bytes(offset: i64, len: usize)
    ensures
        0 <= offset <= usize::MAX ==> {
            &&& in_range(offset, len) <==> 1 <= offset + len <= usize::MAX
            &&& in_range(offset, len) ==> range(offset, len) == "bytes="@ + decimal(offset as nat)
                + "-"@ + decimal((offset + len - 1) as nat)
        },
        offset < 0 ==> range(offset, len) == "bytes="@ + (seq!['-'] + decimal((-offset) as nat))
            + "-"@ + decimal(((offset as usize) + len - 1) as nat),
{
}

/// What is kept about an entry, how long it is and whether it is a directory, by what it is.
pub proof fn what_open_entries_are(entry: OpenEntry, tree: Tree)
    ensures
        match entry {
            OpenEntry::Shared(Entry::File(key)) => {
                &&& entry.stat_in(tree) == tree.files@[key].stat
                &&& entry.length(tree) == tree.files@[key].len
                &&& !entry.directory()
                &&& entry.is_in(tree) <==> tree.files@.contains_key(key)
            },
            OpenEntry::Shared(Entry::Directory(key)) => {
                &&& entry.stat_in(tree) == tree.dirs@[key].stat
                &&& entry.length(tree) == 0
                &&& entry.directory()
                &&& entry.is_in(tree) <==> tree.dirs@.contains_key(key)
            },
            OpenEntry::File(file) => {
                &&& entry.stat_in(tree) == file.stat
                &&& entry.length(tree) == file.len
                &&& !entry.directory()
                &&& entry.is_in(tree)
            },
            OpenEntry::Folder(folder) => {
                &&& entry.stat_in(tree) == folder.stat
                &&& entry.length(tree) == 0
                &&& entry.directory()
                &&& entry.is_in(tree)
            },
        },
{
}

/// The attributes that are shown are those that are kept, with 0x10 for a directory, and 0x80 for a
/// file that has none.
pub proof fn shown_attributes(value: u32)
    ensures
        output_attrs(value, true) == value | 0x10,
        value != 0 ==> output_attrs(value, false) == value,
        output_attrs(0, false) == 0x80,
{
    assert(value | 0x10 != 0) by (bit_vector);
}

/// An empty tree has one directory, the root, with nothing in it, and no file.
pub proof fn empty_trees(tree: Tree)
    requires
        tree.bare(),
    ensures
        forall|key: u64| !#[trigger] tree.files@.contains_key(key),
        forall|key: u64| #[trigger] tree.dirs@.contains_key(key) <==> key == 0,
        tree.dirs@[0].children@.len() == 0,
{
    assert forall|key: u64| !#[trigger] tree.files@.contains_key(key) by {
        assert(!tree.files@.dom().contains(key));
    }
    assert forall|key: u64| #[trigger] tree.dirs@.contains_key(key) <==> key == 0 by {
        assert(tree.dirs@.dom().contains(key) <==> key == 0);
    }
}

/// What is set about something open is kept about it from then on, and about nothing else; the
/// handle and the rest of the file system stay as they were.
pub proof fn updates_take_hold(
    after: SubFSHandler,
    handle_after: EntryHandle,
    before: SubFSHandler,
    handle_before: EntryHandle,
    stat: Stat,
)
    requires
        before.knows(handle_before),
        restated_by(after, handle_after, before, handle_before, stat),
    ensures
        handle_after.entry.stat_in(after.tree) == stat,
        handle_after.delete_on_close == handle_before.delete_on_close,
        handle_after.mtime_delayed == handle_before.mtime_delayed,
        handle_after.atime_delayed == handle_before.atime_delayed,
        handle_after.ctime_enabled == handle_before.ctime_enabled,
        handle_after.mtime_enabled == handle_before.mtime_enabled,
        handle_after.atime_enabled == handle_before.atime_enabled,
        handle_after.entry.length(after.tree) == handle_before.entry.length(before.tree),
        after.info == before.info,
        after.id_counter == before.id_counter,
        forall|other: Entry|
            handle_before.entry != OpenEntry::Shared(other) && #[trigger] before.tree.has(other)
                ==> after.tree.has(other) && after.tree.stat_of(other) == before.tree.stat_of(
                other,
            ),
{
    if let OpenEntry::Shared(entry) = handle_before.entry {
        restated_sound(before.tree, after.tree, entry, stat);
    }
}

/// What an operation on a time does: it sets the time where that is not disabled, it disables it, it
/// resumes it, or it does nothing.
pub proof fn operations_on_times(time: Timestamp, new: Timestamp, enabled: bool)
    ensures
        time_after(FileTimeOperation::SetTime(new), time, true) == new,
        time_after(FileTimeOperation::SetTime(new), time, false) == time,
        enabled_after(FileTimeOperation::SetTime(new), enabled) == enabled,
        time_after(FileTimeOperation::DontChange, time, enabled) == time,
        enabled_after(FileTimeOperation::DontChange, enabled) == enabled,
        time_after(FileTimeOperation::DisableUpdate, time, enabled) == time,
        !enabled_after(FileTimeOperation::DisableUpdate, enabled),
        time_after(FileTimeOperation::ResumeUpdate, time, enabled) == time,
        enabled_after(FileTimeOperation::ResumeUpdate, enabled),
        later(time, None) == time,
        new > time ==> later(time, Some(new)) == new,
        new <= time ==> later(time, Some(new)) == time,
{
}

/// An access sets the access time, and a modification both times, each where the handle does not
/// disable it; nothing else changes.
pub proof fn accesses_and_modifications(handle: EntryHandle, stat: Stat, now: Timestamp)
    ensures
        handle.accessed(stat, now) == (Stat {
            atime: if handle.atime_enabled {
                now
            } else {
                stat.atime
            },
            ..stat
        }),
        handle.modified(stat, now) == (Stat {
            atime: if handle.atime_enabled {
                now
            } else {
                stat.atime
            },
            mtime: if handle.mtime_enabled {
                now
            } else {
                stat.mtime
            },
            ..stat
        }),
{
}

/// A handle is opened with nothing delayed and all times enabled, on an entry that counts one handle
/// more and is otherwise as it was.
pub proof fn handles_are_opened(
    handle: EntryHandle,
    after: Tree,
    entry: OpenEntry,
    before: Tree,
    delete_on_close: bool,
)
    requires
        entry.is_in(before),
        entry.stat_in(before).handle_count < 0xFFFF_FFFF,
        handle.opened(after, entry, before, delete_on_close),
    ensures
        handle.delete_on_close == delete_on_close,
        handle.mtime_delayed is None && handle.atime_delayed is None,
        handle.ctime_enabled && handle.mtime_enabled && handle.atime_enabled,
        handle.entry.stat_in(after).handle_count == entry.stat_in(before).handle_count + 1,
        handle.entry.stat_in(after) == (Stat {
            handle_count: handle.entry.stat_in(after).handle_count,
            ..entry.stat_in(before)
        }),
        handle.entry.length(after) == entry.length(before),
        handle.entry.directory() == entry.directory(),
{
    if let OpenEntry::Shared(shared) = entry {
        restated_sound(before, after, shared, after.stat_of(shared));
    }
}

/// Closing a handle on an entry of the tree takes one from its count and any pending deletion; the
/// entry goes with its last handle where that was asked for and it is in a directory; closing any
/// other handle leaves the tree as it was.
pub proof fn handles_are_closed(
    handle: EntryHandle,
    before: Tree,
    after: Tree,
    now: Timestamp,
)
    requires
        handle.entry.is_in(before),
        handle.entry.stat_in(before).handle_count > 0,
        closes(handle, before, after, now),
    ensures
        match handle.entry {
            OpenEntry::Shared(entry) => {
                let stat = before.stat_of(entry);
                let last = (stat.delete_pending || handle.delete_on_close) && stat.handle_count
                    == 1 && stat.parent is Some;
                &&& !last ==> {
                    &&& after.has(entry)
                    &&& after.stat_of(entry).handle_count == stat.handle_count - 1
                    &&& !after.stat_of(entry).delete_pending
                    &&& after.stat_of(entry) == Stat {
                        handle_count: after.stat_of(entry).handle_count,
                        delete_pending: false,
                        ..stat
                    }
                    &&& forall|other: Entry|
                        other != entry && #[trigger] before.has(other) ==> after.has(other)
                            && after.stat_of(other) == before.stat_of(other)
                }
                &&& last ==> {
                    &&& after.unlinked(before, entry, now)
                    &&& (closable(handle, before) <==> attached(before, entry))
                }
                &&& !last ==> closable(handle, before)
            },
            OpenEntry::File(file) => after == before && (closable(handle, before) <==> !((
            file.stat.delete_pending || handle.delete_on_close) && file.stat.handle_count == 1
                && file.stat.parent is Some)),
            OpenEntry::Folder(folder) => after == before && (closable(handle, before) <==> !((
            folder.stat.delete_pending || handle.delete_on_close) && folder.stat.handle_count == 1
                && folder.stat.parent is Some)),
        },
{
    if let OpenEntry::Shared(entry) = handle.entry {
        if !handle.deletes(before) {
            let stat = before.stat_of(entry);
            restated_sound(
                before,
                after,
                entry,
                Stat {
                    handle_count: (stat.handle_count - 1) as u32,
                    delete_pending: false,
                    ..stat
                },
            );
        }
    }
}

/// Deleting an entry takes it out of its directory's names, and leaves the others there in their
/// order.
pub proof fn deletion_takes_a_name(before: Tree, after: Tree, entry: Entry, now: Timestamp)
    requires
        attached(before, entry),
        after.unlinked(before, entry, now),
    ensures
        ({
            let parent = before.stat_of(entry).parent->0;
            let children = before.dirs@[parent].children@;
            &&& after.dirs@[parent].stat == Stat {
                mtime: now,
                atime: now,
                ..before.dirs@[parent].stat
            }
            &&& exists|i: int|
                0 <= i < children.len() && (#[trigger] children[i]).1 == entry
                    && after.dirs@[parent].children@ == children.remove(i)
        }),
{
    let parent = before.stat_of(entry).parent->0;
    let children = before.dirs@[parent].children@;
    let i = crate::tree::child_index(children, entry);
    assert(0 <= i < children.len() && children[i].1 == entry);
}

/// What a path leads to: nothing but the root, or the last component's name, and the stream that it
/// names, in the directory that the others lead to.
pub proof fn paths_lead_to_names(tree: Tree, units: Seq<u16>, info: PathInfo)
    requires
        leads_to(tree, units, Ok(Some(info))),
    ensures
        ({
            let last = components(units).last();
            &&& components(units).len() > 0
            &&& walked(tree, 0, components(units).drop_last()) == Ok::<u64, NtStatus>(info.parent)
            &&& info.name.file_name@ == file_part(last)
            &&& stream_part(last) is None <==> info.name.stream_info is None
            &&& info.name.stream_info matches Some(stream) ==> stream_of(stream_part(last)->0)
                == Some((stream.name@, stream.type_))
        }),
{
}

/// A path without components leads to the root alone, and no other path does.
pub proof fn empty_paths_lead_to_the_root(tree: Tree, units: Seq<u16>)
    ensures
        leads_to(tree, units, Ok(None)) <==> components(units).len() == 0,
{
}

/// A name is in a map exactly if some name of the map is the same, and is folded unit by unit.
pub proof fn names_in_maps<V>(items: Seq<(Seq<u16>, V)>, name: Seq<u16>)
    ensures
        has_name(items, name) <==> exists|i: int|
            0 <= i < items.len() && same_name((#[trigger] items[i]).0, name),
        folded(name).len() == name.len(),
        forall|i: int|
            0 <= i < name.len() ==> #[trigger] folded(name)[i] == if 65 <= name[i] <= 90 {
                (name[i] + 32) as u16
            } else {
                name[i]
            },
{
    if has_name(items, name) {
        let at = place(items, name);
        assert(holds_at(items, name, at));
        assert(same_name(items[at].0, name));
    }
    if exists|i: int| 0 <= i < items.len() && same_name((#[trigger] items[i]).0, name) {
        let i = choose|i: int| 0 <= i < items.len() && same_name((#[trigger] items[i]).0, name);
        assert(holds_at(items, name, i));
    }
}

} // verus!
