//! The file system: its folders and its tree, and how something in it is opened.

use crate::catalogue::{is_first_named, locate, located, named, song_at, Located};
use crate::handle::EntryHandle;
use crate::names::{names_of, NameMap};
use crate::nt::{NtStatus, FILE_MAXIMUM_DISPOSITION};
use crate::opening::{
    album_folders, album_names, countable, decide_existing, decide_root, find_target, open_in_tree,
    opens_folder, opens_song, target, tree_outcome, CreateFileInfo, OpenRequest, Target,
};
use crate::security::SecurityDescriptor;
use crate::stat::{Stat, Timestamp};
use crate::subsonic::{IdentifiedAlbum, IdentifiedArtist, IdentifiedSong, SubsonicInfo};
use crate::text::parsed_u64;
use crate::tree::{restated_sound, Entry, FileEntry, Folder, OpenEntry, Tree, ROOT};
use crate::wide::{is_utf16, name_text, text_of};
use vstd::prelude::*;

verus! {

broadcast use vstd::std_specs::hash::group_hash_axioms;

/// The file system: the folders of artists, and the tree below its root.
#[derive(Debug)]
pub struct SubFSHandler {
    pub id_counter: u64,
    pub tree: Tree,
    pub info: SubsonicInfo,
}

/// What has to be known from elsewhere before a path can be opened.
#[derive(Debug, Clone, Copy, PartialEq, Eq, Structural)]
pub enum CreateNeed {
    /// Nothing.
    Nothing,
    /// How long the song is.
    ContentLength(Located),
    /// Who asks.
    RequesterToken,
}

/// What has to be known from elsewhere before a path can be opened.
pub open spec fn create_need(
    folders: Seq<(IdentifiedArtist, Vec<IdentifiedAlbum>)>,
    tree: Tree,
    units: Seq<u16>,
    request: OpenRequest,
) -> CreateNeed {
    match located(folders, text_of(units)) {
        Some(at) => if at is Song {
            CreateNeed::ContentLength(at)
        } else {
            CreateNeed::Nothing
        },
        None => if request.create_disposition > FILE_MAXIMUM_DISPOSITION {
            CreateNeed::Nothing
        } else {
            match target(tree, units) {
                Target::Missing(parent) => if tree.dirs@[parent].stat.delete_pending {
                    CreateNeed::Nothing
                } else {
                    CreateNeed::RequesterToken
                },
                _ => CreateNeed::Nothing,
            }
        },
    }
}

/// Whether `result` and the file system `after` are what opening a path in the file system `before`
/// leads to. Artists, albums and songs are opened whatever is asked for, and leave the file system
/// as it was; everything else is looked for in the tree.
pub open spec fn create_outcome(
    result: Result<CreateFileInfo, NtStatus>,
    after: SubFSHandler,
    before: SubFSHandler,
    units: Seq<u16>,
    request: OpenRequest,
    delete_on_close: bool,
    desc: Seq<u8>,
    content_length: Seq<u8>,
    now: Timestamp,
) -> bool {
    let folders = before.info.desired_folders@;
    &&& after == (SubFSHandler { tree: after.tree, ..before })
    &&& match located(folders, text_of(units)) {
        Some(Located::Artist(i)) => opens_folder(result, folders[i as int].1@, desc, now)
            && after.tree == before.tree,
        Some(Located::Album(_, _)) => opens_folder(result, Seq::empty(), desc, now) && after.tree
            == before.tree,
        Some(Located::Song(_, _, _)) => opens_song(
            result,
            parsed_u64(content_length)->0,
            desc,
            now,
        ) && after.tree == before.tree,
        None => tree_outcome(
            result,
            after.tree,
            before.tree,
            units,
            request,
            delete_on_close,
            now,
        ),
    }
}

/// Whether a security descriptor of each entry of the tree is one that Windows can tell.
pub open spec fn secured(tree: Tree) -> bool {
    forall|entry: Entry| #[trigger] tree.has(entry) ==> tree.stat_of(entry).sec_desc.wf()
}

/// Whether a file name can be looked up among the folders: it is UTF-16, unless there is nothing
/// to compare it with.
pub open spec fn comparable(
    folders: Seq<(IdentifiedArtist, Vec<IdentifiedAlbum>)>,
    units: Seq<u16>,
) -> bool {
    folders.len() > 0 ==> is_utf16(units)
}

impl SubFSHandler {
    /// Whether the file system is sound: its tree is, its security descriptors are, and the root
    /// is in no directory.
    pub open spec fn wf(&self) -> bool {
        &&& self.tree.wf()
        &&& secured(self.tree)
        &&& self.tree.stat_of(Entry::Directory(ROOT)).parent is None
    }

    /// Whether a handle is one of this file system.
    pub open spec fn knows(&self, handle: EntryHandle) -> bool {
        &&& handle.entry.is_in(self.tree)
        &&& handle.entry.stat_in(self.tree).sec_desc.wf()
    }

    /// A file system with these folders, and with an empty tree.
    pub fn new(info: SubsonicInfo, default_desc: SecurityDescriptor, now: Timestamp) -> (handler:
        Self)
        requires
            default_desc.wf(),
        ensures
            handler.wf(),
            handler.id_counter == 1,
            handler.info == info,
            handler.tree.bare(),
            handler.tree.stat_of(Entry::Directory(ROOT)).is_new(
                0,
                0,
                default_desc.bytes@,
                None,
                now,
            ),
    {
        let stat = Stat::new(0, 0, default_desc, None, now);
        let tree = Tree::new(stat);
        Self { id_counter: 1, tree, info }
    }

    /// The next number for an entry. The numbers start again from 0 when they are used up.
    pub fn next_id(&mut self) -> (id: u64)
        ensures
            id == old(self).id_counter,
            *final(self) == (SubFSHandler {
                id_counter: if id == u64::MAX {
                    0
                } else {
                    (id + 1) as u64
                },
                ..*old(self)
            }),
    {
        let id: u64 = self.id_counter;
        self.id_counter = id.wrapping_add(1);
        id
    }

    /// Finds what a file name names among the folders.
    fn find(&self, file_name: &[u16]) -> (at: Option<Located>)
        requires
            comparable(self.info.desired_folders@, file_name@),
        ensures
            at == located(self.info.desired_folders@, text_of(file_name@)),
            at matches Some(l) ==> is_first_named(
                self.info.desired_folders@,
                text_of(file_name@),
                l,
            ),
    {
        if self.info.desired_folders.len() == 0 {
            proof {
                let path = text_of(file_name@);
                assert forall|at: Located| !is_first_named(
                    self.info.desired_folders@,
                    path,
                    at,
                ) by {
                    assert(!named(self.info.desired_folders@, path, at));
                }
            }
            return None;
        }
        let path: String = name_text(file_name).unwrap();
        locate(&self.info.desired_folders, &path)
    }

    /// Finds out whether one more handle can be counted on what is opened in the tree.
    pub fn can_count(&self, file_name: &[u16], request: OpenRequest) -> (yes: bool)
        requires
            self.wf(),
        ensures
            yes == countable(self.tree, file_name@, request),
    {
        if request.create_disposition > FILE_MAXIMUM_DISPOSITION {
            return true;
        }
        match find_target(&self.tree, file_name) {
            Target::Root => decide_root(request).is_some() || self.tree.stat(
                Entry::Directory(ROOT),
            ).handle_count < u32::MAX,
            Target::Existing(entry) => {
                let stat = self.tree.stat(entry);
                decide_existing(stat, entry.is_dir(), request).is_err() || stat.handle_count
                    < u32::MAX
            },
            _ => true,
        }
    }

    /// Finds out what has to be known from elsewhere before a path can be opened.
    pub fn create_needs(&self, file_name: &[u16], request: OpenRequest) -> (need: CreateNeed)
        requires
            self.wf(),
            comparable(self.info.desired_folders@, file_name@),
        ensures
            need == create_need(self.info.desired_folders@, self.tree, file_name@, request),
            need matches CreateNeed::ContentLength(at) ==> at is Song && named(
                self.info.desired_folders@,
                text_of(file_name@),
                at,
            ),
    {
        match self.find(file_name) {
            Some(Located::Song(i, j, k)) => CreateNeed::ContentLength(Located::Song(i, j, k)),
            Some(_) => CreateNeed::Nothing,
            None => {
                if request.create_disposition > FILE_MAXIMUM_DISPOSITION {
                    return CreateNeed::Nothing;
                }
                match find_target(&self.tree, file_name) {
                    Target::Missing(parent) => {
                        if self.tree.stat(Entry::Directory(parent)).delete_pending {
                            CreateNeed::Nothing
                        } else {
                            CreateNeed::RequesterToken
                        }
                    },
                    _ => CreateNeed::Nothing,
                }
            },
        }
    }

    /// Opens a file or a directory. An artist's folder, an album's folder or a song's file is
    /// made for the handle, whatever is asked for; anything else is looked for in the tree.
    /// `content_length` is what the server tells of the length of a song.
    pub fn create_file(
        &mut self,
        file_name: &[u16],
        request: OpenRequest,
        delete_on_close: bool,
        default_desc: &SecurityDescriptor,
        content_length: &[u8],
        now: Timestamp,
    ) -> (result: Result<CreateFileInfo, NtStatus>)
        requires
            old(self).wf(),
            default_desc.wf(),
            comparable(old(self).info.desired_folders@, file_name@),
            match located(old(self).info.desired_folders@, text_of(file_name@)) {
                Some(at) => at is Song ==> song_at(old(self).info.desired_folders@, at).url is Some
                    && parsed_u64(content_length@) is Some,
                None => countable(old(self).tree, file_name@, request),
            },
        ensures
            final(self).wf(),
            old(self).tree.bare() ==> final(self).tree.bare(),
            create_outcome(
                result,
                *final(self),
                *old(self),
                file_name@,
                request,
                delete_on_close,
                default_desc.bytes@,
                content_length@,
                now,
            ),
            match located(old(self).info.desired_folders@, text_of(file_name@)) {
                Some(Located::Song(_, _, _)) => {
                    &&& result matches Ok(made)
                    &&& !made.is_dir
                    &&& made.context.entry matches OpenEntry::File(file)
                    &&& parsed_u64(content_length@) == Some(file.len)
                },
                Some(_) => {
                    &&& result matches Ok(made)
                    &&& made.is_dir
                    &&& made.context.entry is Folder
                },
                None => true,
            },
            result matches Ok(made) ==> final(self).knows(made.context)
                && made.context.entry.stat_in(final(self).tree).handle_count > 0,
    {
        match self.find(file_name) {
            Some(Located::Artist(i)) => {
                let stat = Stat::new(1, 0, default_desc.clone(), Some(ROOT), now);
                let children = album_folders(
                    &self.info.desired_folders[i].1,
                    default_desc,
                    now,
                );
                let entry = OpenEntry::Folder(Folder { stat, children });
                let context = EntryHandle::new(&mut self.tree, entry, false);
                Ok(CreateFileInfo { context, is_dir: true, new_file_created: false })
            },
            Some(Located::Album(_, _)) => {
                let stat = Stat::new(1, 0, default_desc.clone(), Some(ROOT), now);
                let children: NameMap<Stat> = NameMap::new();
                proof {
                    assert(album_names(Seq::empty()) =~= Seq::empty());
                    assert(names_of(children@) =~= names_of(Seq::<(Seq<u16>, ())>::empty()));
                }
                let entry = OpenEntry::Folder(Folder { stat, children });
                let context = EntryHandle::new(&mut self.tree, entry, false);
                Ok(CreateFileInfo { context, is_dir: true, new_file_created: false })
            },
            Some(Located::Song(i, j, k)) => {
                let song: &IdentifiedSong = &self.info.desired_folders[i].1[j].songs[k];
                let len: u64 = song.get_size(content_length).unwrap();
                let stat = Stat::new(1, 0, default_desc.clone(), Some(ROOT), now);
                let entry = OpenEntry::File(FileEntry { stat, len });
                let context = EntryHandle::new(&mut self.tree, entry, false);
                Ok(CreateFileInfo { context, is_dir: false, new_file_created: false })
            },
            None => {
                let ghost before = self.tree;
                let result = open_in_tree(
                    &mut self.tree,
                    file_name,
                    request,
                    delete_on_close,
                    now,
                );
                proof {
                    if result is Ok {
                        let entry = result->Ok_0.context.entry->Shared_0;
                        let stat = self.tree.stat_of(entry);
                        restated_sound(before, self.tree, entry, stat);
                    }
                }
                result
            },
        }
    }
}

} // verus!
