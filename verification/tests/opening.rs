use std::collections::HashMap;

use sonicdisk::handle::EntryHandle;
use sonicdisk::handler::{CreateNeed, SubFSHandler};
use sonicdisk::names::EntryName;
use sonicdisk::nt::{
    NtStatus, FILE_APPEND_DATA, FILE_ATTRIBUTE_HIDDEN, FILE_ATTRIBUTE_READONLY,
    FILE_ATTRIBUTE_SYSTEM, FILE_CREATE, FILE_DELETE_ON_CLOSE, FILE_DIRECTORY_FILE,
    FILE_NON_DIRECTORY_FILE, FILE_OPEN, FILE_OPEN_IF, FILE_OVERWRITE, FILE_OVERWRITE_IF,
    FILE_SUPERSEDE, FILE_WRITE_DATA, STATUS_ACCESS_DENIED, STATUS_CANNOT_DELETE,
    STATUS_DELETE_PENDING, STATUS_FILE_IS_A_DIRECTORY, STATUS_INVALID_PARAMETER,
    STATUS_NOT_A_DIRECTORY, STATUS_OBJECT_NAME_COLLISION, STATUS_OBJECT_NAME_INVALID,
    STATUS_OBJECT_NAME_NOT_FOUND, STATUS_OBJECT_PATH_NOT_FOUND,
};
use sonicdisk::opening::{CreateFileInfo, OpenRequest};
use sonicdisk::path::{split_path, FullName, StreamType};
use sonicdisk::security::SecurityDescriptor;
use sonicdisk::stat::{Attributes, Stat};
use sonicdisk::subsonic::{
    identify_song, IdentifiedAlbum, IdentifiedArtist, SubsonicInfo, Track,
};
use sonicdisk::tree::{DirEntry, Entry, FileEntry, OpenEntry, Tree, ROOT};

fn units(text: &str) -> Vec<u16> {
    text.encode_utf16().collect()
}

fn desc() -> SecurityDescriptor {
    SecurityDescriptor { bytes: vec![1, 2, 3] }
}

fn album(name: &str) -> IdentifiedAlbum {
    let song = identify_song(
        Track {
            id: String::from("1"),
            title: String::from("Song"),
            content_type: String::from("audio/mpeg"),
        },
        Some(String::from("http://x/1")),
    );
    IdentifiedAlbum { album: name.to_string(), album_id: name.to_string(), songs: vec![song] }
}

fn handler() -> SubFSHandler {
    let info = SubsonicInfo {
        desired_folders: vec![(
            IdentifiedArtist { artist: String::from("ABBA"), artist_id: String::from("1") },
            vec![album("Arrival"), album("ARRIVAL"), album("Waterloo")],
        )],
    };
    SubFSHandler::new(info, desc(), 100)
}

/// A file system without folders of artists, whose tree holds the file `file` and the directory
/// `dir`.
fn with_tree() -> SubFSHandler {
    let mut root = DirEntry::new(Stat::new(0, 0, desc(), None, 100));
    root.children.insert(EntryName::from_text("file"), Entry::File(7));
    root.children.insert(EntryName::from_text("dir"), Entry::Directory(8));
    let mut files = HashMap::new();
    files.insert(7, FileEntry { stat: Stat::new(2, 0, desc(), Some(ROOT), 100), len: 30 });
    let mut dirs = HashMap::new();
    dirs.insert(ROOT, root);
    dirs.insert(8, DirEntry::new(Stat::new(3, 0, desc(), Some(ROOT), 100)));
    SubFSHandler {
        id_counter: 4,
        tree: Tree { files, dirs },
        info: SubsonicInfo { desired_folders: Vec::new() },
    }
}

fn request(create_disposition: u32, create_options: u32) -> OpenRequest {
    OpenRequest { desired_access: 0, file_attributes: 0, create_disposition, create_options }
}

fn open(
    handler: &mut SubFSHandler,
    path: &str,
    request: OpenRequest,
) -> Result<CreateFileInfo, NtStatus> {
    handler.create_file(&units(path), request, false, &desc(), b"4096", 200)
}

fn refused(handler: &mut SubFSHandler, path: &str, request: OpenRequest) -> NtStatus {
    open(handler, path, request).unwrap_err()
}

#[test]
fn a_new_file_system_is_empty() {
    let mut handler = handler();
    assert_eq!(handler.id_counter, 1);
    assert!(handler.tree.files.is_empty());
    assert_eq!(handler.tree.dirs.len(), 1);
    let stat = handler.tree.stat(Entry::Directory(ROOT));
    assert_eq!((stat.id, stat.ctime, stat.handle_count), (0, 100, 0));
    assert_eq!(stat.parent, None);
    assert_eq!(handler.next_id(), 1);
    assert_eq!(handler.next_id(), 2);
    handler.id_counter = u64::MAX;
    assert_eq!(handler.next_id(), u64::MAX);
    assert_eq!(handler.next_id(), 0);
}

#[test]
fn an_artist_opens_as_a_folder_of_albums() {
    let mut handler = handler();
    // whatever is asked for
    for disposition in [FILE_OPEN, FILE_CREATE, FILE_OVERWRITE, 77] {
        let request = request(disposition, FILE_NON_DIRECTORY_FILE | FILE_DELETE_ON_CLOSE);
        let made = open(&mut handler, "\\ABBA", request).unwrap();
        assert!(made.is_dir);
        assert!(!made.new_file_created);
        assert!(!made.context.delete_on_close);
        match &made.context.entry {
            OpenEntry::Folder(folder) => {
                assert_eq!(folder.stat.handle_count, 1);
                assert_eq!(folder.stat.id, 1);
                assert_eq!(folder.stat.mtime, 200);
                assert_eq!(folder.stat.parent, Some(ROOT));
                assert_eq!(folder.stat.sec_desc.bytes, vec![1, 2, 3]);
                let names: Vec<Vec<u16>> =
                    folder.children.items.iter().map(|(name, _)| name.units.clone()).collect();
                assert_eq!(names, vec![units("Arrival"), units("Waterloo")]);
                assert_eq!(folder.children.items[1].1.handle_count, 0);
            }
            other => panic!("{:?}", other),
        }
    }
    assert_eq!(handler.tree.stat(Entry::Directory(ROOT)).handle_count, 0);
}

#[test]
fn an_album_opens_as_an_empty_folder() {
    let made = open(&mut handler(), "\\ABBA\\Waterloo", request(FILE_OPEN, 0)).unwrap();
    assert!(made.is_dir);
    match &made.context.entry {
        OpenEntry::Folder(folder) => assert!(folder.children.items.is_empty()),
        other => panic!("{:?}", other),
    }
}

#[test]
fn a_song_opens_as_a_file_of_its_length() {
    let made = open(&mut handler(), "\\ABBA\\Waterloo\\Song.mp3", request(FILE_OPEN, 0)).unwrap();
    assert!(!made.is_dir);
    match &made.context.entry {
        OpenEntry::File(file) => {
            assert_eq!(file.len, 4096);
            assert_eq!(file.stat.handle_count, 1);
        }
        other => panic!("{:?}", other),
    }
}

#[test]
fn what_has_to_be_known_is_told() {
    let handler = handler();
    let need = |path: &str, disposition| handler.create_needs(&units(path), request(disposition, 0));
    assert_eq!(need("\\ABBA", FILE_OPEN), CreateNeed::Nothing);
    assert_eq!(need("\\", FILE_OPEN), CreateNeed::Nothing);
    assert_eq!(need("\\new", FILE_OPEN), CreateNeed::RequesterToken);
    assert_eq!(need("\\new", 6), CreateNeed::Nothing);
    match need("\\ABBA\\Arrival\\Song.mp3", FILE_OPEN) {
        CreateNeed::ContentLength(_) => (),
        other => panic!("{:?}", other),
    }
}

#[test]
fn nothing_can_be_made() {
    let mut handler = handler();
    for disposition in [FILE_CREATE, FILE_OPEN_IF, FILE_SUPERSEDE, FILE_OVERWRITE_IF] {
        assert_eq!(refused(&mut handler, "\\x", request(disposition, 0)), STATUS_ACCESS_DENIED);
    }
    for disposition in [FILE_OPEN, FILE_OVERWRITE] {
        let status = refused(&mut handler, "\\x", request(disposition, 0));
        assert_eq!(status, STATUS_OBJECT_NAME_NOT_FOUND);
    }
    let directory = |disposition| request(disposition, FILE_DIRECTORY_FILE);
    for disposition in [FILE_CREATE, FILE_OPEN_IF] {
        assert_eq!(refused(&mut handler, "\\x", directory(disposition)), STATUS_ACCESS_DENIED);
    }
    assert_eq!(refused(&mut handler, "\\x", directory(FILE_OPEN)), STATUS_OBJECT_NAME_NOT_FOUND);
    assert_eq!(refused(&mut handler, "\\x", directory(FILE_SUPERSEDE)), STATUS_INVALID_PARAMETER);
    assert!(handler.tree.files.is_empty());
    assert_eq!(handler.tree.dirs.len(), 1);
    assert!(handler.tree.dirs[&ROOT].children.items.is_empty());
}

#[test]
fn unknown_dispositions_are_refused() {
    assert_eq!(refused(&mut handler(), "\\x", request(6, 0)), STATUS_INVALID_PARAMETER);
    assert_eq!(refused(&mut handler(), "\\", request(6, 0)), STATUS_INVALID_PARAMETER);
}

#[test]
fn the_root_opens_as_a_directory() {
    let mut handler = handler();
    for disposition in [FILE_OPEN, FILE_OPEN_IF] {
        let made = open(&mut handler, "\\", request(disposition, 0)).unwrap();
        assert!(made.is_dir);
        assert!(!made.new_file_created);
        match made.context.entry {
            OpenEntry::Shared(entry) => assert_eq!(entry, Entry::Directory(ROOT)),
            other => panic!("{:?}", other),
        }
    }
    assert_eq!(handler.tree.stat(Entry::Directory(ROOT)).handle_count, 2);
    let file = request(FILE_OPEN, FILE_NON_DIRECTORY_FILE);
    assert_eq!(refused(&mut handler, "\\", file), STATUS_FILE_IS_A_DIRECTORY);
    assert_eq!(refused(&mut handler, "\\", request(FILE_CREATE, 0)), STATUS_INVALID_PARAMETER);
    // the operation says whether the root is to be deleted, not the options
    let request = request(FILE_OPEN, FILE_DELETE_ON_CLOSE);
    let made = handler.create_file(&units("\\"), request, true, &desc(), b"", 200).unwrap();
    assert!(made.context.delete_on_close);
    let made = handler.create_file(&units("\\"), request, false, &desc(), b"", 200).unwrap();
    assert!(!made.context.delete_on_close);
}

#[test]
fn paths_in_the_tree_are_checked() {
    let mut handler = with_tree();
    let open_it = request(FILE_OPEN, 0);
    assert_eq!(refused(&mut handler, "\\no\\x", open_it), STATUS_OBJECT_PATH_NOT_FOUND);
    assert_eq!(refused(&mut handler, "\\file\\x", open_it), STATUS_OBJECT_PATH_NOT_FOUND);
    assert_eq!(refused(&mut handler, "\\dir\\x", open_it), STATUS_OBJECT_NAME_NOT_FOUND);
    assert_eq!(refused(&mut handler, "\\x:y:z", open_it), STATUS_OBJECT_NAME_INVALID);
    let long = format!("\\{}", "x".repeat(256));
    assert_eq!(refused(&mut handler, &long, open_it), STATUS_OBJECT_NAME_INVALID);
    let longest = format!("\\{}", "x".repeat(255));
    assert_eq!(refused(&mut handler, &longest, open_it), STATUS_OBJECT_NAME_NOT_FOUND);
}

#[test]
fn files_of_the_tree_open() {
    let mut handler = with_tree();
    let made = open(&mut handler, "\\FILE", request(FILE_OPEN, FILE_DELETE_ON_CLOSE)).unwrap();
    assert!(!made.is_dir);
    assert!(made.context.delete_on_close);
    assert_eq!(handler.tree.stat(Entry::File(7)).handle_count, 1);
    assert_eq!(handler.tree.stat(Entry::File(7)).mtime, 100);
    let directory = request(FILE_OPEN, FILE_DIRECTORY_FILE);
    assert_eq!(refused(&mut handler, "\\file", directory), STATUS_NOT_A_DIRECTORY);
    let create = request(FILE_CREATE, 0);
    assert_eq!(refused(&mut handler, "\\file", create), STATUS_OBJECT_NAME_COLLISION);
}

#[test]
fn files_of_the_tree_are_overwritten() {
    for disposition in [FILE_SUPERSEDE, FILE_OVERWRITE, FILE_OVERWRITE_IF] {
        let mut handler = with_tree();
        let mut request = request(disposition, 0);
        request.file_attributes = FILE_ATTRIBUTE_HIDDEN | 0x10;
        open(&mut handler, "\\file", request).unwrap();
        let stat = handler.tree.stat(Entry::File(7));
        assert_eq!(stat.attrs.value, 0x22);
        assert_eq!((stat.ctime, stat.mtime, stat.atime), (100, 200, 200));
        assert_eq!(handler.tree.len_of(7), 30);
    }
}

#[test]
fn directories_of_the_tree_open() {
    let mut handler = with_tree();
    let made = open(&mut handler, "\\dir", request(FILE_OPEN_IF, 0)).unwrap();
    assert!(made.is_dir);
    let file = request(FILE_OPEN, FILE_NON_DIRECTORY_FILE);
    assert_eq!(refused(&mut handler, "\\dir", file), STATUS_FILE_IS_A_DIRECTORY);
    let create = request(FILE_CREATE, 0);
    assert_eq!(refused(&mut handler, "\\dir", create), STATUS_OBJECT_NAME_COLLISION);
    let overwrite = request(FILE_OVERWRITE, 0);
    assert_eq!(refused(&mut handler, "\\dir", overwrite), STATUS_INVALID_PARAMETER);
}

#[test]
fn read_only_files_are_protected() {
    let mut handler = with_tree();
    handler.tree.stat_mut(Entry::File(7)).attrs = Attributes::new(FILE_ATTRIBUTE_READONLY);
    for access in [FILE_WRITE_DATA, FILE_APPEND_DATA] {
        let mut request = request(FILE_OPEN, 0);
        request.desired_access = access;
        assert_eq!(refused(&mut handler, "\\file", request), STATUS_ACCESS_DENIED);
    }
    let delete = request(FILE_OPEN, FILE_DELETE_ON_CLOSE);
    assert_eq!(refused(&mut handler, "\\file", delete), STATUS_CANNOT_DELETE);
    let overwrite = request(FILE_OVERWRITE, 0);
    assert_eq!(refused(&mut handler, "\\file", overwrite), STATUS_ACCESS_DENIED);
    assert!(open(&mut handler, "\\file", request(FILE_SUPERSEDE, 0)).is_ok());
}

#[test]
fn hidden_system_files_are_protected() {
    let both = FILE_ATTRIBUTE_HIDDEN | FILE_ATTRIBUTE_SYSTEM;
    let mut handler = with_tree();
    handler.tree.stat_mut(Entry::File(7)).attrs = Attributes::new(both);
    let mut request = request(FILE_SUPERSEDE, 0);
    assert_eq!(refused(&mut handler, "\\file", request), STATUS_ACCESS_DENIED);
    request.file_attributes = FILE_ATTRIBUTE_HIDDEN;
    assert_eq!(refused(&mut handler, "\\file", request), STATUS_ACCESS_DENIED);
    request.file_attributes = both;
    assert!(open(&mut handler, "\\file", request).is_ok());
}

#[test]
fn what_is_being_deleted_does_not_open() {
    let mut handler = with_tree();
    handler.tree.stat_mut(Entry::Directory(8)).delete_pending = true;
    let open_it = request(FILE_OPEN, 0);
    assert_eq!(refused(&mut handler, "\\dir", open_it), STATUS_DELETE_PENDING);
    assert_eq!(refused(&mut handler, "\\dir\\x", open_it), STATUS_DELETE_PENDING);
    assert_eq!(handler.create_needs(&units("\\dir\\x"), open_it), CreateNeed::Nothing);
}

#[test]
fn names_need_not_be_text_without_folders() {
    let mut handler = with_tree();
    let request = request(FILE_OPEN, 0);
    let result = handler.create_file(&[0x5C, 0xD800], request, false, &desc(), b"", 200);
    assert_eq!(result.unwrap_err(), STATUS_OBJECT_NAME_NOT_FOUND);
}

#[test]
fn handles_can_be_counted_up_to_a_limit() {
    let mut handler = with_tree();
    let open_it = request(FILE_OPEN, 0);
    assert!(handler.can_count(&units("\\file"), open_it));
    handler.tree.stat_mut(Entry::File(7)).handle_count = u32::MAX;
    assert!(!handler.can_count(&units("\\file"), open_it));
    // nothing is counted where nothing opens
    assert!(handler.can_count(&units("\\file"), request(FILE_CREATE, 0)));
    assert!(handler.can_count(&units("\\file"), request(6, 0)));
    assert!(handler.can_count(&units("\\"), open_it));
    assert!(handler.can_count(&units("\\x"), open_it));
    handler.tree.stat_mut(Entry::Directory(ROOT)).handle_count = u32::MAX;
    assert!(!handler.can_count(&units("\\"), open_it));
    assert!(handler.can_count(&units("\\"), request(FILE_CREATE, 0)));
}

#[test]
fn paths_are_split() {
    let handler = with_tree();
    assert!(split_path(&handler.tree, &units("\\")).unwrap().is_none());
    assert!(split_path(&handler.tree, &units("\\\\")).unwrap().is_none());
    assert!(split_path(&handler.tree, &[]).unwrap().is_none());
    let info = split_path(&handler.tree, &units("\\DIR\\new")).unwrap().unwrap();
    assert_eq!(info.parent, 8);
    assert_eq!(info.name.file_name, units("new"));
    assert!(info.name.stream_info.is_none());
}

#[test]
fn streams_are_named_after_a_colon() {
    let name = FullName::new(&units("file:")).unwrap();
    assert_eq!(name.file_name, units("file"));
    let name = FullName::new(&units("file:stream")).unwrap();
    let stream = name.stream_info.unwrap();
    assert_eq!(stream.name, units("stream"));
    assert_eq!(stream.type_, StreamType::Data);
    let name = FullName::new(&units("file:s:$INDEX_ALLOCATION")).unwrap();
    assert_eq!(name.stream_info.unwrap().type_, StreamType::IndexAllocation);
    let name = FullName::new(&units("file:s:$bitmap")).unwrap();
    assert_eq!(name.stream_info.unwrap().type_, StreamType::Bitmap);
    assert!(FullName::new(&units("file:s:other")).is_err());
}

#[test]
fn a_new_handle_counts_and_delays_nothing() {
    let mut handler = with_tree();
    let handle = EntryHandle::new(&mut handler.tree, OpenEntry::Shared(Entry::File(7)), true);
    assert!(handle.delete_on_close);
    assert!(handle.ctime_enabled && handle.mtime_enabled && handle.atime_enabled);
    assert_eq!((handle.mtime_delayed, handle.atime_delayed), (None, None));
    assert!(!handle.is_dir());
    assert_eq!(handler.tree.stat(Entry::File(7)).handle_count, 1);
}

#[test]
fn updates_keep_what_the_tree_holds() {
    let mut handler = with_tree();
    let mut handle = open(&mut handler, "\\file", request(FILE_OPEN, 0)).unwrap().context;
    handler.set_file_attributes(&mut handle, FILE_ATTRIBUTE_HIDDEN, 300).unwrap();
    handler.close_file(&mut handle);
    assert_eq!(handler.tree.len_of(7), 30);
    assert_eq!(handler.tree.dirs[&ROOT].children.items.len(), 2);
    assert_eq!(handler.tree.stat(Entry::File(7)).attrs.value, FILE_ATTRIBUTE_HIDDEN);
    assert_eq!(handler.tree.stat(Entry::Directory(8)).attrs.value, 0);
    handler.drop_handle(handle, 400);
    assert_eq!(handler.tree.stat(Entry::File(7)).handle_count, 0);
    assert_eq!(handler.tree.files.len(), 1);
}

#[test]
fn repeated_backslashes_separate_once() {
    let handler = with_tree();
    let info = split_path(&handler.tree, &units("\\\\dir\\\\x\\")).unwrap().unwrap();
    assert_eq!(info.parent, 8);
    assert_eq!(info.name.file_name, units("x"));
}

#[test]
fn entries_are_equal_if_they_are_the_same() {
    let (file, other, dir) = (Entry::File(7), Entry::File(8), Entry::Directory(7));
    assert!(file == file.clone());
    assert!(dir == Entry::Directory(7));
    assert!(file != other);
    assert!(file != dir && dir != file);
    // whatever is kept about them
    let mut handler = with_tree();
    let stat = Stat::new(2, 0, desc(), Some(ROOT), 100);
    handler.tree.files.insert(8, FileEntry { stat, len: 30 });
    assert_eq!(handler.tree.len_of(7), handler.tree.len_of(8));
    assert!(file != other);
}

#[test]
fn nothing_is_made_whatever_is_asked() {
    let mut handler = handler();
    for path in ["\\", "\\new", "\\ABBA", "\\ABBA\\new", "\\ABBA\\Arrival\\Song.mp3"] {
        for disposition in 0..8 {
            for options in [0, FILE_DIRECTORY_FILE, FILE_NON_DIRECTORY_FILE, FILE_DELETE_ON_CLOSE] {
                let request = request(disposition, options);
                let result =
                    handler.create_file(&units(path), request, true, &desc(), b"1", 200);
                if let Ok(made) = result {
                    assert!(!made.new_file_created);
                    let mut handle = made.context;
                    handler.set_file_attributes(&mut handle, 0x27, 300).unwrap();
                    handler.close_file(&mut handle);
                    handler.drop_handle(handle, 400);
                }
            }
        }
    }
    assert!(handler.tree.files.is_empty());
    assert_eq!(handler.tree.dirs.len(), 1);
    assert!(handler.tree.dirs[&ROOT].children.items.is_empty());
    assert!(!handler.tree.stat(Entry::Directory(ROOT)).delete_pending);
}
