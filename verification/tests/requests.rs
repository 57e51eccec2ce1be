use sonicdisk::handle::{can_close, EntryHandle, FileTimeOperation};
use sonicdisk::handler::SubFSHandler;
use sonicdisk::names::EntryName;
use sonicdisk::nt::{
    FILE_ATTRIBUTE_DIRECTORY, FILE_ATTRIBUTE_NORMAL, FILE_ATTRIBUTE_READONLY, FILE_OPEN,
    STATUS_ACCESS_DENIED, STATUS_BUFFER_OVERFLOW, STATUS_CANNOT_DELETE,
    STATUS_INVALID_DEVICE_REQUEST, STATUS_INVALID_PARAMETER,
};
use sonicdisk::offering::Offering;
use sonicdisk::opening::OpenRequest;
use sonicdisk::requests::{
    finish_read, ignore_name_too_long, is_in_range, range_header, FillDataError, FindData,
};
use sonicdisk::security::SecurityDescriptor;
use sonicdisk::stat::{Attributes, Stat, SUPPORTED_ATTRS};
use sonicdisk::subsonic::{
    identify_song, IdentifiedAlbum, IdentifiedArtist, IdentifiedSong, SubsonicInfo, Track,
};
use sonicdisk::tree::{DirEntry, Entry, FileEntry, OpenEntry, ROOT};

fn units(text: &str) -> Vec<u16> {
    text.encode_utf16().collect()
}

fn terminated(text: &str) -> Vec<u16> {
    text.encode_utf16().chain([0]).collect()
}

fn desc() -> SecurityDescriptor {
    SecurityDescriptor { bytes: vec![1, 2, 3] }
}

fn song(title: &str, url: &str) -> IdentifiedSong {
    identify_song(
        Track {
            id: url.to_string(),
            title: title.to_string(),
            content_type: String::from("audio/x-flac"),
        },
        Some(url.to_string()),
    )
}

fn album(name: &str, songs: Vec<IdentifiedSong>) -> IdentifiedAlbum {
    IdentifiedAlbum { album: name.to_string(), album_id: name.to_string(), songs }
}

fn handler() -> SubFSHandler {
    let artist = |name: &str| IdentifiedArtist {
        artist: name.to_string(),
        artist_id: name.to_string(),
    };
    let info = SubsonicInfo {
        desired_folders: vec![
            (
                artist("ABBA"),
                vec![
                    album(
                        "Arrival",
                        vec![song("Tiger", "u1"), song("Dum", "u2"), song("TIGER", "u3")],
                    ),
                    album("Waterloo", vec![song("\u{1F3B5}", "u4")]),
                ],
            ),
            (artist("abba"), vec![]),
            (artist("Blur"), vec![]),
        ],
    };
    SubFSHandler::new(info, desc(), 100)
}

fn open(handler: &mut SubFSHandler, path: &str) -> EntryHandle {
    let request = OpenRequest {
        desired_access: 0,
        file_attributes: 0,
        create_disposition: FILE_OPEN,
        create_options: 0,
    };
    handler.create_file(&units(path), request, false, &desc(), b"4096", 200).unwrap().context
}

fn names(data: &[FindData]) -> Vec<Vec<u16>> {
    data.iter().map(|entry| entry.file_name.clone()).collect()
}

fn lengths(count: usize) -> Vec<Vec<u8>> {
    (0..count).map(|n| format!("{}", 1000 + n).into_bytes()).collect()
}

#[test]
fn the_root_shows_artists_as_directories() {
    let mut handler = handler();
    let handle = open(&mut handler, "\\");
    assert_eq!(handler.listed(&units("\\")).len(), 3);
    let data = handler.find_files(&units("\\"), &handle, &lengths(3), 300).unwrap();
    // names that differ in case alone are one name
    assert_eq!(names(&data), vec![terminated("ABBA"), terminated("Blur")]);
    for entry in &data {
        assert_eq!(entry.attributes, FILE_ATTRIBUTE_DIRECTORY);
        assert_eq!(entry.file_size, 0);
        assert_eq!(entry.creation_time, 300);
        assert_eq!((entry.last_access_time, entry.last_write_time), (300, 300));
    }
}

#[test]
fn an_artist_shows_albums_as_directories() {
    let mut handler = handler();
    let handle = open(&mut handler, "\\ABBA");
    let data = handler.find_files(&units("\\ABBA"), &handle, &lengths(2), 300).unwrap();
    assert_eq!(names(&data), vec![terminated("Arrival"), terminated("Waterloo")]);
    assert_eq!(data[0].attributes, FILE_ATTRIBUTE_DIRECTORY);
}

#[test]
fn an_album_shows_songs_with_their_sizes() {
    let mut handler = handler();
    let path = units("\\ABBA\\Arrival");
    let handle = open(&mut handler, "\\ABBA\\Arrival");
    let data = handler.find_files(&path, &handle, &lengths(3), 300).unwrap();
    assert_eq!(names(&data), vec![terminated("Tiger.flac"), terminated("Dum.flac")]);
    // the last of the songs with one name tells the size
    assert_eq!(data[0].file_size, 1002);
    assert_eq!(data[1].file_size, 1001);
    assert_eq!(data[0].attributes, FILE_ATTRIBUTE_NORMAL);
}

#[test]
fn a_song_shows_no_entries() {
    let mut handler = handler();
    let path = "\\ABBA\\Arrival\\Dum.flac";
    let handle = open(&mut handler, path);
    let result = handler.find_files(&units(path), &handle, &Vec::new(), 300);
    assert_eq!(result.unwrap_err(), STATUS_INVALID_DEVICE_REQUEST);
}

#[test]
fn an_opened_song_is_as_it_was_shown() {
    let mut handler = handler();
    let album = open(&mut handler, "\\ABBA\\Waterloo");
    let sizes = vec![b"4096".to_vec()];
    let data = handler.find_files(&units("\\ABBA\\Waterloo"), &album, &sizes, 300).unwrap();
    let mut path = units("\\ABBA\\Waterloo\\");
    path.extend(&data[0].file_name[..data[0].file_name.len() - 1]);
    let text = String::from_utf16(&path).unwrap();
    let info = {
        let song = open(&mut handler, &text);
        handler.get_file_information(&song).unwrap()
    };
    assert_eq!(info.file_size, data[0].file_size);
    assert_eq!(info.attributes, data[0].attributes);
}

#[test]
fn long_names_are_left_out_and_full_buffers_told() {
    assert_eq!(ignore_name_too_long(FillDataError::NameTooLong), Ok(()));
    assert_eq!(ignore_name_too_long(FillDataError::BufferFull), Err(STATUS_BUFFER_OVERFLOW));
}

#[test]
fn songs_are_asked_for_in_parts() {
    let handler = handler();
    let path = units("\\ABBA\\Arrival\\Dum.flac");
    assert!(handler.can_read(&path));
    assert_eq!(handler.read_file(&path), Ok(String::from("u2")));
    let status = handler.read_file(&units("\\ABBA")).unwrap_err();
    assert_eq!(status, STATUS_INVALID_DEVICE_REQUEST);
    let status = handler.read_file(&units("\\x")).unwrap_err();
    assert_eq!(status, STATUS_INVALID_DEVICE_REQUEST);
    assert_eq!(range_header(0, 4096), "bytes=0-4095");
    assert_eq!(range_header(4096, 1), "bytes=4096-4096");
    assert_eq!(range_header(i64::MAX, 1), "bytes=9223372036854775807-9223372036854775807");
}

#[test]
fn without_folders_nothing_is_read() {
    let info = SubsonicInfo { desired_folders: Vec::new() };
    let handler = SubFSHandler::new(info, desc(), 100);
    assert!(handler.can_read(&[0xD800]));
    let status = handler.read_file(&[0xD800]).unwrap_err();
    assert_eq!(status, STATUS_INVALID_DEVICE_REQUEST);
}

#[test]
fn a_part_has_a_last_byte() {
    assert!(is_in_range(0, 1));
    assert!(!is_in_range(0, 0));
    assert!(is_in_range(1, 0));
    assert!(!is_in_range(1, usize::MAX));
    assert!(is_in_range(0, usize::MAX));
    assert!(!is_in_range(-1, 1));
}

#[test]
fn what_was_read_goes_to_the_beginning() {
    let mut buffer = [9u8; 5];
    assert_eq!(finish_read(&mut buffer, &[1, 2, 3]), Ok(3));
    assert_eq!(buffer, [1, 2, 3, 9, 9]);
    assert_eq!(finish_read(&mut buffer, &[]), Ok(0));
    assert_eq!(buffer, [1, 2, 3, 9, 9]);
    assert_eq!(finish_read(&mut buffer, &[5; 5]), Ok(5));
    assert_eq!(buffer, [5; 5]);
}

#[test]
fn writing_is_denied() {
    assert_eq!(handler().write_file(), Err(STATUS_ACCESS_DENIED));
}

#[test]
fn other_requests_do_nothing() {
    let handler = handler();
    assert_eq!(handler.flush_file_buffers(), Ok(()));
    assert_eq!(handler.move_file(), Ok(()));
    assert_eq!(handler.set_end_of_file(), Ok(()));
    assert_eq!(handler.set_allocation_size(), Ok(()));
    assert_eq!(handler.mounted(), Ok(()));
    assert_eq!(handler.unmounted(), Ok(()));
}

#[test]
fn information_is_told() {
    let mut handler = handler();
    let root = open(&mut handler, "\\");
    let info = handler.get_file_information(&root).unwrap();
    assert_eq!(info.attributes, FILE_ATTRIBUTE_DIRECTORY);
    assert_eq!((info.creation_time, info.last_access_time, info.last_write_time), (100, 100, 100));
    assert_eq!((info.file_size, info.number_of_links, info.file_index), (0, 1, 0));
    let song = open(&mut handler, "\\ABBA\\Arrival\\Dum.flac");
    let info = handler.get_file_information(&song).unwrap();
    assert_eq!(info.attributes, FILE_ATTRIBUTE_NORMAL);
    assert_eq!((info.file_size, info.number_of_links, info.file_index), (4096, 1, 1));
}

#[test]
fn the_volume_is_described() {
    let handler = handler();
    let space = handler.get_disk_free_space().unwrap();
    assert_eq!(space.byte_count, 1024 * 1024 * 1024);
    assert_eq!(space.free_byte_count, 512 * 1024 * 1024);
    assert_eq!(space.available_byte_count, 512 * 1024 * 1024);
    let volume = handler.get_volume_information().unwrap();
    assert_eq!(volume.name, terminated("SonicDisk"));
    assert_eq!(volume.fs_name, terminated("NTFS"));
    assert_eq!((volume.serial_number, volume.max_component_length), (0, 255));
    assert_eq!(volume.fs_flags, 0x4000F);
}

#[test]
fn files_have_one_stream() {
    let mut handler = handler();
    let root = open(&mut handler, "\\");
    assert!(handler.find_streams(&root).is_none());
    let song = open(&mut handler, "\\ABBA\\Arrival\\Dum.flac");
    let stream = handler.find_streams(&song).unwrap();
    assert_eq!(stream.size, 4096);
    assert_eq!(stream.name, terminated("::$DATA"));
}

#[test]
fn deletion_is_checked() {
    let mut handler = handler();
    let mut song = open(&mut handler, "\\ABBA\\Arrival\\Dum.flac");
    assert_eq!(handler.delete_file(&song), Ok(()));
    handler.set_file_attributes(&mut song, FILE_ATTRIBUTE_READONLY, 300).unwrap();
    assert_eq!(handler.delete_file(&song), Err(STATUS_CANNOT_DELETE));
    assert_eq!(handler.delete_directory(&song), Err(STATUS_INVALID_DEVICE_REQUEST));
    let root = open(&mut handler, "\\");
    assert_eq!(handler.delete_directory(&root), Ok(()));
}

#[test]
fn attributes_are_masked_and_shown() {
    assert_eq!(Attributes::new(0xFFFF_FFFF).value, SUPPORTED_ATTRS);
    assert_eq!(Attributes::new(0x10).value, 0);
    assert_eq!(Attributes::new(0).get_output_attrs(false), FILE_ATTRIBUTE_NORMAL);
    assert_eq!(Attributes::new(0).get_output_attrs(true), FILE_ATTRIBUTE_DIRECTORY);
    assert_eq!(Attributes::new(0x23).get_output_attrs(true), 0x33);
    assert_eq!(Attributes::new(0x23).get_output_attrs(false), 0x23);
}

#[test]
fn setting_attributes_is_an_access() {
    let mut handler = handler();
    let mut root = open(&mut handler, "\\");
    handler.set_file_attributes(&mut root, 0x12, 300).unwrap();
    let info = handler.get_file_information(&root).unwrap();
    assert_eq!(info.attributes, 0x12);
    assert_eq!((info.last_access_time, info.last_write_time), (300, 100));
    let dont = FileTimeOperation::DontChange;
    handler.set_file_time(&mut root, dont, FileTimeOperation::DisableUpdate, dont).unwrap();
    handler.set_file_attributes(&mut root, 0, 400).unwrap();
    assert_eq!(handler.get_file_information(&root).unwrap().last_access_time, 300);
}

#[test]
fn times_are_set_unless_disabled() {
    let mut handler = handler();
    let mut root = open(&mut handler, "\\");
    let (set, dont) = (FileTimeOperation::SetTime, FileTimeOperation::DontChange);
    let (off, on) = (FileTimeOperation::DisableUpdate, FileTimeOperation::ResumeUpdate);
    handler.set_file_time(&mut root, set(1), set(2), set(3)).unwrap();
    let info = handler.get_file_information(&root).unwrap();
    assert_eq!((info.creation_time, info.last_access_time, info.last_write_time), (1, 2, 3));
    handler.set_file_time(&mut root, off, dont, off).unwrap();
    handler.set_file_time(&mut root, set(4), set(5), set(6)).unwrap();
    let info = handler.get_file_information(&root).unwrap();
    assert_eq!((info.creation_time, info.last_access_time, info.last_write_time), (1, 5, 3));
    handler.set_file_time(&mut root, on, dont, on).unwrap();
    handler.set_file_time(&mut root, set(7), dont, set(8)).unwrap();
    let info = handler.get_file_information(&root).unwrap();
    assert_eq!((info.creation_time, info.last_access_time, info.last_write_time), (7, 5, 8));
}

#[test]
fn updates_respect_what_is_disabled() {
    let mut handler = handler();
    let mut root = open(&mut handler, "\\");
    let mut stat = Stat::new(1, 0, desc(), None, 100);
    root.update_mtime(&mut stat, 150);
    assert_eq!((stat.mtime, stat.atime), (150, 150));
    root.mtime_enabled = false;
    root.update_mtime(&mut stat, 160);
    assert_eq!((stat.mtime, stat.atime), (150, 160));
    root.atime_enabled = false;
    root.update_atime(&mut stat, 170);
    assert_eq!(stat.atime, 160);
    stat.update_atime(180);
    assert_eq!((stat.mtime, stat.atime), (150, 180));
    stat.update_mtime(190);
    assert_eq!((stat.mtime, stat.atime), (190, 190));
}

#[test]
fn delayed_times_are_noted_on_closing() {
    let mut handler = handler();
    let mut root = open(&mut handler, "\\");
    root.mtime_delayed = Some(50);
    root.atime_delayed = Some(250);
    handler.close_file(&mut root);
    let info = handler.get_file_information(&root).unwrap();
    assert_eq!((info.last_write_time, info.last_access_time), (100, 250));
}

#[test]
fn descriptors_are_told_and_changed() {
    let mut handler = handler();
    let mut root = open(&mut handler, "\\");
    assert_eq!(handler.get_file_security(&root, 2, Err(STATUS_ACCESS_DENIED)), Ok(3));
    assert_eq!(handler.get_file_security(&root, 3, Ok(())), Ok(3));
    let status = handler.get_file_security(&root, 3, Err(STATUS_ACCESS_DENIED));
    assert_eq!(status, Err(STATUS_ACCESS_DENIED));
    let other = || SecurityDescriptor { bytes: vec![4; 9] };
    let status = handler.set_file_security(&mut root, false, Ok(other()), 300);
    assert_eq!(status, Err(STATUS_INVALID_PARAMETER));
    assert_eq!(handler.get_file_information(&root).unwrap().last_access_time, 100);
    let status = handler.set_file_security(&mut root, true, Err(STATUS_ACCESS_DENIED), 300);
    assert_eq!(status, Err(STATUS_ACCESS_DENIED));
    assert_eq!(handler.set_file_security(&mut root, true, Ok(other()), 300), Ok(()));
    assert_eq!(handler.get_file_security(&root, 0, Ok(())), Ok(9));
    assert_eq!(handler.get_file_information(&root).unwrap().last_access_time, 300);
}

#[test]
fn handles_are_counted() {
    let mut handler = handler();
    let root = Entry::Directory(ROOT);
    let first = open(&mut handler, "\\");
    let second = open(&mut handler, "\\");
    let song = open(&mut handler, "\\ABBA\\Arrival\\Dum.flac");
    assert_eq!(handler.tree.stat(root).handle_count, 2);
    handler.drop_handle(first, 300);
    handler.drop_handle(song, 300);
    assert_eq!(handler.tree.stat(root).handle_count, 1);
    handler.drop_handle(second, 300);
    let stat = handler.tree.stat(root);
    assert_eq!((stat.handle_count, stat.mtime, stat.atime), (0, 100, 100));
    assert!(!stat.delete_pending);
}

#[test]
fn the_root_cannot_be_deleted() {
    let mut handler = handler();
    let mut first = open(&mut handler, "\\");
    first.delete_on_close = true;
    assert!(can_close(&first, &handler.tree));
    let mut second = open(&mut handler, "\\");
    second.delete_on_close = true;
    handler.drop_handle(first, 300);
    assert!(can_close(&second, &handler.tree));
    handler.drop_handle(second, 300);
    let stat = handler.tree.stat(Entry::Directory(ROOT));
    assert_eq!((stat.handle_count, stat.mtime), (0, 100));
    assert!(!stat.delete_pending);
    assert_eq!(handler.tree.dirs.len(), 1);
}

#[test]
fn the_last_handle_deletes() {
    let mut handler = handler();
    let stat = Stat::new(5, 0, desc(), Some(ROOT), 100);
    handler.tree.files.insert(7, FileEntry::new(stat));
    let mut root = DirEntry::new(Stat::new(0, 0, desc(), None, 100));
    root.children.insert(EntryName::from_text("file"), Entry::File(7));
    handler.tree.dirs.insert(ROOT, root);
    let file = || OpenEntry::Shared(Entry::File(7));
    let first = EntryHandle::new(&mut handler.tree, file(), true);
    let second = EntryHandle::new(&mut handler.tree, file(), true);
    handler.drop_handle(first, 300);
    assert_eq!(handler.tree.stat(Entry::File(7)).handle_count, 1);
    assert!(!handler.tree.stat(Entry::File(7)).delete_pending);
    assert!(can_close(&second, &handler.tree));
    handler.drop_handle(second, 400);
    assert!(handler.tree.files.is_empty());
    assert!(handler.tree.dirs[&ROOT].children.items.is_empty());
    assert_eq!(handler.tree.stat(Entry::Directory(ROOT)).mtime, 400);
}

#[test]
fn an_artist_holds_the_albums_that_are_shown() {
    let mut handler = handler();
    let handle = open(&mut handler, "\\ABBA");
    let data = handler.find_files(&units("\\ABBA"), &handle, &lengths(2), 300).unwrap();
    match &handle.entry {
        OpenEntry::Folder(folder) => {
            let held: Vec<Vec<u16>> = folder
                .children
                .items
                .iter()
                .map(|(name, _)| name.units.iter().copied().chain([0]).collect())
                .collect();
            assert_eq!(held, names(&data));
        }
        other => panic!("{:?}", other),
    }
}

fn run(count: usize, answers: &[Result<(), FillDataError>]) -> (Vec<usize>, Result<(), i32>) {
    let mut offering = Offering::new(count);
    let mut offered = Vec::new();
    while let Some(i) = offering.next_entry() {
        offering.answered(answers[offered.len()]);
        offered.push(i);
    }
    (offered, offering.result().unwrap())
}

#[test]
fn entries_are_offered_until_there_is_no_room() {
    let (long, full) = (Err(FillDataError::NameTooLong), Err(FillDataError::BufferFull));
    assert_eq!(run(0, &[]), (vec![], Ok(())));
    assert_eq!(run(3, &[Ok(()), Ok(()), Ok(())]), (vec![0, 1, 2], Ok(())));
    assert_eq!(run(3, &[long, long, long]), (vec![0, 1, 2], Ok(())));
    assert_eq!(run(3, &[Ok(()), long, full]), (vec![0, 1, 2], Err(STATUS_BUFFER_OVERFLOW)));
    assert_eq!(run(3, &[full, Ok(()), Ok(())]), (vec![0], Err(STATUS_BUFFER_OVERFLOW)));
    assert_eq!(run(1, &[full]), (vec![0], Err(STATUS_BUFFER_OVERFLOW)));
    assert_eq!(run(1, &[long]), (vec![0], Ok(())));
    assert_eq!(Offering::new(2).result(), None);
}
