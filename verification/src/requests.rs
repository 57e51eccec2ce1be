//! What the file system answers to requests about what is open, and about itself.

use crate::answer_laws::entries_show_names_and_sizes;
use crate::catalogue::{
    find_read, is_last_song, is_listing, is_readable, list_folder, listing, name_at, read_at,
    readable, shown_in, song_at, song_named, Located,
};
use crate::handle::EntryHandle;
use crate::handler::{comparable, SubFSHandler};
use crate::names::{collected, collected_from, same_name, EntryName, NameMap};
use crate::nt::{
    NtStatus, FILE_ATTRIBUTE_DIRECTORY, FILE_ATTRIBUTE_NORMAL, FILE_ATTRIBUTE_READONLY,
    FILE_CASE_PRESERVED_NAMES, FILE_CASE_SENSITIVE_SEARCH, FILE_NAMED_STREAMS,
    FILE_PERSISTENT_ACLS, FILE_UNICODE_ON_DISK, STATUS_ACCESS_DENIED, STATUS_BUFFER_OVERFLOW,
    STATUS_CANNOT_DELETE, STATUS_INVALID_DEVICE_REQUEST,
};
use crate::path::MAX_COMPONENT_LENGTH;
use crate::place_laws::path_is_read_from_the_last;
use crate::stat::{output_attrs, Attributes, Timestamp, SUPPORTED_ATTRS};
use crate::subsonic::{IdentifiedAlbum, IdentifiedArtist, IdentifiedSong};
use crate::text::{append_decimal, append_signed_decimal, decimal, parsed_u64, signed_decimal};
use crate::wide::{
    is_utf16, name_text, terminate_text, terminate_units, text_of, utf16, utf16_nul,
};
use vstd::prelude::*;

verus! {

/// What is shown of one entry of a directory.
#[derive(Debug)]
pub struct FindData {
    pub attributes: u32,
    pub creation_time: Timestamp,
    pub last_access_time: Timestamp,
    pub last_write_time: Timestamp,
    pub file_size: u64,
    /// The name, with a zero at its end.
    pub file_name: Vec<u16>,
}

/// What is known of one entry of a directory.
#[derive(Debug, Clone, Copy, PartialEq, Eq, Structural)]
pub struct Shown {
    pub is_dir: bool,
    pub len: u64,
}

/// The names of what is in a list of positions, with what is shown of each. `lengths` holds, for
/// each position of a song, what the server tells of the length of the song.
pub open spec fn shown_pairs(
    folders: Seq<(IdentifiedArtist, Vec<IdentifiedAlbum>)>,
    list: Seq<Located>,
    lengths: Seq<Vec<u8>>,
) -> Seq<(Seq<u16>, Shown)> {
    Seq::new(
        list.len(),
        |i: int|
            (
                utf16(name_at(folders, list[i])),
                Shown {
                    is_dir: !(list[i] is Song),
                    len: if list[i] is Song {
                        parsed_u64(lengths[i]@)->0
                    } else {
                        0
                    },
                },
            ),
    )
}

/// Whether the lengths of all songs in a list of positions are known.
pub open spec fn measured(
    folders: Seq<(IdentifiedArtist, Vec<IdentifiedAlbum>)>,
    list: Seq<Located>,
    lengths: Seq<Vec<u8>>,
) -> bool {
    &&& lengths.len() == list.len()
    &&& forall|i: int|
        0 <= i < list.len() && #[trigger] list[i] is Song ==> song_at(folders, list[i]).url is Some
            && parsed_u64(lengths[i]@) is Some
}

/// Whether no name in a list of positions holds the character U+0000, which ends a name.
pub open spec fn terminable(
    folders: Seq<(IdentifiedArtist, Vec<IdentifiedAlbum>)>,
    list: Seq<Located>,
) -> bool {
    forall|i: int|
        0 <= i < list.len() ==> !utf16(name_at(folders, #[trigger] list[i])).contains(0u16)
}

/// Whether this is shown of an entry with a name, made at the time `now`.
pub open spec fn is_find_data(
    data: FindData,
    name: Seq<u16>,
    shown: Shown,
    now: Timestamp,
) -> bool {
    &&& data.attributes == if shown.is_dir {
        FILE_ATTRIBUTE_DIRECTORY
    } else {
        FILE_ATTRIBUTE_NORMAL
    }
    &&& data.creation_time == now
    &&& data.last_access_time == now
    &&& data.last_write_time == now
    &&& data.file_size == shown.len
    &&& data.file_name@ == name.push(0u16)
}

/// Whether this is shown of entries, in their order.
pub open spec fn are_find_data(
    data: Seq<FindData>,
    items: Seq<(Seq<u16>, Shown)>,
    now: Timestamp,
) -> bool {
    &&& data.len() == items.len()
    &&& forall|i: int|
        0 <= i < data.len() ==> is_find_data(#[trigger] data[i], items[i].0, items[i].1, now)
}

/// What is shown of an entry without attributes.
proof fn bare_attributes()
    ensures
        output_attrs(0u32 & SUPPORTED_ATTRS, true) == FILE_ATTRIBUTE_DIRECTORY,
        output_attrs(0u32 & SUPPORTED_ATTRS, false) == FILE_ATTRIBUTE_NORMAL,
{
    assert(0u32 & SUPPORTED_ATTRS == 0) by (bit_vector);
    assert(0u32 | FILE_ATTRIBUTE_DIRECTORY == FILE_ATTRIBUTE_DIRECTORY) by (bit_vector);
}

/// What is shown of the entries in a map.
fn find_data(children: &NameMap<Shown>, now: Timestamp) -> (data: Vec<FindData>)
    requires
        forall|i: int| 0 <= i < children@.len() ==> !(#[trigger] children@[i]).0.contains(0u16),
    ensures
        are_find_data(data@, children@, now),
{
    proof {
        bare_attributes();
    }
    let mut data: Vec<FindData> = Vec::new();
    let mut i: usize = 0;
    while i < children.items.len()
        invariant
            i <= children.items@.len(),
            forall|i: int|
                0 <= i < children@.len() ==> !(#[trigger] children@[i]).0.contains(0u16),
            are_find_data(data@, children@.take(i as int), now),
            output_attrs(0u32 & SUPPORTED_ATTRS, true) == FILE_ATTRIBUTE_DIRECTORY,
            output_attrs(0u32 & SUPPORTED_ATTRS, false) == FILE_ATTRIBUTE_NORMAL,
        decreases children.items@.len() - i,
    {
        let item = &children.items[i];
        assert(children@[i as int] == (item.0.units@, item.1));
        let attrs = Attributes::new(0);
        data.push(
            FindData {
                attributes: attrs.get_output_attrs(item.1.is_dir),
                creation_time: now,
                last_access_time: now,
                last_write_time: now,
                file_size: item.1.len,
                file_name: terminate_units(item.0.units.as_slice()).unwrap(),
            },
        );
        i = i + 1;
    }
    assert(children@.take(i as int) =~= children@);
    data
}

/// What is known of an open file or directory.
#[derive(Debug)]
pub struct FileInfo {
    pub attributes: u32,
    pub creation_time: Timestamp,
    pub last_access_time: Timestamp,
    pub last_write_time: Timestamp,
    pub file_size: u64,
    pub number_of_links: u32,
    pub file_index: u64,
}

/// How much room there is on the volume.
#[derive(Debug)]
pub struct DiskSpaceInfo {
    pub byte_count: u64,
    pub free_byte_count: u64,
    pub available_byte_count: u64,
}

/// What the volume is. The names have a zero at their ends.
#[derive(Debug)]
pub struct VolumeInfo {
    pub name: Vec<u16>,
    pub serial_number: u32,
    pub max_component_length: u32,
    pub fs_flags: u32,
    pub fs_name: Vec<u16>,
}

/// A stream of a file. The name has a zero at its end.
#[derive(Debug)]
pub struct FindStreamData {
    pub size: i64,
    pub name: Vec<u16>,
}

/// Whether the last of the bytes that are asked for has a number.
pub open spec fn in_range(offset: i64, len: usize) -> bool {
    1 <= (offset as usize) + len <= usize::MAX
}

/// The value of the `Range` header that asks for `len` bytes from `offset` on.
pub open spec fn range(offset: i64, len: usize) -> Seq<char> {
    "bytes="@ + signed_decimal(offset as int) + "-"@ + decimal(
        ((offset as usize) + len - 1) as nat,
    )
}

/// Whether the last of the bytes that are asked for has a number.
pub fn is_in_range(offset: i64, len: usize) -> (yes: bool)
    ensures
        yes == in_range(offset, len),
{
    let start: usize = #[verifier::truncate] (offset as usize);
    len <= usize::MAX - start && (start > 0 || len > 0)
}

/// The value of the `Range` header that asks for `len` bytes from `offset` on.
pub fn range_header(offset: i64, len: usize) -> (header: String)
    requires
        in_range(offset, len),
    ensures
        header@ == range(offset, len),
{
    let start: usize = #[verifier::truncate] (offset as usize);
    let end: usize = start + len - 1;
    let mut header: String = String::from_str("bytes=");
    append_signed_decimal(&mut header, offset);
    header.append("-");
    append_decimal(&mut header, end as u64);
    assert(header@ =~= range(offset, len));
    header
}

/// Hands over what the server sent: it goes to the beginning of the buffer.
pub fn finish_read(buffer: &mut [u8], data: &[u8]) -> (result: Result<u32, NtStatus>)
    requires
        data@.len() <= old(buffer)@.len(),
        data@.len() <= u32::MAX,
    ensures
        result == Ok::<u32, NtStatus>(data@.len() as u32),
        final(buffer)@ == data@ + old(buffer)@.skip(data@.len() as int),
{
    let mut i: usize = 0;
    while i < data.len()
        invariant
            i <= data@.len() <= old(buffer)@.len(),
            buffer@ =~= data@.take(i as int) + old(buffer)@.skip(i as int),
        decreases data@.len() - i,
    {
        buffer[i] = data[i];
        i = i + 1;
    }
    assert(data@.take(i as int) =~= data@);
    Ok(data.len() as u32)
}

/// Why an entry could not be handed over.
#[derive(Debug, Clone, Copy, PartialEq, Eq, Structural)]
pub enum FillDataError {
    NameTooLong,
    BufferFull,
}

/// Passes on that there is no more room; an entry whose name is too long is left out, so that it
/// does not make the whole directory unreadable.
pub fn ignore_name_too_long(err: FillDataError) -> (result: Result<(), NtStatus>)
    ensures
        result == match err {
            FillDataError::BufferFull => Err::<(), NtStatus>(STATUS_BUFFER_OVERFLOW),
            FillDataError::NameTooLong => Ok::<(), NtStatus>(()),
        },
{
    match err {
        FillDataError::BufferFull => Err(STATUS_BUFFER_OVERFLOW),
        FillDataError::NameTooLong => Ok(()),
    }
}

impl SubFSHandler {
    /// The positions of what a directory shows, in the order in which it does.
    pub fn listed(&self, file_name: &[u16]) -> (list: Vec<Located>)
        requires
            is_utf16(file_name@),
        ensures
            list@ == listing(self.info.desired_folders@, text_of(file_name@)),
            is_listing(self.info.desired_folders@, text_of(file_name@), list@),
    {
        let path: String = name_text(file_name).unwrap();
        list_folder(&self.info.desired_folders, &path)
    }

    /// Shows what is in a directory: the artists in the root, an artist's albums in the artist's
    /// folder, an album's songs in the album's folder. `content_lengths` holds, for each song in
    /// the directory, what the server tells of the length of the song.
    pub fn find_files(
        &self,
        file_name: &[u16],
        handle: &EntryHandle,
        content_lengths: &Vec<Vec<u8>>,
        now: Timestamp,
    ) -> (result: Result<Vec<FindData>, NtStatus>)
        requires
            handle.entry.directory() ==> {
                let folders = self.info.desired_folders@;
                let list = listing(folders, text_of(file_name@));
                &&& is_utf16(file_name@)
                &&& measured(folders, list, content_lengths@)
                &&& terminable(folders, list)
            },
        ensures
            match result {
                Ok(data) => handle.entry.directory() && are_find_data(
                    data@,
                    collected(
                        shown_pairs(
                            self.info.desired_folders@,
                            listing(self.info.desired_folders@, text_of(file_name@)),
                            content_lengths@,
                        ),
                    ),
                    now,
                ),
                Err(status) => !handle.entry.directory() && status
                    == STATUS_INVALID_DEVICE_REQUEST,
            },
            result is Err <==> !handle.entry.directory(),
            result matches Ok(data) ==> {
                let folders = self.info.desired_folders@;
                let list = listing(folders, text_of(file_name@));
                &&& forall|i: int, k: int|
                    #![trigger data@[i], list[k]]
                    0 <= i < data@.len() && 0 <= k < list.len() && same_name(
                        data@[i].file_name@.drop_last(),
                        utf16(name_at(folders, list[k])),
                    ) && (forall|m: int|
                        k < m < list.len() ==> !same_name(
                            utf16(name_at(folders, #[trigger] list[m])),
                            utf16(name_at(folders, list[k])),
                        )) ==> {
                        &&& list[k] is Song ==> parsed_u64(content_lengths@[k]@) == Some(
                            data@[i].file_size,
                        ) && data@[i].attributes == 0x80
                        &&& !(list[k] is Song) ==> data@[i].file_size == 0 && data@[i].attributes
                            == 0x10
                    }
            },
    {
        if !handle.is_dir() {
            return Err(STATUS_INVALID_DEVICE_REQUEST);
        }
        let list: Vec<Located> = self.listed(file_name);
        let folders = &self.info.desired_folders;
        let ghost pairs = shown_pairs(folders@, list@, content_lengths@);
        let mut children: NameMap<Shown> = NameMap::new();
        let mut i: usize = 0;
        assert(pairs.take(0) =~= Seq::empty());
        while i < list.len()
            invariant
                i <= list@.len(),
                folders == self.info.desired_folders,
                list@ == listing(folders@, text_of(file_name@)),
                is_listing(folders@, text_of(file_name@), list@),
                measured(folders@, list@, content_lengths@),
                pairs == shown_pairs(folders@, list@, content_lengths@),
                children.wf(),
                children@ == collected(pairs.take(i as int)),
            decreases list@.len() - i,
        {
            proof {
                assert(pairs.take(i + 1).drop_last() =~= pairs.take(i as int));
                assert(pairs.take(i + 1).last() == pairs[i as int]);
                assert(list@.contains(list@[i as int]));
                assert(shown_in(folders@, text_of(file_name@), list@[i as int]));
            }
            match list[i] {
                Located::Artist(a) => {
                    let name = EntryName::from_text(folders[a].0.artist.as_str());
                    children.insert(name, Shown { is_dir: true, len: 0 });
                },
                Located::Album(a, b) => {
                    let name = EntryName::from_text(folders[a].1[b].album.as_str());
                    children.insert(name, Shown { is_dir: true, len: 0 });
                },
                Located::Song(a, b, c) => {
                    let song: &IdentifiedSong = &folders[a].1[b].songs[c];
                    let len: u64 = song.get_size(content_lengths[i].as_slice()).unwrap();
                    let name = EntryName::from_text(song.get_filename().as_str());
                    children.insert(name, Shown { is_dir: false, len });
                },
            }
            i = i + 1;
        }
        proof {
            assert(pairs.take(i as int) =~= pairs);
            assert forall|n: int| 0 <= n < children@.len() implies !(#[trigger] children@[n]).0.contains(
                0u16,
            ) by {
                collected_from(pairs, n);
                let m = choose|m: int|
                    0 <= m < pairs.len() && (#[trigger] pairs[m]).0 == collected(pairs)[n].0;
                assert(!utf16(name_at(folders@, list@[m])).contains(0u16));
            }
        }
        let data: Vec<FindData> = find_data(&children, now);
        proof {
            assert forall|i: int, k: int|
                #![trigger data@[i], list@[k]]
                0 <= i < data@.len() && 0 <= k < list@.len() && same_name(
                    data@[i].file_name@.drop_last(),
                    utf16(name_at(folders@, list@[k])),
                ) && (forall|m: int|
                    k < m < list@.len() ==> !same_name(
                        utf16(name_at(folders@, #[trigger] list@[m])),
                        utf16(name_at(folders@, list@[k])),
                    )) implies {
                &&& list@[k] is Song ==> parsed_u64(content_lengths@[k]@) == Some(
                    data@[i].file_size,
                ) && data@[i].attributes == 0x80
                &&& !(list@[k] is Song) ==> data@[i].file_size == 0 && data@[i].attributes == 0x10
            } by {
                entries_show_names_and_sizes(
                    folders@,
                    text_of(file_name@),
                    content_lengths@,
                    data@,
                    now,
                    i,
                    k,
                );
            }
        }
        Ok(data)
    }

    /// The URL from which a song is read. A file name that names no song cannot be read from.
    pub fn read_file(&self, file_name: &[u16]) -> (result: Result<String, NtStatus>)
        requires
            comparable(self.info.desired_folders@, file_name@),
            readable(self.info.desired_folders@, text_of(file_name@)),
        ensures
            match read_at(self.info.desired_folders@, text_of(file_name@)) {
                Some(at) => {
                    &&& result matches Ok(url)
                    &&& url@ == song_at(self.info.desired_folders@, at).url->0@
                    &&& at matches Located::Song(i, j, k)
                    &&& text_of(file_name@) == seq!['\\']
                        + self.info.desired_folders@[i as int].0.artist@ + seq!['\\']
                        + self.info.desired_folders@[i as int].1@[j as int].album@ + seq!['\\']
                        + self.info.desired_folders@[i as int].1@[j as int].songs@[k as int].filename()
                    &&& url@
                        == self.info.desired_folders@[i as int].1@[j as int].songs@[k as int].url->0@
                },
                None => result == Err::<String, NtStatus>(STATUS_INVALID_DEVICE_REQUEST),
            },
    {
        let folders = &self.info.desired_folders;
        if folders.len() == 0 {
            proof {
                let path = text_of(file_name@);
                assert forall|at: Located| !is_last_song(folders@, path, at) by {
                    assert(!song_named(folders@, path, at));
                }
            }
            return Err(STATUS_INVALID_DEVICE_REQUEST);
        }
        let path: String = name_text(file_name).unwrap();
        proof {
            path_is_read_from_the_last(folders@, path@);
        }
        match find_read(folders, &path) {
            Some(Located::Song(i, j, k)) => {
                assert(song_named(folders@, path@, Located::Song(i, j, k)));
                match &folders[i].1[j].songs[k].url {
                    Some(url) => Ok(url.clone()),
                    None => vstd::pervasive::unreached(),
                }
            },
            _ => Err(STATUS_INVALID_DEVICE_REQUEST),
        }
    }

    /// Whether every song that a file name names has a URL to read from.
    pub fn can_read(&self, file_name: &[u16]) -> (yes: bool)
        requires
            comparable(self.info.desired_folders@, file_name@),
        ensures
            yes == readable(self.info.desired_folders@, text_of(file_name@)),
    {
        let folders = &self.info.desired_folders;
        if folders.len() == 0 {
            return true;
        }
        let path: String = name_text(file_name).unwrap();
        is_readable(folders, &path)
    }

    /// Writing is always denied.
    pub fn write_file(&self) -> (result: Result<u32, NtStatus>)
        ensures
            result == Err::<u32, NtStatus>(STATUS_ACCESS_DENIED),
    {
        Err(STATUS_ACCESS_DENIED)
    }

    /// There is nothing to flush.
    pub fn flush_file_buffers(&self) -> (result: Result<(), NtStatus>)
        ensures
            result is Ok,
    {
        Ok(())
    }

    /// What is known of an open file or directory.
    pub fn get_file_information(&self, handle: &EntryHandle) -> (result: Result<
        FileInfo,
        NtStatus,
    >)
        requires
            self.knows(*handle),
        ensures
            result == Ok::<FileInfo, NtStatus>(
                ({
                    let stat = handle.entry.stat_in(self.tree);
                    FileInfo {
                        attributes: output_attrs(stat.attrs.value, handle.entry.directory()),
                        creation_time: stat.ctime,
                        last_access_time: stat.atime,
                        last_write_time: stat.mtime,
                        file_size: handle.entry.length(self.tree),
                        number_of_links: 1,
                        file_index: stat.id,
                    }
                }),
            ),
    {
        let stat = handle.entry.stat(&self.tree);
        Ok(
            FileInfo {
                attributes: stat.attrs.get_output_attrs(handle.is_dir()),
                creation_time: stat.ctime,
                last_access_time: stat.atime,
                last_write_time: stat.mtime,
                file_size: handle.entry.len(&self.tree),
                number_of_links: 1,
                file_index: stat.id,
            },
        )
    }

    /// Whether an open file can be deleted, which a read-only one cannot.
    pub fn delete_file(&self, handle: &EntryHandle) -> (result: Result<(), NtStatus>)
        requires
            self.knows(*handle),
        ensures
            result == (if handle.entry.stat_in(self.tree).attrs.value & FILE_ATTRIBUTE_READONLY
                > 0 {
                Err::<(), NtStatus>(STATUS_CANNOT_DELETE)
            } else {
                Ok::<(), NtStatus>(())
            }),
    {
        if handle.entry.stat(&self.tree).attrs.value & FILE_ATTRIBUTE_READONLY > 0 {
            return Err(STATUS_CANNOT_DELETE);
        }
        Ok(())
    }

    /// Whether an open directory can be deleted, which what is no directory cannot.
    pub fn delete_directory(&self, handle: &EntryHandle) -> (result: Result<(), NtStatus>)
        ensures
            result == (if handle.entry.directory() {
                Ok::<(), NtStatus>(())
            } else {
                Err::<(), NtStatus>(STATUS_INVALID_DEVICE_REQUEST)
            }),
    {
        if handle.is_dir() {
            Ok(())
        } else {
            Err(STATUS_INVALID_DEVICE_REQUEST)
        }
    }

    /// Nothing is ever moved.
    pub fn move_file(&self) -> (result: Result<(), NtStatus>)
        ensures
            result is Ok,
    {
        Ok(())
    }

    /// The end of a file never changes.
    pub fn set_end_of_file(&self) -> (result: Result<(), NtStatus>)
        ensures
            result is Ok,
    {
        Ok(())
    }

    /// No room is ever allocated.
    pub fn set_allocation_size(&self) -> (result: Result<(), NtStatus>)
        ensures
            result is Ok,
    {
        Ok(())
    }

    /// How much room there is: 1 GiB, half of it free.
    pub fn get_disk_free_space(&self) -> (result: Result<DiskSpaceInfo, NtStatus>)
        ensures
            result == Ok::<DiskSpaceInfo, NtStatus>(
                DiskSpaceInfo {
                    byte_count: 0x4000_0000,
                    free_byte_count: 0x2000_0000,
                    available_byte_count: 0x2000_0000,
                },
            ),
    {
        Ok(
            DiskSpaceInfo {
                byte_count: 1024 * 1024 * 1024,
                free_byte_count: 512 * 1024 * 1024,
                available_byte_count: 512 * 1024 * 1024,
            },
        )
    }

    /// What the volume is: `SonicDisk`, an NTFS volume.
    pub fn get_volume_information(&self) -> (result: Result<VolumeInfo, NtStatus>)
        ensures
            result matches Ok(info) && {
                &&& info.name@ == utf16("SonicDisk"@).push(0u16)
                &&& info.serial_number == 0
                &&& info.max_component_length == MAX_COMPONENT_LENGTH
                &&& info.fs_flags == FILE_CASE_PRESERVED_NAMES | FILE_CASE_SENSITIVE_SEARCH
                    | FILE_UNICODE_ON_DISK | FILE_PERSISTENT_ACLS | FILE_NAMED_STREAMS
                &&& info.fs_name@ == utf16("NTFS"@).push(0u16)
            },
    {
        proof {
            reveal_strlit("SonicDisk");
            reveal_strlit("NTFS");
            utf16_nul("SonicDisk"@);
            utf16_nul("NTFS"@);
        }
        Ok(
            VolumeInfo {
                name: terminate_text("SonicDisk").unwrap(),
                serial_number: 0,
                max_component_length: MAX_COMPONENT_LENGTH,
                fs_flags: FILE_CASE_PRESERVED_NAMES | FILE_CASE_SENSITIVE_SEARCH
                    | FILE_UNICODE_ON_DISK | FILE_PERSISTENT_ACLS | FILE_NAMED_STREAMS,
                // Programs that ask for elevated rights do not get along with other names.
                fs_name: terminate_text("NTFS").unwrap(),
            },
        )
    }

    /// The volume was mounted.
    pub fn mounted(&self) -> (result: Result<(), NtStatus>)
        ensures
            result is Ok,
    {
        Ok(())
    }

    /// The volume was unmounted.
    pub fn unmounted(&self) -> (result: Result<(), NtStatus>)
        ensures
            result is Ok,
    {
        Ok(())
    }

    /// The one stream of a file, or nothing for a directory.
    pub fn find_streams(&self, handle: &EntryHandle) -> (stream: Option<FindStreamData>)
        requires
            self.knows(*handle),
        ensures
            match stream {
                Some(data) => {
                    &&& !handle.entry.directory()
                    &&& data.size == handle.entry.length(self.tree) as i64
                    &&& data.name@ == utf16("::$DATA"@).push(0u16)
                },
                None => handle.entry.directory(),
            },
    {
        if handle.is_dir() {
            return None;
        }
        proof {
            reveal_strlit("::$DATA");
            utf16_nul("::$DATA"@);
        }
        let len: u64 = handle.entry.len(&self.tree);
        Some(
            FindStreamData {
                size: #[verifier::truncate] (len as i64),
                name: terminate_text("::$DATA").unwrap(),
            },
        )
    }
}

} // verus!
