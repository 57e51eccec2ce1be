//! The music of a Subsonic server, sorted into folders.

use crate::fields::{field_value, read_field};
use crate::song_laws::{file_name_is_title_and_format, server_album_is_shelved, shelved};
use crate::text::{append_decimal, decimal, parse_u64, parsed_u64};
use vstd::prelude::*;

verus! {

/// What the file system reads of a song on the server.
#[derive(Clone, Debug)]
pub struct Track {
    /// The server's identifier of the song.
    pub id: String,
    /// The song's title.
    pub title: String,
    /// The MIME type of the song's file, as the server keeps it.
    pub content_type: String,
}

/// A song with what it takes to show and fetch it.
#[derive(Clone, Debug)]
pub struct IdentifiedSong {
    pub song: String,
    pub song_id: String,
    pub streamable: Track,
    /// Where the song's file can be downloaded, if that is known.
    pub url: Option<String>,
}

/// An artist, told apart from others by the server's identifier.
#[derive(Clone, Debug)]
pub struct IdentifiedArtist {
    pub artist: String,
    pub artist_id: String,
}

/// An album and its songs, told apart from others by the server's identifier.
#[derive(Clone, Debug)]
pub struct IdentifiedAlbum {
    pub album: String,
    pub album_id: String,
    pub songs: Vec<IdentifiedSong>,
}

impl PartialEq for IdentifiedSong {
    fn eq(&self, rhs: &IdentifiedSong) -> (same: bool) {
        self.song_id == rhs.song_id
    }
}

impl vstd::std_specs::cmp::PartialEqSpecImpl for IdentifiedSong {
    open spec fn obeys_eq_spec() -> bool {
        true
    }

    open spec fn eq_spec(&self, rhs: &IdentifiedSong) -> bool {
        self.song_id@ == rhs.song_id@
    }
}

impl PartialEq for IdentifiedArtist {
    fn eq(&self, rhs: &IdentifiedArtist) -> (same: bool) {
        self.artist_id == rhs.artist_id
    }
}

impl vstd::std_specs::cmp::PartialEqSpecImpl for IdentifiedArtist {
    open spec fn obeys_eq_spec() -> bool {
        true
    }

    open spec fn eq_spec(&self, rhs: &IdentifiedArtist) -> bool {
        self.artist_id@ == rhs.artist_id@
    }
}

impl PartialEq for IdentifiedAlbum {
    fn eq(&self, rhs: &IdentifiedAlbum) -> (same: bool) {
        self.album_id == rhs.album_id
    }
}

impl vstd::std_specs::cmp::PartialEqSpecImpl for IdentifiedAlbum {
    open spec fn obeys_eq_spec() -> bool {
        true
    }

    open spec fn eq_spec(&self, rhs: &IdentifiedAlbum) -> bool {
        self.album_id@ == rhs.album_id@
    }
}

/// The file extension that goes with a MIME type; none for a type other than FLAC and MP3.
pub open spec fn extension(content_type: Seq<char>) -> Seq<char> {
    if content_type == "audio/x-flac"@ {
        ".flac"@
    } else if content_type == "audio/mpeg"@ {
        ".mp3"@
    } else {
        Seq::empty()
    }
}

impl IdentifiedSong {
    /// The name that the song's file has.
    pub open spec fn filename(&self) -> Seq<char> {
        self.song@ + extension(self.streamable.content_type@)
    }

    /// The name of the song's file: its title and the extension of its format.
    pub fn get_filename(&self) -> (name: String)
        ensures
            name@ == self.filename(),
            self.song@.is_prefix_of(name@),
            self.streamable.content_type@ == "audio/x-flac"@ ==> name@ == self.song@ + ".flac"@,
            self.streamable.content_type@ == "audio/mpeg"@ ==> name@ == self.song@ + ".mp3"@,
            self.streamable.content_type@ != "audio/x-flac"@ && self.streamable.content_type@
                != "audio/mpeg"@ ==> name@ == self.song@,
    {
        let mut name: String = self.song.clone();
        if self.streamable.content_type == String::from_str("audio/x-flac") {
            name.append(".flac");
        } else if self.streamable.content_type == String::from_str("audio/mpeg") {
            name.append(".mp3");
        }
        proof {
            assert(name@ =~= self.filename());
            file_name_is_title_and_format(*self);
        }
        name
    }

    /// The size of the song's file, where the song has a URL, as the `content-length` header of
    /// an answer to a request for that URL's headers says it.
    pub fn get_size(&self, content_length: &[u8]) -> (size: Option<u64>)
        requires
            self.url is Some ==> parsed_u64(content_length@) is Some,
        ensures
            size == (if self.url is Some {
                parsed_u64(content_length@)
            } else {
                None
            }),
    {
        match &self.url {
            Some(_) => parse_u64(content_length),
            None => None,
        }
    }
}

/// Whether pair `k` is the first whose artist has the identifier `id`.
pub open spec fn is_first(
    pairs: Seq<(IdentifiedArtist, IdentifiedAlbum)>,
    id: Seq<char>,
    k: int,
) -> bool {
    &&& 0 <= k < pairs.len()
    &&& pairs[k].0.artist_id@ == id
    &&& forall|m: int| 0 <= m < k ==> (#[trigger] pairs[m]).0.artist_id@ != id
}

/// The first of the pairs whose artist has the identifier `id`.
pub open spec fn first_of(pairs: Seq<(IdentifiedArtist, IdentifiedAlbum)>, id: Seq<char>) -> int {
    choose|k: int| is_first(pairs, id, k)
}

/// The albums of the pairs whose artist has the identifier `id`, in the order of the pairs.
pub open spec fn albums_of(
    pairs: Seq<(IdentifiedArtist, IdentifiedAlbum)>,
    id: Seq<char>,
) -> Seq<IdentifiedAlbum>
    decreases pairs.len(),
{
    if pairs.len() == 0 {
        Seq::empty()
    } else if pairs.last().0.artist_id@ == id {
        albums_of(pairs.drop_last(), id).push(pairs.last().1)
    } else {
        albums_of(pairs.drop_last(), id)
    }
}

/// Whether `folders` are the pairs sorted by artist: each artist once, in the order in which the
/// artists first occur and as they first occur, with all of the artist's albums in their order.
pub open spec fn grouped(
    pairs: Seq<(IdentifiedArtist, IdentifiedAlbum)>,
    folders: Seq<(IdentifiedArtist, Vec<IdentifiedAlbum>)>,
) -> bool {
    // every artist of the pairs has a folder
    &&& forall|k: int|
        0 <= k < pairs.len() ==> exists|i: int|
            0 <= i < folders.len() && (#[trigger] folders[i]).0.artist_id@ == (
            #[trigger] pairs[k]).0.artist_id@
    // a folder's artist is that of the first pair with this artist, and all its albums are there
    &&& forall|i: int|
        0 <= i < folders.len() ==> {
            let first = first_of(pairs, (#[trigger] folders[i]).0.artist_id@);
            &&& is_first(pairs, folders[i].0.artist_id@, first)
            &&& folders[i].0 == pairs[first].0
            &&& folders[i].1@ == albums_of(pairs, folders[i].0.artist_id@)
        }
    // the folders are in the order of first occurrence
    &&& forall|i: int, j: int|
        0 <= i < j < folders.len() ==> first_of(pairs, (#[trigger] folders[i]).0.artist_id@)
            < first_of(pairs, (#[trigger] folders[j]).0.artist_id@)
}

/// At most one pair is the first.
proof fn first_of_is(pairs: Seq<(IdentifiedArtist, IdentifiedAlbum)>, id: Seq<char>, k: int)
    requires
        is_first(pairs, id, k),
    ensures
        first_of(pairs, id) == k,
{
    let f = first_of(pairs, id);
    assert(pairs[k].0.artist_id@ == id);
    assert(pairs[f].0.artist_id@ == id);
}

/// A pair more keeps where an artist first occurs, if the artist occurred at all.
proof fn first_of_push(
    pairs: Seq<(IdentifiedArtist, IdentifiedAlbum)>,
    id: Seq<char>,
    n: int,
)
    requires
        0 <= n < pairs.len(),
        is_first(pairs.take(n), id, first_of(pairs.take(n), id)),
    ensures
        first_of(pairs.take(n + 1), id) == first_of(pairs.take(n), id),
        is_first(pairs.take(n + 1), id, first_of(pairs.take(n), id)),
{
    let k = first_of(pairs.take(n), id);
    assert forall|m: int| 0 <= m < k implies (#[trigger] pairs.take(n + 1)[m]).0.artist_id@ != id by {
        assert(pairs.take(n)[m].0.artist_id@ != id);
    }
    assert(pairs.take(n)[k] == pairs[k]);
    first_of_is(pairs.take(n + 1), id, k);
}

proof fn no_albums(pairs: Seq<(IdentifiedArtist, IdentifiedAlbum)>, id: Seq<char>)
    requires
        forall|k: int| 0 <= k < pairs.len() ==> (#[trigger] pairs[k]).0.artist_id@ != id,
    ensures
        albums_of(pairs, id) == Seq::<IdentifiedAlbum>::empty(),
    decreases pairs.len(),
{
    if pairs.len() > 0 {
        assert(pairs.last() == pairs[pairs.len() - 1]);
        assert forall|k: int| 0 <= k < pairs.drop_last().len() implies (
        #[trigger] pairs.drop_last()[k]).0.artist_id@ != id by {
            assert(pairs[k].0.artist_id@ != id);
        }
        no_albums(pairs.drop_last(), id);
    }
}

/// Sorting in one pair more: it goes to the folder of its artist, or to a new one at the end.
proof fn grouped_push(
    pairs: Seq<(IdentifiedArtist, IdentifiedAlbum)>,
    n: int,
    before: Seq<(IdentifiedArtist, Vec<IdentifiedAlbum>)>,
    after: Seq<(IdentifiedArtist, Vec<IdentifiedAlbum>)>,
    at: int,
)
    requires
        0 <= n < pairs.len(),
        grouped(pairs.take(n), before),
        0 <= at <= before.len(),
        forall|i: int|
            0 <= i < at ==> (#[trigger] before[i]).0.artist_id@ != pairs[n].0.artist_id@,
        forall|i: int| 0 <= i < before.len() && i != at ==> #[trigger] after[i] == before[i],
        at < before.len() ==> {
            &&& before[at].0.artist_id@ == pairs[n].0.artist_id@
            &&& after.len() == before.len()
            &&& after[at].0 == before[at].0
            &&& after[at].1@ == before[at].1@.push(pairs[n].1)
        },
        at == before.len() ==> {
            &&& after.len() == before.len() + 1
            &&& after[at].0 == pairs[n].0
            &&& after[at].1@ == seq![pairs[n].1]
        },
    ensures
        grouped(pairs.take(n + 1), after),
{
    let old_pairs = pairs.take(n);
    let new_pairs = pairs.take(n + 1);
    let id = pairs[n].0.artist_id@;
    assert(new_pairs.drop_last() =~= old_pairs);
    assert(new_pairs.last() == pairs[n]);
    if at == before.len() {
        assert forall|m: int| 0 <= m < n implies (#[trigger] old_pairs[m]).0.artist_id@ != id by {
            let i = choose|i: int|
                0 <= i < before.len() && (#[trigger] before[i]).0.artist_id@ == old_pairs[m].0.artist_id@;
            assert(before[i].0.artist_id@ != id);
        }
        assert forall|m: int| 0 <= m < n implies (#[trigger] new_pairs[m]).0.artist_id@ != id by {
            assert(old_pairs[m].0.artist_id@ != id);
        }
        assert(is_first(new_pairs, id, n));
        first_of_is(new_pairs, id, n);
        no_albums(old_pairs, id);
    }
    assert forall|i: int| 0 <= i < before.len() implies {
        let artist = (#[trigger] before[i]).0.artist_id@;
        &&& first_of(new_pairs, artist) == first_of(old_pairs, artist)
        &&& is_first(new_pairs, artist, first_of(old_pairs, artist))
        &&& 0 <= first_of(old_pairs, artist) < n
        &&& after[i].0 == before[i].0
    } by {
        first_of_push(pairs, before[i].0.artist_id@, n);
        if i != at {
            assert(after[i] == before[i]);
        }
    }
    assert forall|k: int| 0 <= k < new_pairs.len() implies exists|i: int|
        0 <= i < after.len() && (#[trigger] after[i]).0.artist_id@ == (
        #[trigger] new_pairs[k]).0.artist_id@ by {
        if k < n {
            assert(new_pairs[k] == old_pairs[k]);
            let i = choose|i: int|
                0 <= i < before.len() && (#[trigger] before[i]).0.artist_id@ == old_pairs[k].0.artist_id@;
            assert(after[i].0 == before[i].0);
        } else {
            assert(after[at].0.artist_id@ == id);
        }
    }
    assert forall|i: int| 0 <= i < after.len() implies {
        let artist = (#[trigger] after[i]).0.artist_id@;
        let first = first_of(new_pairs, artist);
        &&& after[i].0 == new_pairs[first].0
        &&& after[i].1@ == albums_of(new_pairs, artist)
        &&& is_first(new_pairs, artist, first)
    } by {
        if i < before.len() {
            let first = first_of(old_pairs, before[i].0.artist_id@);
            assert(before[i].0 == old_pairs[first].0);
            assert(new_pairs[first] == old_pairs[first]);
            if i != at {
                if at < before.len() {
                    assert(before[at].0.artist_id@ == id);
                    assert(before[i].0.artist_id@ != before[at].0.artist_id@) by {
                        if i < at {
                            assert(first_of(old_pairs, before[i].0.artist_id@) < first_of(
                                old_pairs,
                                before[at].0.artist_id@,
                            ));
                        } else {
                            assert(first_of(old_pairs, before[at].0.artist_id@) < first_of(
                                old_pairs,
                                before[i].0.artist_id@,
                            ));
                        }
                    }
                }
                assert(after[i].0.artist_id@ != id);
            }
        } else {
            assert(after[i].1@ =~= albums_of(new_pairs, id));
        }
    }
    assert forall|i: int, j: int| 0 <= i < j < after.len() implies first_of(
        new_pairs,
        (#[trigger] after[i]).0.artist_id@,
    ) < first_of(new_pairs, (#[trigger] after[j]).0.artist_id@) by {
        assert(after[i].0 == before[i].0);
        if j < before.len() {
            assert(after[j].0 == before[j].0);
        }
    }
}

/// Sorts albums into one folder for each artist.
pub fn desired_folders(pairs: Vec<(IdentifiedArtist, IdentifiedAlbum)>) -> (folders: Vec<
    (IdentifiedArtist, Vec<IdentifiedAlbum>),
>)
    ensures
        grouped(pairs@, folders@),
{
    let ghost all = pairs@;
    let mut ret: Vec<(IdentifiedArtist, Vec<IdentifiedAlbum>)> = Vec::new();
    let ghost mut n: int = 0;
    for pair in iter: pairs
        invariant
            iter.seq() == all,
            n == iter.index(),
            0 <= n <= all.len(),
            grouped(all.take(n), ret@),
    {
        let ghost before = ret@;
        let ghost id = pair.0.artist_id@;
        let mut at: usize = 0;
        while at < ret.len() && !(ret[at].0 == pair.0)
            invariant
                0 <= at <= ret@.len(),
                ret@ == before,
                id == pair.0.artist_id@,
                forall|i: int| 0 <= i < at ==> (#[trigger] ret@[i]).0.artist_id@ != id,
            decreases ret@.len() - at,
        {
            at = at + 1;
        }
        assert(pair == all[n]);
        if at < ret.len() {
            ret[at].1.push(pair.1);
        } else {
            let mut albums: Vec<IdentifiedAlbum> = Vec::new();
            albums.push(pair.1);
            ret.push((pair.0, albums));
        }
        proof {
            grouped_push(all, n, before, ret@, at as int);
            n = n + 1;
        }
    }
    assert(all.take(all.len() as int) =~= all);
    ret
}

/// A song with its download address, named and identified as the server does.
pub open spec fn identified(song: Track, url: Option<String>) -> IdentifiedSong {
    IdentifiedSong { song: song.title, song_id: song.id, streamable: song, url }
}

/// Turns a song of the server and its download address into a song of the file system.
pub fn identify_song(song: Track, url: Option<String>) -> (r: IdentifiedSong)
    ensures
        r == identified(song, url),
        r.song@ == song.title@,
        r.song_id@ == song.id@,
        r.streamable == song,
        r.url == url,
{
    IdentifiedSong { song: song.title.clone(), song_id: song.id.clone(), streamable: song, url }
}

/// A song as the `sunk` client library hands it out.
#[verifier::external_type_specification]
#[verifier::external_body]
pub struct ExSunkSong(sunk::song::Song);

/// An album as the `sunk` client library hands it out.
#[verifier::external_type_specification]
#[verifier::external_body]
pub struct ExSunkAlbum(sunk::Album);

/// The `sunk` client library's connection to a server.
#[verifier::external_type_specification]
#[verifier::external_body]
pub struct ExSunkClient(sunk::Client);

/// The errors of the `sunk` client library.
#[verifier::external_type_specification]
#[verifier::external_body]
pub struct ExSunkError(sunk::Error);

/// The number by which the server knows a song: the field `id` of the value.
pub uninterp spec fn id_of(song: sunk::song::Song) -> u64;

/// The title of a song: the field `title` of the value.
pub uninterp spec fn title_of(song: sunk::song::Song) -> Seq<char>;

/// The MIME type of a song's own file: the private field `content_type` of the value.
pub uninterp spec fn type_of(song: sunk::song::Song) -> Seq<char>;

/// The text that `Debug` gives of a song.
pub uninterp spec fn debug_of(song: sunk::song::Song) -> Seq<char>;

/// The number by which the server knows an album: the field `id` of the value.
pub uninterp spec fn album_id_of(album: sunk::Album) -> u64;

/// The title of an album: the field `name` of the value.
pub uninterp spec fn album_name_of(album: sunk::Album) -> Seq<char>;

/// The name of an album's artist, if the server told it: the field `artist` of the value.
pub uninterp spec fn artist_of(album: sunk::Album) -> Option<Seq<char>>;

/// The number by which the server knows an album's artist, if it told it: the private field
/// `artist_id` of the value.
pub uninterp spec fn artist_id_of(album: sunk::Album) -> Option<u64>;

/// The user as whom a client asks the server.
pub uninterp spec fn user_of(client: sunk::Client) -> Seq<char>;

/// The password with which a client asks the server.
pub uninterp spec fn password_of(client: sunk::Client) -> Seq<char>;

/// The scheme and the host of the server that a client asks, such as `http://localhost`, or
/// nothing where its address has no host.
pub uninterp spec fn root_of(client: sunk::Client) -> Option<Seq<char>>;

/// The version of the server's interface that a client uses: the field `target_ver` of the value.
pub uninterp spec fn target_of(client: sunk::Client) -> (nat, nat, nat);

/// The MD5 digest of a text in hexadecimal, as `sunk` makes it of the password and the salt.
pub uninterp spec fn token_of(salted: Seq<char>) -> Seq<char>;

/// What the `url` crate reads in an address: nothing where it is no URL, and otherwise the scheme
/// and the host, if it has a host.
pub uninterp spec fn site_root(site: Seq<char>) -> Option<Option<Seq<char>>>;

/// Whether an error is about a URL: the variant `Url` of the value.
pub uninterp spec fn is_url_error(error: sunk::Error) -> bool;

/// Reads the field `id` of a `sunk::song::Song`. Trusted: it is the number that the name `id_of`
/// stands for.
#[verifier::external_body]
fn song_id(song: &sunk::song::Song) -> (id: u64)
    ensures
        id == id_of(*song),
{
    song.id
}

/// Reads the field `title` of a `sunk::song::Song`. Trusted: it is the text that the name
/// `title_of` stands for.
#[verifier::external_body]
fn song_title(song: &sunk::song::Song) -> (title: String)
    ensures
        title@ == title_of(*song),
{
    song.title.clone()
}

/// What stands before the MIME type in the text that `Debug` gives of a song.
pub open spec fn type_marker() -> Seq<char> {
    " content_type: \""@
}

/// Whether a MIME type is made of characters that `Debug` shows as they are: printable ASCII but
/// the double quote and the backslash.
pub open spec fn is_plain(content_type: Seq<char>) -> bool {
    forall|i: int|
        0 <= i < content_type.len() ==> ' ' <= #[trigger] content_type[i] <= '~' && content_type[i]
            != '"' && content_type[i] != '\\'
}

/// Formats a `sunk::song::Song` with its derived `Debug`, which shows all fields, the private ones
/// too, each as its name, a colon and its value, with texts in double quotes. Trusted: it is the
/// text that the name `debug_of` stands for, and the first field `content_type` in it shows the
/// song's own MIME type, where that is made of characters that are shown as they are.
#[verifier::external_body]
fn song_debug(song: &sunk::song::Song) -> (text: String)
    ensures
        text@ == debug_of(*song),
        is_plain(type_of(*song)) ==> field_value(text@, type_marker(), '"') == Some(
            type_of(*song),
        ),
{
    format!("{:?}", song)
}

/// The MIME type that the text of a song shows, or none.
pub open spec fn shown_type(text: Seq<char>) -> Seq<char> {
    match field_value(text, type_marker(), '"') {
        Some(content_type) => content_type,
        None => Seq::empty(),
    }
}

/// Reads the MIME type of a song's own file in the text that `Debug` gives of the song.
pub fn content_type_in(text: &str) -> (content_type: String)
    ensures
        content_type@ == shown_type(text@),
{
    match read_field(text, " content_type: \"", '"') {
        Some(content_type) => content_type,
        None => {
            let none: String = String::new();
            assert(none@ =~= Seq::empty());
            none
        },
    }
}

/// The number of the artist that the text of an album shows, if it shows one: the first field
/// `artist_id` is the album's own, and shows a number in brackets behind `Some`.
pub open spec fn shown_artist_id(text: Seq<char>) -> Option<Seq<char>> {
    match field_value(text, " artist_id: "@, ',') {
        Some(id) => field_value(id, "Some("@, ')'),
        None => None,
    }
}

/// Reads the number of an album's artist in the text that `Debug` gives of the album.
pub fn artist_id_in(text: &str) -> (id: Option<String>)
    ensures
        match id {
            Some(number) => shown_artist_id(text@) == Some(number@),
            None => shown_artist_id(text@) is None,
        },
{
    match read_field(text, " artist_id: ", ',') {
        Some(id) => read_field(id.as_str(), "Some(", ')'),
        None => None,
    }
}

/// Whether a version of the server's interface takes tokens in place of passwords: from 1.13.0 on.
pub open spec fn takes_tokens(version: (nat, nat, nat)) -> bool {
    version.0 > 1 || (version.0 == 1 && version.1 >= 13)
}

/// A version, in writing.
pub open spec fn version_text(version: (nat, nat, nat)) -> Seq<char> {
    decimal(version.0) + "."@ + decimal(version.1) + "."@ + decimal(version.2)
}

/// Whether a text can be a salt: 36 letters and digits.
pub open spec fn is_salt(salt: Seq<char>) -> bool {
    &&& salt.len() == 36
    &&& forall|i: int|
        0 <= i < salt.len() ==> {
            ||| 'a' <= #[trigger] salt[i] <= 'z'
            ||| 'A' <= salt[i] <= 'Z'
            ||| '0' <= salt[i] <= '9'
        }
}

/// Whether a URL asks a client's server for the file of the song with the number `id`, and proves
/// who asks with a token and its salt, or with the password where tokens are not taken.
pub open spec fn asks_with(
    url: Seq<char>,
    client: sunk::Client,
    id: u64,
    token: Seq<char>,
    salt: Seq<char>,
) -> bool {
    url == root_of(client)->0 + "/rest/download?u="@ + user_of(client) + (if takes_tokens(
        target_of(client),
    ) {
        "&t="@ + token + "&s="@ + salt
    } else {
        "&p="@ + password_of(client)
    }) + "&v="@ + version_text(target_of(client)) + "&c=sunk&f=json&id="@ + decimal(id as nat)
}

/// Whether a URL asks a client's server for the file of the song with the number `id`, with some
/// salt.
pub open spec fn asks_for(url: Seq<char>, client: sunk::Client, id: u64) -> bool {
    &&& root_of(client) is Some
    &&& exists|salt: Seq<char>|
        is_salt(salt) && asks_with(
            url,
            client,
            id,
            #[trigger] token_of(password_of(client) + salt),
            salt,
        )
}

/// Asks `sunk::Streamable::download_url` where a `sunk::song::Song` can be downloaded. Trusted: it
/// fails exactly where the client's address has no host; otherwise the URL is made of the server's
/// scheme and host, the path of downloads, the user, the token of the password with a random salt
/// and that salt (or the password, for a version before 1.13.0), the version, the name of the
/// client library, the format and the song's number. Nothing is stated of which salt it is.
#[verifier::external_body]
fn download_url(song: &sunk::song::Song, client: &sunk::Client) -> (url: Result<
    String,
    sunk::Error,
>)
    ensures
        match url {
            Ok(u) => root_of(*client) is Some && exists|salt: Seq<char>|
                is_salt(salt) && asks_with(
                    u@,
                    *client,
                    id_of(*song),
                    #[trigger] token_of(password_of(*client) + salt),
                    salt,
                ),
            Err(_) => root_of(*client) is None,
        },
{
    sunk::Streamable::download_url(song, client)
}

/// Makes a client through `sunk::Client::new`, which reads the address as a URL and then sets up a
/// connection pool. Trusted: a client comes back only for an address that is a URL, and asks its
/// server, as the user and with the password that are given, in version 1.14.0; an error is about a URL exactly if the
/// address is none. Whether the pool can be set up rests on the machine (its threads, its TLS), so
/// nothing is stated of that.
#[verifier::external_body]
fn new_client(site: &str, username: &str, password: &str) -> (client: Result<
    sunk::Client,
    sunk::Error,
>)
    ensures
        match client {
            Ok(c) => {
                &&& site_root(site@) == Some(root_of(c))
                &&& user_of(c) == username@
                &&& password_of(c) == password@
                &&& target_of(c) == (1nat, 14nat, 0nat)
            },
            Err(error) => is_url_error(error) <==> site_root(site@) is None,
        },
{
    sunk::Client::new(site, username, password)
}

/// Tells the variant `sunk::Error::Url` from the others. Trusted: it is what the name
/// `is_url_error` stands for.
#[verifier::external_body]
fn tells_of_url(error: &sunk::Error) -> (yes: bool)
    ensures
        yes == is_url_error(*error),
{
    match error {
        sunk::Error::Url(_) => true,
        _ => false,
    }
}

/// Why there is no client.
#[derive(Debug, Clone, Copy, PartialEq, Eq, Structural)]
pub enum ClientError {
    /// The address is no URL.
    Address,
    /// The machine cannot set up connections.
    Machine,
}

/// The client that was made, or why there is none.
pub fn made_client(made: Result<sunk::Client, sunk::Error>) -> (client: Result<
    sunk::Client,
    ClientError,
>)
    ensures
        client == match made {
            Ok(c) => Ok::<sunk::Client, ClientError>(c),
            Err(error) => Err::<sunk::Client, ClientError>(
                if is_url_error(error) {
                    ClientError::Address
                } else {
                    ClientError::Machine
                },
            ),
        },
{
    match made {
        Ok(client) => Ok(client),
        Err(error) => {
            if tells_of_url(&error) {
                Err(ClientError::Address)
            } else {
                Err(ClientError::Machine)
            }
        },
    }
}

/// A client that asks the server at an address as a user. An address that is no URL is refused as
/// such, and nothing else is; for any other address there is a client, unless the machine cannot
/// set up connections.
pub fn client(site: &str, username: &str, password: &str) -> (client: Result<
    sunk::Client,
    ClientError,
>)
    ensures
        client == Err::<sunk::Client, ClientError>(ClientError::Address) <==> site_root(site@)
            is None,
        client matches Ok(c) ==> {
            &&& site_root(site@) == Some(root_of(c))
            &&& user_of(c) == username@
            &&& password_of(c) == password@
            &&& target_of(c) == (1nat, 14nat, 0nat)
        },
{
    made_client(new_client(site, username, password))
}

/// What the file system reads of a song.
fn track(song: &sunk::song::Song) -> (track: Track)
    ensures
        track.id@ == decimal(id_of(*song) as nat),
        track.title@ == title_of(*song),
        track.content_type@ == shown_type(debug_of(*song)),
        is_plain(type_of(*song)) ==> track.content_type@ == type_of(*song),
{
    let mut id: String = String::new();
    append_decimal(&mut id, song_id(song));
    assert(id@ =~= decimal(id_of(*song) as nat));
    let text: String = song_debug(song);
    Track { id, title: song_title(song), content_type: content_type_in(text.as_str()) }
}

/// Whether this is a song of the server as the file system knows it, with the URL of its file
/// where there is a client to ask.
pub open spec fn identifies(
    known: IdentifiedSong,
    song: sunk::song::Song,
    client: Option<&sunk::Client>,
) -> bool {
    &&& known == identified(known.streamable, known.url)
    &&& known.song@ == title_of(song)
    &&& known.song_id@ == decimal(id_of(song) as nat)
    &&& known.streamable.content_type@ == shown_type(debug_of(song))
    &&& is_plain(type_of(song)) ==> known.streamable.content_type@ == type_of(song)
    &&& match client {
        Some(c) => known.url is Some && asks_for(known.url->0@, *c, id_of(song)),
        None => known.url is None,
    }
}

/// Identifies songs of the server, with the URLs of their files if there is a client to ask.
pub fn songvec_to_identifiedsongvec(
    songvec: Vec<sunk::song::Song>,
    client: Option<&sunk::Client>,
) -> (songs: Result<Vec<IdentifiedSong>, sunk::Error>)
    ensures
        match songs {
            Ok(v) => {
                &&& v@.len() == songvec@.len()
                &&& forall|i: int|
                    0 <= i < v@.len() ==> identifies(#[trigger] v@[i], songvec@[i], client)
                &&& forall|i: int|
                    0 <= i < v@.len() ==> {
                        &&& (#[trigger] v@[i]).song@ == title_of(songvec@[i])
                        &&& v@[i].song_id@ == decimal(id_of(songvec@[i]) as nat)
                        &&& v@[i].url is Some <==> client is Some
                    }
            },
            Err(_) => songvec@.len() > 0 && client is Some && root_of(*client->0) is None,
        },
{
    let mut ret: Vec<IdentifiedSong> = Vec::new();
    for song in iter: songvec
        invariant
            iter.seq() == songvec@,
            ret@.len() == iter.index(),
            forall|i: int|
                0 <= i < ret@.len() ==> identifies(#[trigger] ret@[i], songvec@[i], client),
    {
        let url: Option<String> = match client {
            Some(client) => match download_url(&song, client) {
                Ok(url) => Some(url),
                Err(error) => {
                    return Err(error);
                },
            },
            None => None,
        };
        ret.push(identify_song(track(&song), url));
    }
    Ok(ret)
}

/// What the file system reads of an album on the server.
#[derive(Clone, Debug)]
pub struct ServerAlbum {
    /// The server's identifier of the album.
    pub id: String,
    /// The album's title.
    pub name: String,
    /// The name of the album's artist.
    pub artist: Option<String>,
    /// The server's identifier of the album's artist.
    pub artist_id: Option<String>,
    /// The album's songs.
    pub songs: Vec<IdentifiedSong>,
}

impl ServerAlbum {
    /// Whether the server named the album's artist.
    pub open spec fn credited(&self) -> bool {
        self.artist is Some && self.artist_id is Some
    }

    /// Whether the server named the album's artist, by name and by identifier.
    pub fn has_artist(&self) -> (yes: bool)
        ensures
            yes == self.credited(),
            yes == (self.artist is Some && self.artist_id is Some),
    {
        self.artist.is_some() && self.artist_id.is_some()
    }

    /// The album beside its artist.
    pub open spec fn with_artist(self) -> (IdentifiedArtist, IdentifiedAlbum) {
        (
            IdentifiedArtist { artist: self.artist->0, artist_id: self.artist_id->0 },
            IdentifiedAlbum { album: self.name, album_id: self.id, songs: self.songs },
        )
    }
}

/// Reads the field `id` of a `sunk::Album`. Trusted: it is the number that the name `album_id_of`
/// stands for.
#[verifier::external_body]
fn album_id(album: &sunk::Album) -> (id: u64)
    ensures
        id == album_id_of(*album),
{
    album.id
}

/// Reads the field `name` of a `sunk::Album`. Trusted: it is the text that the name
/// `album_name_of` stands for.
#[verifier::external_body]
fn album_name(album: &sunk::Album) -> (name: String)
    ensures
        name@ == album_name_of(*album),
{
    album.name.clone()
}

/// Reads the field `artist` of a `sunk::Album`. Trusted: it is what the name `artist_of` stands
/// for.
#[verifier::external_body]
fn album_artist(album: &sunk::Album) -> (artist: Option<String>)
    ensures
        match artist {
            Some(name) => artist_of(*album) == Some(name@),
            None => artist_of(*album) is None,
        },
{
    album.artist.clone()
}

/// An album's number of its artist, in writing.
pub open spec fn artist_number(album: sunk::Album) -> Option<Seq<char>> {
    match artist_id_of(album) {
        Some(id) => Some(decimal(id as nat)),
        None => None,
    }
}

/// Formats a `sunk::Album` with its derived `Debug`, which shows all fields in their order, the
/// private ones too, each as its name, a colon and its value, with texts in double quotes.
/// Trusted: the first field `artist_id` in it is the album's own, and shows the number of its
/// artist in decimal, or that there is none.
#[verifier::external_body]
fn album_debug(album: &sunk::Album) -> (text: String)
    ensures
        shown_artist_id(text@) == match artist_id_of(*album) {
            Some(id) => Some(decimal(id as nat)),
            None => None,
        },
{
    format!("{:?}", album)
}

/// Whether a text is there exactly if the other one is, and is the same.
pub open spec fn is_text(text: Option<String>, other: Option<Seq<char>>) -> bool {
    match text {
        Some(t) => other == Some(t@),
        None => other is None,
    }
}

/// What the file system reads of an album, with the album's songs.
pub fn album(listed: &sunk::Album, songs: Vec<IdentifiedSong>) -> (read: ServerAlbum)
    ensures
        read.id@ == decimal(album_id_of(*listed) as nat),
        read.name@ == album_name_of(*listed),
        is_text(read.artist, artist_of(*listed)),
        is_text(read.artist_id, artist_number(*listed)),
        read.songs == songs,
        match read.artist {
            Some(artist) => artist_of(*listed) == Some(artist@),
            None => artist_of(*listed) is None,
        },
        match read.artist_id {
            Some(id) => artist_id_of(*listed) is Some && id@ == decimal(
                artist_id_of(*listed)->0 as nat,
            ),
            None => artist_id_of(*listed) is None,
        },
{
    let mut id: String = String::new();
    append_decimal(&mut id, album_id(listed));
    assert(id@ =~= decimal(album_id_of(*listed) as nat));
    let text: String = album_debug(listed);
    ServerAlbum {
        id,
        name: album_name(listed),
        artist: album_artist(listed),
        artist_id: artist_id_in(text.as_str()),
        songs,
    }
}

/// Puts each album beside its artist.
pub fn artist_albums(albums: Vec<ServerAlbum>) -> (pairs: Vec<(IdentifiedArtist, IdentifiedAlbum)>)
    requires
        forall|i: int| 0 <= i < albums@.len() ==> (#[trigger] albums@[i]).credited(),
    ensures
        pairs@ == albums@.map_values(|album: ServerAlbum| album.with_artist()),
        pairs@.len() == albums@.len(),
        forall|i: int|
            0 <= i < pairs@.len() ==> {
                &&& (#[trigger] pairs@[i]).0.artist@ == albums@[i].artist->0@
                &&& pairs@[i].0.artist_id@ == albums@[i].artist_id->0@
                &&& pairs@[i].1.album@ == albums@[i].name@
                &&& pairs@[i].1.album_id@ == albums@[i].id@
                &&& pairs@[i].1.songs == albums@[i].songs
            },
{
    let ghost all = albums@;
    let mut pairs: Vec<(IdentifiedArtist, IdentifiedAlbum)> = Vec::new();
    for album in iter: albums
        invariant
            iter.seq() == all,
            forall|i: int| 0 <= i < all.len() ==> (#[trigger] all[i]).credited(),
            pairs@.len() == iter.index(),
            forall|i: int| 0 <= i < pairs@.len() ==> #[trigger] pairs@[i] == all[i].with_artist(),
    {
        assert(album == all[iter.index() as int]);
        let pair = (
            IdentifiedArtist { artist: album.artist.unwrap(), artist_id: album.artist_id.unwrap() },
            IdentifiedAlbum { album: album.name, album_id: album.id, songs: album.songs },
        );
        pairs.push(pair);
    }
    assert(pairs@ =~= all.map_values(|album: ServerAlbum| album.with_artist()));
    pairs
}

/// What the file system shows: a folder for each artist, with the artist's albums.
#[derive(Debug, Clone)]
pub struct SubsonicInfo {
    pub desired_folders: Vec<(IdentifiedArtist, Vec<IdentifiedAlbum>)>,
}

impl SubsonicInfo {
    /// Sorts the albums of the server into folders.
    pub fn new(albums: Vec<ServerAlbum>) -> (info: Self)
        requires
            forall|i: int| 0 <= i < albums@.len() ==> (#[trigger] albums@[i]).credited(),
        ensures
            grouped(
                albums@.map_values(|album: ServerAlbum| album.with_artist()),
                info.desired_folders@,
            ),
            forall|k: int|
                0 <= k < albums@.len() ==> shelved(#[trigger] albums@[k], info.desired_folders@),
    {
        let ghost all = albums@;
        let desired_folders = desired_folders(artist_albums(albums));
        proof {
            assert forall|k: int| 0 <= k < all.len() implies shelved(
                #[trigger] all[k],
                desired_folders@,
            ) by {
                server_album_is_shelved(all, desired_folders@, k);
            }
        }
        Self { desired_folders }
    }
}

} // verus!
