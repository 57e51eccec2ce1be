//! What becomes of the server's songs and albums: facts about each of them, in terms of what the
//! server told.

use crate::fields::quoting;
use crate::grouping_laws::{album_is_placed, artists_distinct};
use crate::subsonic::{
    albums_of, asks_for, first_of, grouped, id_of, identified, identifies, is_first, is_plain,
    is_salt, password_of, root_of, shown_artist_id, shown_type, target_of, title_of, token_of,
    type_of, user_of, version_text, IdentifiedAlbum, IdentifiedArtist, IdentifiedSong,
    ServerAlbum, Track,
};
use crate::text::decimal;
use crate::text_laws::field_is_read;
use vstd::prelude::*;

verus! {

/// The name of a song's file is the song's whole title, and behind it the extension of its format:
/// `.flac` exactly for FLAC, `.mp3` exactly for MP3, and nothing for any other format.
pub proof fn file_name_is_title_and_format(song: IdentifiedSong)
    ensures
        song.song@.is_prefix_of(song.filename()),
        song.filename().skip(song.song@.len() as int) == if song.streamable.content_type@
            == "audio/x-flac"@ {
            ".flac"@
        } else if song.streamable.content_type@ == "audio/mpeg"@ {
            ".mp3"@
        } else {
            Seq::empty()
        },
        song.streamable.content_type@ == "audio/x-flac"@ ==> song.filename() == song.song@
            + ".flac"@,
        song.streamable.content_type@ == "audio/mpeg"@ ==> song.filename() == song.song@
            + ".mp3"@,
        song.streamable.content_type@ != "audio/x-flac"@ && song.streamable.content_type@
            != "audio/mpeg"@ ==> song.filename() == song.song@,
{
    reveal_strlit("audio/x-flac");
    reveal_strlit("audio/mpeg");
    assert("audio/x-flac"@.len() != "audio/mpeg"@.len());
    let name = song.filename();
    let title = song.song@;
    assert(name.subrange(0, title.len() as int) =~= title);
    let rest = if song.streamable.content_type@ == "audio/x-flac"@ {
        ".flac"@
    } else if song.streamable.content_type@ == "audio/mpeg"@ {
        ".mp3"@
    } else {
        Seq::empty()
    };
    assert(name.skip(title.len() as int) =~= rest);
    assert(name =~= title + rest);
}

/// Songs of one format have the same file name exactly if they have the same title.
pub proof fn titles_tell_file_names_apart(a: IdentifiedSong, b: IdentifiedSong)
    requires
        a.streamable.content_type@ == b.streamable.content_type@,
    ensures
        a.filename() == b.filename() <==> a.song@ == b.song@,
        a.filename().len() - a.song@.len() == b.filename().len() - b.song@.len(),
{
    file_name_is_title_and_format(a);
    file_name_is_title_and_format(b);
    if a.filename() == b.filename() {
        assert(a.filename().skip(a.song@.len() as int).len() == a.filename().len() - a.song@.len());
        assert(b.filename().skip(b.song@.len() as int).len() == b.filename().len() - b.song@.len());
        assert(a.filename().subrange(0, a.song@.len() as int) =~= a.song@);
        assert(b.filename().subrange(0, b.song@.len() as int) =~= b.song@);
    }
}

/// Songs, artists and albums are the same exactly if the server's identifiers of them are.
pub proof fn identifiers_tell_apart(
    a: IdentifiedSong,
    b: IdentifiedSong,
    c: IdentifiedArtist,
    d: IdentifiedArtist,
    e: IdentifiedAlbum,
    f: IdentifiedAlbum,
)
    ensures
        vstd::std_specs::cmp::PartialEqSpec::eq_spec(&a, &b) <==> a.song_id@ == b.song_id@,
        vstd::std_specs::cmp::PartialEqSpec::eq_spec(&c, &d) <==> c.artist_id@ == d.artist_id@,
        vstd::std_specs::cmp::PartialEqSpec::eq_spec(&e, &f) <==> e.album_id@ == f.album_id@,
{
}

/// A song is known by its title and identifier, and keeps what is known of it and its URL.
pub proof fn song_keeps_what_is_known(song: Track, url: Option<String>)
    ensures
        identified(song, url).song@ == song.title@,
        identified(song, url).song_id@ == song.id@,
        identified(song, url).streamable == song,
        identified(song, url).url == url,
{
}

/// An album stands beside its artist with its own title, identifier and songs, and the artist's
/// name and identifier.
pub proof fn album_keeps_what_is_known(album: ServerAlbum)
    ensures
        album.with_artist().0.artist@ == album.artist->0@,
        album.with_artist().0.artist_id@ == album.artist_id->0@,
        album.with_artist().1.album@ == album.name@,
        album.with_artist().1.album_id@ == album.id@,
        album.with_artist().1.songs == album.songs,
        album.credited() <==> album.artist is Some && album.artist_id is Some,
{
}

/// Whether an album of the server is in a folder of its artist, with its title, its identifier and
/// its songs.
pub open spec fn shelved(
    album: ServerAlbum,
    folders: Seq<(IdentifiedArtist, Vec<IdentifiedAlbum>)>,
) -> bool {
    exists|i: int, j: int|
        {
            &&& 0 <= i < folders.len()
            &&& 0 <= j < folders[i].1@.len()
            &&& folders[i].0.artist_id@ == album.artist_id->0@
            &&& (#[trigger] folders[i].1@[j]).album@ == album.name@
            &&& folders[i].1@[j].album_id@ == album.id@
            &&& folders[i].1@[j].songs == album.songs
        }
}

/// Every album of the server is in the folder of its artist under its own title, with its own
/// identifier and songs.
pub proof fn server_album_is_shelved(
    albums: Seq<ServerAlbum>,
    folders: Seq<(IdentifiedArtist, Vec<IdentifiedAlbum>)>,
    k: int,
)
    requires
        grouped(albums.map_values(|album: ServerAlbum| album.with_artist()), folders),
        0 <= k < albums.len(),
    ensures
        shelved(albums[k], folders),
        exists|i: int, j: int|
            {
                &&& 0 <= i < folders.len()
                &&& 0 <= j < folders[i].1@.len()
                &&& folders[i].0.artist_id@ == albums[k].artist_id->0@
                &&& (#[trigger] folders[i].1@[j]).album@ == albums[k].name@
                &&& folders[i].1@[j].album_id@ == albums[k].id@
                &&& folders[i].1@[j].songs == albums[k].songs
            },
{
    let pairs = albums.map_values(|album: ServerAlbum| album.with_artist());
    assert(pairs[k] == albums[k].with_artist());
    album_is_placed(pairs, folders, k);
    let i = choose|i: int|
        0 <= i < folders.len() && (#[trigger] folders[i]).0.artist_id@ == pairs[k].0.artist_id@
            && folders[i].1@.contains(pairs[k].1);
    let j = choose|j: int| 0 <= j < folders[i].1@.len() && folders[i].1@[j] == pairs[k].1;
    assert(folders[i].1@[j].album@ == albums[k].name@);
}

/// The albums of an artist are the albums of the pairs with that artist, picked out in order.
proof fn albums_of_is_filter(pairs: Seq<(IdentifiedArtist, IdentifiedAlbum)>, id: Seq<char>)
    ensures
        albums_of(pairs, id) == pairs.filter(
            |pair: (IdentifiedArtist, IdentifiedAlbum)| pair.0.artist_id@ == id,
        ).map_values(|pair: (IdentifiedArtist, IdentifiedAlbum)| pair.1),
    decreases pairs.len(),
{
    reveal(Seq::filter);
    let pick = |pair: (IdentifiedArtist, IdentifiedAlbum)| pair.0.artist_id@ == id;
    let second = |pair: (IdentifiedArtist, IdentifiedAlbum)| pair.1;
    if pairs.len() > 0 {
        albums_of_is_filter(pairs.drop_last(), id);
        let rest = pairs.drop_last().filter(pick);
        assert(rest.push(pairs.last()).map_values(second) =~= rest.map_values(second).push(
            pairs.last().1,
        ));
    }
    assert(albums_of(pairs, id) =~= pairs.filter(pick).map_values(second));
}

/// A folder holds the albums of the pairs with its artist, picked out in the order of the pairs; its
/// artist is as in the first of them; and folders come in the order of those first pairs.
pub proof fn folders_pick_albums(
    pairs: Seq<(IdentifiedArtist, IdentifiedAlbum)>,
    folders: Seq<(IdentifiedArtist, Vec<IdentifiedAlbum>)>,
    i: int,
    j: int,
)
    requires
        grouped(pairs, folders),
        0 <= i < folders.len(),
        0 <= j < folders.len(),
    ensures
        folders[i].1@ == pairs.filter(
            |pair: (IdentifiedArtist, IdentifiedAlbum)|
                pair.0.artist_id@ == folders[i].0.artist_id@,
        ).map_values(|pair: (IdentifiedArtist, IdentifiedAlbum)| pair.1),
        exists|k: int, m: int|
            {
                &&& 0 <= k < pairs.len()
                &&& 0 <= m < pairs.len()
                &&& #[trigger] pairs[k].0 == folders[i].0
                &&& #[trigger] pairs[m].0 == folders[j].0
                &&& forall|p: int|
                    0 <= p < k ==> (#[trigger] pairs[p]).0.artist_id@ != folders[i].0.artist_id@
                &&& forall|p: int|
                    0 <= p < m ==> (#[trigger] pairs[p]).0.artist_id@ != folders[j].0.artist_id@
                &&& (i < j <==> k < m)
            },
{
    let id = folders[i].0.artist_id@;
    albums_of_is_filter(pairs, id);
    let of_id = |pair: (IdentifiedArtist, IdentifiedAlbum)| pair.0.artist_id@ == id;
    let of_folder = |pair: (IdentifiedArtist, IdentifiedAlbum)|
        pair.0.artist_id@ == folders[i].0.artist_id@;
    assert(of_id =~= of_folder);
    let k = first_of(pairs, folders[i].0.artist_id@);
    let m = first_of(pairs, folders[j].0.artist_id@);
    assert(is_first(pairs, folders[i].0.artist_id@, k));
    assert(is_first(pairs, folders[j].0.artist_id@, m));
    assert(pairs[k].0 == folders[i].0);
    assert(pairs[m].0 == folders[j].0);
}

/// No artist has two folders, and a folder holds no album of another artist.
pub proof fn one_folder_for_each_artist(
    pairs: Seq<(IdentifiedArtist, IdentifiedAlbum)>,
    folders: Seq<(IdentifiedArtist, Vec<IdentifiedAlbum>)>,
    i: int,
    j: int,
)
    requires
        grouped(pairs, folders),
        0 <= i < folders.len(),
        0 <= j < folders.len(),
    ensures
        folders[i].0.artist_id@ == folders[j].0.artist_id@ ==> i == j,
{
    artists_distinct(pairs, folders);
}

/// A song of the server is known by its own title, number and format, and its URL asks the client's
/// server, as the client's user, for the song with that number: the whole of it is fixed but for the
/// salt.
pub proof fn known_song_is_the_servers(
    known: IdentifiedSong,
    song: sunk::song::Song,
    client: sunk::Client,
)
    requires
        identifies(known, song, Some(&client)),
    ensures
        known.song@ == title_of(song),
        known.song_id@ == decimal(id_of(song) as nat),
        known.streamable.title@ == title_of(song),
        known.streamable.id@ == decimal(id_of(song) as nat),
        (forall|i: int|
            0 <= i < type_of(song).len() ==> ' ' <= #[trigger] type_of(song)[i] <= '~' && type_of(
                song,
            )[i] != '"' && type_of(song)[i] != '\\') ==> known.streamable.content_type@ == type_of(
            song,
        ),
        known.url is Some && root_of(client) is Some,
        exists|salt: Seq<char>|
            {
                let version = target_of(client);
                let proof_of_user = if version.0 > 1 || version.0 == 1 && version.1 >= 13 {
                    "&t="@ + token_of(password_of(client) + salt) + "&s="@ + salt
                } else {
                    "&p="@ + password_of(client)
                };
                &&& salt.len() == 36
                &&& #[trigger] token_of(password_of(client) + salt) == token_of(
                    password_of(client) + salt,
                )
                &&& known.url->0@ == root_of(client)->0 + "/rest/download?u="@ + user_of(client)
                    + proof_of_user + "&v="@ + (decimal(version.0) + "."@ + decimal(version.1)
                    + "."@ + decimal(version.2)) + "&c=sunk&f=json&id="@ + decimal(
                    id_of(song) as nat,
                )
            },
        target_of(client) == (1nat, 14nat, 0nat) ==> exists|salt: Seq<char>|
            {
                &&& salt.len() == 36
                &&& known.url->0@ == root_of(client)->0 + "/rest/download?u="@ + user_of(client)
                    + "&t="@ + #[trigger] token_of(password_of(client) + salt) + "&s="@ + salt
                    + "&v=1.14.0&c=sunk&f=json&id="@ + decimal(id_of(song) as nat)
            },
{
    if forall|i: int|
        0 <= i < type_of(song).len() ==> ' ' <= #[trigger] type_of(song)[i] <= '~' && type_of(
            song,
        )[i] != '"' && type_of(song)[i] != '\\' {
        assert(is_plain(type_of(song)));
    }
    assert(asks_for(known.url->0@, client, id_of(song)));
    let some_salt = choose|salt: Seq<char>|
        is_salt(salt) && crate::subsonic::asks_with(
            known.url->0@,
            client,
            id_of(song),
            #[trigger] token_of(password_of(client) + salt),
            salt,
        );
    assert(some_salt.len() == 36);
    assert(token_of(password_of(client) + some_salt) == token_of(
        password_of(client) + some_salt,
    ));
    if target_of(client) == (1nat, 14nat, 0nat) {
        let salt = choose|salt: Seq<char>|
            is_salt(salt) && crate::subsonic::asks_with(
                known.url->0@,
                client,
                id_of(song),
                #[trigger] token_of(password_of(client) + salt),
                salt,
            );
        reveal_strlit("&v=");
        reveal_strlit(".");
        reveal_strlit("&c=sunk&f=json&id=");
        reveal_strlit("&v=1.14.0&c=sunk&f=json&id=");
        reveal_with_fuel(decimal, 3);
        assert(decimal(1) =~= seq!['1']);
        assert(decimal(0) =~= seq!['0']);
        assert(decimal(14) =~= seq!['1', '4']);
        let version = version_text((1nat, 14nat, 0nat));
        assert(version =~= seq!['1', '.', '1', '4', '.', '0']);
        assert("&v="@ + version + "&c=sunk&f=json&id="@ =~= "&v=1.14.0&c=sunk&f=json&id="@);
        let token = token_of(password_of(client) + salt);
        let front = root_of(client)->0 + "/rest/download?u="@ + user_of(client);
        assert(known.url->0@ =~= front + "&t="@ + token + "&s="@ + salt
            + "&v=1.14.0&c=sunk&f=json&id="@ + decimal(id_of(song) as nat));
    }
}

/// Without a client a song has no URL, and is otherwise known in the same way.
pub proof fn known_song_without_client(known: IdentifiedSong, song: sunk::song::Song)
    requires
        identifies(known, song, None),
    ensures
        known.url is None,
        known.song@ == title_of(song),
        known.song_id@ == decimal(id_of(song) as nat),
{
}

/// The MIME type in the text of a song is what stands in quotes behind the first ` content_type: `
/// outside of quotes.
pub proof fn type_is_read(head: Seq<char>, value: Seq<char>, tail: Seq<char>)
    requires
        !quoting(head).0,
        !value.contains('"'),
        forall|at: int|
            0 <= at < head.len() && !(#[trigger] quoting(head.take(at))).0 ==> (head
                + " content_type: \""@ + value + seq!['"'] + tail).subrange(
                at,
                at + " content_type: \""@.len(),
            ) != " content_type: \""@,
    ensures
        shown_type(head + " content_type: \""@ + value + seq!['"'] + tail) == value,
{
    reveal_strlit(" content_type: \"");
    field_is_read(head, " content_type: \""@, value, '"', tail);
}

/// The number of the artist in the text of an album is what stands between `Some(` and `)` behind
/// the first ` artist_id: ` outside of quotes, up to the next comma.
pub proof fn artist_id_is_read(head: Seq<char>, number: Seq<char>, tail: Seq<char>)
    requires
        !quoting(head).0,
        forall|i: int| 0 <= i < number.len() ==> '0' <= #[trigger] number[i] <= '9',
        forall|at: int|
            0 <= at < head.len() && !(#[trigger] quoting(head.take(at))).0 ==> (head
                + " artist_id: "@ + ("Some("@ + number + seq![')']) + seq![','] + tail).subrange(
                at,
                at + " artist_id: "@.len(),
            ) != " artist_id: "@,
    ensures
        shown_artist_id(
            head + " artist_id: "@ + ("Some("@ + number + seq![')']) + seq![','] + tail,
        ) == Some(number),
{
    reveal_strlit(" artist_id: ");
    reveal_strlit("Some(");
    let value = "Some("@ + number + seq![')'];
    assert forall|i: int| 0 <= i < value.len() implies value[i] != ',' by {
        if 5 <= i < 5 + number.len() {
            assert(value[i] == number[i - 5]);
        }
    }
    assert(!value.contains(','));
    field_is_read(head, " artist_id: "@, value, ',', tail);
    assert(!number.contains(')')) by {
        if number.contains(')') {
            let i = choose|i: int| 0 <= i < number.len() && number[i] == ')';
            assert('0' <= number[i] <= '9');
        }
    }
    let none = Seq::<char>::empty();
    assert(none + "Some("@ + number + seq![')'] + none =~= value);
    field_is_read(none, "Some("@, number, ')', none);
}

} // verus!
