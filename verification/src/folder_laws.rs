//! What holds of the folders as a whole: whatever has a path is found under it, whatever a folder
//! shows can be opened, and every album has its place.

use crate::catalogue::{
    album_path, artist_path, coordinates, first_named_unique, folder_path_at, in_order,
    is_first_named, is_last_song, joined, last_song_unique, listing, listing_unique,
    located, name_at, named, path_at, precedes, present, read_at, root_path, shown_in, song_named,
    Located,
};
use crate::subsonic::{IdentifiedAlbum, IdentifiedArtist};
use crate::wide::{decode_of_encode, is_utf16, text_of, utf16, utf16_concat};
use vstd::prelude::*;

verus! {

/// Whatever has a path is found under it, or else something that comes before it and has the same
/// path.
pub proof fn named_is_located(
    folders: Seq<(IdentifiedArtist, Vec<IdentifiedAlbum>)>,
    path: Seq<char>,
    at: Located,
)
    requires
        named(folders, path, at),
    ensures
        located(folders, path) is Some,
        is_first_named(folders, path, located(folders, path)->0),
        !precedes(at, located(folders, path)->0),
    decreases coordinates(at).0, coordinates(at).1 + 1, coordinates(at).2 + 1,
{
    if is_first_named(folders, path, at) {
        first_named_unique(folders, path, at);
    } else {
        let other = choose|other: Located| #[trigger]
            named(folders, path, other) && precedes(other, at);
        named_is_located(folders, path, other);
    }
}

/// A song that has a path is read from under it, or else one that comes after it and has the same
/// path.
pub proof fn song_named_is_read(
    folders: Seq<(IdentifiedArtist, Vec<IdentifiedAlbum>)>,
    path: Seq<char>,
    at: Located,
)
    requires
        song_named(folders, path, at),
    ensures
        read_at(folders, path) is Some,
        is_last_song(folders, path, read_at(folders, path)->0),
        !precedes(read_at(folders, path)->0, at),
    decreases
            folders.len() - coordinates(at).0,
            folders[coordinates(at).0].1@.len() - coordinates(at).1,
            folders[coordinates(at).0].1@[coordinates(at).1].songs@.len() - coordinates(at).2,
{
    if is_last_song(folders, path, at) {
        last_song_unique(folders, path, at);
    } else {
        let other = choose|other: Located| #[trigger]
            song_named(folders, path, other) && precedes(at, other);
        song_named_is_read(folders, path, other);
    }
}

/// A song that alone has its path is both what is opened and what is read under that path.
pub proof fn opened_song_is_read(
    folders: Seq<(IdentifiedArtist, Vec<IdentifiedAlbum>)>,
    path: Seq<char>,
    at: Located,
)
    requires
        song_named(folders, path, at),
        forall|other: Located| #[trigger] named(folders, path, other) ==> other == at,
    ensures
        located(folders, path) == Some(at),
        read_at(folders, path) == Some(at),
{
    named_is_located(folders, path, at);
    song_named_is_read(folders, path, at);
    assert(named(folders, path, located(folders, path)->0));
    assert(song_named(folders, path, read_at(folders, path)->0));
    assert(named(folders, path, read_at(folders, path)->0));
}

/// What is read under a path is a song with that path, and what is opened is something with that
/// path.
pub proof fn found_has_path(folders: Seq<(IdentifiedArtist, Vec<IdentifiedAlbum>)>, path: Seq<char>)
    ensures
        located(folders, path) matches Some(at) ==> named(folders, path, at),
        read_at(folders, path) matches Some(at) ==> song_named(folders, path, at),
        read_at(folders, path) is Some ==> located(folders, path) is Some,
{
    if located(folders, path) is Some {
        let at = choose|at: Located| is_first_named(folders, path, at);
        assert(is_first_named(folders, path, at));
    }
    if read_at(folders, path) is Some {
        let at = choose|at: Located| is_last_song(folders, path, at);
        assert(is_last_song(folders, path, at));
        assert(song_named(folders, path, at));
        named_is_located(folders, path, at);
    }
}

/// The path of `name` in the folder `path`.
pub open spec fn child_path(path: Seq<char>, name: Seq<char>) -> Seq<char> {
    if path == root_path() {
        path + name
    } else {
        joined(path, name)
    }
}

/// Whatever a folder shows can be opened under its name in that folder: something with that path
/// is found, and nothing else than what is shown where no two have the same path.
pub proof fn shown_can_be_opened(
    folders: Seq<(IdentifiedArtist, Vec<IdentifiedAlbum>)>,
    path: Seq<char>,
    at: Located,
)
    requires
        shown_in(folders, path, at),
    ensures
        ({
            let child = child_path(path, name_at(folders, at));
            &&& named(folders, child, at)
            &&& located(folders, child) is Some
            &&& named(folders, child, located(folders, child)->0)
            &&& (forall|other: Located| #[trigger] named(folders, child, other) ==> other == at)
                ==> located(folders, child) == Some(at)
        }),
{
    let child = child_path(path, name_at(folders, at));
    assert(path_at(folders, at) =~= child);
    named_is_located(folders, child, at);
    assert(named(folders, child, located(folders, child)->0));
}

/// What a folder shows can be opened by the code units that it is shown with: those of the folder's
/// path, a backslash if it is not the root, and those of the name.
pub proof fn shown_name_opens(
    folders: Seq<(IdentifiedArtist, Vec<IdentifiedAlbum>)>,
    path: Seq<char>,
    at: Located,
)
    requires
        shown_in(folders, path, at),
    ensures
        ({
            let name = utf16(name_at(folders, at));
            let units = if path == root_path() {
                utf16(path) + name
            } else {
                utf16(path) + seq!['\\' as u16] + name
            };
            &&& is_utf16(units)
            &&& named(folders, text_of(units), at)
            &&& located(folders, text_of(units)) is Some
        }),
{
    let name = name_at(folders, at);
    let child = child_path(path, name);
    shown_can_be_opened(folders, path, at);
    decode_of_encode(child);
    if path == root_path() {
        utf16_concat(path, name);
    } else {
        let separator = seq!['\\'];
        utf16_concat(path + separator, name);
        utf16_concat(path, separator);
        assert(utf16(separator.drop_first()) =~= Seq::empty());
        assert(separator[0] == '\\');
        assert(utf16(separator) =~= seq!['\\' as u16]);
    }
}

/// How many backslashes there are in a text.
pub open spec fn backslashes(text: Seq<char>) -> nat
    decreases text.len(),
{
    if text.len() == 0 {
        0
    } else {
        backslashes(text.drop_last()) + if text.last() == '\\' {
            1nat
        } else {
            0nat
        }
    }
}

/// Texts one after the other have their backslashes together.
proof fn backslashes_concat(a: Seq<char>, b: Seq<char>)
    ensures
        backslashes(a + b) == backslashes(a) + backslashes(b),
    decreases b.len(),
{
    if b.len() == 0 {
        assert(a + b =~= a);
    } else {
        backslashes_concat(a, b.drop_last());
        assert((a + b).drop_last() =~= a + b.drop_last());
    }
}

/// A text that holds no backslash has none.
proof fn no_backslashes(text: Seq<char>)
    requires
        !text.contains('\\'),
    ensures
        backslashes(text) == 0,
    decreases text.len(),
{
    if text.len() > 0 {
        let rest = text.drop_last();
        assert forall|i: int| 0 <= i < rest.len() implies rest[i] != '\\' by {
            assert(text.contains(text[i]));
        }
        assert(text.contains(text.last()));
        no_backslashes(rest);
    }
}

/// Whether no name of an artist, an album or a song holds a backslash.
pub open spec fn plain_names(folders: Seq<(IdentifiedArtist, Vec<IdentifiedAlbum>)>) -> bool {
    forall|at: Located| #[trigger]
        present(folders, at) ==> !name_at(folders, at).contains('\\')
}

/// How deep something stands in the folders.
pub open spec fn depth(at: Located) -> nat {
    match at {
        Located::Artist(_) => 1,
        Located::Album(_, _) => 2,
        Located::Song(_, _, _) => 3,
    }
}

/// One name more on a path is one backslash more.
proof fn joined_backslashes(parent: Seq<char>, name: Seq<char>)
    requires
        !name.contains('\\'),
    ensures
        backslashes(joined(parent, name)) == backslashes(parent) + 1,
{
    let separator = seq!['\\'];
    assert(separator.drop_last() =~= Seq::empty());
    assert(backslashes(separator.drop_last()) == 0);
    assert(separator.last() == '\\');
    backslashes_concat(parent, separator);
    backslashes_concat(parent + separator, name);
    no_backslashes(name);
}

/// Where names hold no backslash, a path tells how deep it leads.
pub proof fn path_tells_depth(
    folders: Seq<(IdentifiedArtist, Vec<IdentifiedAlbum>)>,
    at: Located,
)
    requires
        plain_names(folders),
        present(folders, at),
    ensures
        backslashes(path_at(folders, at)) == depth(at),
        !(at is Artist) ==> backslashes(folder_path_at(folders, at)) == depth(at) - 1,
{
    let i = match at {
        Located::Artist(i) => i,
        Located::Album(i, _) => i,
        Located::Song(i, _, _) => i,
    };
    let artist = folders[i as int].0;
    assert(present(folders, Located::Artist(i)));
    assert(name_at(folders, Located::Artist(i)) == artist.artist@);
    joined_backslashes(Seq::empty(), artist.artist@);
    match at {
        Located::Artist(_) => {},
        Located::Album(_, j) => {
            assert(name_at(folders, at) == folders[i as int].1@[j as int].album@);
            joined_backslashes(artist_path(artist), folders[i as int].1@[j as int].album@);
        },
        Located::Song(_, j, k) => {
            let album = folders[i as int].1@[j as int];
            assert(present(folders, Located::Album(i, j)));
            assert(name_at(folders, Located::Album(i, j)) == album.album@);
            joined_backslashes(artist_path(artist), album.album@);
            joined_backslashes(album_path(artist, album), album.songs@[k as int].filename());
        },
    }
}

/// A name without a backslash ends where the next backslash is.
proof fn first_part_unique(x1: Seq<char>, y1: Seq<char>, x2: Seq<char>, y2: Seq<char>)
    requires
        x1 + seq!['\\'] + y1 == x2 + seq!['\\'] + y2,
        !x1.contains('\\'),
        !x2.contains('\\'),
    ensures
        x1 == x2,
        y1 == y2,
{
    let whole = x1 + seq!['\\'] + y1;
    assert(whole[x1.len() as int] == '\\');
    assert(whole[x2.len() as int] == '\\') by {
        assert((x2 + seq!['\\'] + y2)[x2.len() as int] == '\\');
    }
    if x1.len() < x2.len() {
        assert(x2[x1.len() as int] == (x2 + seq!['\\'] + y2)[x1.len() as int]);
        assert(x2.contains('\\'));
    }
    if x2.len() < x1.len() {
        assert(x1[x2.len() as int] == whole[x2.len() as int]);
        assert(x1.contains('\\'));
    }
    assert(x1 =~= whole.take(x1.len() as int));
    assert(x2 =~= (x2 + seq!['\\'] + y2).take(x2.len() as int));
    assert(y1 =~= whole.skip(x1.len() as int + 1));
    assert(y2 =~= (x2 + seq!['\\'] + y2).skip(x2.len() as int + 1));
}

/// The paths of two artists are the same only if their names are, and the path of an artist whose
/// name holds no backslash is that of no album.
proof fn artist_paths(a: IdentifiedArtist, b: IdentifiedArtist, album: IdentifiedAlbum)
    ensures
        artist_path(a) == artist_path(b) ==> a.artist@ == b.artist@,
        artist_path(a) == root_path() ==> a.artist@.len() == 0,
        artist_path(a) == album_path(b, album) ==> a.artist@.contains('\\'),
        album_path(b, album) != root_path(),
{
    assert(artist_path(a).skip(1) =~= a.artist@);
    assert(artist_path(b).skip(1) =~= b.artist@);
    let whole = album_path(b, album);
    assert(whole[b.artist@.len() as int + 1] == '\\');
    assert(whole.len() >= 2);
    if artist_path(a) == whole {
        assert(a.artist@[b.artist@.len() as int] == whole[b.artist@.len() as int + 1]);
        assert(a.artist@.contains('\\'));
    }
}

/// The paths of two albums are the same only if the names of the artists and of the albums are,
/// where the artists' names hold no backslash.
proof fn album_paths(
    a: IdentifiedArtist,
    first: IdentifiedAlbum,
    b: IdentifiedArtist,
    second: IdentifiedAlbum,
)
    requires
        album_path(a, first) == album_path(b, second),
        !a.artist@.contains('\\'),
        !b.artist@.contains('\\'),
    ensures
        a.artist@ == b.artist@,
        first.album@ == second.album@,
{
    assert(album_path(a, first).skip(1) =~= a.artist@ + seq!['\\'] + first.album@);
    assert(album_path(b, second).skip(1) =~= b.artist@ + seq!['\\'] + second.album@);
    first_part_unique(a.artist@, first.album@, b.artist@, second.album@);
}

/// The root folder shows all artists, in their order.
pub proof fn root_shows_artists(folders: Seq<(IdentifiedArtist, Vec<IdentifiedAlbum>)>)
    requires
        folders.len() <= usize::MAX,
    ensures
        listing(folders, root_path()) == Seq::new(
            folders.len(),
            |i: int| Located::Artist(i as usize),
        ),
{
    let list = Seq::new(folders.len(), |i: int| Located::Artist(i as usize));
    assert forall|at: Located| list.contains(at) <==> #[trigger] shown_in(
        folders,
        root_path(),
        at,
    ) by {
        if let Located::Artist(i) = at {
            if i < folders.len() {
                assert(list[i as int] == at);
            }
        }
    }
    assert(in_order(list));
    listing_unique(folders, root_path(), list);
}

/// Whether the folder of artist `i` is told apart by its path from the root, from the folders of
/// other artists with albums, and from the folders of albums with songs.
pub open spec fn artist_apart(
    folders: Seq<(IdentifiedArtist, Vec<IdentifiedAlbum>)>,
    i: usize,
) -> bool {
    let path = artist_path(folders[i as int].0);
    &&& path != root_path()
    &&& forall|at: Located| #[trigger]
        present(folders, at) && folder_path_at(folders, at) == path && at is Album
            ==> coordinates(at).0 == i
    &&& forall|at: Located| #[trigger]
        present(folders, at) && folder_path_at(folders, at) == path ==> !(at is Song)
}

/// Whether the folder of album `j` of artist `i` is told apart by its path from the folders of
/// artists with albums, and from the folders of other albums with songs.
pub open spec fn album_apart(
    folders: Seq<(IdentifiedArtist, Vec<IdentifiedAlbum>)>,
    i: usize,
    j: usize,
) -> bool {
    let path = album_path(folders[i as int].0, folders[i as int].1@[j as int]);
    &&& forall|at: Located| #[trigger]
        present(folders, at) && folder_path_at(folders, at) == path ==> !(at is Album)
    &&& forall|at: Located| #[trigger]
        present(folders, at) && folder_path_at(folders, at) == path && at is Song
            ==> coordinates(at).0 == i && coordinates(at).1 == j
}

/// An artist's folder shows the artist's albums, in their order, where its path tells it apart.
pub proof fn artist_shows_albums(
    folders: Seq<(IdentifiedArtist, Vec<IdentifiedAlbum>)>,
    i: usize,
)
    requires
        i < folders.len(),
        artist_apart(folders, i),
    ensures
        listing(folders, artist_path(folders[i as int].0)) == Seq::new(
            folders[i as int].1@.len(),
            |j: int| Located::Album(i, j as usize),
        ),
{
    let path = artist_path(folders[i as int].0);
    let albums = folders[i as int].1;
    assert(albums@.len() == albums.len());
    let list = Seq::new(albums@.len(), |j: int| Located::Album(i, j as usize));
    assert forall|at: Located| list.contains(at) <==> #[trigger] shown_in(folders, path, at) by {
        if shown_in(folders, path, at) {
            assert(present(folders, at));
            assert(list[coordinates(at).1] == at);
        }
    }
    assert(in_order(list));
    listing_unique(folders, path, list);
}

/// An album's folder shows the album's songs, in their order, where its path tells it apart.
pub proof fn album_shows_songs(
    folders: Seq<(IdentifiedArtist, Vec<IdentifiedAlbum>)>,
    i: usize,
    j: usize,
)
    requires
        present(folders, Located::Album(i, j)),
        album_apart(folders, i, j),
    ensures
        listing(folders, album_path(folders[i as int].0, folders[i as int].1@[j as int]))
            == Seq::new(
            folders[i as int].1@[j as int].songs@.len(),
            |k: int| Located::Song(i, j, k as usize),
        ),
{
    let artist = folders[i as int].0;
    let album = folders[i as int].1@[j as int];
    let path = album_path(artist, album);
    assert(album.songs@.len() == album.songs.len());
    let list = Seq::new(album.songs@.len(), |k: int| Located::Song(i, j, k as usize));
    artist_paths(artist, artist, album);
    assert forall|at: Located| list.contains(at) <==> #[trigger] shown_in(folders, path, at) by {
        if shown_in(folders, path, at) {
            assert(present(folders, at));
            assert(list[coordinates(at).2] == at);
        }
    }
    assert(in_order(list));
    listing_unique(folders, path, list);
}

/// An artist whose name is not empty, holds no backslash and is no other artist's has a folder
/// that is told apart.
pub proof fn named_artist_apart(
    folders: Seq<(IdentifiedArtist, Vec<IdentifiedAlbum>)>,
    i: usize,
)
    requires
        i < folders.len(),
        folders[i as int].0.artist@.len() > 0,
        !folders[i as int].0.artist@.contains('\\'),
        forall|p: int|
            0 <= p < folders.len() && p != i ==> (#[trigger] folders[p]).0.artist@
                != folders[i as int].0.artist@,
    ensures
        artist_apart(folders, i),
{
    let artist = folders[i as int].0;
    let path = artist_path(artist);
    artist_paths(artist, artist, arbitrary());
    assert forall|at: Located| #[trigger]
        present(folders, at) && folder_path_at(folders, at) == path implies !(at is Song) && (at
        is Album ==> coordinates(at).0 == i) by {
        match at {
            Located::Artist(p) => {},
            Located::Album(p, q) => {
                artist_paths(artist, folders[p as int].0, arbitrary());
            },
            Located::Song(p, q, r) => {
                artist_paths(artist, folders[p as int].0, folders[p as int].1@[q as int]);
            },
        }
    }
}

/// Where no artist's name holds a backslash, an album whose artist's name is no other artist's,
/// and whose own name is no other name of an album of the artist, has a folder that is told apart.
pub proof fn named_album_apart(
    folders: Seq<(IdentifiedArtist, Vec<IdentifiedAlbum>)>,
    i: usize,
    j: usize,
)
    requires
        present(folders, Located::Album(i, j)),
        forall|p: int| 0 <= p < folders.len() ==> !(#[trigger] folders[p]).0.artist@.contains('\\'),
        forall|p: int|
            0 <= p < folders.len() && p != i ==> (#[trigger] folders[p]).0.artist@
                != folders[i as int].0.artist@,
        forall|q: int|
            0 <= q < folders[i as int].1@.len() && q != j ==> (
            #[trigger] folders[i as int].1@[q]).album@ != folders[i as int].1@[j as int].album@,
    ensures
        album_apart(folders, i, j),
{
    let artist = folders[i as int].0;
    let album = folders[i as int].1@[j as int];
    let path = album_path(artist, album);
    assert forall|at: Located| #[trigger]
        present(folders, at) && folder_path_at(folders, at) == path implies !(at is Album) && (at
        is Song ==> coordinates(at).0 == i && coordinates(at).1 == j) by {
        match at {
            Located::Artist(p) => {},
            Located::Album(p, q) => {
                artist_paths(folders[p as int].0, artist, album);
            },
            Located::Song(p, q, r) => {
                album_paths(artist, album, folders[p as int].0, folders[p as int].1@[q as int]);
                assert(folders[p as int].1@[q as int].album@ == album.album@);
            },
        }
    }
}

} // verus!
