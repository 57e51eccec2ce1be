//! Where things stand in the folders of artists: which artist, album or song a path names, what a
//! folder shows, and from where a song is read.

use crate::subsonic::{IdentifiedAlbum, IdentifiedArtist, IdentifiedSong};
use crate::text::starts_with;
use vstd::prelude::*;

verus! {

/// An artist, an album of an artist or a song of an album, by their positions.
#[derive(Debug, Clone, Copy, PartialEq, Eq, Structural)]
pub enum Located {
    Artist(usize),
    Album(usize, usize),
    Song(usize, usize, usize),
}

/// The path of `name` in the folder `parent`.
pub open spec fn joined(parent: Seq<char>, name: Seq<char>) -> Seq<char> {
    parent + seq!['\\'] + name
}

/// The path of the root folder.
pub open spec fn root_path() -> Seq<char> {
    seq!['\\']
}

/// The path of an artist's folder.
pub open spec fn artist_path(artist: IdentifiedArtist) -> Seq<char> {
    joined(Seq::empty(), artist.artist@)
}

/// The path of an album's folder.
pub open spec fn album_path(artist: IdentifiedArtist, album: IdentifiedAlbum) -> Seq<char> {
    joined(artist_path(artist), album.album@)
}

/// The path of a song's file.
pub open spec fn song_path(
    artist: IdentifiedArtist,
    album: IdentifiedAlbum,
    song: IdentifiedSong,
) -> Seq<char> {
    joined(album_path(artist, album), song.filename())
}

/// Whether `at` is something in the folders.
pub open spec fn present(
    folders: Seq<(IdentifiedArtist, Vec<IdentifiedAlbum>)>,
    at: Located,
) -> bool {
    match at {
        Located::Artist(i) => i < folders.len(),
        Located::Album(i, j) => i < folders.len() && j < folders[i as int].1@.len(),
        Located::Song(i, j, k) => i < folders.len() && j < folders[i as int].1@.len() && k
            < folders[i as int].1@[j as int].songs@.len(),
    }
}

/// The path of what is at `at`.
pub open spec fn path_at(
    folders: Seq<(IdentifiedArtist, Vec<IdentifiedAlbum>)>,
    at: Located,
) -> Seq<char> {
    match at {
        Located::Artist(i) => artist_path(folders[i as int].0),
        Located::Album(i, j) => album_path(folders[i as int].0, folders[i as int].1@[j as int]),
        Located::Song(i, j, k) => song_path(
            folders[i as int].0,
            folders[i as int].1@[j as int],
            folders[i as int].1@[j as int].songs@[k as int],
        ),
    }
}

/// The path of the folder that shows what is at `at`.
pub open spec fn folder_path_at(
    folders: Seq<(IdentifiedArtist, Vec<IdentifiedAlbum>)>,
    at: Located,
) -> Seq<char> {
    match at {
        Located::Artist(i) => root_path(),
        Located::Album(i, j) => artist_path(folders[i as int].0),
        Located::Song(i, j, k) => album_path(folders[i as int].0, folders[i as int].1@[j as int]),
    }
}

/// The name under which its folder shows what is at `at`.
pub open spec fn name_at(
    folders: Seq<(IdentifiedArtist, Vec<IdentifiedAlbum>)>,
    at: Located,
) -> Seq<char> {
    match at {
        Located::Artist(i) => folders[i as int].0.artist@,
        Located::Album(i, j) => folders[i as int].1@[j as int].album@,
        Located::Song(i, j, k) => folders[i as int].1@[j as int].songs@[k as int].filename(),
    }
}

/// The song at `at`, which is a song's position.
pub open spec fn song_at(
    folders: Seq<(IdentifiedArtist, Vec<IdentifiedAlbum>)>,
    at: Located,
) -> IdentifiedSong {
    match at {
        Located::Song(i, j, k) => folders[i as int].1@[j as int].songs@[k as int],
        _ => arbitrary(),
    }
}

/// Whether `at` is in the folders and has the path `path`.
pub open spec fn named(
    folders: Seq<(IdentifiedArtist, Vec<IdentifiedAlbum>)>,
    path: Seq<char>,
    at: Located,
) -> bool {
    present(folders, at) && path_at(folders, at) == path
}

/// The order in which the folders are gone through: an artist comes before the artist's albums,
/// an album before its songs, and each of them, with all that it holds, before the next one.
pub open spec fn precedes(a: Located, b: Located) -> bool {
    let (i, j, k) = coordinates(a);
    let (p, q, r) = coordinates(b);
    i < p || (i == p && (j < q || (j == q && k < r)))
}

/// A position as three numbers, with -1 where a position has none.
pub open spec fn coordinates(at: Located) -> (int, int, int) {
    match at {
        Located::Artist(i) => (i as int, -1, -1),
        Located::Album(i, j) => (i as int, j as int, -1),
        Located::Song(i, j, k) => (i as int, j as int, k as int),
    }
}

/// Whether `at` is the first with the path `path`.
pub open spec fn is_first_named(
    folders: Seq<(IdentifiedArtist, Vec<IdentifiedAlbum>)>,
    path: Seq<char>,
    at: Located,
) -> bool {
    &&& named(folders, path, at)
    &&& forall|other: Located| #[trigger] named(folders, path, other) ==> !precedes(other, at)
}

/// The first thing in the folders with the path `path`.
pub open spec fn located(
    folders: Seq<(IdentifiedArtist, Vec<IdentifiedAlbum>)>,
    path: Seq<char>,
) -> Option<Located> {
    if exists|at: Located| is_first_named(folders, path, at) {
        Some(choose|at: Located| is_first_named(folders, path, at))
    } else {
        None
    }
}

/// There is at most one first thing with a path.
pub proof fn first_named_unique(
    folders: Seq<(IdentifiedArtist, Vec<IdentifiedAlbum>)>,
    path: Seq<char>,
    at: Located,
)
    requires
        is_first_named(folders, path, at),
    ensures
        located(folders, path) == Some(at),
{
    let first = choose|at: Located| is_first_named(folders, path, at);
    assert(named(folders, path, first));
    assert(named(folders, path, at));
    assert(coordinates(first) == coordinates(at));
}

/// The text of the path of `name` in the folder `parent`.
fn join(parent: &str, name: &str) -> (path: String)
    ensures
        path@ == joined(parent@, name@),
{
    let mut path: String = String::from_str(parent);
    proof {
        reveal_strlit("\\");
    }
    path.append("\\");
    path.append(name);
    assert(path@ =~= joined(parent@, name@));
    path
}

/// A path begins with the path of its folder.
proof fn joined_prefix(parent: Seq<char>, name: Seq<char>)
    ensures
        parent.is_prefix_of(joined(parent, name)),
        parent != joined(parent, name),
{
    assert(parent =~= joined(parent, name).subrange(0, parent.len() as int));
}

proof fn prefix_trans(a: Seq<char>, b: Seq<char>, c: Seq<char>)
    requires
        a.is_prefix_of(b),
        b.is_prefix_of(c),
    ensures
        a.is_prefix_of(c),
{
    assert(a =~= c.subrange(0, a.len() as int)) by {
        assert forall|i: int| 0 <= i < a.len() implies a[i] == c[i] by {
            assert(a[i] == b.subrange(0, a.len() as int)[i]);
            assert(b[i] == c.subrange(0, b.len() as int)[i]);
        }
    }
}

/// Finds the first song of an album with the path `path`.
fn find_song(folder: &str, songs: &Vec<IdentifiedSong>, path: &String) -> (at: Option<usize>)
    ensures
        match at {
            Some(k) => {
                &&& k < songs@.len()
                &&& joined(folder@, songs@[k as int].filename()) == path@
                &&& forall|m: int|
                    0 <= m < k ==> joined(folder@, (#[trigger] songs@[m]).filename()) != path@
            },
            None => forall|m: int|
                0 <= m < songs@.len() ==> joined(folder@, (#[trigger] songs@[m]).filename())
                    != path@,
        },
{
    let mut k: usize = 0;
    while k < songs.len()
        invariant
            k <= songs@.len(),
            forall|m: int|
                0 <= m < k ==> joined(folder@, (#[trigger] songs@[m]).filename()) != path@,
        decreases songs@.len() - k,
    {
        if *path == join(folder, songs[k].get_filename().as_str()) {
            return Some(k);
        }
        k = k + 1;
    }
    None
}

/// Finds the first thing in the folders with the path `path`: an artist's folder, an album's
/// folder or a song's file.
pub fn locate(
    folders: &Vec<(IdentifiedArtist, Vec<IdentifiedAlbum>)>,
    path: &String,
) -> (at: Option<Located>)
    ensures
        at == located(folders@, path@),
        at matches Some(l) ==> is_first_named(folders@, path@, l),
        at is None ==> forall|other: Located| !named(folders@, path@, other),
{
    let mut i: usize = 0;
    while i < folders.len()
        invariant
            i <= folders@.len(),
            forall|other: Located| #[trigger]
                named(folders@, path@, other) ==> coordinates(other).0 >= i,
        decreases folders@.len() - i,
    {
        let artist_folder: String = join("", folders[i].0.artist.as_str());
        proof {
            reveal_strlit("");
            assert(""@ =~= Seq::<char>::empty());
        }
        if *path == artist_folder {
            proof {
                assert(named(folders@, path@, Located::Artist(i)));
                first_named_unique(folders@, path@, Located::Artist(i));
            }
            return Some(Located::Artist(i));
        }
        if starts_with(path.as_str(), artist_folder.as_str()) {
            let albums: &Vec<IdentifiedAlbum> = &folders[i].1;
            let mut j: usize = 0;
            while j < albums.len()
                invariant
                    i < folders@.len(),
                    albums@ == folders@[i as int].1@,
                    j <= albums@.len(),
                    artist_folder@ == artist_path(folders@[i as int].0),
                    path@ != artist_folder@,
                    forall|other: Located| #[trigger]
                        named(folders@, path@, other) ==> coordinates(other).0 > i || (coordinates(
                            other,
                        ).0 == i && coordinates(other).1 >= j),
                decreases albums@.len() - j,
            {
                let album_folder: String = join(artist_folder.as_str(), albums[j].album.as_str());
                if *path == album_folder {
                    proof {
                        assert(named(folders@, path@, Located::Album(i, j)));
                        first_named_unique(folders@, path@, Located::Album(i, j));
                    }
                    return Some(Located::Album(i, j));
                }
                if starts_with(path.as_str(), album_folder.as_str()) {
                    match find_song(album_folder.as_str(), &albums[j].songs, path) {
                        Some(k) => {
                            proof {
                                let at = Located::Song(i, j, k);
                                assert(named(folders@, path@, at));
                                assert forall|other: Located| #[trigger]
                                    named(folders@, path@, other) implies !precedes(other, at) by {
                                    if coordinates(other).0 == i && coordinates(other).1 == j {
                                        match other {
                                            Located::Song(_, _, m) => {
                                                if m < k {
                                                    assert(joined(
                                                        album_folder@,
                                                        albums@[j as int].songs@[m as int].filename(),
                                                    ) != path@);
                                                }
                                            },
                                            _ => {},
                                        }
                                    }
                                }
                                first_named_unique(folders@, path@, at);
                            }
                            return Some(Located::Song(i, j, k));
                        },
                        None => {},
                    }
                }
                proof {
                    assert forall|other: Located| #[trigger]
                        named(folders@, path@, other) implies coordinates(other).0 > i || (
                    coordinates(other).0 == i && coordinates(other).1 >= j + 1) by {
                        if coordinates(other).0 == i && coordinates(other).1 == j {
                            match other {
                                Located::Song(_, _, m) => {
                                    let name = albums@[j as int].songs@[m as int].filename();
                                    joined_prefix(album_folder@, name);
                                    assert(joined(album_folder@, name) == path@);
                                },
                                _ => {},
                            }
                        }
                    }
                }
                j = j + 1;
            }
        }
        proof {
            assert forall|other: Located| #[trigger]
                named(folders@, path@, other) implies coordinates(other).0 >= i + 1 by {
                if coordinates(other).0 == i {
                    match other {
                        Located::Album(_, q) => {
                            joined_prefix(artist_folder@, folders@[i as int].1@[q as int].album@);
                        },
                        Located::Song(_, q, m) => {
                            let album = folders@[i as int].1@[q as int];
                            let folder = joined(artist_folder@, album.album@);
                            joined_prefix(artist_folder@, album.album@);
                            joined_prefix(folder, album.songs@[m as int].filename());
                            prefix_trans(
                                artist_folder@,
                                folder,
                                joined(folder, album.songs@[m as int].filename()),
                            );
                        },
                        _ => {},
                    }
                }
            }
        }
        i = i + 1;
    }
    None
}

/// Whether the folder `path` shows what is at `at`. The root folder shows the artists and nothing
/// else.
pub open spec fn shown_in(
    folders: Seq<(IdentifiedArtist, Vec<IdentifiedAlbum>)>,
    path: Seq<char>,
    at: Located,
) -> bool {
    &&& present(folders, at)
    &&& folder_path_at(folders, at) == path
    &&& at is Artist <==> path == root_path()
}

/// Whether `list` holds, in order, what the folder `path` shows.
pub open spec fn is_listing(
    folders: Seq<(IdentifiedArtist, Vec<IdentifiedAlbum>)>,
    path: Seq<char>,
    list: Seq<Located>,
) -> bool {
    &&& forall|at: Located| list.contains(at) <==> #[trigger] shown_in(folders, path, at)
    &&& in_order(list)
}

/// Whether positions are in the order in which the folders are gone through, each once.
pub open spec fn in_order(list: Seq<Located>) -> bool {
    forall|a: int, b: int|
        0 <= a < b < list.len() ==> precedes(#[trigger] list[a], #[trigger] list[b])
}

/// What the folder `path` shows, in order.
pub open spec fn listing(
    folders: Seq<(IdentifiedArtist, Vec<IdentifiedAlbum>)>,
    path: Seq<char>,
) -> Seq<Located> {
    choose|list: Seq<Located>| is_listing(folders, path, list)
}

/// Two ordered lists of the same positions are one list.
proof fn ordered_unique(a: Seq<Located>, b: Seq<Located>, n: int)
    requires
        in_order(a),
        in_order(b),
        forall|at: Located| #[trigger] a.contains(at) <==> b.contains(at),
        0 <= n <= a.len(),
    ensures
        n <= b.len(),
        a.take(n) == b.take(n),
    decreases n,
{
    if n > 0 {
        let p = n - 1;
        ordered_unique(a, b, p);
        assert forall|q: int| 0 <= q < p implies a[q] == b[q] by {
            assert(a.take(p)[q] == b.take(p)[q]);
        }
        assert(a.contains(a[p]));
        let q = choose|q: int| 0 <= q < b.len() && b[q] == a[p];
        if q < p {
            assert(precedes(a[q], a[p]));
            assert(false);
        }
        if q > p {
            assert(b.contains(b[p]));
            assert(a.contains(b[p]));
            let r = choose|r: int| 0 <= r < a.len() && a[r] == b[p];
            assert(precedes(b[p], b[q]));
            if r < p {
                assert(precedes(a[r], a[p]));
                assert(b[r] == b[p]);
                assert(precedes(b[r], b[p]));
                assert(false);
            } else if r > p {
                assert(precedes(a[p], a[r]));
                assert(false);
            }
            assert(false);
        }
        assert(a.take(n) =~= b.take(n)) by {
            assert forall|m: int| 0 <= m < n implies a[m] == b[m] by {
                if m < p {
                    assert(a[m] == b[m]);
                }
            }
        }
    }
}

/// A folder has one listing.
pub proof fn listing_unique(
    folders: Seq<(IdentifiedArtist, Vec<IdentifiedAlbum>)>,
    path: Seq<char>,
    list: Seq<Located>,
)
    requires
        is_listing(folders, path, list),
    ensures
        listing(folders, path) == list,
{
    let other = listing(folders, path);
    assert forall|at: Located| #[trigger] list.contains(at) <==> other.contains(at) by {
        assert(list.contains(at) <==> shown_in(folders, path, at));
        assert(other.contains(at) <==> shown_in(folders, path, at));
    }
    ordered_unique(list, other, list.len() as int);
    ordered_unique(other, list, other.len() as int);
    assert(list =~= list.take(list.len() as int));
    assert(other =~= other.take(other.len() as int));
}

/// Whether `at` comes before the position with the coordinates `(i, j, k)`.
spec fn is_before(at: Located, i: int, j: int, k: int) -> bool {
    let (p, q, r) = coordinates(at);
    p < i || (p == i && (q < j || (q == j && r < k)))
}

/// Whether `list` holds, in order, what the folder `path` shows before a position.
spec fn listed_before(
    folders: Seq<(IdentifiedArtist, Vec<IdentifiedAlbum>)>,
    path: Seq<char>,
    list: Seq<Located>,
    i: int,
    j: int,
    k: int,
) -> bool {
    &&& forall|at: Located|
        #![trigger shown_in(folders, path, at)]
        list.contains(at) <==> shown_in(folders, path, at) && is_before(at, i, j, k)
    &&& in_order(list)
}

/// One more in the list.
proof fn listed_push(
    folders: Seq<(IdentifiedArtist, Vec<IdentifiedAlbum>)>,
    path: Seq<char>,
    list: Seq<Located>,
    at: Located,
    i: int,
    j: int,
    k: int,
)
    requires
        listed_before(folders, path, list, coordinates(at).0, coordinates(at).1, coordinates(at).2),
        shown_in(folders, path, at),
        forall|other: Located| #[trigger]
            shown_in(folders, path, other) && !is_before(
                other,
                coordinates(at).0,
                coordinates(at).1,
                coordinates(at).2,
            ) && is_before(other, i, j, k) ==> other == at,
        forall|other: Located|
            #![trigger shown_in(folders, path, other)]
            is_before(other, coordinates(at).0, coordinates(at).1, coordinates(at).2) ==> is_before(
                other,
                i,
                j,
                k,
            ),
        is_before(at, i, j, k),
    ensures
        listed_before(folders, path, list.push(at), i, j, k),
{
    let after = list.push(at);
    assert forall|other: Located|
        #![trigger shown_in(folders, path, other)]
        after.contains(other) <==> shown_in(folders, path, other) && is_before(other, i, j, k) by {
        if after.contains(other) {
            let m = choose|m: int| 0 <= m < after.len() && after[m] == other;
            if m < list.len() {
                assert(list.contains(list[m]));
            }
        }
        if shown_in(folders, path, other) && is_before(other, i, j, k) {
            if other == at {
                assert(after[list.len() as int] == at);
            } else {
                assert(list.contains(other));
                let m = choose|m: int| 0 <= m < list.len() && list[m] == other;
                assert(after[m] == other);
            }
        }
    }
    assert forall|a: int, b: int| 0 <= a < b < after.len() implies precedes(
        #[trigger] after[a],
        #[trigger] after[b],
    ) by {
        if b == list.len() {
            assert(list.contains(list[a]));
            assert(shown_in(folders, path, list[a]));
        }
    }
}

/// Nothing more in the list, where the folder shows nothing between two positions.
proof fn listed_skip(
    folders: Seq<(IdentifiedArtist, Vec<IdentifiedAlbum>)>,
    path: Seq<char>,
    list: Seq<Located>,
    from: (int, int, int),
    to: (int, int, int),
)
    requires
        listed_before(folders, path, list, from.0, from.1, from.2),
        forall|other: Located| #[trigger]
            shown_in(folders, path, other) ==> (is_before(other, from.0, from.1, from.2)
                <==> is_before(other, to.0, to.1, to.2)),
    ensures
        listed_before(folders, path, list, to.0, to.1, to.2),
{
}

/// One more in the list, if the folder shows it.
proof fn listed_step(
    folders: Seq<(IdentifiedArtist, Vec<IdentifiedAlbum>)>,
    path: Seq<char>,
    list: Seq<Located>,
    at: Located,
    to: (int, int, int),
) -> (after: Seq<Located>)
    requires
        listed_before(folders, path, list, coordinates(at).0, coordinates(at).1, coordinates(at).2),
        forall|other: Located|
            #![trigger shown_in(folders, path, other)]
            shown_in(folders, path, other) ==> (is_before(other, to.0, to.1, to.2) <==> is_before(
                other,
                coordinates(at).0,
                coordinates(at).1,
                coordinates(at).2,
            ) || other == at),
        forall|other: Located|
            #![trigger shown_in(folders, path, other)]
            is_before(other, coordinates(at).0, coordinates(at).1, coordinates(at).2) ==> is_before(
                other,
                to.0,
                to.1,
                to.2,
            ),
        is_before(at, to.0, to.1, to.2),
    ensures
        listed_before(folders, path, after, to.0, to.1, to.2),
{
    if shown_in(folders, path, at) {
        listed_push(folders, path, list, at, to.0, to.1, to.2);
        list.push(at)
    } else {
        listed_skip(folders, path, list, coordinates(at), to);
        list
    }
}

/// What a folder shows before a position can be listed.
proof fn listed_to(
    folders: Seq<(IdentifiedArtist, Vec<IdentifiedAlbum>)>,
    path: Seq<char>,
    i: int,
    j: int,
    k: int,
) -> (list: Seq<Located>)
    requires
        folders.len() <= usize::MAX,
        0 <= i <= folders.len(),
        j == -1 ==> k == -1,
        j >= -1,
        j >= 0 ==> i < folders.len() && j <= folders[i].1@.len(),
        k >= -1,
        k >= 0 ==> j < folders[i].1@.len() && k <= folders[i].1@[j].songs@.len(),
    ensures
        listed_before(folders, path, list, i, j, k),
    decreases i, j + 1, k + 1,
{
    if k > 0 {
        let songs = folders[i].1@[j].songs;
        let albums = folders[i].1;
        assert(songs@.len() == songs.len() && albums@.len() == albums.len());
        let list = listed_to(folders, path, i, j, k - 1);
        let at = Located::Song(i as usize, j as usize, (k - 1) as usize);
        listed_step(folders, path, list, at, (i, j, k))
    } else if k == 0 {
        let albums = folders[i].1;
        assert(albums@.len() == albums.len());
        let list = listed_to(folders, path, i, j, -1);
        let at = Located::Album(i as usize, j as usize);
        listed_step(folders, path, list, at, (i, j, 0))
    } else if j > 0 {
        let last = folders[i].1@[j - 1].songs@.len() as int;
        let list = listed_to(folders, path, i, j - 1, last);
        listed_skip(folders, path, list, (i, j - 1, last), (i, j, -1));
        list
    } else if j == 0 {
        let list = listed_to(folders, path, i, -1, -1);
        listed_step(folders, path, list, Located::Artist(i as usize), (i, 0, -1))
    } else if i > 0 {
        let last = folders[i - 1].1@.len() as int;
        let list = listed_to(folders, path, i - 1, last, -1);
        listed_skip(folders, path, list, (i - 1, last, -1), (i, -1, -1));
        list
    } else {
        let list = Seq::<Located>::empty();
        assert(listed_before(folders, path, list, 0, -1, -1));
        list
    }
}

/// There is a list of what a folder shows.
pub proof fn listing_exists(
    folders: Seq<(IdentifiedArtist, Vec<IdentifiedAlbum>)>,
    path: Seq<char>,
)
    requires
        folders.len() <= usize::MAX,
    ensures
        is_listing(folders, path, listing(folders, path)),
{
    let list = listed_to(folders, path, folders.len() as int, -1, -1);
    assert(is_listing(folders, path, list));
    listing_unique(folders, path, list);
}

/// Lists what the folder `path` shows.
pub fn list_folder(
    folders: &Vec<(IdentifiedArtist, Vec<IdentifiedAlbum>)>,
    path: &String,
) -> (list: Vec<Located>)
    ensures
        list@ == listing(folders@, path@),
        is_listing(folders@, path@, list@),
{
    let mut list: Vec<Located> = Vec::new();
    let root: String = String::from_str("\\");
    proof {
        reveal_strlit("\\");
        assert(root@ =~= root_path());
    }
    if *path == root {
        let mut i: usize = 0;
        while i < folders.len()
            invariant
                i <= folders@.len(),
                path@ == root_path(),
                listed_before(folders@, path@, list@, i as int, -1, -1),
            decreases folders@.len() - i,
        {
            proof {
                listed_push(folders@, path@, list@, Located::Artist(i), i + 1, -1, -1);
            }
            list.push(Located::Artist(i));
            i = i + 1;
        }
    } else {
        let mut i: usize = 0;
        while i < folders.len()
            invariant
                i <= folders@.len(),
                path@ != root_path(),
                listed_before(folders@, path@, list@, i as int, -1, -1),
            decreases folders@.len() - i,
        {
            let artist_folder: String = join("", folders[i].0.artist.as_str());
            proof {
                reveal_strlit("");
                assert(""@ =~= Seq::<char>::empty());
            }
            let albums: &Vec<IdentifiedAlbum> = &folders[i].1;
            proof {
                listed_skip(folders@, path@, list@, (i as int, -1, -1), (i as int, 0, -1));
            }
            if *path == artist_folder {
                let mut j: usize = 0;
                while j < albums.len()
                    invariant
                        i < folders@.len(),
                        albums@ == folders@[i as int].1@,
                        j <= albums@.len(),
                        artist_folder@ == artist_path(folders@[i as int].0),
                        path@ != root_path(),
                        path@ == artist_folder@,
                        listed_before(folders@, path@, list@, i as int, j as int, -1),
                    decreases albums@.len() - j,
                {
                    proof {
                        joined_prefix(artist_folder@, albums@[j as int].album@);
                        listed_push(
                            folders@,
                            path@,
                            list@,
                            Located::Album(i, j),
                            i as int,
                            j + 1,
                            -1,
                        );
                    }
                    list.push(Located::Album(i, j));
                    j = j + 1;
                }
                proof {
                    assert forall|q: int| 0 <= q < albums@.len() implies path@ != album_path(
                        folders@[i as int].0,
                        #[trigger] albums@[q],
                    ) by {
                        joined_prefix(artist_folder@, albums@[q].album@);
                    }
                    listed_skip(
                        folders@,
                        path@,
                        list@,
                        (i as int, j as int, -1),
                        (i + 1, -1, -1),
                    );
                }
            } else if starts_with(path.as_str(), artist_folder.as_str()) {
                let mut j: usize = 0;
                while j < albums.len()
                    invariant
                        i < folders@.len(),
                        albums@ == folders@[i as int].1@,
                        j <= albums@.len(),
                        artist_folder@ == artist_path(folders@[i as int].0),
                        path@ != root_path(),
                        path@ != artist_folder@,
                        listed_before(folders@, path@, list@, i as int, j as int, -1),
                    decreases albums@.len() - j,
                {
                    let album_folder: String = join(
                        artist_folder.as_str(),
                        albums[j].album.as_str(),
                    );
                    if *path == album_folder {
                        let mut k: usize = 0;
                        proof {
                            listed_skip(
                                folders@,
                                path@,
                                list@,
                                (i as int, j as int, -1),
                                (i as int, j as int, 0),
                            );
                        }
                        while k < albums[j].songs.len()
                            invariant
                                i < folders@.len(),
                                albums@ == folders@[i as int].1@,
                                j < albums@.len(),
                                k <= albums@[j as int].songs@.len(),
                                path@ == album_path(folders@[i as int].0, albums@[j as int]),
                                path@ != root_path(),
                                listed_before(folders@, path@, list@, i as int, j as int, k as int),
                            decreases albums@[j as int].songs@.len() - k,
                        {
                            proof {
                                listed_push(
                                    folders@,
                                    path@,
                                    list@,
                                    Located::Song(i, j, k),
                                    i as int,
                                    j as int,
                                    k + 1,
                                );
                            }
                            list.push(Located::Song(i, j, k));
                            k = k + 1;
                        }
                        proof {
                            listed_skip(
                                folders@,
                                path@,
                                list@,
                                (i as int, j as int, k as int),
                                (i as int, j + 1, -1),
                            );
                        }
                    } else {
                        proof {
                            listed_skip(
                                folders@,
                                path@,
                                list@,
                                (i as int, j as int, -1),
                                (i as int, j + 1, -1),
                            );
                        }
                    }
                    j = j + 1;
                }
                proof {
                    listed_skip(
                        folders@,
                        path@,
                        list@,
                        (i as int, j as int, -1),
                        (i + 1, -1, -1),
                    );
                }
            } else {
                proof {
                    assert forall|q: int| 0 <= q < albums@.len() implies path@ != album_path(
                        folders@[i as int].0,
                        #[trigger] albums@[q],
                    ) by {
                        joined_prefix(artist_folder@, albums@[q].album@);
                    }
                    listed_skip(folders@, path@, list@, (i as int, 0, -1), (i + 1, -1, -1));
                }
            }
            i = i + 1;
        }
    }
    proof {
        listing_unique(folders@, path@, list@);
    }
    list
}

/// Whether `at` is a song with the path `path`.
pub open spec fn song_named(
    folders: Seq<(IdentifiedArtist, Vec<IdentifiedAlbum>)>,
    path: Seq<char>,
    at: Located,
) -> bool {
    at is Song && named(folders, path, at)
}

/// Whether `at` is the last song with the path `path`.
pub open spec fn is_last_song(
    folders: Seq<(IdentifiedArtist, Vec<IdentifiedAlbum>)>,
    path: Seq<char>,
    at: Located,
) -> bool {
    &&& song_named(folders, path, at)
    &&& forall|other: Located| #[trigger]
        song_named(folders, path, other) ==> !precedes(at, other)
}

/// The song that is read at the path `path`: the last one with this path.
pub open spec fn read_at(
    folders: Seq<(IdentifiedArtist, Vec<IdentifiedAlbum>)>,
    path: Seq<char>,
) -> Option<Located> {
    if exists|at: Located| is_last_song(folders, path, at) {
        Some(choose|at: Located| is_last_song(folders, path, at))
    } else {
        None
    }
}

/// There is at most one last song with a path.
pub proof fn last_song_unique(
    folders: Seq<(IdentifiedArtist, Vec<IdentifiedAlbum>)>,
    path: Seq<char>,
    at: Located,
)
    requires
        is_last_song(folders, path, at),
    ensures
        read_at(folders, path) == Some(at),
{
    let last = choose|at: Located| is_last_song(folders, path, at);
    assert(song_named(folders, path, last));
    assert(song_named(folders, path, at));
    assert(coordinates(last) == coordinates(at));
}

/// Whether `found` is the last song with the path `path` before a position.
spec fn last_before(
    folders: Seq<(IdentifiedArtist, Vec<IdentifiedAlbum>)>,
    path: Seq<char>,
    found: Option<Located>,
    i: int,
    j: int,
    k: int,
) -> bool {
    match found {
        Some(at) => {
            &&& song_named(folders, path, at)
            &&& is_before(at, i, j, k)
            &&& forall|other: Located| #[trigger]
                song_named(folders, path, other) && is_before(other, i, j, k) ==> !precedes(
                    at,
                    other,
                )
        },
        None => forall|other: Located| #[trigger]
            song_named(folders, path, other) ==> !is_before(other, i, j, k),
    }
}

/// Finds the last song with the path `path`.
pub fn find_read(
    folders: &Vec<(IdentifiedArtist, Vec<IdentifiedAlbum>)>,
    path: &String,
) -> (at: Option<Located>)
    ensures
        at == read_at(folders@, path@),
        at matches Some(l) ==> is_last_song(folders@, path@, l),
        at is None ==> forall|other: Located| !song_named(folders@, path@, other),
{
    let mut found: Option<Located> = None;
    let mut i: usize = 0;
    while i < folders.len()
        invariant
            i <= folders@.len(),
            last_before(folders@, path@, found, i as int, -1, -1),
        decreases folders@.len() - i,
    {
        let artist_folder: String = join("", folders[i].0.artist.as_str());
        proof {
            reveal_strlit("");
            assert(""@ =~= Seq::<char>::empty());
        }
        let albums: &Vec<IdentifiedAlbum> = &folders[i].1;
        if starts_with(path.as_str(), artist_folder.as_str()) {
            let mut j: usize = 0;
            while j < albums.len()
                invariant
                    i < folders@.len(),
                    albums@ == folders@[i as int].1@,
                    j <= albums@.len(),
                    artist_folder@ == artist_path(folders@[i as int].0),
                    last_before(folders@, path@, found, i as int, j as int, -1),
                decreases albums@.len() - j,
            {
                let album_folder: String = join(artist_folder.as_str(), albums[j].album.as_str());
                if starts_with(path.as_str(), album_folder.as_str()) {
                    let songs: &Vec<IdentifiedSong> = &albums[j].songs;
                    let mut k: usize = 0;
                    while k < songs.len()
                        invariant
                            i < folders@.len(),
                            albums@ == folders@[i as int].1@,
                            j < albums@.len(),
                            songs@ == albums@[j as int].songs@,
                            k <= songs@.len(),
                            album_folder@ == album_path(folders@[i as int].0, albums@[j as int]),
                            last_before(folders@, path@, found, i as int, j as int, k as int),
                        decreases songs@.len() - k,
                    {
                        if *path == join(album_folder.as_str(), songs[k].get_filename().as_str()) {
                            found = Some(Located::Song(i, j, k));
                            assert(song_named(folders@, path@, Located::Song(i, j, k)));
                        }
                        k = k + 1;
                    }
                } else {
                    proof {
                        assert forall|other: Located| #[trigger]
                            song_named(folders@, path@, other) implies !(coordinates(other).0 == i
                            && coordinates(other).1 == j) by {
                            if let Located::Song(p, q, r) = other {
                                if p == i && q == j {
                                    joined_prefix(
                                        album_folder@,
                                        albums@[j as int].songs@[r as int].filename(),
                                    );
                                }
                            }
                        }
                    }
                }
                j = j + 1;
            }
        } else {
            proof {
                assert forall|other: Located| #[trigger]
                    song_named(folders@, path@, other) implies coordinates(other).0 != i by {
                    if let Located::Song(p, q, r) = other {
                        if p == i {
                            let album = albums@[q as int];
                            let folder = joined(artist_folder@, album.album@);
                            let name = album.songs@[r as int].filename();
                            joined_prefix(artist_folder@, album.album@);
                            joined_prefix(folder, name);
                            prefix_trans(artist_folder@, folder, joined(folder, name));
                        }
                    }
                }
            }
        }
        i = i + 1;
    }
    proof {
        if found is Some {
            last_song_unique(folders@, path@, found->0);
        }
    }
    found
}

/// Whether every song with the path `path` has a download address.
pub open spec fn readable(
    folders: Seq<(IdentifiedArtist, Vec<IdentifiedAlbum>)>,
    path: Seq<char>,
) -> bool {
    forall|at: Located| #[trigger]
        song_named(folders, path, at) ==> song_at(folders, at).url is Some
}

/// Whether every song before a position with the path `path` has a download address.
spec fn readable_before(
    folders: Seq<(IdentifiedArtist, Vec<IdentifiedAlbum>)>,
    path: Seq<char>,
    i: int,
    j: int,
    k: int,
) -> bool {
    forall|at: Located| #[trigger]
        song_named(folders, path, at) && is_before(at, i, j, k) ==> song_at(folders, at).url
            is Some
}

/// Finds out whether every song with the path `path` has a download address.
pub fn is_readable(
    folders: &Vec<(IdentifiedArtist, Vec<IdentifiedAlbum>)>,
    path: &String,
) -> (yes: bool)
    ensures
        yes == readable(folders@, path@),
{
    let mut i: usize = 0;
    while i < folders.len()
        invariant
            i <= folders@.len(),
            readable_before(folders@, path@, i as int, -1, -1),
        decreases folders@.len() - i,
    {
        let artist_folder: String = join("", folders[i].0.artist.as_str());
        proof {
            reveal_strlit("");
            assert(""@ =~= Seq::<char>::empty());
        }
        let albums: &Vec<IdentifiedAlbum> = &folders[i].1;
        let mut j: usize = 0;
        while j < albums.len()
            invariant
                i < folders@.len(),
                albums@ == folders@[i as int].1@,
                j <= albums@.len(),
                artist_folder@ == artist_path(folders@[i as int].0),
                readable_before(folders@, path@, i as int, j as int, -1),
            decreases albums@.len() - j,
        {
            let album_folder: String = join(artist_folder.as_str(), albums[j].album.as_str());
            let songs: &Vec<IdentifiedSong> = &albums[j].songs;
            let mut k: usize = 0;
            while k < songs.len()
                invariant
                    i < folders@.len(),
                    albums@ == folders@[i as int].1@,
                    j < albums@.len(),
                    songs@ == albums@[j as int].songs@,
                    k <= songs@.len(),
                    album_folder@ == album_path(folders@[i as int].0, albums@[j as int]),
                    readable_before(folders@, path@, i as int, j as int, k as int),
                decreases songs@.len() - k,
            {
                if *path == join(album_folder.as_str(), songs[k].get_filename().as_str()) {
                    if songs[k].url.is_none() {
                        assert(song_named(folders@, path@, Located::Song(i, j, k)));
                        return false;
                    }
                }
                k = k + 1;
            }
            j = j + 1;
        }
        i = i + 1;
    }
    true
}

} // verus!
