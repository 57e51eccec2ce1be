//! What paths lead to and what folders show, in terms of the names of artists, albums and songs.

use crate::catalogue::{
    coordinates, folder_path_at, is_first_named, is_last_song, listing, listing_exists, located,
    name_at, named, path_at, precedes, present, read_at, readable, root_path, shown_in, song_at,
    song_named, Located,
};
use crate::folder_laws::{found_has_path, named_is_located, song_named_is_read};
use crate::subsonic::{IdentifiedAlbum, IdentifiedArtist};
use vstd::prelude::*;

verus! {

/// The path of an artist is a backslash and the artist's name; that of an album goes on with a
/// backslash and the album's title, and that of a song with a backslash and the name of its file.
/// Each is shown in the folder above under the last of these names.
pub proof fn paths_are_names_behind_backslashes(
    folders: Seq<(IdentifiedArtist, Vec<IdentifiedAlbum>)>,
    i: usize,
    j: usize,
    k: usize,
)
    ensures
        root_path() == seq!['\\'],
        path_at(folders, Located::Artist(i)) == seq!['\\'] + folders[i as int].0.artist@,
        path_at(folders, Located::Album(i, j)) == seq!['\\'] + folders[i as int].0.artist@ + seq!['\\'] + folders[i as int].1@[j as int].album@,
        path_at(folders, Located::Song(i, j, k)) == seq!['\\'] + folders[i as int].0.artist@ + seq!['\\'] + folders[i as int].1@[j as int].album@ + seq!['\\'] + folders[i as int].1@[j as int].songs@[k as int].filename(),
        folder_path_at(folders, Located::Artist(i)) == seq!['\\'],
        folder_path_at(folders, Located::Album(i, j)) == seq!['\\'] + folders[i as int].0.artist@,
        folder_path_at(folders, Located::Song(i, j, k)) == seq!['\\'] + folders[i as int].0.artist@ + seq!['\\'] + folders[i as int].1@[j as int].album@,
        name_at(folders, Located::Artist(i)) == folders[i as int].0.artist@,
        name_at(folders, Located::Album(i, j)) == folders[i as int].1@[j as int].album@,
        name_at(folders, Located::Song(i, j, k))
            == folders[i as int].1@[j as int].songs@[k as int].filename(),
        song_at(folders, Located::Song(i, j, k))
            == folders[i as int].1@[j as int].songs@[k as int],
        present(folders, Located::Artist(i)) <==> i < folders.len(),
        present(folders, Located::Album(i, j)) <==> i < folders.len() && j < folders[i as int].1@.len(),
        present(folders, Located::Song(i, j, k)) <==> i < folders.len() && j < folders[i as int].1@.len() && k < folders[i as int].1@[j as int].songs@.len(),
{
    let none = Seq::<char>::empty();
    let artist = folders[i as int].0.artist@;
    assert(none + seq!['\\'] + artist =~= seq!['\\'] + artist);
}

/// What a path leads to has that path, and nothing that comes before it has; where it leads to
/// nothing, nothing has that path.
pub proof fn path_leads_to_the_first(
    folders: Seq<(IdentifiedArtist, Vec<IdentifiedAlbum>)>,
    path: Seq<char>,
)
    ensures
        match located(folders, path) {
            Some(Located::Artist(a)) => {
                &&& a < folders.len()
                &&& seq!['\\'] + folders[a as int].0.artist@ == path
                &&& (forall|i: usize| i < folders.len() && i < a ==> seq!['\\'] + (#[trigger] folders[i as int]).0.artist@ != path)
                &&& (forall|i: usize, j: usize| i < folders.len() && j < folders[i as int].1@.len() && i < a ==> seq!['\\'] + folders[i as int].0.artist@ + seq!['\\'] + (#[trigger] folders[i as int].1@[j as int]).album@ != path)
                &&& (forall|i: usize, j: usize, k: usize| i < folders.len() && j < folders[i as int].1@.len() && k < folders[i as int].1@[j as int].songs@.len() && i < a ==> seq!['\\'] + folders[i as int].0.artist@ + seq!['\\'] + folders[i as int].1@[j as int].album@ + seq!['\\'] + (#[trigger] folders[i as int].1@[j as int].songs@[k as int]).filename() != path)
            },
            Some(Located::Album(a, b)) => {
                &&& a < folders.len() && b < folders[a as int].1@.len()
                &&& seq!['\\'] + folders[a as int].0.artist@ + seq!['\\'] + folders[a as int].1@[b as int].album@ == path
                &&& (forall|i: usize| i < folders.len() && i <= a ==> seq!['\\'] + (#[trigger] folders[i as int]).0.artist@ != path)
                &&& (forall|i: usize, j: usize| i < folders.len() && j < folders[i as int].1@.len() && (i < a || i == a && j < b) ==> seq!['\\'] + folders[i as int].0.artist@ + seq!['\\'] + (#[trigger] folders[i as int].1@[j as int]).album@ != path)
                &&& (forall|i: usize, j: usize, k: usize| i < folders.len() && j < folders[i as int].1@.len() && k < folders[i as int].1@[j as int].songs@.len() && (i < a || i == a && j < b) ==> seq!['\\'] + folders[i as int].0.artist@ + seq!['\\'] + folders[i as int].1@[j as int].album@ + seq!['\\'] + (#[trigger] folders[i as int].1@[j as int].songs@[k as int]).filename() != path)
            },
            Some(Located::Song(a, b, c)) => {
                &&& a < folders.len() && b < folders[a as int].1@.len() && c < folders[a as int].1@[b as int].songs@.len()
                &&& seq!['\\'] + folders[a as int].0.artist@ + seq!['\\'] + folders[a as int].1@[b as int].album@ + seq!['\\'] + folders[a as int].1@[b as int].songs@[c as int].filename() == path
                &&& (forall|i: usize| i < folders.len() && i <= a ==> seq!['\\'] + (#[trigger] folders[i as int]).0.artist@ != path)
                &&& (forall|i: usize, j: usize| i < folders.len() && j < folders[i as int].1@.len() && (i < a || i == a && j <= b) ==> seq!['\\'] + folders[i as int].0.artist@ + seq!['\\'] + (#[trigger] folders[i as int].1@[j as int]).album@ != path)
                &&& (forall|i: usize, j: usize, k: usize| i < folders.len() && j < folders[i as int].1@.len() && k < folders[i as int].1@[j as int].songs@.len() && (i < a || i == a && (j < b || j == b && k < c)) ==> seq!['\\'] + folders[i as int].0.artist@ + seq!['\\'] + folders[i as int].1@[j as int].album@ + seq!['\\'] + (#[trigger] folders[i as int].1@[j as int].songs@[k as int]).filename() != path)
            },
            None => {
                &&& (forall|i: usize| i < folders.len() ==> seq!['\\'] + (#[trigger] folders[i as int]).0.artist@ != path)
                &&& (forall|i: usize, j: usize| i < folders.len() && j < folders[i as int].1@.len() ==> seq!['\\'] + folders[i as int].0.artist@ + seq!['\\'] + (#[trigger] folders[i as int].1@[j as int]).album@ != path)
                &&& (forall|i: usize, j: usize, k: usize| i < folders.len() && j < folders[i as int].1@.len() && k < folders[i as int].1@[j as int].songs@.len() ==> seq!['\\'] + folders[i as int].0.artist@ + seq!['\\'] + folders[i as int].1@[j as int].album@ + seq!['\\'] + (#[trigger] folders[i as int].1@[j as int].songs@[k as int]).filename() != path)
            },
        },
{
    let found = located(folders, path);
    assert forall|at: Located| #[trigger] named(folders, path, at) implies found is Some
        && !precedes(at, found->0) by {
        named_is_located(folders, path, at);
        assert(is_first_named(folders, path, found->0));
    }
    found_has_path(folders, path);
    if found is Some {
        let (a, b, c) = match found->0 {
            Located::Artist(a) => (a, 0usize, 0usize),
            Located::Album(a, b) => (a, b, 0usize),
            Located::Song(a, b, c) => (a, b, c),
        };
        paths_are_names_behind_backslashes(folders, a, b, c);
    }
    assert forall|i: usize| i < folders.len() && seq!['\\'] + (#[trigger] folders[i as int]).0.artist@
        == path implies named(folders, path, Located::Artist(i)) by {
        paths_are_names_behind_backslashes(folders, i, 0, 0);
    }
    assert forall|i: usize, j: usize| i < folders.len() && j < folders[i as int].1@.len() && seq!['\\']
        + folders[i as int].0.artist@ + seq!['\\'] + (#[trigger] folders[i as int].1@[j as int]).album@
        == path implies named(folders, path, Located::Album(i, j)) by {
        paths_are_names_behind_backslashes(folders, i, j, 0);
    }
    assert forall|i: usize, j: usize, k: usize| i < folders.len() && j < folders[i as int].1@.len() && k < folders[i as int].1@[j as int].songs@.len() && seq!['\\']
        + folders[i as int].0.artist@ + seq!['\\'] + folders[i as int].1@[j as int].album@ + seq!['\\']
        + (#[trigger] folders[i as int].1@[j as int].songs@[k as int]).filename()
        == path implies named(folders, path, Located::Song(i, j, k)) by {
        paths_are_names_behind_backslashes(folders, i, j, k);
    }
}

/// What is read under a path is a song with that path, and no song that comes after it has; where
/// nothing is read, no song has that path.
pub proof fn path_is_read_from_the_last(
    folders: Seq<(IdentifiedArtist, Vec<IdentifiedAlbum>)>,
    path: Seq<char>,
)
    ensures
        match read_at(folders, path) {
            Some(at) => {
                &&& at matches Located::Song(a, b, c)
                &&& a < folders.len() && b < folders[a as int].1@.len() && c < folders[a as int].1@[b as int].songs@.len()
                &&& seq!['\\'] + folders[a as int].0.artist@ + seq!['\\'] + folders[a as int].1@[b as int].album@ + seq!['\\'] + folders[a as int].1@[b as int].songs@[c as int].filename() == path
                &&& song_at(folders, at) == folders[a as int].1@[b as int].songs@[c as int]
                &&& (forall|i: usize, j: usize, k: usize| i < folders.len() && j < folders[i as int].1@.len() && k < folders[i as int].1@[j as int].songs@.len() && (i > a || i == a && (j > b || j == b && k > c)) ==> seq!['\\'] + folders[i as int].0.artist@ + seq!['\\'] + folders[i as int].1@[j as int].album@ + seq!['\\'] + (#[trigger] folders[i as int].1@[j as int].songs@[k as int]).filename() != path)
            },
            None => (forall|i: usize, j: usize, k: usize| i < folders.len() && j < folders[i as int].1@.len() && k < folders[i as int].1@[j as int].songs@.len() ==> seq!['\\'] + folders[i as int].0.artist@ + seq!['\\'] + folders[i as int].1@[j as int].album@ + seq!['\\'] + (#[trigger] folders[i as int].1@[j as int].songs@[k as int]).filename() != path),
        },
{
    let found = read_at(folders, path);
    assert forall|at: Located| #[trigger] song_named(folders, path, at) implies found is Some
        && !precedes(found->0, at) by {
        song_named_is_read(folders, path, at);
        assert(is_last_song(folders, path, found->0));
    }
    found_has_path(folders, path);
    if let Some(Located::Song(a, b, c)) = found {
        paths_are_names_behind_backslashes(folders, a, b, c);
    }
    assert forall|i: usize, j: usize, k: usize| i < folders.len() && j < folders[i as int].1@.len() && k < folders[i as int].1@[j as int].songs@.len() && seq!['\\']
        + folders[i as int].0.artist@ + seq!['\\'] + folders[i as int].1@[j as int].album@ + seq!['\\']
        + (#[trigger] folders[i as int].1@[j as int].songs@[k as int]).filename()
        == path implies song_named(folders, path, Located::Song(i, j, k)) by {
        paths_are_names_behind_backslashes(folders, i, j, k);
    }
}

/// The only song with a path is what is read under that path, and its own URL is the one that is
/// read from.
pub proof fn the_only_song_is_read(
    folders: Seq<(IdentifiedArtist, Vec<IdentifiedAlbum>)>,
    path: Seq<char>,
    a: usize,
    b: usize,
    c: usize,
)
    requires
        a < folders.len() && b < folders[a as int].1@.len() && c < folders[a as int].1@[b as int].songs@.len(),
        seq!['\\'] + folders[a as int].0.artist@ + seq!['\\'] + folders[a as int].1@[b as int].album@ + seq!['\\'] + folders[a as int].1@[b as int].songs@[c as int].filename() == path,
        (forall|i: usize, j: usize, k: usize| i < folders.len() && j < folders[i as int].1@.len() && k < folders[i as int].1@[j as int].songs@.len() && !(i == a && j == b && k == c) ==> seq!['\\'] + folders[i as int].0.artist@ + seq!['\\'] + folders[i as int].1@[j as int].album@ + seq!['\\'] + (#[trigger] folders[i as int].1@[j as int].songs@[k as int]).filename() != path),
    ensures
        read_at(folders, path) == Some(Located::Song(a, b, c)),
        song_at(folders, read_at(folders, path)->0)
            == folders[a as int].1@[b as int].songs@[c as int],
{
    path_is_read_from_the_last(folders, path);
    let song = folders[a as int].1@[b as int].songs@[c as int];
    assert(song.filename() == song.filename());
    if let Some(Located::Song(i, j, k)) = read_at(folders, path) {
        let other = folders[i as int].1@[j as int].songs@[k as int];
        assert(other.filename() == other.filename());
    }
}

/// A path can be read from exactly if every song with that path has a URL.
pub proof fn songs_with_urls_can_be_read(
    folders: Seq<(IdentifiedArtist, Vec<IdentifiedAlbum>)>,
    path: Seq<char>,
)
    ensures
        readable(folders, path) <==> forall|i: usize, j: usize, k: usize|
            i < folders.len() && j < folders[i as int].1@.len() && k < folders[i as int].1@[j as int].songs@.len() && seq!['\\'] + folders[i as int].0.artist@ + seq!['\\']
                + folders[i as int].1@[j as int].album@ + seq!['\\'] + (
            #[trigger] folders[i as int].1@[j as int].songs@[k as int]).filename() == path
                ==> folders[i as int].1@[j as int].songs@[k as int].url is Some,
{
    if readable(folders, path) {
        assert forall|i: usize, j: usize, k: usize|
            i < folders.len() && j < folders[i as int].1@.len() && k < folders[i as int].1@[j as int].songs@.len() && seq!['\\'] + folders[i as int].0.artist@ + seq!['\\']
                + folders[i as int].1@[j as int].album@ + seq!['\\'] + (
            #[trigger] folders[i as int].1@[j as int].songs@[k as int]).filename() == path
            implies folders[i as int].1@[j as int].songs@[k as int].url is Some by {
            paths_are_names_behind_backslashes(folders, i, j, k);
            assert(song_named(folders, path, Located::Song(i, j, k)));
        }
    }
    if forall|i: usize, j: usize, k: usize|
        i < folders.len() && j < folders[i as int].1@.len() && k < folders[i as int].1@[j as int].songs@.len() && seq!['\\'] + folders[i as int].0.artist@ + seq!['\\']
            + folders[i as int].1@[j as int].album@ + seq!['\\'] + (
        #[trigger] folders[i as int].1@[j as int].songs@[k as int]).filename() == path
            ==> folders[i as int].1@[j as int].songs@[k as int].url is Some {
        assert forall|at: Located| #[trigger] song_named(folders, path, at) implies song_at(
            folders,
            at,
        ).url is Some by {
            if let Located::Song(i, j, k) = at {
                paths_are_names_behind_backslashes(folders, i, j, k);
                let song = folders[i as int].1@[j as int].songs@[k as int];
                assert(song.filename() == song.filename());
            }
        }
    }
}

/// The root, a backslash, shows all artists and nothing else; any other path shows the albums of the
/// artists with that path and the songs of the albums with that path; all of them in their order.
pub proof fn folder_shows_what_is_in_it(
    folders: Seq<(IdentifiedArtist, Vec<IdentifiedAlbum>)>,
    path: Seq<char>,
)
    requires
        folders.len() <= usize::MAX,
    ensures
        forall|i: usize|
            #[trigger] listing(folders, path).contains(Located::Artist(i)) <==> i < folders.len() && path
                == seq!['\\'],
        forall|i: usize, j: usize|
            #[trigger] listing(folders, path).contains(Located::Album(i, j)) <==> i < folders.len() && j < folders[i as int].1@.len()
                && path != seq!['\\'] && path == seq!['\\'] + folders[i as int].0.artist@,
        forall|i: usize, j: usize, k: usize|
            #[trigger] listing(folders, path).contains(Located::Song(i, j, k))
                <==> i < folders.len() && j < folders[i as int].1@.len() && k < folders[i as int].1@[j as int].songs@.len() && path == seq!['\\'] + folders[i as int].0.artist@ + seq!['\\'] + folders[i as int].1@[j as int].album@,
        forall|a: int, b: int|
            0 <= a < b < listing(folders, path).len() ==> match (
                #[trigger] listing(folders, path)[a],
                #[trigger] listing(folders, path)[b],
            ) {
                (Located::Artist(i), Located::Artist(p)) => i < p,
                (Located::Album(i, j), Located::Album(p, q)) => i < p || i == p && j < q,
                (Located::Song(i, j, k), Located::Song(p, q, r)) => i < p || i == p && (j < q || j
                    == q && k < r),
                _ => true,
            },
{
    listing_exists(folders, path);
    let list = listing(folders, path);
    assert forall|i: usize| #[trigger] list.contains(Located::Artist(i)) <==> i < folders.len() && path
        == seq!['\\'] by {
        paths_are_names_behind_backslashes(folders, i, 0, 0);
        assert(list.contains(Located::Artist(i)) <==> shown_in(folders, path, Located::Artist(i)));
    }
    assert forall|i: usize, j: usize|
        #[trigger] list.contains(Located::Album(i, j)) <==> i < folders.len() && j < folders[i as int].1@.len()
            && path != seq!['\\'] && path == seq!['\\'] + folders[i as int].0.artist@ by {
        paths_are_names_behind_backslashes(folders, i, j, 0);
        let at = Located::Album(i, j);
        assert(list.contains(at) <==> shown_in(folders, path, at));
    }
    assert forall|i: usize, j: usize, k: usize|
        #[trigger] list.contains(Located::Song(i, j, k)) <==> i < folders.len() && j < folders[i as int].1@.len() && k < folders[i as int].1@[j as int].songs@.len()
            && path == seq!['\\'] + folders[i as int].0.artist@ + seq!['\\'] + folders[i as int].1@[j as int].album@ by {
        paths_are_names_behind_backslashes(folders, i, j, k);
        let at = Located::Song(i, j, k);
        assert(list.contains(at) <==> shown_in(folders, path, at));
        assert((seq!['\\'] + folders[i as int].0.artist@ + seq!['\\'] + folders[i as int].1@[j as int].album@).len() >= 2);
    }
    assert forall|a: int, b: int| 0 <= a < b < list.len() implies match (
        #[trigger] list[a],
        #[trigger] list[b],
    ) {
        (Located::Artist(i), Located::Artist(p)) => i < p,
        (Located::Album(i, j), Located::Album(p, q)) => i < p || i == p && j < q,
        (Located::Song(i, j, k), Located::Song(p, q, r)) => i < p || i == p && (j < q || j == q && k
            < r),
        _ => true,
    } by {
        assert(precedes(list[a], list[b]));
        assert(coordinates(list[a]) == coordinates(list[a]));
    }
}

} // verus!
