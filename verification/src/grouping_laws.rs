//! What holds of sorting albums into folders: there is one way to do it, and no album is lost or
//! shown twice.

use crate::subsonic::{albums_of, first_of, grouped, is_first, IdentifiedAlbum, IdentifiedArtist};
use vstd::prelude::*;

verus! {

/// Two growing sequences of the same numbers begin in the same way.
proof fn growing_unique(a: Seq<int>, b: Seq<int>, n: int)
    requires
        forall|i: int, j: int| 0 <= i < j < a.len() ==> #[trigger] a[i] < #[trigger] a[j],
        forall|i: int, j: int| 0 <= i < j < b.len() ==> #[trigger] b[i] < #[trigger] b[j],
        forall|i: int| 0 <= i < a.len() ==> b.contains(#[trigger] a[i]),
        forall|i: int| 0 <= i < b.len() ==> a.contains(#[trigger] b[i]),
        0 <= n <= a.len(),
    ensures
        n <= b.len(),
        forall|i: int| 0 <= i < n ==> #[trigger] a[i] == b[i],
    decreases n,
{
    if n > 0 {
        growing_unique(a, b, n - 1);
        let x = a[n - 1];
        let m = choose|m: int| 0 <= m < b.len() && b[m] == x;
        if m < n - 1 {
            assert(a[m] == b[m]);
            assert(a[m] < a[n - 1]);
        }
        if m > n - 1 {
            let y = b[n - 1];
            assert(y < b[m]);
            let l = choose|l: int| 0 <= l < a.len() && a[l] == y;
            if l < n - 1 {
                assert(a[l] == b[l]);
                assert(b[l] < b[n - 1]);
            } else if l > n - 1 {
                assert(a[n - 1] < a[l]);
            }
        }
    }
}

/// For each folder, where its artist first occurs.
spec fn firsts(
    pairs: Seq<(IdentifiedArtist, IdentifiedAlbum)>,
    folders: Seq<(IdentifiedArtist, Vec<IdentifiedAlbum>)>,
) -> Seq<int> {
    Seq::new(folders.len(), |i: int| first_of(pairs, folders[i].0.artist_id@))
}

/// The artists of one grouping occur in another one.
proof fn firsts_covered(
    pairs: Seq<(IdentifiedArtist, IdentifiedAlbum)>,
    folders: Seq<(IdentifiedArtist, Vec<IdentifiedAlbum>)>,
    others: Seq<(IdentifiedArtist, Vec<IdentifiedAlbum>)>,
)
    requires
        grouped(pairs, folders),
        grouped(pairs, others),
    ensures
        forall|i: int|
            0 <= i < folders.len() ==> firsts(pairs, others).contains(
                #[trigger] firsts(pairs, folders)[i],
            ),
{
    assert forall|i: int| 0 <= i < folders.len() implies firsts(pairs, others).contains(
        #[trigger] firsts(pairs, folders)[i],
    ) by {
        let id = folders[i].0.artist_id@;
        let k = first_of(pairs, id);
        assert(is_first(pairs, id, k));
        assert(pairs[k].0.artist_id@ == id);
        let j = choose|j: int|
            0 <= j < others.len() && (#[trigger] others[j]).0.artist_id@ == pairs[k].0.artist_id@;
        assert(firsts(pairs, others)[j] == firsts(pairs, folders)[i]);
    }
}

/// There is one way to sort albums into folders.
pub proof fn grouping_unique(
    pairs: Seq<(IdentifiedArtist, IdentifiedAlbum)>,
    folders: Seq<(IdentifiedArtist, Vec<IdentifiedAlbum>)>,
    others: Seq<(IdentifiedArtist, Vec<IdentifiedAlbum>)>,
)
    requires
        grouped(pairs, folders),
        grouped(pairs, others),
    ensures
        folders.len() == others.len(),
        forall|i: int|
            0 <= i < folders.len() ==> (#[trigger] folders[i]).0 == others[i].0 && folders[i].1@
                == others[i].1@,
{
    let a = firsts(pairs, folders);
    let b = firsts(pairs, others);
    firsts_covered(pairs, folders, others);
    firsts_covered(pairs, others, folders);
    growing_unique(a, b, a.len() as int);
    growing_unique(b, a, b.len() as int);
    assert forall|i: int| 0 <= i < folders.len() implies (#[trigger] folders[i]).0 == others[i].0
        && folders[i].1@ == others[i].1@ by {
        assert(a[i] == b[i]);
        let k = a[i];
        assert(is_first(pairs, folders[i].0.artist_id@, k));
        assert(is_first(pairs, others[i].0.artist_id@, k));
    }
}

/// No artist has two folders.
pub proof fn artists_distinct(
    pairs: Seq<(IdentifiedArtist, IdentifiedAlbum)>,
    folders: Seq<(IdentifiedArtist, Vec<IdentifiedAlbum>)>,
)
    requires
        grouped(pairs, folders),
    ensures
        forall|i: int, j: int|
            0 <= i < j < folders.len() ==> (#[trigger] folders[i]).0.artist_id@ != (
            #[trigger] folders[j]).0.artist_id@,
{
}

/// An album is among those of its artist.
proof fn albums_of_contains(pairs: Seq<(IdentifiedArtist, IdentifiedAlbum)>, k: int)
    requires
        0 <= k < pairs.len(),
    ensures
        albums_of(pairs, pairs[k].0.artist_id@).contains(pairs[k].1),
    decreases pairs.len(),
{
    let id = pairs[k].0.artist_id@;
    let before = albums_of(pairs.drop_last(), id);
    if k < pairs.len() - 1 {
        albums_of_contains(pairs.drop_last(), k);
        let j = choose|j: int| 0 <= j < before.len() && before[j] == pairs[k].1;
        assert(albums_of(pairs, id)[j] == pairs[k].1);
    } else {
        assert(albums_of(pairs, id)[before.len() as int] == pairs[k].1);
    }
}

/// What is among the albums of an artist is an album of the artist.
proof fn albums_of_from(
    pairs: Seq<(IdentifiedArtist, IdentifiedAlbum)>,
    id: Seq<char>,
    album: IdentifiedAlbum,
)
    requires
        albums_of(pairs, id).contains(album),
    ensures
        exists|k: int|
            0 <= k < pairs.len() && (#[trigger] pairs[k]).0.artist_id@ == id && pairs[k].1 == album,
    decreases pairs.len(),
{
    if pairs.len() > 0 {
        let rest = pairs.drop_last();
        let before = albums_of(rest, id);
        if pairs.last().0.artist_id@ == id && pairs.last().1 == album {
            assert(pairs[pairs.len() - 1].1 == album);
        } else {
            let j = choose|j: int| 0 <= j < albums_of(pairs, id).len() && albums_of(pairs, id)[j]
                == album;
            assert(before[j] == album);
            albums_of_from(rest, id, album);
            let k = choose|k: int|
                0 <= k < rest.len() && (#[trigger] rest[k]).0.artist_id@ == id && rest[k].1
                    == album;
            assert(pairs[k] == rest[k]);
        }
    }
}

/// Every album is in the folder of its artist.
pub proof fn album_is_placed(
    pairs: Seq<(IdentifiedArtist, IdentifiedAlbum)>,
    folders: Seq<(IdentifiedArtist, Vec<IdentifiedAlbum>)>,
    k: int,
)
    requires
        grouped(pairs, folders),
        0 <= k < pairs.len(),
    ensures
        exists|i: int|
            0 <= i < folders.len() && (#[trigger] folders[i]).0.artist_id@
                == pairs[k].0.artist_id@ && folders[i].1@.contains(pairs[k].1),
{
    assert(pairs[k].0.artist_id@ == pairs[k].0.artist_id@);
    let i = choose|i: int|
        0 <= i < folders.len() && (#[trigger] folders[i]).0.artist_id@ == pairs[k].0.artist_id@;
    albums_of_contains(pairs, k);
    assert(folders[i].1@.contains(pairs[k].1));
}

/// What is in a folder is an album of the folder's artist.
pub proof fn folder_holds_own_albums(
    pairs: Seq<(IdentifiedArtist, IdentifiedAlbum)>,
    folders: Seq<(IdentifiedArtist, Vec<IdentifiedAlbum>)>,
    i: int,
    album: IdentifiedAlbum,
)
    requires
        grouped(pairs, folders),
        0 <= i < folders.len(),
        folders[i].1@.contains(album),
    ensures
        exists|k: int|
            0 <= k < pairs.len() && (#[trigger] pairs[k]).0.artist_id@ == folders[i].0.artist_id@
                && pairs[k].1 == album,
{
    albums_of_from(pairs, folders[i].0.artist_id@, album);
}

/// How many albums there are in the folders.
pub open spec fn album_count(folders: Seq<(IdentifiedArtist, Vec<IdentifiedAlbum>)>) -> nat
    decreases folders.len(),
{
    if folders.len() == 0 {
        0
    } else {
        album_count(folders.drop_last()) + folders.last().1@.len()
    }
}

/// Whether the artist with the identifier `id` has a folder.
spec fn has_folder(
    folders: Seq<(IdentifiedArtist, Vec<IdentifiedAlbum>)>,
    id: Seq<char>,
) -> bool {
    exists|i: int| 0 <= i < folders.len() && (#[trigger] folders[i]).0.artist_id@ == id
}

/// How many of the albums are of the artists of the folders.
spec fn claimed(
    pairs: Seq<(IdentifiedArtist, IdentifiedAlbum)>,
    folders: Seq<(IdentifiedArtist, Vec<IdentifiedAlbum>)>,
) -> nat
    decreases folders.len(),
{
    if folders.len() == 0 {
        0
    } else {
        claimed(pairs, folders.drop_last()) + albums_of(
            pairs,
            folders.last().0.artist_id@,
        ).len()
    }
}

/// One more album is one more of an artist's, if the artist has a folder, and of no other.
proof fn claimed_step(
    pairs: Seq<(IdentifiedArtist, IdentifiedAlbum)>,
    folders: Seq<(IdentifiedArtist, Vec<IdentifiedAlbum>)>,
)
    requires
        pairs.len() > 0,
        forall|i: int, j: int|
            0 <= i < j < folders.len() ==> (#[trigger] folders[i]).0.artist_id@ != (
            #[trigger] folders[j]).0.artist_id@,
    ensures
        claimed(pairs, folders) == claimed(pairs.drop_last(), folders) + if has_folder(
            folders,
            pairs.last().0.artist_id@,
        ) {
            1nat
        } else {
            0nat
        },
    decreases folders.len(),
{
    if folders.len() > 0 {
        let rest = folders.drop_last();
        let id = pairs.last().0.artist_id@;
        assert forall|i: int, j: int| 0 <= i < j < rest.len() implies (
        #[trigger] rest[i]).0.artist_id@ != (#[trigger] rest[j]).0.artist_id@ by {
            assert(rest[i] == folders[i]);
            assert(rest[j] == folders[j]);
        }
        claimed_step(pairs, rest);
        if has_folder(rest, id) {
            let i = choose|i: int| 0 <= i < rest.len() && (#[trigger] rest[i]).0.artist_id@ == id;
            assert(folders[i] == rest[i]);
            assert(folders[folders.len() - 1].0.artist_id@ != id);
        } else if folders.last().0.artist_id@ == id {
            assert(folders[folders.len() - 1].0.artist_id@ == id);
        } else {
            assert forall|i: int| 0 <= i < folders.len() implies (
            #[trigger] folders[i]).0.artist_id@ != id by {
                if i < rest.len() {
                    assert(rest[i] == folders[i]);
                }
            }
        }
    }
}

/// Where every artist has a folder, every album is one of the artists' of the folders.
proof fn claimed_all(
    pairs: Seq<(IdentifiedArtist, IdentifiedAlbum)>,
    folders: Seq<(IdentifiedArtist, Vec<IdentifiedAlbum>)>,
)
    requires
        forall|k: int|
            0 <= k < pairs.len() ==> has_folder(folders, (#[trigger] pairs[k]).0.artist_id@),
        forall|i: int, j: int|
            0 <= i < j < folders.len() ==> (#[trigger] folders[i]).0.artist_id@ != (
            #[trigger] folders[j]).0.artist_id@,
    ensures
        claimed(pairs, folders) == pairs.len(),
    decreases pairs.len(),
{
    if pairs.len() > 0 {
        let rest = pairs.drop_last();
        assert forall|k: int| 0 <= k < rest.len() implies has_folder(
            folders,
            (#[trigger] rest[k]).0.artist_id@,
        ) by {
            assert(rest[k] == pairs[k]);
        }
        claimed_all(rest, folders);
        claimed_step(pairs, folders);
        assert(pairs[pairs.len() - 1] == pairs.last());
    } else {
        claimed_none(pairs, folders);
    }
}

/// Without albums no artist has one.
proof fn claimed_none(
    pairs: Seq<(IdentifiedArtist, IdentifiedAlbum)>,
    folders: Seq<(IdentifiedArtist, Vec<IdentifiedAlbum>)>,
)
    requires
        pairs.len() == 0,
    ensures
        claimed(pairs, folders) == 0,
    decreases folders.len(),
{
    if folders.len() > 0 {
        claimed_none(pairs, folders.drop_last());
    }
}

/// The folders' own albums are those of their artists.
proof fn claimed_is_count(
    pairs: Seq<(IdentifiedArtist, IdentifiedAlbum)>,
    folders: Seq<(IdentifiedArtist, Vec<IdentifiedAlbum>)>,
)
    requires
        forall|i: int|
            0 <= i < folders.len() ==> (#[trigger] folders[i]).1@ == albums_of(
                pairs,
                folders[i].0.artist_id@,
            ),
    ensures
        claimed(pairs, folders) == album_count(folders),
    decreases folders.len(),
{
    if folders.len() > 0 {
        let rest = folders.drop_last();
        assert forall|i: int| 0 <= i < rest.len() implies (#[trigger] rest[i]).1@ == albums_of(
            pairs,
            rest[i].0.artist_id@,
        ) by {
            assert(rest[i] == folders[i]);
        }
        claimed_is_count(pairs, rest);
        assert(folders[folders.len() - 1] == folders.last());
    }
}

/// There are as many albums in the folders as there are albums: none is lost, and none is there
/// twice.
pub proof fn no_album_lost(
    pairs: Seq<(IdentifiedArtist, IdentifiedAlbum)>,
    folders: Seq<(IdentifiedArtist, Vec<IdentifiedAlbum>)>,
)
    requires
        grouped(pairs, folders),
    ensures
        album_count(folders) == pairs.len(),
{
    artists_distinct(pairs, folders);
    assert forall|k: int| 0 <= k < pairs.len() implies has_folder(
        folders,
        (#[trigger] pairs[k]).0.artist_id@,
    ) by {
        album_is_placed(pairs, folders, k);
    }
    claimed_all(pairs, folders);
    claimed_is_count(pairs, folders);
}

} // verus!
