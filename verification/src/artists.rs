//! The artist index: albums filed under each of their artist names, merged
//! in batch by batch as albums arrive and rebuilt when the split rules
//! change.

use vstd::prelude::*;
use crate::library::{Album, AlbumView, Artist, ArtistView, album_views, artist_views, string_views};
use crate::order::{artist_name_keys, is_stable_order, is_stable_sort_of, lemma_stable_sort_unique, sort_artists_by_name};
use crate::text::same_text;

verus! {

/// The last position of an artist named `name`, if there is one.
pub open spec fn find_artist(artists: Seq<ArtistView>, name: Seq<char>) -> Option<int>
    decreases artists.len(),
{
    if artists.len() == 0 {
        None
    } else if artists.last().name == name {
        Some(artists.len() - 1)
    } else {
        find_artist(artists.drop_last(), name)
    }
}

/// Files `album` under the artist called `name`: appended to that artist's
/// albums when there is one, else under a new artist entry at the end.
pub open spec fn file_album(artists: Seq<ArtistView>, name: Seq<char>, album: AlbumView) -> Seq<ArtistView> {
    match find_artist(artists, name) {
        Some(i) => artists.update(i, ArtistView { name: artists[i].name, albums: artists[i].albums.push(album) }),
        None => artists.push(ArtistView { name, albums: seq![album] }),
    }
}

/// Files `album` under each of `names`, in order.
pub open spec fn file_album_names(artists: Seq<ArtistView>, names: Seq<Seq<char>>, album: AlbumView) -> Seq<ArtistView>
    decreases names.len(),
{
    if names.len() == 0 {
        artists
    } else {
        file_album(file_album_names(artists, names.drop_last(), album), names.last(), album)
    }
}

/// Files each album of a batch under each of its artist names, album by
/// album.
pub open spec fn merge_batch(artists: Seq<ArtistView>, albums: Seq<AlbumView>, names: Seq<Seq<Seq<char>>>) -> Seq<ArtistView>
    decreases albums.len(),
{
    if albums.len() == 0 || names.len() == 0 {
        artists
    } else {
        file_album_names(merge_batch(artists, albums.drop_last(), names.drop_last()), names.last(), albums.last())
    }
}

/// The per-album artist name lists, as views.
pub open spec fn name_lists(names: Seq<Vec<String>>) -> Seq<Seq<Seq<char>>> {
    names.map_values(|v: Vec<String>| string_views(v@))
}

proof fn lemma_find_artist(artists: Seq<ArtistView>, name: Seq<char>)
    ensures
        find_artist(artists, name) matches Some(i) ==> 0 <= i < artists.len() && artists[i].name == name
            && forall|k: int| i < k < artists.len() ==> artists[k].name != name,
        find_artist(artists, name) is None ==> forall|k: int| 0 <= k < artists.len() ==> artists[k].name != name,
    decreases artists.len(),
{
    if artists.len() > 0 && artists.last().name != name {
        lemma_find_artist(artists.drop_last(), name);
        assert forall|k: int| 0 <= k < artists.len() - 1 implies artists.drop_last()[k] == #[trigger] artists[k] by {}
    }
}

proof fn lemma_file_album_shape(artists: Seq<ArtistView>, name: Seq<char>, album: AlbumView)
    ensures
        find_artist(artists, name) is Some ==> file_album(artists, name, album).len() == artists.len(),
        find_artist(artists, name) is None ==> file_album(artists, name, album).len() == artists.len() + 1
            && file_album(artists, name, album)[artists.len() as int].name == name,
        forall|k: int| 0 <= k < artists.len() ==> (#[trigger] file_album(artists, name, album)[k]).name == artists[k].name,
{
    lemma_find_artist(artists, name);
}

/// The last position of an artist named `name`.
fn find_artist_exec(artists: &Vec<Artist>, name: &String) -> (r: Option<usize>)
    ensures
        r matches Some(i) ==> find_artist(artist_views(artists@), name@) == Some(i as int),
        r is None ==> find_artist(artist_views(artists@), name@) is None,
{
    let ghost views = artist_views(artists@);
    let mut j: usize = artists.len();
    assert(views.subrange(0, j as int) =~= views);
    while j > 0
        invariant
            j <= artists.len(),
            views == artist_views(artists@),
            find_artist(views, name@) == find_artist(views.subrange(0, j as int), name@),
        decreases j,
    {
        assert(views.subrange(0, j as int).last() == artists@[j - 1]@);
        assert(views.subrange(0, j as int).drop_last() =~= views.subrange(0, j - 1));
        if same_text(artists[j - 1].name.as_str(), name.as_str()) {
            return Some(j - 1);
        }
        j -= 1;
    }
    None
}

/// Files `album` under the artist called `name`; tells whether a new
/// artist entry was made.
fn file_album_exec(artists: &mut Vec<Artist>, name: &String, album: &Album) -> (created: bool)
    ensures
        artist_views(final(artists)@) == file_album(artist_views(old(artists)@), name@, album@),
        created == (find_artist(artist_views(old(artists)@), name@) is None),
{
    let ghost before = artist_views(artists@);
    match find_artist_exec(artists, name) {
        Some(i) => {
            proof {
                lemma_find_artist(before, name@);
            }
            let mut entry = artists.remove(i);
            let ghost entry_view = entry@;
            entry.albums.push(album.duplicate());
            assert(album_views(entry.albums@) =~= entry_view.albums.push(album@));
            artists.insert(i, entry);
            assert(artist_views(artists@) =~= before.update(
                i as int,
                ArtistView { name: before[i as int].name, albums: before[i as int].albums.push(album@) },
            ));
            false
        },
        None => {
            let mut albums: Vec<Album> = Vec::new();
            albums.push(album.duplicate());
            assert(album_views(albums@) =~= seq![album@]);
            artists.push(Artist { name: name.clone(), albums });
            assert(artist_views(artists@) =~= before.push(ArtistView { name: name@, albums: seq![album@] }));
            true
        },
    }
}

/// Incrementally merges a batch of albums into the artist index: each
/// album is filed under each of its artist names (`names[i]` for
/// `new_albums[i]`), appended to the last artist entry of that name or
/// under a new entry at the end. Returns the names of the entries made,
/// in order.
pub fn merge_artists_from_batch(artists: &mut Vec<Artist>, new_albums: &Vec<Album>, names: &Vec<Vec<String>>) -> (created: Vec<String>)
    requires
        names@.len() == new_albums@.len(),
    ensures
        artist_views(final(artists)@) == merge_batch(artist_views(old(artists)@), album_views(new_albums@), name_lists(names@)),
        final(artists)@.len() == old(artists)@.len() + created@.len(),
        forall|k: int| 0 <= k < created@.len() ==> (#[trigger] created@[k])@ == final(artists)@[old(artists)@.len() + k].name@,
{
    let ghost start_len = artists@.len();
    let mut created: Vec<String> = Vec::new();
    let mut i: usize = 0;
    while i < new_albums.len()
        invariant
            names@.len() == new_albums@.len(),
            i <= new_albums.len(),
            artist_views(artists@) == merge_batch(
                artist_views(old(artists)@),
                album_views(new_albums@).take(i as int),
                name_lists(names@).take(i as int),
            ),
            start_len == old(artists)@.len(),
            artists@.len() == start_len + created@.len(),
            forall|k: int| 0 <= k < created@.len() ==> (#[trigger] created@[k])@ == artists@[start_len + k].name@,
        decreases new_albums.len() - i,
    {
        let album = &new_albums[i];
        let album_names = &names[i];
        let ghost before_album = artist_views(artists@);
        let mut n: usize = 0;
        while n < album_names.len()
            invariant
                n <= album_names.len(),
                artist_views(artists@) == file_album_names(before_album, string_views(album_names@).take(n as int), album@),
                artists@.len() == start_len + created@.len(),
                forall|k: int| 0 <= k < created@.len() ==> (#[trigger] created@[k])@ == artists@[start_len + k].name@,
            decreases album_names.len() - n,
        {
            let name = &album_names[n];
            let ghost prev = artists@;
            let made = file_album_exec(artists, name, album);
            if made {
                created.push(name.clone());
            }
            proof {
                lemma_file_album_shape(artist_views(prev), name@, album@);
                assert(string_views(album_names@).take(n + 1).drop_last() =~= string_views(album_names@).take(n as int));
                assert forall|k: int| 0 <= k < created@.len() implies (#[trigger] created@[k])@ == artists@[start_len + k].name@ by {
                    assert(artist_views(artists@)[start_len + k] == artists@[start_len + k]@);
                    if start_len + k < prev.len() {
                        assert(artist_views(prev)[start_len + k] == prev[start_len + k]@);
                        assert(artist_views(artists@)[start_len + k].name == artist_views(prev)[start_len + k].name);
                    }
                }
            }
            n += 1;
        }
        proof {
            assert(string_views(album_names@).take(album_names@.len() as int) =~= string_views(album_names@));
            assert(album_views(new_albums@).take(i + 1).drop_last() =~= album_views(new_albums@).take(i as int));
            assert(name_lists(names@).take(i + 1).drop_last() =~= name_lists(names@).take(i as int));
            assert(name_lists(names@)[i as int] == string_views(album_names@));
        }
        i += 1;
    }
    assert(album_views(new_albums@).take(new_albums@.len() as int) =~= album_views(new_albums@));
    assert(name_lists(names@).take(names@.len() as int) =~= name_lists(names@));
    created
}

/// Each album's own primary artist as its only name: the name lists used
/// when artist tags are not split.
pub fn primary_artist_names(albums: &Vec<Album>) -> (names: Vec<Vec<String>>)
    ensures
        names@.len() == albums@.len(),
        forall|i: int| 0 <= i < albums@.len() ==> string_views((#[trigger] names@[i])@) == seq![albums@[i].artist@],
{
    let mut names: Vec<Vec<String>> = Vec::new();
    let mut i: usize = 0;
    while i < albums.len()
        invariant
            i <= albums.len(),
            names@.len() == i,
            forall|k: int| 0 <= k < i ==> string_views((#[trigger] names@[k])@) == seq![albums@[k].artist@],
        decreases albums.len() - i,
    {
        let mut one: Vec<String> = Vec::new();
        one.push(albums[i].artist.clone());
        assert(string_views(one@) =~= seq![albums@[i as int].artist@]);
        names.push(one);
        i += 1;
    }
    names
}

/// Rebuilds the artist index from scratch: every album is filed under
/// each of its names (`names[i]` for `albums[i]`) into an empty index,
/// which is then sorted by artist name, keeping the order of equal names.
pub fn rebuild_all_artists(albums: &Vec<Album>, names: &Vec<Vec<String>>) -> (artists: Vec<Artist>)
    requires
        names@.len() == albums@.len(),
    ensures
        is_stable_sort_of(
            merge_batch(Seq::empty(), album_views(albums@), name_lists(names@)),
            artist_views(artists@),
            artist_name_keys(merge_batch(Seq::empty(), album_views(albums@), name_lists(names@))),
        ),
{
    let mut artists: Vec<Artist> = Vec::new();
    assert(artist_views(artists@) =~= Seq::<ArtistView>::empty());
    let _ = merge_artists_from_batch(&mut artists, albums, names);
    sort_artists_by_name(&mut artists);
    artists
}


/// No two artist entries share a name.
pub open spec fn names_unique(artists: Seq<ArtistView>) -> bool {
    forall|a: int, b: int| 0 <= a < b < artists.len() ==> artists[a].name != artists[b].name
}

/// Artist `name` holds `album` somewhere in `artists`.
pub open spec fn filed_under(artists: Seq<ArtistView>, name: Seq<char>, album: AlbumView) -> bool {
    exists|k: int| 0 <= k < artists.len() && artists[k].name == name && (#[trigger] artists[k].albums).contains(album)
}

proof fn lemma_file_album_grows(artists: Seq<ArtistView>, name: Seq<char>, album: AlbumView)
    ensures
        names_unique(artists) ==> names_unique(file_album(artists, name, album)),
        filed_under(file_album(artists, name, album), name, album),
        forall|n: Seq<char>, a: AlbumView| filed_under(artists, n, a) ==> #[trigger] filed_under(file_album(artists, name, album), n, a),
{
    lemma_find_artist(artists, name);
    lemma_file_album_shape(artists, name, album);
    let r = file_album(artists, name, album);
    match find_artist(artists, name) {
        Some(i) => {
            assert(r[i].albums[r[i].albums.len() - 1] == album);
            assert(filed_under(r, name, album)) by {
                assert(r[i].albums.contains(album));
            }
            assert forall|n: Seq<char>, a: AlbumView| filed_under(artists, n, a) implies #[trigger] filed_under(r, n, a) by {
                let k = choose|k: int| 0 <= k < artists.len() && artists[k].name == n && (#[trigger] artists[k].albums).contains(a);
                let m = choose|m: int| 0 <= m < artists[k].albums.len() && artists[k].albums[m] == a;
                if k == i {
                    assert(r[k].albums[m] == a);
                } else {
                    assert(r[k] == artists[k]);
                }
                assert(r[k].albums.contains(a));
            }
        },
        None => {
            let last = artists.len() as int;
            assert(r[last].albums[0] == album);
            assert(filed_under(r, name, album)) by {
                assert(r[last].albums.contains(album));
            }
            assert forall|n: Seq<char>, a: AlbumView| filed_under(artists, n, a) implies #[trigger] filed_under(r, n, a) by {
                let k = choose|k: int| 0 <= k < artists.len() && artists[k].name == n && (#[trigger] artists[k].albums).contains(a);
                assert(r[k] == artists[k]);
            }
        },
    }
}

proof fn lemma_file_album_names_grows(artists: Seq<ArtistView>, names: Seq<Seq<char>>, album: AlbumView)
    ensures
        names_unique(artists) ==> names_unique(file_album_names(artists, names, album)),
        forall|j: int| 0 <= j < names.len() ==> filed_under(file_album_names(artists, names, album), #[trigger] names[j], album),
        forall|n: Seq<char>, a: AlbumView| filed_under(artists, n, a) ==> #[trigger] filed_under(file_album_names(artists, names, album), n, a),
    decreases names.len(),
{
    if names.len() > 0 {
        let prev = file_album_names(artists, names.drop_last(), album);
        lemma_file_album_names_grows(artists, names.drop_last(), album);
        lemma_file_album_grows(prev, names.last(), album);
        assert forall|j: int| 0 <= j < names.len() implies filed_under(file_album_names(artists, names, album), #[trigger] names[j], album) by {
            if j < names.len() - 1 {
                assert(names.drop_last()[j] == names[j]);
                assert(filed_under(prev, names[j], album));
            }
        }
    }
}

/// Merging a batch keeps artist names unique, files every album under
/// every one of its names, and keeps every album that was already filed
/// where it was.
pub proof fn lemma_merge_batch_files_every_album(
    artists: Seq<ArtistView>,
    albums: Seq<AlbumView>,
    names: Seq<Seq<Seq<char>>>,
)
    requires
        names.len() == albums.len(),
    ensures
        names_unique(artists) ==> names_unique(merge_batch(artists, albums, names)),
        forall|i: int, j: int| 0 <= i < albums.len() && 0 <= j < names[i].len()
            ==> filed_under(merge_batch(artists, albums, names), #[trigger] names[i][j], #[trigger] albums[i]),
        forall|n: Seq<char>, a: AlbumView| filed_under(artists, n, a) ==> #[trigger] filed_under(merge_batch(artists, albums, names), n, a),
    decreases albums.len(),
{
    if albums.len() > 0 {
        let prev = merge_batch(artists, albums.drop_last(), names.drop_last());
        lemma_merge_batch_files_every_album(artists, albums.drop_last(), names.drop_last());
        lemma_file_album_names_grows(prev, names.last(), albums.last());
        assert forall|i: int, j: int| 0 <= i < albums.len() && 0 <= j < names[i].len() implies
            filed_under(merge_batch(artists, albums, names), #[trigger] names[i][j], #[trigger] albums[i]) by {
            if i < albums.len() - 1 {
                assert(names.drop_last()[i] == names[i]);
                assert(albums.drop_last()[i] == albums[i]);
                assert(filed_under(prev, names[i][j], albums[i]));
            } else {
                assert(names.last() == names[i]);
            }
        }
    }
}

/// The rebuilt artist index depends on the albums and their names alone:
/// two rebuilds from the same albums give the same index, whatever index
/// stood before, and no two of its artists share a name.
pub proof fn lemma_rebuild_is_repeatable(
    albums: Seq<AlbumView>,
    names: Seq<Seq<Seq<char>>>,
    first: Seq<ArtistView>,
    second: Seq<ArtistView>,
)
    requires
        names.len() == albums.len(),
        is_stable_sort_of(
            merge_batch(Seq::empty(), albums, names),
            first,
            artist_name_keys(merge_batch(Seq::empty(), albums, names)),
        ),
        is_stable_sort_of(
            merge_batch(Seq::empty(), albums, names),
            second,
            artist_name_keys(merge_batch(Seq::empty(), albums, names)),
        ),
    ensures
        first == second,
        names_unique(first),
{
    let merged = merge_batch(Seq::empty(), albums, names);
    let keys = artist_name_keys(merged);
    lemma_stable_sort_unique(merged, first, second, keys);
    lemma_merge_batch_files_every_album(Seq::empty(), albums, names);
    assert(names_unique(Seq::<ArtistView>::empty()));
    let p = choose|perm: Seq<usize>| #[trigger] is_stable_order(keys, perm) && first == perm.map_values(|j: usize| merged[j as int]);
    assert(keys.len() == merged.len());
    assert forall|a: int, b: int| 0 <= a < b < first.len() implies first[a].name != first[b].name by {
        assert(first[a] == merged[p[a] as int]);
        assert(first[b] == merged[p[b] as int]);
        assert(p[a] != p[b]);
        if (p[a] as int) < (p[b] as int) {
            assert(merged[p[a] as int].name != merged[p[b] as int].name);
        } else {
            assert(merged[p[b] as int].name != merged[p[a] as int].name);
        }
    }
}

} // verus!
