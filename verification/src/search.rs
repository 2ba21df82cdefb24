//! Case-insensitive library search: which albums, artists, tracks,
//! playlists and genres match the query, and the maps that lead from a
//! filtered position back to the unfiltered lists.

use vstd::prelude::*;
use crate::library::{Album, AlbumView, Artist, ArtistView, Playlist, PlaylistView, Track, album_views, artist_views, playlist_views, string_views};
use crate::text::{chars_of, contains_exec, contains_text, lowercase, lowercased, trim_text, trimmed};

verus! {

/// Translates a position in a search-filtered list back to its index in
/// the corresponding unfiltered list; passes the position through when
/// there is no map (search inactive or the query is empty).
pub fn unfilter_index(map: Option<&[usize]>, i: usize) -> (r: usize)
    requires
        map matches Some(m) ==> i < m@.len(),
    ensures
        r == match map {
            Some(m) => m@[i as int],
            None => i,
        },
{
    match map {
        Some(m) => m[i],
        None => i,
    }
}

/// The positions `0 <= i < n` at which `keep` holds, in increasing order.
pub open spec fn positions(n: nat, keep: spec_fn(int) -> bool) -> Seq<usize>
    decreases n,
{
    if n == 0 {
        Seq::empty()
    } else {
        let earlier = positions((n - 1) as nat, keep);
        if keep(n - 1) {
            earlier.push((n - 1) as usize)
        } else {
            earlier
        }
    }
}

/// The positions kept are increasing, below `n`, and exactly those at which
/// `keep` holds.
pub proof fn lemma_positions(n: nat, keep: spec_fn(int) -> bool)
    requires
        n <= usize::MAX,
    ensures
        forall|a: int, b: int|
            0 <= a < b < positions(n, keep).len() ==> positions(n, keep)[a] < positions(n, keep)[b],
        forall|a: int| 0 <= a < positions(n, keep).len() ==> positions(n, keep)[a] < n,
        forall|a: int| 0 <= a < positions(n, keep).len() ==> keep(positions(n, keep)[a] as int),
        forall|i: int| 0 <= i < n && #[trigger] keep(i) ==> positions(n, keep).contains(i as usize),
    decreases n,
{
    if n > 0 {
        lemma_positions((n - 1) as nat, keep);
        let earlier = positions((n - 1) as nat, keep);
        if keep(n - 1) {
            assert(positions(n, keep) == earlier.push((n - 1) as usize));
            assert forall|i: int| 0 <= i < n && #[trigger] keep(i) implies positions(n, keep).contains(i as usize) by {
                if i < n - 1 {
                    let k = choose|k: int| 0 <= k < earlier.len() && earlier[k] == i as usize;
                    assert(positions(n, keep)[k] == i as usize);
                } else {
                    assert(positions(n, keep)[earlier.len() as int] == i as usize);
                }
            }
        }
    }
}

/// The normalized search query: trimmed, then lowercased.
pub open spec fn normalized_query(query: Seq<char>) -> Seq<char> {
    lowercased(trimmed(query))
}

/// A text field matches the (normalized) query when its lowercase form
/// contains the query.
pub open spec fn field_matches(field: Seq<char>, q: Seq<char>) -> bool {
    contains_text(lowercased(field), q)
}

/// An album matches by name or by artist.
pub open spec fn album_matches(a: AlbumView, q: Seq<char>) -> bool {
    field_matches(a.name, q) || field_matches(a.artist, q)
}

/// An artist matches by name.
pub open spec fn artist_matches(a: ArtistView, q: Seq<char>) -> bool {
    field_matches(a.name, q)
}

/// A track matches by title, artist or album.
pub open spec fn track_matches(t: Track, q: Seq<char>) -> bool {
    field_matches(t.title@, q) || field_matches(t.artist@, q) || field_matches(t.album@, q)
}

/// A playlist matches by name.
pub open spec fn playlist_matches(p: PlaylistView, q: Seq<char>) -> bool {
    field_matches(p.name, q)
}

/// Whether the text `field`, lowercased, contains the query `q`.
fn field_matches_exec(field: &String, q: &Vec<char>) -> (r: bool)
    ensures
        r == field_matches(field@, q@),
{
    let low = lowercase(field.as_str());
    let chars = chars_of(low.as_str());
    contains_exec(&chars, q)
}

/// The albums that match `q`, with the index of each in `albums`.
pub fn filter_albums(albums: &Vec<Album>, q: &Vec<char>) -> (r: (Vec<Album>, Vec<usize>))
    ensures
        r.1@ == positions(albums@.len(), |i: int| album_matches(albums@[i]@, q@)),
        album_views(r.0@) == r.1@.map_values(|i: usize| albums@[i as int]@),
{
    let ghost keep = |i: int| album_matches(albums@[i]@, q@);
    let mut found: Vec<Album> = Vec::new();
    let mut map: Vec<usize> = Vec::new();
    let mut i: usize = 0;
    while i < albums.len()
        invariant
            i <= albums.len(),
            keep == (|i: int| album_matches(albums@[i]@, q@)),
            map@ == positions(i as nat, keep),
            found@.len() == map@.len(),
            forall|k: int| 0 <= k < found@.len() ==> #[trigger] found@[k]@ == albums@[map@[k] as int]@,
        decreases albums.len() - i,
    {
        let a = &albums[i];
        let hit = field_matches_exec(&a.name, q) || field_matches_exec(&a.artist, q);
        if hit {
            found.push(a.duplicate());
            map.push(i);
        }
        i += 1;
    }
    assert(album_views(found@) =~= map@.map_values(|i: usize| albums@[i as int]@));
    (found, map)
}

/// The artists that match `q`, with the index of each in `artists`.
pub fn filter_artists(artists: &Vec<Artist>, q: &Vec<char>) -> (r: (Vec<Artist>, Vec<usize>))
    ensures
        r.1@ == positions(artists@.len(), |i: int| artist_matches(artists@[i]@, q@)),
        artist_views(r.0@) == r.1@.map_values(|i: usize| artists@[i as int]@),
{
    let ghost keep = |i: int| artist_matches(artists@[i]@, q@);
    let mut found: Vec<Artist> = Vec::new();
    let mut map: Vec<usize> = Vec::new();
    let mut i: usize = 0;
    while i < artists.len()
        invariant
            i <= artists.len(),
            keep == (|i: int| artist_matches(artists@[i]@, q@)),
            map@ == positions(i as nat, keep),
            found@.len() == map@.len(),
            forall|k: int| 0 <= k < found@.len() ==> #[trigger] found@[k]@ == artists@[map@[k] as int]@,
        decreases artists.len() - i,
    {
        let a = &artists[i];
        if field_matches_exec(&a.name, q) {
            found.push(a.duplicate());
            map.push(i);
        }
        i += 1;
    }
    assert(artist_views(found@) =~= map@.map_values(|i: usize| artists@[i as int]@));
    (found, map)
}

/// The tracks that match `q`, with the index of each in `tracks`.
pub fn filter_tracks(tracks: &Vec<Track>, q: &Vec<char>) -> (r: (Vec<Track>, Vec<usize>))
    ensures
        r.1@ == positions(tracks@.len(), |i: int| track_matches(tracks@[i], q@)),
        r.0@ == r.1@.map_values(|i: usize| tracks@[i as int]),
{
    let ghost keep = |i: int| track_matches(tracks@[i], q@);
    let mut found: Vec<Track> = Vec::new();
    let mut map: Vec<usize> = Vec::new();
    let mut i: usize = 0;
    while i < tracks.len()
        invariant
            i <= tracks.len(),
            keep == (|i: int| track_matches(tracks@[i], q@)),
            map@ == positions(i as nat, keep),
            found@.len() == map@.len(),
            forall|k: int| 0 <= k < found@.len() ==> #[trigger] found@[k] == tracks@[map@[k] as int],
        decreases tracks.len() - i,
    {
        let t = &tracks[i];
        let hit = field_matches_exec(&t.title, q) || field_matches_exec(&t.artist, q)
            || field_matches_exec(&t.album, q);
        if hit {
            found.push(t.duplicate());
            map.push(i);
        }
        i += 1;
    }
    assert(found@ =~= map@.map_values(|i: usize| tracks@[i as int]));
    (found, map)
}

/// The playlists that match `q`, with the index of each in `playlists`.
pub fn filter_playlists(playlists: &Vec<Playlist>, q: &Vec<char>) -> (r: (Vec<Playlist>, Vec<usize>))
    ensures
        r.1@ == positions(playlists@.len(), |i: int| playlist_matches(playlists@[i]@, q@)),
        playlist_views(r.0@) == r.1@.map_values(|i: usize| playlists@[i as int]@),
{
    let ghost keep = |i: int| playlist_matches(playlists@[i]@, q@);
    let mut found: Vec<Playlist> = Vec::new();
    let mut map: Vec<usize> = Vec::new();
    let mut i: usize = 0;
    while i < playlists.len()
        invariant
            i <= playlists.len(),
            keep == (|i: int| playlist_matches(playlists@[i]@, q@)),
            map@ == positions(i as nat, keep),
            found@.len() == map@.len(),
            forall|k: int| 0 <= k < found@.len() ==> #[trigger] found@[k]@ == playlists@[map@[k] as int]@,
        decreases playlists.len() - i,
    {
        let p = &playlists[i];
        if field_matches_exec(&p.name, q) {
            found.push(p.duplicate());
            map.push(i);
        }
        i += 1;
    }
    assert(playlist_views(found@) =~= map@.map_values(|i: usize| playlists@[i as int]@));
    (found, map)
}

/// The genres that match `q`, with the index of each in `genres`.
pub fn filter_genres(genres: &Vec<String>, q: &Vec<char>) -> (r: (Vec<String>, Vec<usize>))
    ensures
        r.1@ == positions(genres@.len(), |i: int| field_matches(genres@[i]@, q@)),
        string_views(r.0@) == r.1@.map_values(|i: usize| genres@[i as int]@),
{
    let ghost keep = |i: int| field_matches(genres@[i]@, q@);
    let mut found: Vec<String> = Vec::new();
    let mut map: Vec<usize> = Vec::new();
    let mut i: usize = 0;
    while i < genres.len()
        invariant
            i <= genres.len(),
            keep == (|i: int| field_matches(genres@[i]@, q@)),
            map@ == positions(i as nat, keep),
            found@.len() == map@.len(),
            forall|k: int| 0 <= k < found@.len() ==> #[trigger] found@[k]@ == genres@[map@[k] as int]@,
        decreases genres.len() - i,
    {
        let g = &genres[i];
        if field_matches_exec(g, q) {
            found.push(g.clone());
            map.push(i);
        }
        i += 1;
    }
    assert(string_views(found@) =~= map@.map_values(|i: usize| genres@[i as int]@));
    (found, map)
}


/// Everything the library holds that the search bar filters.
pub struct Catalog {
    pub tracks: Vec<Track>,
    pub albums: Vec<Album>,
    pub artists: Vec<Artist>,
    pub playlists: Vec<Playlist>,
    pub genres: Vec<String>,
}

/// The filtered copies and, for each, the map from a filtered position to
/// the index of the same entry in the unfiltered list.
pub struct SearchResults {
    pub albums: Vec<Album>,
    pub album_map: Vec<usize>,
    pub artists: Vec<Artist>,
    pub artist_map: Vec<usize>,
    pub tracks: Vec<Track>,
    pub track_map: Vec<usize>,
    pub playlists: Vec<Playlist>,
    pub playlist_map: Vec<usize>,
    pub genres: Vec<String>,
    pub genre_map: Vec<usize>,
}

/// The album positions that match `q`.
pub open spec fn album_positions(c: &Catalog, q: Seq<char>) -> Seq<usize> {
    positions(c.albums@.len(), |i: int| album_matches(c.albums@[i]@, q))
}

/// The artist positions that match `q`.
pub open spec fn artist_positions(c: &Catalog, q: Seq<char>) -> Seq<usize> {
    positions(c.artists@.len(), |i: int| artist_matches(c.artists@[i]@, q))
}

/// The track positions that match `q`.
pub open spec fn track_positions(c: &Catalog, q: Seq<char>) -> Seq<usize> {
    positions(c.tracks@.len(), |i: int| track_matches(c.tracks@[i], q))
}

/// The playlist positions that match `q`.
pub open spec fn playlist_positions(c: &Catalog, q: Seq<char>) -> Seq<usize> {
    positions(c.playlists@.len(), |i: int| playlist_matches(c.playlists@[i]@, q))
}

/// The genre positions that match `q`.
pub open spec fn genre_positions(c: &Catalog, q: Seq<char>) -> Seq<usize> {
    positions(c.genres@.len(), |i: int| field_matches(c.genres@[i]@, q))
}

/// `r` is what searching `c` for the raw query text `query` gives: nothing
/// at all when the normalized query is empty; otherwise, for each kind of
/// entry, the matching positions in order and a copy of each such entry.
pub open spec fn is_search_result(c: &Catalog, query: Seq<char>, r: &SearchResults) -> bool {
    let q = normalized_query(query);
    if q.len() == 0 {
        &&& r.albums@.len() == 0 && r.album_map@.len() == 0
        &&& r.artists@.len() == 0 && r.artist_map@.len() == 0
        &&& r.tracks@.len() == 0 && r.track_map@.len() == 0
        &&& r.playlists@.len() == 0 && r.playlist_map@.len() == 0
        &&& r.genres@.len() == 0 && r.genre_map@.len() == 0
    } else {
        &&& r.album_map@ == album_positions(c, q)
        &&& album_views(r.albums@) == r.album_map@.map_values(|i: usize| c.albums@[i as int]@)
        &&& r.artist_map@ == artist_positions(c, q)
        &&& artist_views(r.artists@) == r.artist_map@.map_values(|i: usize| c.artists@[i as int]@)
        &&& r.track_map@ == track_positions(c, q)
        &&& r.tracks@ == r.track_map@.map_values(|i: usize| c.tracks@[i as int])
        &&& r.playlist_map@ == playlist_positions(c, q)
        &&& playlist_views(r.playlists@) == r.playlist_map@.map_values(|i: usize| c.playlists@[i as int]@)
        &&& r.genre_map@ == genre_positions(c, q)
        &&& string_views(r.genres@) == r.genre_map@.map_values(|i: usize| c.genres@[i as int]@)
    }
}

/// Every cache is empty.
pub open spec fn no_results(r: &SearchResults) -> bool {
    &&& r.albums@.len() == 0 && r.album_map@.len() == 0
    &&& r.artists@.len() == 0 && r.artist_map@.len() == 0
    &&& r.tracks@.len() == 0 && r.track_map@.len() == 0
    &&& r.playlists@.len() == 0 && r.playlist_map@.len() == 0
    &&& r.genres@.len() == 0 && r.genre_map@.len() == 0
}

/// Recomputes the search-filtered library caches for the query text:
/// the query is trimmed and lowercased; when that leaves it empty, every
/// cache is empty; otherwise each cache holds the entries whose fields,
/// lowercased, contain the query, with their unfiltered indices.
pub fn refresh_search_filter(catalog: &Catalog, query: &str) -> (r: SearchResults)
    ensures
        is_search_result(catalog, query@, &r),
        trimmed(query@).len() == 0 ==> no_results(&r),
{
    let trimmed_query = trim_text(query);
    let low = lowercase(trimmed_query.as_str());
    let q = chars_of(low.as_str());
    if q.len() == 0 {
        return SearchResults {
            albums: Vec::new(),
            album_map: Vec::new(),
            artists: Vec::new(),
            artist_map: Vec::new(),
            tracks: Vec::new(),
            track_map: Vec::new(),
            playlists: Vec::new(),
            playlist_map: Vec::new(),
            genres: Vec::new(),
            genre_map: Vec::new(),
        };
    }
    let (albums, album_map) = filter_albums(&catalog.albums, &q);
    let (artists, artist_map) = filter_artists(&catalog.artists, &q);
    let (tracks, track_map) = filter_tracks(&catalog.tracks, &q);
    let (playlists, playlist_map) = filter_playlists(&catalog.playlists, &q);
    let (genres, genre_map) = filter_genres(&catalog.genres, &q);
    SearchResults {
        albums,
        album_map,
        artists,
        artist_map,
        tracks,
        track_map,
        playlists,
        playlist_map,
        genres,
        genre_map,
    }
}

/// Every entry of a filtered album cache resolves, through its map and
/// `unfilter_index`, to an album of the unfiltered list that matches the
/// query and has the same contents; the map is strictly increasing; and
/// every matching album is in the cache.
pub proof fn lemma_filtered_albums_resolve(c: &Catalog, query: Seq<char>, r: &SearchResults)
    requires
        is_search_result(c, query, r),
        normalized_query(query).len() > 0,
    ensures
        forall|k: int| 0 <= k < r.album_map@.len() ==> {
            &&& (r.album_map@[k] as int) < c.albums@.len()
            &&& #[trigger] r.albums@[k]@ == c.albums@[r.album_map@[k] as int]@
            &&& album_matches(c.albums@[r.album_map@[k] as int]@, normalized_query(query))
        },
        forall|a: int, b: int| 0 <= a < b < r.album_map@.len() ==> r.album_map@[a] < r.album_map@[b],
        forall|i: int| 0 <= i < c.albums@.len() && #[trigger] album_matches(c.albums@[i]@, normalized_query(query))
            ==> r.album_map@.contains(i as usize),
{
    let q = normalized_query(query);
    let keep = |i: int| album_matches(c.albums@[i]@, q);
    assert(c.albums@.len() == c.albums.len());
    lemma_positions(c.albums@.len(), keep);
    assert forall|k: int| 0 <= k < r.album_map@.len() implies #[trigger] r.albums@[k]@ == c.albums@[r.album_map@[k] as int]@ by {
        assert(album_views(r.albums@).len() == r.albums@.len());
        assert(album_views(r.albums@)[k] == r.albums@[k]@);
        assert(album_views(r.albums@)[k] == r.album_map@.map_values(|i: usize| c.albums@[i as int]@)[k]);
    }
    assert forall|i: int| 0 <= i < c.albums@.len() && #[trigger] album_matches(c.albums@[i]@, q)
        implies r.album_map@.contains(i as usize) by {
        assert(keep(i));
    }
}

/// Every entry of a filtered track cache is the unfiltered track its map
/// entry names, and that track matches the query; every matching track is
/// in the cache, in the unfiltered order.
pub proof fn lemma_filtered_tracks_resolve(c: &Catalog, query: Seq<char>, r: &SearchResults)
    requires
        is_search_result(c, query, r),
        normalized_query(query).len() > 0,
    ensures
        forall|k: int| 0 <= k < r.track_map@.len() ==> {
            &&& (r.track_map@[k] as int) < c.tracks@.len()
            &&& #[trigger] r.tracks@[k] == c.tracks@[r.track_map@[k] as int]
            &&& track_matches(c.tracks@[r.track_map@[k] as int], normalized_query(query))
        },
        forall|a: int, b: int| 0 <= a < b < r.track_map@.len() ==> r.track_map@[a] < r.track_map@[b],
        forall|i: int| 0 <= i < c.tracks@.len() && #[trigger] track_matches(c.tracks@[i], normalized_query(query))
            ==> r.track_map@.contains(i as usize),
{
    let q = normalized_query(query);
    let keep = |i: int| track_matches(c.tracks@[i], q);
    assert(c.tracks@.len() == c.tracks.len());
    lemma_positions(c.tracks@.len(), keep);
    assert forall|i: int| 0 <= i < c.tracks@.len() && #[trigger] track_matches(c.tracks@[i], q)
        implies r.track_map@.contains(i as usize) by {
        assert(keep(i));
    }
}

/// A position is kept exactly when `keep` holds there.
proof fn lemma_positions_exact(n: nat, keep: spec_fn(int) -> bool, i: int)
    requires
        n <= usize::MAX,
        0 <= i < n,
    ensures
        positions(n, keep).contains(i as usize) <==> keep(i),
{
    lemma_positions(n, keep);
    if positions(n, keep).contains(i as usize) {
        let a = choose|a: int| 0 <= a < positions(n, keep).len() && positions(n, keep)[a] == i as usize;
        assert(keep(positions(n, keep)[a] as int));
    }
}

/// What a search finds, field by field: for a query that is not blank
/// once trimmed and lowercased, an album is listed exactly when its
/// lowercased name or artist contains the query; an artist, playlist or
/// genre exactly when its lowercased name does; and a track exactly when
/// its lowercased title, artist or album does. Each listed entry is the
/// catalog's entry at the listed position.
pub proof fn lemma_search_finds_by_field(c: &Catalog, query: Seq<char>, r: &SearchResults)
    requires
        is_search_result(c, query, r),
        normalized_query(query).len() > 0,
    ensures
        forall|i: int| 0 <= i < c.tracks@.len() ==> (#[trigger] r.track_map@.contains(i as usize) <==> (
            contains_text(lowercased(c.tracks@[i].title@), normalized_query(query))
            || contains_text(lowercased(c.tracks@[i].artist@), normalized_query(query))
            || contains_text(lowercased(c.tracks@[i].album@), normalized_query(query)))),
        forall|k: int| 0 <= k < r.tracks@.len() ==> r.track_map@[k] < c.tracks@.len() && #[trigger] r.tracks@[k] == c.tracks@[r.track_map@[k] as int],
        forall|i: int| 0 <= i < c.albums@.len() ==> (#[trigger] r.album_map@.contains(i as usize) <==> (
            contains_text(lowercased(c.albums@[i].name@), normalized_query(query))
            || contains_text(lowercased(c.albums@[i].artist@), normalized_query(query)))),
        forall|i: int| 0 <= i < c.artists@.len() ==> (#[trigger] r.artist_map@.contains(i as usize) <==>
            contains_text(lowercased(c.artists@[i].name@), normalized_query(query))),
        forall|i: int| 0 <= i < c.playlists@.len() ==> (#[trigger] r.playlist_map@.contains(i as usize) <==>
            contains_text(lowercased(c.playlists@[i].name@), normalized_query(query))),
        forall|i: int| 0 <= i < c.genres@.len() ==> (#[trigger] r.genre_map@.contains(i as usize) <==>
            contains_text(lowercased(c.genres@[i]@), normalized_query(query))),
{
    let q = normalized_query(query);
    let tkeep = |i: int| track_matches(c.tracks@[i], q);
    let akeep = |i: int| album_matches(c.albums@[i]@, q);
    let rkeep = |i: int| artist_matches(c.artists@[i]@, q);
    let pkeep = |i: int| playlist_matches(c.playlists@[i]@, q);
    let gkeep = |i: int| field_matches(c.genres@[i]@, q);
    assert(c.tracks@.len() == c.tracks.len());
    assert(c.albums@.len() == c.albums.len());
    assert(c.artists@.len() == c.artists.len());
    assert(c.playlists@.len() == c.playlists.len());
    assert(c.genres@.len() == c.genres.len());
    assert forall|i: int| 0 <= i < c.tracks@.len() implies (#[trigger] r.track_map@.contains(i as usize) <==> (
        contains_text(lowercased(c.tracks@[i].title@), q)
        || contains_text(lowercased(c.tracks@[i].artist@), q)
        || contains_text(lowercased(c.tracks@[i].album@), q))) by {
        lemma_positions_exact(c.tracks@.len(), tkeep, i);
    }
    lemma_positions(c.tracks@.len(), tkeep);
    assert forall|k: int| 0 <= k < r.tracks@.len() implies r.track_map@[k] < c.tracks@.len() && #[trigger] r.tracks@[k] == c.tracks@[r.track_map@[k] as int] by {
        assert(r.tracks@[k] == r.track_map@.map_values(|i: usize| c.tracks@[i as int])[k]);
    }
    assert forall|i: int| 0 <= i < c.albums@.len() implies (#[trigger] r.album_map@.contains(i as usize) <==> (
        contains_text(lowercased(c.albums@[i].name@), q)
        || contains_text(lowercased(c.albums@[i].artist@), q))) by {
        lemma_positions_exact(c.albums@.len(), akeep, i);
    }
    assert forall|i: int| 0 <= i < c.artists@.len() implies (#[trigger] r.artist_map@.contains(i as usize) <==>
        contains_text(lowercased(c.artists@[i].name@), q)) by {
        lemma_positions_exact(c.artists@.len(), rkeep, i);
    }
    assert forall|i: int| 0 <= i < c.playlists@.len() implies (#[trigger] r.playlist_map@.contains(i as usize) <==>
        contains_text(lowercased(c.playlists@[i].name@), q)) by {
        lemma_positions_exact(c.playlists@.len(), pkeep, i);
    }
    assert forall|i: int| 0 <= i < c.genres@.len() implies (#[trigger] r.genre_map@.contains(i as usize) <==>
        contains_text(lowercased(c.genres@[i]@), q)) by {
        lemma_positions_exact(c.genres@.len(), gkeep, i);
    }
}

} // verus!
