//! The library side of the player's state: the loaded catalog, the reload
//! bookkeeping, the scanning flag and the search caches, with the handlers
//! for the results that asynchronous loads and scans report back.

use vstd::prelude::*;
use crate::artists::{merge_artists_from_batch, merge_batch, name_lists, rebuild_all_artists};
use crate::images::{ImageMap, extended, names_missing, with_missing};
use crate::library::{Album, Artist, Track, album_views, artist_views};
use crate::order::{SortField, album_name_keys, artist_name_keys, is_stable_sort_of, sort_tracks, track_keys};
use crate::reload::{ReloadTracker, is_stale};
use crate::search::{Catalog, SearchResults, is_search_result, no_results, refresh_search_filter};
use crate::text::trimmed;
use crate::session::{ProviderKind, ReloadPlan, album_tracks, append_batch, finish_library_load, reload_plan};

verus! {

/// The library part of the player's state.
pub struct LibraryState {
    pub reload: ReloadTracker,
    pub active_provider: String,
    pub catalog: Catalog,
    pub scanning: bool,
    pub search_query: String,
    pub search: SearchResults,
    /// Album cover art, by album key.
    pub covers: ImageMap<Vec<u8>>,
    /// Artist avatars, by artist name.
    pub avatars: ImageMap<Vec<u8>>,
}

/// The image maps hold each key once.
pub open spec fn images_wf(s: &LibraryState) -> bool {
    s.covers.wf() && s.avatars.wf()
}

/// The names of a list of artists, in order.
pub open spec fn artist_names(artists: Seq<Artist>) -> Seq<Seq<char>> {
    artists.map_values(|a: Artist| a.name@)
}

/// The search caches match the catalog and the query.
pub open spec fn search_current(s: &LibraryState) -> bool {
    is_search_result(&s.catalog, s.search_query@, &s.search)
}

/// Whether a result tagged `generation`/`provider_id` is stale for `s`.
pub open spec fn result_is_stale(s: &LibraryState, generation: u64, provider_id: Seq<char>) -> bool {
    is_stale(s.reload.generation, s.active_provider@, generation, provider_id)
}

impl LibraryState {
    /// An empty library for the active provider, with an empty query.
    pub fn new(active_provider: String) -> (s: LibraryState)
        ensures
            s.reload.generation == 0,
            s.active_provider@ == active_provider@,
            s.catalog.tracks@.len() == 0 && s.catalog.albums@.len() == 0 && s.catalog.artists@.len() == 0,
            s.catalog.playlists@.len() == 0 && s.catalog.genres@.len() == 0,
            !s.scanning,
            s.search_query@.len() == 0,
            search_current(&s),
            images_wf(&s),
            s.covers@ == Map::<Seq<char>, Vec<u8>>::empty(),
            s.avatars@ == Map::<Seq<char>, Vec<u8>>::empty(),
    {
        let catalog = Catalog {
            tracks: Vec::new(),
            albums: Vec::new(),
            artists: Vec::new(),
            playlists: Vec::new(),
            genres: Vec::new(),
        };
        let search_query = String::new();
        let search = refresh_search_filter(&catalog, search_query.as_str());
        LibraryState {
            reload: ReloadTracker::new(),
            active_provider,
            catalog,
            scanning: false,
            search_query,
            search,
            covers: ImageMap::new(),
            avatars: ImageMap::new(),
        }
    }

    fn refresh(&mut self)
        ensures
            search_current(final(self)),
            trimmed(old(self).search_query@).len() == 0 ==> no_results(&final(self).search),
            final(self).catalog == old(self).catalog,
            final(self).search_query == old(self).search_query,
            final(self).reload == old(self).reload,
            final(self).active_provider == old(self).active_provider,
            final(self).scanning == old(self).scanning,
            final(self).covers == old(self).covers,
            final(self).avatars == old(self).avatars,
    {
        self.search = refresh_search_filter(&self.catalog, self.search_query.as_str());
    }

    /// Starts a library reload for the active provider, of kind `active`,
    /// and returns its generation; with no active provider nothing
    /// happens. A remote provider's library, covers and avatars are
    /// cleared and the library is marked as loading, to be filled batch by
    /// batch.
    pub fn begin_reload(&mut self, active: Option<ProviderKind>) -> (g: Option<u64>)
        requires
            active is Some ==> old(self).reload.generation < u64::MAX,
        ensures
            active is None ==> g is None && *final(self) == *old(self),
            active matches Some(kind) ==> {
                &&& g == Some((old(self).reload.generation + 1) as u64)
                &&& final(self).reload.generation == old(self).reload.generation + 1
                &&& final(self).active_provider == old(self).active_provider
                &&& kind == ProviderKind::Local ==> final(self).catalog == old(self).catalog
                    && final(self).scanning == old(self).scanning
                    && final(self).covers == old(self).covers
                    && final(self).avatars == old(self).avatars
                &&& kind != ProviderKind::Local ==> final(self).catalog.tracks@.len() == 0
                    && final(self).catalog.albums@.len() == 0 && final(self).catalog.artists@.len() == 0
                    && final(self).catalog.playlists == old(self).catalog.playlists
                    && final(self).catalog.genres == old(self).catalog.genres
                    && final(self).covers@ == Map::<Seq<char>, Vec<u8>>::empty()
                    && final(self).avatars@ == Map::<Seq<char>, Vec<u8>>::empty()
                    && final(self).scanning
                &&& final(self).search_query == old(self).search_query
                &&& final(self).search == old(self).search
                &&& images_wf(old(self)) ==> images_wf(final(self))
            },
    {
        let kind = match active {
            Some(k) => k,
            None => return None,
        };
        let g = self.reload.begin_reload_generation();
        match reload_plan(kind) {
            ReloadPlan::SingleShot => {},
            ReloadPlan::Incremental => {
                self.catalog.tracks.clear();
                self.catalog.albums.clear();
                self.catalog.artists.clear();
                self.covers.clear();
                self.avatars.clear();
                self.scanning = true;
            },
        }
        Some(g)
    }

    /// Starts a scan of the local library and returns its generation.
    pub fn begin_scan(&mut self) -> (g: u64)
        requires
            old(self).reload.generation < u64::MAX,
        ensures
            g == old(self).reload.generation + 1,
            final(self).reload.generation == g,
            final(self).scanning,
            final(self).catalog == old(self).catalog,
            final(self).active_provider == old(self).active_provider,
            final(self).search_query == old(self).search_query,
            final(self).search == old(self).search,
            final(self).covers == old(self).covers,
            final(self).avatars == old(self).avatars,
    {
        self.scanning = true;
        self.reload.begin_reload_generation()
    }

    /// A scan reported back having updated `count` tracks. A stale report
    /// changes nothing; otherwise scanning stops, and the answer says
    /// whether to reload (tracks changed, or the library is still empty).
    pub fn on_scan_complete(&mut self, generation: u64, provider_id: &str, count: usize) -> (reload: bool)
        ensures
            result_is_stale(old(self), generation, provider_id@) ==> *final(self) == *old(self) && !reload,
            !result_is_stale(old(self), generation, provider_id@) ==> {
                &&& !final(self).scanning
                &&& final(self).catalog == old(self).catalog
                &&& final(self).search == old(self).search
                &&& final(self).search_query == old(self).search_query
                &&& final(self).reload == old(self).reload
                &&& final(self).active_provider == old(self).active_provider
                &&& final(self).covers == old(self).covers
                &&& final(self).avatars == old(self).avatars
                &&& reload == (count > 0 || old(self).catalog.tracks@.len() == 0)
            },
    {
        if self.reload.is_stale_reload(self.active_provider.as_str(), generation, provider_id) {
            return false;
        }
        self.scanning = false;
        count > 0 || self.catalog.tracks.len() == 0
    }

    /// A single-shot load reported back. A stale result changes nothing;
    /// otherwise the tracks and albums replace the library, the covers and
    /// avatars that came with it replace the kept ones, the artist index is
    /// rebuilt from the albums (filed under `names[i]` for album `i`),
    /// scanning stops and the search caches are recomputed. The answer
    /// lists the artists of the rebuilt index that have no avatar yet, for
    /// one to be made for each.
    pub fn on_library_loaded(
        &mut self,
        generation: u64,
        provider_id: &str,
        tracks: Vec<Track>,
        albums: Vec<Album>,
        names: &Vec<Vec<String>>,
        covers: Vec<(String, Vec<u8>)>,
        avatars: Vec<(String, Vec<u8>)>,
    ) -> (needs_avatar: Option<Vec<String>>)
        requires
            names@.len() == albums@.len(),
        ensures
            needs_avatar is Some == !result_is_stale(old(self), generation, provider_id@),
            needs_avatar is None ==> *final(self) == *old(self),
            needs_avatar matches Some(missing) ==> {
                &&& final(self).catalog.tracks@ == tracks@
                &&& album_views(final(self).catalog.albums@) == album_views(albums@)
                &&& is_stable_sort_of(
                    merge_batch(Seq::empty(), album_views(albums@), name_lists(names@)),
                    artist_views(final(self).catalog.artists@),
                    artist_name_keys(merge_batch(Seq::empty(), album_views(albums@), name_lists(names@))),
                )
                &&& final(self).covers@ == extended(Map::empty(), covers@)
                &&& final(self).avatars@ == extended(Map::empty(), avatars@)
                &&& missing@.map_values(|s: String| s@) == names_missing(artist_names(final(self).catalog.artists@), final(self).avatars@.dom())
                &&& images_wf(final(self))
                &&& final(self).catalog.playlists == old(self).catalog.playlists
                &&& final(self).catalog.genres == old(self).catalog.genres
                &&& !final(self).scanning
                &&& final(self).reload == old(self).reload
                &&& final(self).search_query == old(self).search_query
                &&& search_current(final(self))
            },
    {
        if self.reload.is_stale_reload(self.active_provider.as_str(), generation, provider_id) {
            return None;
        }
        self.scanning = false;
        let artists = rebuild_all_artists(&albums, names);
        self.catalog.tracks = tracks;
        self.catalog.albums = albums;
        self.catalog.artists = artists;
        let mut new_covers = ImageMap::new();
        new_covers.extend(covers);
        let mut new_avatars = ImageMap::new();
        new_avatars.extend(avatars);
        self.covers = new_covers;
        self.avatars = new_avatars;
        let artist_name_list = self.artist_name_list();
        let missing = self.avatars.missing(&artist_name_list);
        self.refresh();
        Some(missing)
    }

    /// The names of the artist index, in order.
    fn artist_name_list(&self) -> (r: Vec<String>)
        ensures
            r@.map_values(|s: String| s@) == artist_names(self.catalog.artists@),
    {
        let mut r: Vec<String> = Vec::new();
        let mut i: usize = 0;
        while i < self.catalog.artists.len()
            invariant
                i <= self.catalog.artists@.len(),
                r@.map_values(|s: String| s@) == artist_names(self.catalog.artists@).take(i as int),
            decreases self.catalog.artists@.len() - i,
        {
            let ghost before = r@;
            let name = self.catalog.artists[i].name.clone();
            r.push(name);
            proof {
                assert(r@.map_values(|s: String| s@) =~= before.map_values(|s: String| s@).push(name@));
                assert(artist_names(self.catalog.artists@).take(i as int + 1)
                    =~= artist_names(self.catalog.artists@).take(i as int).push(self.catalog.artists@[i as int].name@));
            }
            i += 1;
        }
        proof {
            assert(artist_names(self.catalog.artists@).take(i as int) =~= artist_names(self.catalog.artists@));
        }
        r
    }

    /// A batch of an incremental load reported back. A stale batch
    /// changes nothing; otherwise its albums and their tracks are
    /// appended, its covers are merged into the kept ones (the batch's
    /// cover wins for a key held twice), the albums are merged into the
    /// artist index (album `i` under `names[i]`), and the search caches are
    /// recomputed. The answer lists the artists this batch added that have
    /// no avatar yet, for one to be made for each.
    pub fn on_library_batch(
        &mut self,
        generation: u64,
        provider_id: &str,
        batch: &Vec<Album>,
        names: &Vec<Vec<String>>,
        covers: Vec<(String, Vec<u8>)>,
    ) -> (needs_avatar: Option<Vec<String>>)
        requires
            names@.len() == batch@.len(),
            images_wf(old(self)),
        ensures
            needs_avatar is Some == !result_is_stale(old(self), generation, provider_id@),
            needs_avatar is None ==> *final(self) == *old(self),
            needs_avatar matches Some(missing) ==> {
                &&& final(self).catalog.tracks@ == old(self).catalog.tracks@ + album_tracks(album_views(batch@))
                &&& album_views(final(self).catalog.albums@) == album_views(old(self).catalog.albums@) + album_views(batch@)
                &&& artist_views(final(self).catalog.artists@)
                    == merge_batch(artist_views(old(self).catalog.artists@), album_views(batch@), name_lists(names@))
                &&& final(self).covers@ == extended(old(self).covers@, covers@)
                &&& final(self).avatars == old(self).avatars
                &&& missing@.map_values(|s: String| s@) == names_missing(
                    artist_names(final(self).catalog.artists@).skip(old(self).catalog.artists@.len() as int),
                    old(self).avatars@.dom(),
                )
                &&& images_wf(final(self))
                &&& final(self).catalog.playlists == old(self).catalog.playlists
                &&& final(self).catalog.genres == old(self).catalog.genres
                &&& final(self).scanning == old(self).scanning
                &&& final(self).reload == old(self).reload
                &&& final(self).search_query == old(self).search_query
                &&& search_current(final(self))
            },
    {
        if self.reload.is_stale_reload(self.active_provider.as_str(), generation, provider_id) {
            return None;
        }
        let ghost old_len = self.catalog.artists@.len();
        append_batch(&mut self.catalog, batch);
        let created = merge_artists_from_batch(&mut self.catalog.artists, batch, names);
        proof {
            assert(created@.map_values(|s: String| s@) =~= artist_names(self.catalog.artists@).skip(old_len as int));
        }
        self.covers.extend(covers);
        let missing = self.avatars.missing(&created);
        self.refresh();
        Some(missing)
    }

    /// Keeps the avatars made for the artists that had none: each is kept
    /// under its name unless an avatar is kept there already.
    pub fn add_avatars(&mut self, avatars: Vec<(String, Vec<u8>)>)
        requires
            images_wf(old(self)),
        ensures
            images_wf(final(self)),
            final(self).avatars@ == with_missing(old(self).avatars@, avatars@),
            final(self).covers == old(self).covers,
            final(self).catalog == old(self).catalog,
            final(self).search == old(self).search,
            final(self).search_query == old(self).search_query,
            final(self).reload == old(self).reload,
            final(self).active_provider == old(self).active_provider,
            final(self).scanning == old(self).scanning,
    {
        self.avatars.insert_missing(avatars);
    }

    /// An incremental load finished. A stale report changes nothing;
    /// otherwise scanning stops, tracks are sorted by title and albums
    /// and artists by name (keeping the order of equal keys), and the
    /// search caches are recomputed.
    pub fn on_load_complete(&mut self, generation: u64, provider_id: &str) -> (applied: bool)
        ensures
            applied == !result_is_stale(old(self), generation, provider_id@),
            !applied ==> *final(self) == *old(self),
            applied ==> {
                &&& is_stable_sort_of(old(self).catalog.tracks@, final(self).catalog.tracks@, track_keys(old(self).catalog.tracks@, SortField::Title))
                &&& is_stable_sort_of(album_views(old(self).catalog.albums@), album_views(final(self).catalog.albums@), album_name_keys(album_views(old(self).catalog.albums@)))
                &&& is_stable_sort_of(artist_views(old(self).catalog.artists@), artist_views(final(self).catalog.artists@), artist_name_keys(artist_views(old(self).catalog.artists@)))
                &&& final(self).catalog.playlists == old(self).catalog.playlists
                &&& final(self).catalog.genres == old(self).catalog.genres
                &&& !final(self).scanning
                &&& final(self).reload == old(self).reload
                &&& final(self).active_provider == old(self).active_provider
                &&& final(self).covers == old(self).covers
                &&& final(self).avatars == old(self).avatars
                &&& final(self).search_query == old(self).search_query
                &&& search_current(final(self))
            },
    {
        if self.reload.is_stale_reload(self.active_provider.as_str(), generation, provider_id) {
            return false;
        }
        self.scanning = false;
        finish_library_load(&mut self.catalog);
        self.refresh();
        true
    }

    /// The search query changed: the caches are recomputed for it.
    pub fn set_search_query(&mut self, query: String)
        ensures
            final(self).search_query == query,
            final(self).catalog == old(self).catalog,
            search_current(final(self)),
            trimmed(query@).len() == 0 ==> no_results(&final(self).search),
            final(self).covers == old(self).covers,
            final(self).avatars == old(self).avatars,
    {
        self.search_query = query;
        self.refresh();
    }

    /// The songs were re-sorted by a column: the caches follow.
    pub fn sort_songs(&mut self, field: SortField)
        ensures
            is_stable_sort_of(old(self).catalog.tracks@, final(self).catalog.tracks@, track_keys(old(self).catalog.tracks@, field)),
            final(self).catalog.albums == old(self).catalog.albums,
            final(self).catalog.artists == old(self).catalog.artists,
            search_current(final(self)),
            final(self).covers == old(self).covers,
            final(self).avatars == old(self).avatars,
    {
        sort_tracks(&mut self.catalog.tracks, field);
        self.refresh();
    }
}

/// A result of a superseded reload is discarded whole: whichever handler
/// receives it, the library state after it is the state before it.
pub proof fn lemma_stale_results_change_nothing(before: &LibraryState, after: &LibraryState, generation: u64, provider_id: Seq<char>, applied: bool)
    requires
        applied == !result_is_stale(before, generation, provider_id),
        !applied ==> *after == *before,
        generation < before.reload.generation,
    ensures
        *after == *before,
{
}

} // verus!
