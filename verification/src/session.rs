//! Library loading, queue and transport decisions that the message
//! handlers take, and which background streams run.

use vstd::prelude::*;
use crate::library::{Album, AlbumView, Playlist, Track, album_views, copy_tracks};
use crate::order::{SortField, album_name_keys, artist_name_keys, is_stable_sort_of, sort_albums_by_name, sort_artists_by_name, sort_tracks, track_keys};
use crate::playback::PlaybackState;
use crate::search::Catalog;
use crate::library::artist_views;
use crate::text::{eq_ignore_ascii_case, same_text_ignore_ascii_case};

verus! {

/// All tracks of a list of albums, album after album.
pub open spec fn album_tracks(albums: Seq<AlbumView>) -> Seq<Track>
    decreases albums.len(),
{
    if albums.len() == 0 {
        Seq::empty()
    } else {
        album_tracks(albums.drop_last()) + albums.last().tracks
    }
}

/// Appends a batch of albums from an incremental load: the albums' tracks
/// go onto the track list, album after album, and the albums onto the
/// album list.
pub fn append_batch(catalog: &mut Catalog, batch: &Vec<Album>)
    ensures
        final(catalog).tracks@ == old(catalog).tracks@ + album_tracks(album_views(batch@)),
        album_views(final(catalog).albums@) == album_views(old(catalog).albums@) + album_views(batch@),
        final(catalog).artists == old(catalog).artists,
        final(catalog).playlists == old(catalog).playlists,
        final(catalog).genres == old(catalog).genres,
{
    let ghost views = album_views(batch@);
    let ghost start_tracks = catalog.tracks@;
    let ghost start_albums = album_views(catalog.albums@);
    let mut i: usize = 0;
    while i < batch.len()
        invariant
            i <= batch@.len(),
            views == album_views(batch@),
            catalog.tracks@ == start_tracks + album_tracks(views.take(i as int)),
            album_views(catalog.albums@) == start_albums + views.take(i as int),
            catalog.artists == old(catalog).artists,
            catalog.playlists == old(catalog).playlists,
            catalog.genres == old(catalog).genres,
        decreases batch.len() - i,
    {
        let album = &batch[i];
        let mut j: usize = 0;
        let ghost before_tracks = catalog.tracks@;
        while j < album.tracks.len()
            invariant
                j <= album.tracks@.len(),
                catalog.tracks@ == before_tracks + album.tracks@.take(j as int),
                catalog.artists == old(catalog).artists,
                catalog.playlists == old(catalog).playlists,
                catalog.genres == old(catalog).genres,
                album_views(catalog.albums@) == start_albums + views.take(i as int),
            decreases album.tracks.len() - j,
        {
            catalog.tracks.push(album.tracks[j].duplicate());
            j += 1;
            assert(catalog.tracks@ =~= before_tracks + album.tracks@.take(j as int));
        }
        let ghost before_albums = album_views(catalog.albums@);
        catalog.albums.push(album.duplicate());
        proof {
            assert(album.tracks@.take(album.tracks@.len() as int) =~= album.tracks@);
            assert(views.take(i + 1).drop_last() =~= views.take(i as int));
            assert(views.take(i + 1).last() == album@);
            assert(catalog.tracks@ =~= start_tracks + album_tracks(views.take(i + 1)));
            assert(album_views(catalog.albums@) =~= before_albums.push(album@));
            assert(album_views(catalog.albums@) =~= start_albums + views.take(i + 1));
        }
        i += 1;
    }
    assert(views.take(batch@.len() as int) =~= views);
}

/// The final ordering once an incremental load completes: tracks by
/// title, albums and artists by name, each keeping the order of equal keys.
pub fn finish_library_load(catalog: &mut Catalog)
    ensures
        is_stable_sort_of(old(catalog).tracks@, final(catalog).tracks@, track_keys(old(catalog).tracks@, SortField::Title)),
        is_stable_sort_of(album_views(old(catalog).albums@), album_views(final(catalog).albums@), album_name_keys(album_views(old(catalog).albums@))),
        is_stable_sort_of(artist_views(old(catalog).artists@), artist_views(final(catalog).artists@), artist_name_keys(artist_views(old(catalog).artists@))),
        final(catalog).playlists == old(catalog).playlists,
        final(catalog).genres == old(catalog).genres,
{
    sort_tracks(&mut catalog.tracks, SortField::Title);
    sort_albums_by_name(&mut catalog.albums);
    sort_artists_by_name(&mut catalog.artists);
}

/// What "add folder to queue" does.
#[derive(Clone, Copy, Debug, PartialEq, Eq)]
pub enum QueueAction {
    /// The folder has no tracks.
    Nothing,
    /// Nothing is queued: start playing the folder from its first track.
    PlayFromStart,
    /// Append the folder's tracks to the queue and report how many.
    Append(usize),
}

/// Appending only makes sense on top of an existing queue; with nothing
/// queued the folder starts playing instead.
pub fn queue_folder_action(folder_tracks: usize, queue_empty: bool) -> (r: QueueAction)
    ensures
        folder_tracks == 0 ==> r == QueueAction::Nothing,
        folder_tracks > 0 && queue_empty ==> r == QueueAction::PlayFromStart,
        folder_tracks > 0 && !queue_empty ==> r == QueueAction::Append(folder_tracks),
{
    if folder_tracks == 0 {
        QueueAction::Nothing
    } else if queue_empty {
        QueueAction::PlayFromStart
    } else {
        QueueAction::Append(folder_tracks)
    }
}

/// What the play/pause control does.
#[derive(Clone, Copy, Debug, PartialEq, Eq)]
pub enum TransportAction {
    /// Queue the whole library and play its first track.
    PlayLibraryFromStart,
    /// Toggle between playing and paused.
    Toggle,
}

/// When stopped with a non-empty library, play/pause starts the library
/// from its first track; otherwise it toggles playback.
pub fn play_pause_action(state: PlaybackState, library_empty: bool) -> (r: TransportAction)
    ensures
        r == if state == PlaybackState::Stopped && !library_empty {
            TransportAction::PlayLibraryFromStart
        } else {
            TransportAction::Toggle
        },
{
    match state {
        PlaybackState::Stopped => if !library_empty { TransportAction::PlayLibraryFromStart } else { TransportAction::Toggle },
        _ => TransportAction::Toggle,
    }
}

/// MPRIS transport requests.
#[derive(Clone, Copy, Debug, PartialEq, Eq)]
pub enum TransportRequest {
    Play,
    Pause,
    Stop,
    PlayPause,
}

/// Whether an MPRIS transport request toggles playback: play only when not
/// playing; pause and stop (there is no separate stopped state to go to)
/// only when playing; play-pause always.
pub fn request_toggles(request: TransportRequest, playing: bool) -> (r: bool)
    ensures
        r == match request {
            TransportRequest::Play => !playing,
            TransportRequest::Pause | TransportRequest::Stop => playing,
            TransportRequest::PlayPause => true,
        },
{
    match request {
        TransportRequest::Play => !playing,
        TransportRequest::Pause | TransportRequest::Stop => playing,
        TransportRequest::PlayPause => true,
    }
}

/// Whether a request to set shuffle on or off needs a toggle.
pub fn shuffle_needs_toggle(current: bool, wanted: bool) -> (r: bool)
    ensures
        r == (current != wanted),
{
    current != wanted
}

/// A position within a list, when it is one: `tracks[start]` for a
/// queue started at `start`.
pub fn track_at(tracks: &Vec<Track>, start: usize) -> (r: Option<Track>)
    ensures
        start < tracks@.len() ==> r == Some(tracks@[start as int]),
        start >= tracks@.len() ==> r is None,
{
    if start < tracks.len() { Some(tracks[start].duplicate()) } else { None }
}

/// A copy of the tracks of album `album` of a list, to play from; nothing
/// when there is no such album.
pub fn album_queue(albums: &Vec<Album>, album: usize) -> (r: Option<Vec<Track>>)
    ensures
        album < albums@.len() ==> (r matches Some(ts) && ts@ == albums@[album as int].tracks@),
        album >= albums@.len() ==> r is None,
{
    if album < albums.len() { Some(copy_tracks(&albums[album].tracks)) } else { None }
}

/// A copy of the tracks of playlist `playlist`, to play from its first
/// track; nothing when there is no such playlist or it is empty.
pub fn playlist_queue(playlists: &Vec<Playlist>, playlist: usize) -> (r: Option<Vec<Track>>)
    ensures
        playlist < playlists@.len() && playlists@[playlist as int].tracks@.len() > 0
            ==> (r matches Some(ts) && ts@ == playlists@[playlist as int].tracks@),
        playlist >= playlists@.len() || playlists@[playlist as int].tracks@.len() == 0 ==> r is None,
{
    if playlist < playlists.len() && playlists[playlist].tracks.len() > 0 {
        Some(copy_tracks(&playlists[playlist].tracks))
    } else {
        None
    }
}

/// What the rename field holds when playlist `playlist` is opened: its
/// name, or nothing when there is no such playlist.
pub fn rename_seed(playlists: &Vec<Playlist>, playlist: usize) -> (r: String)
    ensures
        playlist < playlists@.len() ==> r@ == playlists@[playlist as int].name@,
        playlist >= playlists@.len() ==> r@.len() == 0,
{
    if playlist < playlists.len() { playlists[playlist].name.clone() } else { String::new() }
}

/// Which background streams run.
#[derive(Clone, Copy, Debug, PartialEq, Eq)]
pub struct StreamPlan {
    pub mpd_status_poll: bool,
    pub playback_tick: bool,
    pub convert_tick: bool,
    pub animation_tick: bool,
    pub file_watcher: bool,
}

/// While playing, MPD playback is polled from the server (when the player
/// has an MPD backend to poll) and other playback ticks locally; the
/// conversion ticker runs while a job runs; the animation ticker while the
/// now-playing view moves; the file watcher while the local provider is
/// active and has music folders.
pub fn stream_plan(
    playing: bool,
    mpd_active: bool,
    mpd_backend: bool,
    job_running: bool,
    animating: bool,
    local_active: bool,
    has_music_dirs: bool,
) -> (r: StreamPlan)
    ensures
        r.mpd_status_poll == (playing && mpd_active && mpd_backend),
        r.playback_tick == (playing && !mpd_active),
        r.convert_tick == job_running,
        r.animation_tick == animating,
        r.file_watcher == (local_active && has_music_dirs),
{
    StreamPlan {
        mpd_status_poll: playing && mpd_active && mpd_backend,
        playback_tick: playing && !mpd_active,
        convert_tick: job_running,
        animation_tick: animating,
        file_watcher: local_active && has_music_dirs,
    }
}

/// At most one source of playback ticks runs at a time, and while playing
/// one runs unless MPD is active without a backend to poll.
pub proof fn lemma_one_tick_source(playing: bool, mpd_active: bool, mpd_backend: bool, p: StreamPlan)
    requires
        p.mpd_status_poll == (playing && mpd_active && mpd_backend),
        p.playback_tick == (playing && !mpd_active),
    ensures
        !(p.mpd_status_poll && p.playback_tick),
        playing && (!mpd_active || mpd_backend) ==> (p.mpd_status_poll || p.playback_tick),
{
}


/// The tracks of a genre when the provider cannot list them: the library
/// tracks whose genre equals it up to ASCII case, in library order.
pub open spec fn genre_tracks(tracks: Seq<Track>, genre: Seq<char>) -> Seq<Track> {
    tracks.filter(|t: Track| eq_ignore_ascii_case(t.genre@, genre))
}

/// The tracks of a genre are the library's tracks whose genre equals it up
/// to ASCII case, each kept, none added, in library order.
pub proof fn lemma_genre_tracks_are_those_of_the_genre(tracks: Seq<Track>, genre: Seq<char>)
    ensures
        forall|t: Track| #[trigger] genre_tracks(tracks, genre).contains(t)
            <==> (tracks.contains(t) && eq_ignore_ascii_case(t.genre@, genre)),
        genre_tracks(tracks, genre).len() <= tracks.len(),
{
    let pred = |t: Track| eq_ignore_ascii_case(t.genre@, genre);
    assert forall|t: Track| #[trigger] genre_tracks(tracks, genre).contains(t)
        <==> (tracks.contains(t) && eq_ignore_ascii_case(t.genre@, genre)) by {
        let f = tracks.filter(pred);
        if f.contains(t) {
            tracks.lemma_filter_contains_rev(pred, t);
            let i = choose|i: int| 0 <= i < f.len() && f[i] == t;
            tracks.lemma_filter_pred(pred, i);
        }
        if tracks.contains(t) && pred(t) {
            let i = choose|i: int| 0 <= i < tracks.len() && tracks[i] == t;
            tracks.lemma_filter_contains(pred, i);
        }
    }
    tracks.lemma_filter_len(pred);
}

/// The library tracks of a genre, matched up to ASCII case.
pub fn tracks_in_genre(tracks: &Vec<Track>, genre: &str) -> (r: Vec<Track>)
    ensures
        r@ == genre_tracks(tracks@, genre@),
{
    let mut r: Vec<Track> = Vec::new();
    let mut i: usize = 0;
    while i < tracks.len()
        invariant
            i <= tracks@.len(),
            r@ == genre_tracks(tracks@.take(i as int), genre@),
        decreases tracks.len() - i,
    {
        let keep = same_text_ignore_ascii_case(tracks[i].genre.as_str(), genre);
        proof {
            assert(tracks@.take(i + 1).drop_last() =~= tracks@.take(i as int));
            reveal(Seq::filter);
        }
        if keep {
            r.push(tracks[i].duplicate());
        }
        i += 1;
    }
    assert(tracks@.take(tracks@.len() as int) =~= tracks@);
    r
}


/// The kind of music provider.
#[derive(Clone, Copy, Debug, PartialEq, Eq)]
pub enum ProviderKind {
    Local,
    Mpd,
    Subsonic,
}

/// How a library reload runs.
#[derive(Clone, Copy, Debug, PartialEq, Eq)]
pub enum ReloadPlan {
    /// Read the whole library from the local database at once.
    SingleShot,
    /// Clear the library, mark it as loading, and fetch it in batches.
    Incremental,
}

/// The local provider reloads in one go; MPD and Subsonic clear the
/// library and fill it batch by batch.
pub fn reload_plan(kind: ProviderKind) -> (r: ReloadPlan)
    ensures
        r == if kind == ProviderKind::Local { ReloadPlan::SingleShot } else { ReloadPlan::Incremental },
{
    match kind {
        ProviderKind::Local => ReloadPlan::SingleShot,
        _ => ReloadPlan::Incremental,
    }
}

/// Whether the library reloads right after the providers of kind
/// `rebuilt` were re-created from the configuration. MPD servers connect
/// in the background and reload once connected, so rebuilding them reloads
/// only a local library that is active; Subsonic servers connect on
/// demand, so rebuilding them reloads when a Subsonic server is active;
/// rebuilding the local provider reloads nothing by itself.
pub fn reload_after_rebuild(rebuilt: ProviderKind, active: Option<ProviderKind>) -> (r: bool)
    ensures
        r == match rebuilt {
            ProviderKind::Mpd => active == Some(ProviderKind::Local),
            ProviderKind::Subsonic => active == Some(ProviderKind::Subsonic),
            ProviderKind::Local => false,
        },
{
    match (rebuilt, active) {
        (ProviderKind::Mpd, Some(ProviderKind::Local)) => true,
        (ProviderKind::Subsonic, Some(ProviderKind::Subsonic)) => true,
        _ => false,
    }
}

/// The number of albums fetched per batch from a remote provider.
pub const BATCH_SIZE: usize = 50;

/// The batches an album-name list is fetched in: consecutive ranges of
/// `BATCH_SIZE` names (the last may be shorter), covering the list.
pub fn album_batches(count: usize) -> (r: Vec<(usize, usize)>)
    ensures
        forall|k: int| 0 <= k < r@.len() ==> (#[trigger] r@[k]).0 == k * 50 && r@[k].1 == if (k + 1) * 50 <= count { (k + 1) * 50 } else { count as int },
        r@.len() * 50 >= count,
        r@.len() == 0 || (r@.len() - 1) * 50 < count,
{
    let mut r: Vec<(usize, usize)> = Vec::new();
    let mut start: usize = 0;
    while start < count
        invariant
            start <= count,
            start <= r@.len() * 50,
            start < count ==> start == r@.len() * 50,
            r@.len() == 0 || (r@.len() - 1) * 50 < count,
            forall|k: int| 0 <= k < r@.len() ==> (#[trigger] r@[k]).0 == k * 50 && r@[k].1 == if (k + 1) * 50 <= count { (k + 1) * 50 } else { count as int },
        decreases count - start,
    {
        let end = if count - start >= BATCH_SIZE { start + BATCH_SIZE } else { count };
        r.push((start, end));
        start = end;
    }
    r
}

/// Where the next Subsonic page starts after a page of `page_len` albums
/// at `offset`: nothing when the page was empty or the server has no
/// more; else one page size further on.
pub fn next_page_offset(offset: i32, page_len: usize, has_more: bool) -> (r: Option<i32>)
    requires
        page_len > 0 && has_more ==> offset + 50 <= i32::MAX,
    ensures
        (page_len == 0 || !has_more) ==> r is None,
        (page_len > 0 && has_more) ==> r == Some((offset + 50) as i32),
{
    if page_len == 0 || !has_more { None } else { Some(offset + 50) }
}

/// What the incremental loader does after fetching one batch of albums.
#[derive(Clone, Copy, Debug, PartialEq, Eq, Structural)]
pub enum LoadStep {
    /// Send the batch and fetch the next one.
    SendAndContinue,
    /// Send the batch, then report the load complete.
    SendAndFinish,
    /// Send nothing more but the report that the load is complete.
    Finish,
}

/// The incremental loader's step after a fetch: `fetched` is the number
/// of albums the fetch gave and whether more remain (more names to fetch
/// from MPD, or the Subsonic server's "has more"), or nothing when the
/// fetch failed. A failed fetch ends the load; an empty Subsonic page ends
/// it without a batch (an MPD batch is sent even when empty); otherwise
/// the batch is sent and the load goes on while more remain.
pub fn load_step(kind: ProviderKind, fetched: Option<(usize, bool)>) -> (r: LoadStep)
    ensures
        fetched is None ==> r == LoadStep::Finish,
        fetched matches Some((n, more)) ==> r == (
            if kind == ProviderKind::Subsonic && n == 0 { LoadStep::Finish }
            else if more { LoadStep::SendAndContinue }
            else { LoadStep::SendAndFinish }
        ),
{
    match fetched {
        None => LoadStep::Finish,
        Some((n, more)) => {
            let subsonic = match kind {
                ProviderKind::Subsonic => true,
                _ => false,
            };
            if subsonic && n == 0 {
                LoadStep::Finish
            } else if more {
                LoadStep::SendAndContinue
            } else {
                LoadStep::SendAndFinish
            }
        },
    }
}

/// The track metadata MPRIS clients see: the current track's texts, id and
/// length (whole microseconds, converted to `i64` as `as` does), or empty
/// values without a current track.
pub struct MprisTrackFields {
    pub title: String,
    pub artist: String,
    pub album: String,
    pub album_artist: String,
    pub genre: String,
    pub track_id: i64,
    pub length_us: i64,
}

/// The MPRIS track metadata for the current track.
pub fn mpris_track_fields(current: Option<&Track>) -> (r: MprisTrackFields)
    ensures
        current matches Some(t) ==> r.title@ == t.title@ && r.artist@ == t.artist@ && r.album@ == t.album@
            && r.album_artist@ == t.album_artist@ && r.genre@ == t.genre@ && r.track_id == t.id
            && r.length_us == (t.duration_ns / 1000) as i64,
        current is None ==> r.title@.len() == 0 && r.artist@.len() == 0 && r.album@.len() == 0
            && r.album_artist@.len() == 0 && r.genre@.len() == 0 && r.track_id == 0 && r.length_us == 0,
{
    match current {
        Some(t) => MprisTrackFields {
            title: t.title.clone(),
            artist: t.artist.clone(),
            album: t.album.clone(),
            album_artist: t.album_artist.clone(),
            genre: t.genre.clone(),
            track_id: t.id,
            length_us: (t.duration_ns / 1000) as i64,
        },
        None => MprisTrackFields {
            title: String::new(),
            artist: String::new(),
            album: String::new(),
            album_artist: String::new(),
            genre: String::new(),
            track_id: 0,
            length_us: 0,
        },
    }
}

/// The window title: the application's title, followed by ` — ` and the
/// page name when a page is active.
pub fn window_title(app_title: &str, page: Option<&str>) -> (r: String)
    ensures
        page is None ==> r@ == app_title@,
        page matches Some(p) ==> r@ == app_title@ + " — "@ + p@,
{
    let mut title = String::from_str(app_title);
    match page {
        Some(p) => {
            title.append(" — ");
            title.append(p);
        },
        None => {},
    }
    title
}

/// The provider selector shows only when there is more than one provider.
pub fn show_provider_selector(providers: usize) -> (r: bool)
    ensures
        r == (providers > 1),
{
    providers > 1
}

/// The window chrome around the visualizer: whether it is fullscreen and
/// whether the header bar and navigation bar are showing.
#[derive(Clone, Copy, Debug, PartialEq, Eq)]
pub struct VizChrome {
    pub fullscreen: bool,
    pub headerbar_shown: bool,
    pub nav_shown: bool,
    pub nav_before_fullscreen: bool,
}

impl VizChrome {
    /// Enters fullscreen (hiding header and navigation, remembering whether
    /// the navigation bar was open) or leaves it (restoring both).
    pub fn toggle_fullscreen(&mut self)
        ensures
            final(self).fullscreen == !old(self).fullscreen,
            final(self).fullscreen ==> !final(self).headerbar_shown && !final(self).nav_shown
                && final(self).nav_before_fullscreen == old(self).nav_shown,
            !final(self).fullscreen ==> final(self).headerbar_shown
                && final(self).nav_shown == old(self).nav_before_fullscreen
                && final(self).nav_before_fullscreen == old(self).nav_before_fullscreen,
    {
        self.fullscreen = !self.fullscreen;
        if self.fullscreen {
            self.nav_before_fullscreen = self.nav_shown;
            self.headerbar_shown = false;
            self.nav_shown = false;
        } else {
            self.headerbar_shown = true;
            self.nav_shown = self.nav_before_fullscreen;
        }
    }

    /// Leaves fullscreen if it is on; otherwise changes nothing.
    pub fn exit_fullscreen(&mut self)
        ensures
            !old(self).fullscreen ==> *final(self) == *old(self),
            old(self).fullscreen ==> !final(self).fullscreen && final(self).headerbar_shown
                && final(self).nav_shown == old(self).nav_before_fullscreen
                && final(self).nav_before_fullscreen == old(self).nav_before_fullscreen,
    {
        if self.fullscreen {
            self.fullscreen = false;
            self.headerbar_shown = true;
            self.nav_shown = self.nav_before_fullscreen;
        }
    }
}

/// Entering and leaving fullscreen restores the navigation bar and header
/// bar as they were (the header bar is always shown outside fullscreen).
pub proof fn lemma_fullscreen_round_trip(c0: VizChrome, c1: VizChrome, c2: VizChrome)
    requires
        !c0.fullscreen,
        c0.headerbar_shown,
        c1.fullscreen == !c0.fullscreen,
        c1.fullscreen ==> !c1.headerbar_shown && !c1.nav_shown && c1.nav_before_fullscreen == c0.nav_shown,
        c2.fullscreen == !c1.fullscreen,
        !c2.fullscreen ==> c2.headerbar_shown && c2.nav_shown == c1.nav_before_fullscreen
            && c2.nav_before_fullscreen == c1.nav_before_fullscreen,
    ensures
        !c2.fullscreen,
        c2.headerbar_shown == c0.headerbar_shown,
        c2.nav_shown == c0.nav_shown,
{
}

/// Frames the visualizer's control card stays up after the last pointer
/// activity while fullscreen.
pub const HUD_HOLD_FRAMES: u32 = 90;

/// The visualizer's control card: how many frames passed without pointer
/// activity, whether the pointer rests on the card, whether the preset
/// browser is open, and whether the preset folders were scanned already.
#[derive(Clone, Copy, Debug, PartialEq, Eq)]
pub struct VizHud {
    pub idle_frames: u32,
    pub pointer_over: bool,
    pub browser_open: bool,
    pub presets_scan_started: bool,
}

/// The card is shown while the pointer rests on it, while the preset
/// browser is open, and until the idle frames reach the hold time.
pub open spec fn hud_visible(h: VizHud) -> bool {
    h.pointer_over || h.browser_open || h.idle_frames < HUD_HOLD_FRAMES
}

/// A rendered frame counts as idle only in fullscreen, with the pointer
/// off the card and the browser closed; the count stops at its maximum.
pub open spec fn hud_after_frame(h: VizHud, fullscreen: bool) -> VizHud {
    if fullscreen && !h.pointer_over && !h.browser_open {
        VizHud { idle_frames: if h.idle_frames == u32::MAX { u32::MAX } else { (h.idle_frames + 1) as u32 }, ..h }
    } else {
        h
    }
}

/// The card after `n` frames rendered in fullscreen.
pub open spec fn hud_after_frames(h: VizHud, n: nat) -> VizHud
    decreases n,
{
    if n == 0 { h } else { hud_after_frame(hud_after_frames(h, (n - 1) as nat), true) }
}

impl VizHud {
    /// Whether the card is shown.
    pub fn visible(&self) -> (r: bool)
        ensures
            r == hud_visible(*self),
    {
        self.pointer_over || self.browser_open || self.idle_frames < HUD_HOLD_FRAMES
    }

    /// Counts a rendered frame.
    pub fn frame_ready(&mut self, fullscreen: bool)
        ensures
            *final(self) == hud_after_frame(*old(self), fullscreen),
    {
        if fullscreen && !self.pointer_over && !self.browser_open {
            self.idle_frames = self.idle_frames.saturating_add(1);
        }
    }

    /// The pointer moved (or fullscreen was entered): the idle count
    /// starts again.
    pub fn activity(&mut self)
        ensures
            *final(self) == (VizHud { idle_frames: 0, ..*old(self) }),
    {
        self.idle_frames = 0;
    }

    /// The pointer entered (`over`) or left the card; either way the idle
    /// count starts again.
    pub fn pointer_moved(&mut self, over: bool)
        ensures
            *final(self) == (VizHud { idle_frames: 0, pointer_over: over, ..*old(self) }),
    {
        self.pointer_over = over;
        self.idle_frames = 0;
    }

    /// Opens or closes the preset browser; opening it restarts the idle
    /// count, and the first opening asks for the preset folders to be
    /// scanned (the result says whether to scan now).
    pub fn toggle_browser(&mut self) -> (scan: bool)
        ensures
            final(self).browser_open == !old(self).browser_open,
            final(self).pointer_over == old(self).pointer_over,
            final(self).idle_frames == (if final(self).browser_open { 0 } else { old(self).idle_frames }),
            scan == (final(self).browser_open && !old(self).presets_scan_started),
            final(self).presets_scan_started == (old(self).presets_scan_started || scan),
    {
        self.browser_open = !self.browser_open;
        let mut scan = false;
        if self.browser_open {
            self.idle_frames = 0;
            if !self.presets_scan_started {
                self.presets_scan_started = true;
                scan = true;
            }
        }
        scan
    }

    /// Closes the preset browser (leaving the expanded view or turning the
    /// visualizer off).
    pub fn close_browser(&mut self)
        ensures
            *final(self) == (VizHud { browser_open: false, ..*old(self) }),
    {
        self.browser_open = false;
    }
}

proof fn lemma_idle_frames_grow(h: VizHud, n: nat)
    requires
        !h.pointer_over,
        !h.browser_open,
    ensures
        !hud_after_frames(h, n).pointer_over,
        !hud_after_frames(h, n).browser_open,
        hud_after_frames(h, n).idle_frames >= (if h.idle_frames + n > u32::MAX { u32::MAX as int } else { h.idle_frames + n }),
    decreases n,
{
    if n > 0 {
        lemma_idle_frames_grow(h, (n - 1) as nat);
    }
}

/// In fullscreen, with the pointer off the card and the browser closed,
/// the card hides once the hold time has passed without activity.
pub proof fn lemma_hud_hides_when_idle(h: VizHud, n: nat)
    requires
        !h.pointer_over,
        !h.browser_open,
        n >= HUD_HOLD_FRAMES,
    ensures
        !hud_visible(hud_after_frames(h, n)),
{
    lemma_idle_frames_grow(h, n);
}

/// Pointer activity always brings the card back.
pub proof fn lemma_activity_shows_hud(h: VizHud)
    ensures
        hud_visible(VizHud { idle_frames: 0, ..h }),
{
}

/// The preset folders are scanned at most once: once a scan was asked
/// for, opening the browser again asks for none.
pub proof fn lemma_presets_scanned_once(h0: VizHud, h1: VizHud, scan: bool)
    requires
        h0.presets_scan_started,
        scan == (h1.browser_open && !h0.presets_scan_started),
    ensures
        !scan,
{
}

} // verus!
