//! The library's data model: tracks, albums, artists and playlists, with
//! the views that contracts speak of and copies that keep those views.

use vstd::prelude::*;

verus! {

/// One playable item: a library track, a podcast episode or a radio stream.
/// The length is in whole nanoseconds, which holds any `Duration` exactly.
#[derive(Debug)]
pub struct Track {
    pub id: i64,
    pub path: String,
    pub title: String,
    pub artist: String,
    pub album_artist: String,
    pub album: String,
    pub genre: String,
    pub duration_ns: u128,
    pub provider_id: String,
    pub source_uri: String,
    pub is_favorite: bool,
    pub rating: Option<u8>,
}

impl Track {
    /// A copy of this track.
    pub fn duplicate(&self) -> (r: Track)
        ensures
            r == *self,
    {
        Track {
            id: self.id,
            path: self.path.clone(),
            title: self.title.clone(),
            artist: self.artist.clone(),
            album_artist: self.album_artist.clone(),
            album: self.album.clone(),
            genre: self.genre.clone(),
            duration_ns: self.duration_ns,
            provider_id: self.provider_id.clone(),
            source_uri: self.source_uri.clone(),
            is_favorite: self.is_favorite,
            rating: self.rating,
        }
    }
}

/// A copy of a list of tracks.
pub fn copy_tracks(tracks: &Vec<Track>) -> (r: Vec<Track>)
    ensures
        r@ == tracks@,
{
    let mut r: Vec<Track> = Vec::new();
    let mut i: usize = 0;
    while i < tracks.len()
        invariant
            i <= tracks.len(),
            r@ == tracks@.take(i as int),
        decreases tracks.len() - i,
    {
        r.push(tracks[i].duplicate());
        i += 1;
        proof {
            assert(r@ =~= tracks@.take(i as int));
        }
    }
    assert(r@ =~= tracks@);
    r
}

/// An album with its tracks.
#[derive(Debug)]
pub struct Album {
    pub name: String,
    pub artist: String,
    pub tracks: Vec<Track>,
}

/// What an album holds, as mathematical values.
pub struct AlbumView {
    pub name: Seq<char>,
    pub artist: Seq<char>,
    pub tracks: Seq<Track>,
}

impl View for Album {
    type V = AlbumView;

    open spec fn view(&self) -> AlbumView {
        AlbumView { name: self.name@, artist: self.artist@, tracks: self.tracks@ }
    }
}

impl Album {
    /// A copy of this album.
    pub fn duplicate(&self) -> (r: Album)
        ensures
            r@ == self@,
    {
        Album { name: self.name.clone(), artist: self.artist.clone(), tracks: copy_tracks(&self.tracks) }
    }
}

/// The views of a list of albums.
pub open spec fn album_views(albums: Seq<Album>) -> Seq<AlbumView> {
    albums.map_values(|a: Album| a@)
}

/// A copy of a list of albums.
pub fn copy_albums(albums: &Vec<Album>) -> (r: Vec<Album>)
    ensures
        album_views(r@) == album_views(albums@),
        r@.len() == albums@.len(),
{
    let mut r: Vec<Album> = Vec::new();
    let mut i: usize = 0;
    while i < albums.len()
        invariant
            i <= albums.len(),
            r@.len() == i,
            forall|j: int| 0 <= j < i ==> #[trigger] r@[j]@ == albums@[j]@,
        decreases albums.len() - i,
    {
        r.push(albums[i].duplicate());
        i += 1;
    }
    assert(album_views(r@) =~= album_views(albums@));
    r
}

/// An artist and the albums filed under it.
#[derive(Debug)]
pub struct Artist {
    pub name: String,
    pub albums: Vec<Album>,
}

/// What an artist entry holds, as mathematical values.
pub struct ArtistView {
    pub name: Seq<char>,
    pub albums: Seq<AlbumView>,
}

impl View for Artist {
    type V = ArtistView;

    open spec fn view(&self) -> ArtistView {
        ArtistView { name: self.name@, albums: album_views(self.albums@) }
    }
}

impl Artist {
    /// A copy of this artist entry.
    pub fn duplicate(&self) -> (r: Artist)
        ensures
            r@ == self@,
    {
        Artist { name: self.name.clone(), albums: copy_albums(&self.albums) }
    }
}

/// The views of a list of artists.
pub open spec fn artist_views(artists: Seq<Artist>) -> Seq<ArtistView> {
    artists.map_values(|a: Artist| a@)
}

/// A stored playlist.
#[derive(Debug)]
pub struct Playlist {
    pub id: String,
    pub name: String,
    pub tracks: Vec<Track>,
}

/// What a playlist holds, as mathematical values.
pub struct PlaylistView {
    pub id: Seq<char>,
    pub name: Seq<char>,
    pub tracks: Seq<Track>,
}

impl View for Playlist {
    type V = PlaylistView;

    open spec fn view(&self) -> PlaylistView {
        PlaylistView { id: self.id@, name: self.name@, tracks: self.tracks@ }
    }
}

impl Playlist {
    /// A copy of this playlist.
    pub fn duplicate(&self) -> (r: Playlist)
        ensures
            r@ == self@,
    {
        Playlist { id: self.id.clone(), name: self.name.clone(), tracks: copy_tracks(&self.tracks) }
    }
}

/// The views of a list of playlists.
pub open spec fn playlist_views(playlists: Seq<Playlist>) -> Seq<PlaylistView> {
    playlists.map_values(|p: Playlist| p@)
}

/// The views of a list of strings.
pub open spec fn string_views(strings: Seq<String>) -> Seq<Seq<char>> {
    strings.map_values(|s: String| s@)
}

} // verus!
