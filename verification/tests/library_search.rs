use lyra::library::{Album, Artist, Playlist, Track};
use lyra::search::{refresh_search_filter, unfilter_index, Catalog};

fn track(id: i64, title: &str, artist: &str, album: &str) -> Track {
    Track {
        id,
        path: format!("/music/{id}.flac"),
        title: title.to_string(),
        artist: artist.to_string(),
        album_artist: String::new(),
        album: album.to_string(),
        genre: "Rock".to_string(),
        duration_ns: 200_000_000_000,
        provider_id: "local".to_string(),
        source_uri: String::new(),
        is_favorite: false,
        rating: None,
    }
}

fn album(name: &str, artist: &str) -> Album {
    Album { name: name.to_string(), artist: artist.to_string(), tracks: vec![track(1, "Intro", artist, name)] }
}

fn catalog() -> Catalog {
    Catalog {
        tracks: vec![
            track(1, "Yellow", "Coldplay", "Parachutes"),
            track(2, "Paranoid Android", "Radiohead", "OK Computer"),
            track(3, "Karma Police", "Radiohead", "OK Computer"),
        ],
        albums: vec![album("Parachutes", "Coldplay"), album("OK Computer", "Radiohead"), album("Kid A", "Radiohead")],
        artists: vec![
            Artist { name: "Coldplay".to_string(), albums: vec![] },
            Artist { name: "Radiohead".to_string(), albums: vec![] },
        ],
        playlists: vec![
            Playlist { id: "p1".to_string(), name: "Road Trip".to_string(), tracks: vec![] },
            Playlist { id: "p2".to_string(), name: "Radio Hits".to_string(), tracks: vec![] },
        ],
        genres: vec!["Rock".to_string(), "Trip Hop".to_string(), "Jazz".to_string()],
    }
}

#[test]
fn search_matches_case_insensitively_with_index_maps() {
    let c = catalog();
    let r = refresh_search_filter(&c, "  RADIO ");
    assert_eq!(r.album_map, vec![1, 2]);
    assert_eq!(r.albums.len(), 2);
    assert_eq!(r.albums[0].name, "OK Computer");
    assert_eq!(r.artist_map, vec![1]);
    assert_eq!(r.artists[0].name, "Radiohead");
    assert_eq!(r.track_map, vec![1, 2]);
    assert_eq!(r.tracks[1].title, "Karma Police");
    assert_eq!(r.playlist_map, vec![1]);
    assert_eq!(r.genre_map, Vec::<usize>::new());
}

#[test]
fn track_matches_on_album_field() {
    let c = catalog();
    let r = refresh_search_filter(&c, "parachutes");
    assert_eq!(r.track_map, vec![0]);
    assert_eq!(r.album_map, vec![0]);
    assert!(r.artists.is_empty());
}

#[test]
fn blank_query_empties_every_cache() {
    let c = catalog();
    let r = refresh_search_filter(&c, " \t ");
    assert!(r.albums.is_empty() && r.album_map.is_empty());
    assert!(r.artists.is_empty() && r.artist_map.is_empty());
    assert!(r.tracks.is_empty() && r.track_map.is_empty());
    assert!(r.playlists.is_empty() && r.playlist_map.is_empty());
    assert!(r.genres.is_empty() && r.genre_map.is_empty());
}

#[test]
fn genre_search_uses_unicode_lowercase() {
    let mut c = catalog();
    c.genres.push("ÉLECTRO".to_string());
    let r = refresh_search_filter(&c, "élec");
    assert_eq!(r.genre_map, vec![3]);
    assert_eq!(r.genres, vec!["ÉLECTRO".to_string()]);
}

#[test]
fn filtered_position_resolves_to_unfiltered_entry() {
    let c = catalog();
    let r = refresh_search_filter(&c, "trip");
    assert_eq!(r.genre_map, vec![1]);
    let i = unfilter_index(Some(r.genre_map.as_slice()), 0);
    assert_eq!(c.genres[i], "Trip Hop");
    assert_eq!(unfilter_index(None, 2), 2);
    let pl = unfilter_index(Some(r.playlist_map.as_slice()), 0);
    assert_eq!(c.playlists[pl].name, "Road Trip");
}
