use lyra::artists::primary_artist_names;
use lyra::library::{Album, Track};
use lyra::order::SortField;
use lyra::session::ProviderKind;
use lyra::state::LibraryState;

fn track(id: i64, title: &str) -> Track {
    Track {
        id,
        path: String::new(),
        title: title.to_string(),
        artist: "Band".to_string(),
        album_artist: String::new(),
        album: "Record".to_string(),
        genre: String::new(),
        duration_ns: 1_000_000_000 * id as u128,
        provider_id: "mpd-home".to_string(),
        source_uri: String::new(),
        is_favorite: false,
        rating: None,
    }
}

fn album(name: &str, artist: &str, tracks: Vec<Track>) -> Album {
    Album { name: name.to_string(), artist: artist.to_string(), tracks }
}

#[test]
fn stale_batch_is_discarded() {
    let mut s = LibraryState::new("mpd-home".to_string());
    let old = s.begin_reload(Some(ProviderKind::Mpd)).unwrap();
    let current = s.begin_reload(Some(ProviderKind::Mpd)).unwrap();
    assert!(s.scanning);
    let batch = vec![album("Late", "Band", vec![track(1, "x")])];
    let names = primary_artist_names(&batch);
    assert!(s.on_library_batch(old, "mpd-home", &batch, &names, vec![]).is_none());
    assert!(s.catalog.albums.is_empty() && s.catalog.tracks.is_empty());
    assert!(s.on_library_batch(current, "subsonic", &batch, &names, vec![]).is_none());
    assert!(s.catalog.albums.is_empty());
    assert!(s.on_library_batch(current, "mpd-home", &batch, &names, vec![]).is_some());
    assert_eq!(s.catalog.albums.len(), 1);
    assert_eq!(s.catalog.artists.len(), 1);
    assert!(s.scanning);
    assert!(!s.on_load_complete(old, "mpd-home"));
    assert!(s.scanning);
    assert!(s.on_load_complete(current, "mpd-home"));
    assert!(!s.scanning);
}

#[test]
fn batches_accumulate_and_search_follows() {
    let mut s = LibraryState::new("mpd-home".to_string());
    s.set_search_query("rec".to_string());
    let g = s.begin_reload(Some(ProviderKind::Mpd)).unwrap();
    let b1 = vec![album("Record", "Band", vec![track(2, "b"), track(1, "a")])];
    let b2 = vec![album("Other", "Solo", vec![track(3, "c")])];
    assert!(s.on_library_batch(g, "mpd-home", &b1, &primary_artist_names(&b1), vec![]).is_some());
    assert_eq!(s.search.album_map, vec![0]);
    assert!(s.on_library_batch(g, "mpd-home", &b2, &primary_artist_names(&b2), vec![]).is_some());
    assert_eq!(s.catalog.tracks.len(), 3);
    assert_eq!(s.search.track_map, vec![0, 1, 2]);
    assert!(s.on_load_complete(g, "mpd-home"));
    let titles: Vec<&str> = s.catalog.tracks.iter().map(|t| t.title.as_str()).collect();
    assert_eq!(titles, vec!["a", "b", "c"]);
    assert_eq!(s.catalog.albums[0].name, "Other");
    assert_eq!(s.catalog.artists[0].name, "Band");
    assert_eq!(s.search.album_map, vec![1]);
}

#[test]
fn single_shot_load_and_scan() {
    let mut s = LibraryState::new("local".to_string());
    let g = s.begin_scan();
    assert!(s.scanning);
    assert!(!s.on_scan_complete(g + 5, "local", 3));
    assert!(s.scanning);
    assert!(s.on_scan_complete(g, "local", 0));
    assert!(!s.scanning);
    let g = s.begin_reload(Some(ProviderKind::Local)).unwrap();
    let albums = vec![album("B", "Zed", vec![]), album("A", "Amy", vec![])];
    let names = primary_artist_names(&albums);
    assert!(s.on_library_loaded(g, "local", vec![track(2, "t2"), track(1, "t1")], albums, &names, vec![], vec![]).is_some());
    assert_eq!(s.catalog.tracks.len(), 2);
    let artists: Vec<&str> = s.catalog.artists.iter().map(|a| a.name.as_str()).collect();
    assert_eq!(artists, vec!["Amy", "Zed"]);
    s.sort_songs(SortField::Duration);
    assert_eq!(s.catalog.tracks[0].id, 1);
    assert!(!s.on_scan_complete(g, "local", 0));
}

#[test]
fn load_completion_sorts_albums_and_artists_by_name() {
    let mut s = LibraryState::new("mpd-home".to_string());
    let g = s.begin_reload(Some(ProviderKind::Mpd)).unwrap();
    let batch = vec![
        album("Zebra", "Moe", vec![]),
        album("Apple", "Cal", vec![]),
        album("Mango", "Abe", vec![]),
        album("Apple", "Dee", vec![]),
    ];
    assert!(s.on_library_batch(g, "mpd-home", &batch, &primary_artist_names(&batch), vec![]).is_some());
    assert!(s.on_load_complete(g, "mpd-home"));
    let albums: Vec<(&str, &str)> = s.catalog.albums.iter().map(|a| (a.name.as_str(), a.artist.as_str())).collect();
    assert_eq!(albums, vec![("Apple", "Cal"), ("Apple", "Dee"), ("Mango", "Abe"), ("Zebra", "Moe")]);
    let artists: Vec<&str> = s.catalog.artists.iter().map(|a| a.name.as_str()).collect();
    assert_eq!(artists, vec!["Abe", "Cal", "Dee", "Moe"]);
}

#[test]
fn reload_without_provider_does_nothing() {
    let mut s = LibraryState::new("none".to_string());
    assert_eq!(s.begin_reload(None), None);
    assert_eq!(s.reload.generation, 0);
    assert!(!s.scanning);
}

#[test]
fn covers_merge_with_the_batch_winning_and_remote_reload_clears_images() {
    let mut s = LibraryState::new("mpd-home".to_string());
    let g = s.begin_reload(Some(ProviderKind::Mpd)).unwrap();
    let b1 = vec![album("One", "Ann", vec![])];
    let c1 = vec![("Ann|One".to_string(), vec![1u8]), ("Bob|Two".to_string(), vec![2u8])];
    let missing = s.on_library_batch(g, "mpd-home", &b1, &primary_artist_names(&b1), c1).unwrap();
    assert_eq!(missing, vec!["Ann".to_string()]);
    s.add_avatars(vec![("Ann".to_string(), vec![9u8])]);
    let b2 = vec![album("Two", "Bob", vec![]), album("Three", "Ann", vec![])];
    let c2 = vec![("Bob|Two".to_string(), vec![3u8])];
    let missing = s.on_library_batch(g, "mpd-home", &b2, &primary_artist_names(&b2), c2).unwrap();
    assert_eq!(missing, vec!["Bob".to_string()]);
    s.add_avatars(vec![("Bob".to_string(), vec![7u8]), ("Ann".to_string(), vec![0u8])]);
    assert!(s.covers.contains_key("Ann|One") && s.covers.contains_key("Bob|Two"));
    let bob_cover: Vec<&Vec<u8>> = s.covers.entries.iter().filter(|e| e.0 == "Bob|Two").map(|e| &e.1).collect();
    assert_eq!(bob_cover, vec![&vec![3u8]]);
    let ann: Vec<&Vec<u8>> = s.avatars.entries.iter().filter(|e| e.0 == "Ann").map(|e| &e.1).collect();
    assert_eq!(ann, vec![&vec![9u8]]);
    assert!(s.avatars.contains_key("Bob"));
    let g2 = s.begin_reload(Some(ProviderKind::Subsonic)).unwrap();
    assert_eq!(g2, g + 1);
    assert!(s.covers.entries.is_empty() && s.avatars.entries.is_empty());
}

#[test]
fn single_shot_load_replaces_images_and_asks_for_missing_avatars() {
    let mut s = LibraryState::new("local".to_string());
    let g = s.begin_reload(Some(ProviderKind::Local)).unwrap();
    let albums = vec![album("A", "Amy", vec![]), album("B", "Zed", vec![])];
    let names = primary_artist_names(&albums);
    let missing = s
        .on_library_loaded(g, "local", vec![], albums, &names, vec![("Amy|A".to_string(), vec![1u8])], vec![("Zed".to_string(), vec![5u8])])
        .unwrap();
    assert_eq!(missing, vec!["Amy".to_string()]);
    assert!(s.covers.contains_key("Amy|A"));
    assert!(s.avatars.contains_key("Zed") && !s.avatars.contains_key("Amy"));
}
