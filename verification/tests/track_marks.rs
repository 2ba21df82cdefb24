use lyra::library::{Album, Artist, Track};
use lyra::marks::{apply_track_edit, id_text, rating_edit, TrackCopies, TrackEdit};

fn track(id: i64) -> Track {
    Track {
        id,
        path: String::new(),
        title: format!("t{id}"),
        artist: String::new(),
        album_artist: String::new(),
        album: String::new(),
        genre: String::new(),
        duration_ns: 0,
        provider_id: "local".to_string(),
        source_uri: String::new(),
        is_favorite: false,
        rating: None,
    }
}

#[test]
fn id_text_matches_to_string() {
    for id in [0i64, 7, 10, -3, 1234567, -1000, i64::MAX, i64::MIN] {
        let text: String = id_text(id).into_iter().collect();
        assert_eq!(text, id.to_string());
    }
}

#[test]
fn favorite_applies_to_every_copy() {
    let album = Album { name: "A".to_string(), artist: "X".to_string(), tracks: vec![track(1), track(2)] };
    let mut copies = TrackCopies {
        tracks: vec![track(1), track(2), track(12)],
        albums: vec![Album { name: "A".to_string(), artist: "X".to_string(), tracks: vec![track(1), track(2)] }],
        artists: vec![Artist { name: "X".to_string(), albums: vec![album] }],
        current: Some(track(2)),
    };
    apply_track_edit(&mut copies, "2", TrackEdit::Favorite(true));
    assert_eq!(copies.tracks.iter().map(|t| t.is_favorite).collect::<Vec<_>>(), vec![false, true, false]);
    assert!(copies.albums[0].tracks[1].is_favorite && !copies.albums[0].tracks[0].is_favorite);
    assert!(copies.artists[0].albums[0].tracks[1].is_favorite);
    assert!(copies.current.as_ref().unwrap().is_favorite);
}

#[test]
fn rating_zero_clears() {
    assert_eq!(rating_edit(0), TrackEdit::Rating(None));
    assert_eq!(rating_edit(4), TrackEdit::Rating(Some(4)));
    let mut copies = TrackCopies { tracks: vec![track(-5), track(5)], albums: vec![], artists: vec![], current: None };
    apply_track_edit(&mut copies, "-5", rating_edit(3));
    assert_eq!(copies.tracks[0].rating, Some(3));
    assert_eq!(copies.tracks[1].rating, None);
    apply_track_edit(&mut copies, "-5", rating_edit(0));
    assert_eq!(copies.tracks[0].rating, None);
    assert!(copies.current.is_none());
}

#[test]
fn id_must_match_exactly() {
    let mut copies = TrackCopies { tracks: vec![track(5)], albums: vec![], artists: vec![], current: None };
    apply_track_edit(&mut copies, "+5", TrackEdit::Favorite(true));
    assert!(!copies.tracks[0].is_favorite);
    apply_track_edit(&mut copies, "05", TrackEdit::Favorite(true));
    assert!(!copies.tracks[0].is_favorite);
}
