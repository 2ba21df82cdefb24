use lyra::artists::{merge_artists_from_batch, primary_artist_names, rebuild_all_artists};
use lyra::library::{Album, Artist, Track};
use lyra::order::{sort_albums_by_name, sort_artists_by_name, sort_tracks, stable_order, SortField, SortKey};

fn track(id: i64, title: &str, artist: &str, duration_ns: u128) -> Track {
    Track {
        id,
        path: String::new(),
        title: title.to_string(),
        artist: artist.to_string(),
        album_artist: String::new(),
        album: format!("Album {}", id % 2),
        genre: String::new(),
        duration_ns,
        provider_id: "local".to_string(),
        source_uri: String::new(),
        is_favorite: false,
        rating: None,
    }
}

fn ids(ts: &[Track]) -> Vec<i64> {
    ts.iter().map(|t| t.id).collect()
}

#[test]
fn sorting_by_title_is_stable_and_byte_ordered() {
    let mut ts = vec![track(1, "b", "x", 5), track(2, "a", "x", 5), track(3, "B", "x", 5), track(4, "a", "y", 5), track(5, "é", "x", 5)];
    sort_tracks(&mut ts, SortField::Title);
    assert_eq!(ids(&ts), vec![3, 2, 4, 1, 5]);
}

#[test]
fn sorting_by_duration_keeps_equal_lengths_in_order() {
    let mut ts = vec![track(1, "a", "x", 300), track(2, "b", "x", 100), track(3, "c", "x", 300), track(4, "d", "x", 100)];
    sort_tracks(&mut ts, SortField::Duration);
    assert_eq!(ids(&ts), vec![2, 4, 1, 3]);
}

#[test]
fn sorting_matches_std_stable_sort() {
    let titles = ["delta", "alpha", "Charlie", "alpha", "bravo", "", "alphabet", "Delta"];
    let mut ts: Vec<Track> = titles.iter().enumerate().map(|(i, t)| track(i as i64, t, "z", 1)).collect();
    let mut expected: Vec<i64> = ids(&ts);
    expected.sort_by(|a, b| titles[*a as usize].cmp(titles[*b as usize]));
    sort_tracks(&mut ts, SortField::Title);
    assert_eq!(ids(&ts), expected);
}

#[test]
fn stable_order_of_keys() {
    let keys = vec![SortKey::Number(3), SortKey::Number(1), SortKey::Number(3), SortKey::Number(0)];
    assert_eq!(stable_order(&keys), vec![3, 1, 0, 2]);
    let text = vec![SortKey::Text(vec!['b']), SortKey::Text(vec!['a', 'b']), SortKey::Text(vec!['a'])];
    assert_eq!(stable_order(&text), vec![2, 1, 0]);
}

fn album(name: &str, artist: &str) -> Album {
    Album { name: name.to_string(), artist: artist.to_string(), tracks: vec![] }
}

#[test]
fn merge_files_albums_under_each_name() {
    let mut artists = vec![Artist { name: "Queen".to_string(), albums: vec![album("Jazz", "Queen")] }];
    let batch = vec![album("Under Pressure", "Queen & David Bowie"), album("Heroes", "David Bowie")];
    let names = vec![
        vec!["Queen".to_string(), "David Bowie".to_string()],
        vec!["David Bowie".to_string()],
    ];
    let created = merge_artists_from_batch(&mut artists, &batch, &names);
    assert_eq!(created, vec!["David Bowie".to_string()]);
    assert_eq!(artists.len(), 2);
    assert_eq!(artists[0].albums.len(), 2);
    assert_eq!(artists[0].albums[1].name, "Under Pressure");
    assert_eq!(artists[1].name, "David Bowie");
    let bowie: Vec<&str> = artists[1].albums.iter().map(|a| a.name.as_str()).collect();
    assert_eq!(bowie, vec!["Under Pressure", "Heroes"]);
}

#[test]
fn rebuild_sorts_artists_by_name() {
    let albums = vec![album("Z1", "Zappa"), album("A1", "ABBA"), album("Z2", "Zappa")];
    let names = primary_artist_names(&albums);
    assert_eq!(names[1], vec!["ABBA".to_string()]);
    let artists = rebuild_all_artists(&albums, &names);
    let order: Vec<&str> = artists.iter().map(|a| a.name.as_str()).collect();
    assert_eq!(order, vec!["ABBA", "Zappa"]);
    assert_eq!(artists[1].albums.len(), 2);
    assert_eq!(artists[1].albums[1].name, "Z2");
}

#[test]
fn sort_albums_and_artists_by_name() {
    let mut albums = vec![album("b", "x"), album("a", "y"), album("b", "z")];
    sort_albums_by_name(&mut albums);
    let order: Vec<&str> = albums.iter().map(|a| a.artist.as_str()).collect();
    assert_eq!(order, vec!["y", "x", "z"]);
    let mut artists = vec![Artist { name: "m".to_string(), albums: vec![] }, Artist { name: "c".to_string(), albums: vec![] }];
    sort_artists_by_name(&mut artists);
    assert_eq!(artists[0].name, "c");
}

#[test]
fn durations_sort_to_the_nanosecond() {
    let mut ts = vec![track(1, "a", "x", 1_000_000_001), track(2, "b", "x", 1_000_000_000)];
    sort_tracks(&mut ts, SortField::Duration);
    assert_eq!(ts.iter().map(|t| t.id).collect::<Vec<_>>(), vec![2, 1]);
}
