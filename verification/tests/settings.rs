use lyra::settings::{add_music_dir, artist_split_changed};

#[test]
fn music_folders_are_added_once_by_path() {
    let mut dirs = vec!["/home/me/Music".to_string()];
    assert!(!add_music_dir(&mut dirs, "/home/me/Music/".to_string()));
    assert!(!add_music_dir(&mut dirs, "/home/me//Music".to_string()));
    assert_eq!(dirs, vec!["/home/me/Music".to_string()]);
    assert!(add_music_dir(&mut dirs, "/mnt/nas/music".to_string()));
    assert_eq!(dirs, vec!["/home/me/Music".to_string(), "/mnt/nas/music".to_string()]);
}

#[test]
fn split_changes_on_flag_or_delimiters() {
    let a = vec![";".to_string(), "feat.".to_string()];
    let b = vec![";".to_string(), "feat.".to_string()];
    let c = vec![";".to_string()];
    let d = vec![";".to_string(), "ft.".to_string()];
    assert!(!artist_split_changed(true, &a, true, &b));
    assert!(artist_split_changed(true, &a, false, &b));
    assert!(artist_split_changed(true, &a, true, &c));
    assert!(artist_split_changed(false, &a, false, &d));
}
