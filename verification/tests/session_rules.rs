use std::collections::HashSet;

use lyra::cover::{blur_result_applies, blur_step, cover_artist, BlurStep};
use lyra::credentials::{LookupOutcome, SecretCheck, ServerSecret};
use lyra::library::{Album, Track};
use lyra::playback::PlaybackState;
use lyra::podcasts::{begin_download, finish_download, podcast_is_selected, submitted_text};
use lyra::search::Catalog;
use lyra::session::{
    album_batches, album_queue, append_batch, finish_library_load, mpris_track_fields, next_page_offset,
    load_step, play_pause_action, queue_folder_action, LoadStep, reload_after_rebuild, reload_plan, request_toggles, show_provider_selector, shuffle_needs_toggle,
    stream_plan, track_at, tracks_in_genre, window_title, ProviderKind, QueueAction, ReloadPlan, TransportAction,
    TransportRequest, VizChrome, VizHud, HUD_HOLD_FRAMES,
};

fn track(id: i64, title: &str, genre: &str) -> Track {
    Track {
        id,
        path: String::new(),
        title: title.to_string(),
        artist: "Artist".to_string(),
        album_artist: String::new(),
        album: "Album".to_string(),
        genre: genre.to_string(),
        duration_ns: 2_500_000_000,
        provider_id: "local".to_string(),
        source_uri: String::new(),
        is_favorite: false,
        rating: None,
    }
}

fn empty_catalog() -> Catalog {
    Catalog { tracks: vec![], albums: vec![], artists: vec![], playlists: vec![], genres: vec![] }
}

#[test]
fn batches_append_tracks_and_albums() {
    let mut c = empty_catalog();
    let batch = vec![
        Album { name: "B".to_string(), artist: "x".to_string(), tracks: vec![track(1, "z", ""), track(2, "y", "")] },
        Album { name: "A".to_string(), artist: "x".to_string(), tracks: vec![track(3, "x", "")] },
    ];
    append_batch(&mut c, &batch);
    assert_eq!(c.tracks.iter().map(|t| t.id).collect::<Vec<_>>(), vec![1, 2, 3]);
    assert_eq!(c.albums.len(), 2);
    finish_library_load(&mut c);
    assert_eq!(c.tracks.iter().map(|t| t.id).collect::<Vec<_>>(), vec![3, 2, 1]);
    assert_eq!(c.albums[0].name, "A");
}

#[test]
fn queue_and_transport_decisions() {
    assert_eq!(queue_folder_action(0, false), QueueAction::Nothing);
    assert_eq!(queue_folder_action(3, true), QueueAction::PlayFromStart);
    assert_eq!(queue_folder_action(3, false), QueueAction::Append(3));
    assert_eq!(play_pause_action(PlaybackState::Stopped, false), TransportAction::PlayLibraryFromStart);
    assert_eq!(play_pause_action(PlaybackState::Stopped, true), TransportAction::Toggle);
    assert_eq!(play_pause_action(PlaybackState::Playing, false), TransportAction::Toggle);
    assert!(request_toggles(TransportRequest::Play, false));
    assert!(!request_toggles(TransportRequest::Play, true));
    assert!(request_toggles(TransportRequest::Stop, true));
    assert!(!request_toggles(TransportRequest::Pause, false));
    assert!(request_toggles(TransportRequest::PlayPause, false));
    assert!(shuffle_needs_toggle(false, true));
    assert!(!shuffle_needs_toggle(true, true));
}

#[test]
fn queue_starts() {
    let ts = vec![track(1, "a", ""), track(2, "b", "")];
    assert_eq!(track_at(&ts, 1).map(|t| t.id), Some(2));
    assert!(track_at(&ts, 2).is_none());
    let albums = vec![Album { name: "A".to_string(), artist: "x".to_string(), tracks: ts }];
    assert_eq!(album_queue(&albums, 0).map(|q| q.len()), Some(2));
    assert!(album_queue(&albums, 1).is_none());
}

#[test]
fn streams_and_reloads() {
    let p = stream_plan(true, true, true, false, true, true, false);
    assert!(p.mpd_status_poll && !p.playback_tick && p.animation_tick && !p.file_watcher && !p.convert_tick);
    let p = stream_plan(true, true, false, false, false, false, false);
    assert!(!p.mpd_status_poll && !p.playback_tick);
    let p = stream_plan(true, false, false, true, false, true, true);
    assert!(!p.mpd_status_poll && p.playback_tick && p.convert_tick && p.file_watcher);
    let p = stream_plan(false, true, true, false, false, false, true);
    assert!(!p.mpd_status_poll && !p.playback_tick);
    assert_eq!(reload_plan(ProviderKind::Local), ReloadPlan::SingleShot);
    assert_eq!(reload_plan(ProviderKind::Subsonic), ReloadPlan::Incremental);
    assert_eq!(reload_plan(ProviderKind::Mpd), ReloadPlan::Incremental);
}

#[test]
fn batching_and_paging() {
    assert_eq!(album_batches(0), vec![]);
    assert_eq!(album_batches(50), vec![(0, 50)]);
    assert_eq!(album_batches(120), vec![(0, 50), (50, 100), (100, 120)]);
    assert_eq!(next_page_offset(0, 50, true), Some(50));
    assert_eq!(next_page_offset(50, 12, false), None);
    assert_eq!(next_page_offset(50, 0, true), None);
}

#[test]
fn mpris_fields_and_titles() {
    let t = track(9, "Song", "Pop");
    let f = mpris_track_fields(Some(&t));
    assert_eq!(f.title, "Song");
    assert_eq!(f.track_id, 9);
    assert_eq!(f.length_us, 2_500_000);
    let f = mpris_track_fields(None);
    assert_eq!(f.track_id, 0);
    assert!(f.title.is_empty());
    assert_eq!(window_title("Lyra", Some("Albums")), "Lyra — Albums");
    assert_eq!(window_title("Lyra", None), "Lyra");
    assert!(show_provider_selector(2));
    assert!(!show_provider_selector(1));
}

#[test]
fn genre_fallback_ignores_ascii_case() {
    let ts = vec![track(1, "a", "Rock"), track(2, "b", "ROCK"), track(3, "c", "Jazz"), track(4, "d", "rocks")];
    let r = tracks_in_genre(&ts, "rock");
    assert_eq!(r.iter().map(|t| t.id).collect::<Vec<_>>(), vec![1, 2]);
}

#[test]
fn blur_decisions() {
    let mut t = track(1, "a", "");
    assert_eq!(cover_artist(&t), "Artist");
    t.album_artist = "Various".to_string();
    assert_eq!(cover_artist(&t), "Various");
    let key = "various-album".to_string();
    assert_eq!(blur_step(None, &Some(key.clone()), true), (BlurStep::ClearAll, None));
    assert_eq!(blur_step(Some(&key), &Some(key.clone()), false), (BlurStep::UpToDate, Some(key.clone())));
    assert_eq!(blur_step(Some(&key), &Some("other".to_string()), false), (BlurStep::AwaitBytes, None));
    assert_eq!(blur_step(Some(&key), &None, true), (BlurStep::Compute, None));
    assert!(blur_result_applies(Some(&key), &key));
    assert!(!blur_result_applies(Some(&key), &"other".to_string()));
    assert!(!blur_result_applies(None, &key));
}

#[test]
fn fullscreen_round_trip() {
    let mut c = VizChrome { fullscreen: false, headerbar_shown: true, nav_shown: false, nav_before_fullscreen: true };
    c.toggle_fullscreen();
    assert!(c.fullscreen && !c.headerbar_shown && !c.nav_shown && !c.nav_before_fullscreen);
    c.exit_fullscreen();
    assert!(!c.fullscreen && c.headerbar_shown && !c.nav_shown);
    let before = c;
    c.exit_fullscreen();
    assert_eq!(c, before);
}

#[test]
fn podcast_bookkeeping() {
    assert_eq!(submitted_text("  jazz news "), Some("jazz news".to_string()));
    assert_eq!(submitted_text(" \n "), None);
    assert!(podcast_is_selected(Some(1), &vec![10, 20], 20));
    assert!(!podcast_is_selected(Some(2), &vec![10, 20], 20));
    assert!(!podcast_is_selected(None, &vec![10, 20], 10));
    let mut downloading = HashSet::new();
    assert!(begin_download(&mut downloading, 7));
    assert!(!begin_download(&mut downloading, 7));
    finish_download(&mut downloading, 7);
    assert!(begin_download(&mut downloading, 7));
}

#[test]
fn password_handling() {
    let s = ServerSecret { password: Some("pw".to_string()), password_in_keyring: false };
    assert_eq!(s.startup_check(true), SecretCheck::Migrate);
    assert_eq!(s.startup_check(false), SecretCheck::Keep);
    assert!(s.has_password_to_store());
    let mut s2 = ServerSecret { password: None, password_in_keyring: true };
    assert_eq!(s2.startup_check(true), SecretCheck::VerifyStored);
    assert!(!s2.after_lookup(LookupOutcome::Found));
    assert!(s2.password_in_keyring);
    assert!(s2.after_lookup(LookupOutcome::Missing));
    assert!(!s2.password_in_keyring);
    let mut s3 = ServerSecret { password: Some("pw".to_string()), password_in_keyring: false };
    assert!(!s3.after_store(false));
    assert_eq!(s3.password.as_deref(), Some("pw"));
    assert!(s3.after_store(true));
    assert!(s3.password.is_none() && s3.password_in_keyring);
    let empty = ServerSecret { password: Some(String::new()), password_in_keyring: false };
    assert!(!empty.has_password_to_store());
}

#[test]
fn control_card_hides_after_the_hold_time_in_fullscreen() {
    let mut hud = VizHud { idle_frames: 0, pointer_over: false, browser_open: false, presets_scan_started: false };
    for _ in 0..HUD_HOLD_FRAMES - 1 {
        hud.frame_ready(true);
    }
    assert!(hud.visible());
    hud.frame_ready(true);
    assert_eq!(hud.idle_frames, 90);
    assert!(!hud.visible());
    hud.activity();
    assert!(hud.visible());
    hud.frame_ready(false);
    assert_eq!(hud.idle_frames, 0);
}

#[test]
fn control_card_stays_while_pointed_at_or_browsing() {
    let mut hud = VizHud { idle_frames: 500, pointer_over: false, browser_open: false, presets_scan_started: false };
    assert!(!hud.visible());
    hud.pointer_moved(true);
    for _ in 0..200 {
        hud.frame_ready(true);
    }
    assert_eq!(hud.idle_frames, 0);
    assert!(hud.visible());
    hud.pointer_moved(false);
    assert!(hud.toggle_browser());
    assert!(hud.browser_open);
    for _ in 0..200 {
        hud.frame_ready(true);
    }
    assert!(hud.visible());
    assert!(!hud.toggle_browser());
    assert!(!hud.toggle_browser());
    hud.close_browser();
    assert!(!hud.browser_open);
    let mut full = VizHud { idle_frames: u32::MAX, pointer_over: false, browser_open: false, presets_scan_started: true };
    full.frame_ready(true);
    assert_eq!(full.idle_frames, u32::MAX);
}

#[test]
fn rebuilding_providers_reloads_only_where_no_connection_event_follows() {
    assert!(reload_after_rebuild(ProviderKind::Mpd, Some(ProviderKind::Local)));
    assert!(!reload_after_rebuild(ProviderKind::Mpd, Some(ProviderKind::Mpd)));
    assert!(reload_after_rebuild(ProviderKind::Subsonic, Some(ProviderKind::Subsonic)));
    assert!(!reload_after_rebuild(ProviderKind::Subsonic, Some(ProviderKind::Local)));
    assert!(!reload_after_rebuild(ProviderKind::Local, Some(ProviderKind::Local)));
    assert!(!reload_after_rebuild(ProviderKind::Mpd, None));
}

#[test]
fn mpris_length_is_whole_microseconds() {
    let mut t = track(1, "x", "");
    t.duration_ns = 1_999;
    assert_eq!(mpris_track_fields(Some(&t)).length_us, 1);
}

#[test]
fn incremental_load_steps() {
    assert_eq!(load_step(ProviderKind::Mpd, None), LoadStep::Finish);
    assert_eq!(load_step(ProviderKind::Mpd, Some((0, true))), LoadStep::SendAndContinue);
    assert_eq!(load_step(ProviderKind::Mpd, Some((50, false))), LoadStep::SendAndFinish);
    assert_eq!(load_step(ProviderKind::Subsonic, Some((0, true))), LoadStep::Finish);
    assert_eq!(load_step(ProviderKind::Subsonic, Some((12, true))), LoadStep::SendAndContinue);
    assert_eq!(load_step(ProviderKind::Subsonic, Some((12, false))), LoadStep::SendAndFinish);
    assert_eq!(next_page_offset(i32::MAX, 0, true), None);
}
