use lyra::library::Track;
use lyra::playback::{
    clamp_position, loop_mode_of, mpd_repeat_settings, mpris_controls, mpris_seek_target, mpris_status,
    podcast_resume_position, repeat_mode_of, scrobble_reset, scrobble_step, should_save_podcast_position,
    shortcut_seek_target, presses_to_reach, LoopMode, MprisStatus, PlaybackState, RepeatMode, SingleMode,
};

/// One millisecond, in nanoseconds.
const MS: u128 = 1_000_000;

fn track(provider: &str) -> Track {
    Track {
        id: 7,
        path: String::new(),
        title: "t".to_string(),
        artist: "a".to_string(),
        album_artist: String::new(),
        album: "b".to_string(),
        genre: String::new(),
        duration_ns: 1000 * MS,
        provider_id: provider.to_string(),
        source_uri: String::new(),
        is_favorite: false,
        rating: None,
    }
}

#[test]
fn scrobble_at_half_duration() {
    let s = scrobble_reset();
    let (s, a) = scrobble_step(s, 10_000 * MS, 200_000 * MS);
    assert!(a.send_now_playing && !a.send_scrobble);
    let (s, a) = scrobble_step(s, 99_999 * MS, 200_000 * MS);
    assert!(!a.send_now_playing && !a.send_scrobble);
    let (s, a) = scrobble_step(s, 100_000 * MS, 200_000 * MS);
    assert!(a.send_scrobble && s.scrobble_sent);
    let (_, a) = scrobble_step(s, 150_000 * MS, 200_000 * MS);
    assert!(!a.send_scrobble && !a.send_now_playing);
}

#[test]
fn scrobble_after_four_minutes_for_long_tracks() {
    let s = scrobble_reset();
    let (s, a) = scrobble_step(s, 239_999 * MS, 3_600_000 * MS);
    assert!(!a.send_scrobble);
    let (_, a) = scrobble_step(s, 240_000 * MS, 3_600_000 * MS);
    assert!(a.send_scrobble);
}

#[test]
fn no_scrobble_without_length() {
    let (_, a) = scrobble_step(scrobble_reset(), 5_000 * MS, 0);
    assert!(!a.send_scrobble);
}

#[test]
fn position_and_seek_targets() {
    assert_eq!(clamp_position(5_000 * MS, 4_000 * MS), 4_000 * MS);
    assert_eq!(clamp_position(3_000 * MS, 4_000 * MS), 3_000 * MS);
    assert_eq!(shortcut_seek_target(1_000 * MS, 0, true), None);
    assert_eq!(shortcut_seek_target(1_000 * MS, 60_000 * MS, true), Some(6_000 * MS));
    assert_eq!(shortcut_seek_target(58_000 * MS, 60_000 * MS, true), Some(60_000 * MS));
    assert_eq!(shortcut_seek_target(3_000 * MS, 60_000 * MS, false), Some(0));
    assert_eq!(shortcut_seek_target(9_000 * MS, 60_000 * MS, false), Some(4_000 * MS));
}

#[test]
fn mpris_seek_clamps_to_track() {
    assert_eq!(mpris_seek_target(1_000_000, 10_000_000, 2_000_000, true), Some(3_000_000));
    assert_eq!(mpris_seek_target(1_000_000, 10_000_000, -5_000_000, true), Some(0));
    assert_eq!(mpris_seek_target(1_000_000, 10_000_000, 50_000_000, false), Some(10_000_000));
    assert_eq!(mpris_seek_target(1_000_000, 0, 5, false), None);
}

#[test]
fn podcast_position_saved_every_five_seconds() {
    assert!(should_save_podcast_position(10, 5));
    assert!(!should_save_podcast_position(10, 10));
    assert!(!should_save_podcast_position(11, 10));
    assert_eq!(podcast_resume_position(0), None);
    assert_eq!(podcast_resume_position(-4), None);
    assert_eq!(podcast_resume_position(1500), Some(1500));
}

#[test]
fn mpris_state_and_controls() {
    assert_eq!(mpris_status(None), MprisStatus::Stopped);
    assert_eq!(mpris_status(Some(PlaybackState::Paused)), MprisStatus::Paused);
    assert_eq!(mpris_status(Some(PlaybackState::Playing)), MprisStatus::Playing);
    let radio = track("radio");
    let c = mpris_controls(Some(&radio), false);
    assert!(c.can_go_next && c.can_go_previous && c.can_play && !c.can_seek);
    let local = track("local");
    let c = mpris_controls(Some(&local), true);
    assert!(!c.can_go_next && c.can_seek && c.can_play);
    let c = mpris_controls(None, false);
    assert!(!c.can_play && !c.can_seek && !c.can_go_next);
}

#[test]
fn repeat_mode_mappings() {
    assert_eq!(loop_mode_of(RepeatMode::All), LoopMode::Playlist);
    assert_eq!(repeat_mode_of(LoopMode::Track), RepeatMode::One);
    assert_eq!(repeat_mode_of(loop_mode_of(RepeatMode::Off)), RepeatMode::Off);
    assert_eq!(mpd_repeat_settings(RepeatMode::Off), (false, SingleMode::Disabled));
    assert_eq!(mpd_repeat_settings(RepeatMode::All), (true, SingleMode::Disabled));
    assert_eq!(mpd_repeat_settings(RepeatMode::One), (true, SingleMode::Enabled));
}

#[test]
fn repeat_button_cycles_off_all_one() {
    assert_eq!(RepeatMode::Off.next(), RepeatMode::All);
    assert_eq!(RepeatMode::All.next(), RepeatMode::One);
    assert_eq!(RepeatMode::One.next(), RepeatMode::Off);
}

#[test]
fn loop_requests_press_repeat_until_the_wanted_setting() {
    assert_eq!(presses_to_reach(RepeatMode::Off, RepeatMode::Off), 0);
    assert_eq!(presses_to_reach(RepeatMode::Off, RepeatMode::All), 1);
    assert_eq!(presses_to_reach(RepeatMode::Off, RepeatMode::One), 2);
    assert_eq!(presses_to_reach(RepeatMode::One, RepeatMode::All), 2);
    assert_eq!(presses_to_reach(RepeatMode::All, RepeatMode::One), 1);
    assert_eq!(presses_to_reach(RepeatMode::One, repeat_mode_of(LoopMode::Off)), 1);
}

#[test]
fn scrobble_point_is_half_the_length_to_the_nanosecond() {
    let (_, a) = scrobble_step(scrobble_reset(), 0, MS);
    assert!(!a.send_scrobble);
    let (_, a) = scrobble_step(scrobble_reset(), 499_999, MS);
    assert!(!a.send_scrobble);
    let (_, a) = scrobble_step(scrobble_reset(), 500_000, MS);
    assert!(a.send_scrobble);
    let (_, a) = scrobble_step(scrobble_reset(), 1, 3);
    assert!(a.send_scrobble);
    let (_, a) = scrobble_step(scrobble_reset(), 5, 1);
    assert!(!a.send_scrobble);
}
