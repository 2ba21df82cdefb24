use lyra::reload::{reload_result_is_stale, ReloadTracker, ScanOutcome};

#[test]
fn mod_matching_generation_and_provider_is_not_stale() {
    assert!(!reload_result_is_stale(3, "mpd-home", 3, "mpd-home"));
}

#[test]
fn mod_result_from_a_superseded_reload_is_stale() {
    // A second reload bumped the generation before this result arrived.
    assert!(reload_result_is_stale(3, "mpd-home", 2, "mpd-home"));
}

#[test]
fn mod_result_from_a_different_provider_is_stale_even_at_current_generation() {
    // The generation alone cannot catch a provider switch.
    assert!(reload_result_is_stale(3, "mpd-home", 3, "subsonic-server"));
}

#[test]
fn app_matching_generation_and_provider_is_not_stale() {
    assert!(!reload_result_is_stale(3, "mpd-home", 3, "mpd-home"));
}

#[test]
fn app_result_from_a_superseded_reload_is_stale() {
    assert!(reload_result_is_stale(3, "mpd-home", 2, "mpd-home"));
}

#[test]
fn app_result_from_a_different_provider_is_stale_even_at_current_generation() {
    assert!(reload_result_is_stale(3, "mpd-home", 3, "subsonic-server"));
}

#[test]
fn begin_reload_supersedes_earlier_results() {
    let mut tracker = ReloadTracker::new();
    let first = tracker.begin_reload_generation();
    let second = tracker.begin_reload_generation();
    assert_eq!(first, 1);
    assert_eq!(second, 2);
    assert!(tracker.is_stale_reload("local", first, "local"));
    assert!(!tracker.is_stale_reload("local", second, "local"));
    assert!(tracker.is_stale_reload("local", second, "mpd-home"));
}

#[test]
fn scan_complete_reloads_only_when_needed() {
    let mut tracker = ReloadTracker::new();
    let g = tracker.begin_reload_generation();
    assert_eq!(tracker.on_scan_complete("local", g, "local", 0, false), ScanOutcome::Finished { reload: false });
    assert_eq!(tracker.on_scan_complete("local", g, "local", 4, false), ScanOutcome::Finished { reload: true });
    assert_eq!(tracker.on_scan_complete("local", g, "local", 0, true), ScanOutcome::Finished { reload: true });
    assert_eq!(tracker.on_scan_complete("local", g + 1, "local", 4, false), ScanOutcome::Ignore);
}

#[test]
fn empty_provider_ids_compare_equal() {
    assert!(!reload_result_is_stale(0, "", 0, ""));
    assert!(reload_result_is_stale(0, "", 0, "x"));
}
