use lyra::playback::announced_title;
use lyra::presets::{find_named, profile_name, save_as_check, PresetNameCheck};

#[test]
fn blank_names_are_refused_before_builtin_ones() {
    assert_eq!(save_as_check("   ", true), PresetNameCheck::Empty);
    assert_eq!(save_as_check("", false), PresetNameCheck::Empty);
    assert_eq!(save_as_check("Rock", true), PresetNameCheck::Builtin);
    assert_eq!(save_as_check(" My mix ", false), PresetNameCheck::Accepted);
}

#[test]
fn presets_are_found_by_exact_name() {
    let names = vec!["Flat".to_string(), "Bass".to_string(), "Bass".to_string()];
    assert_eq!(find_named(&names, "Bass"), Some(1));
    assert_eq!(find_named(&names, "bass"), None);
    assert_eq!(find_named(&names, "Flat"), Some(0));
}

#[test]
fn profile_names_come_from_the_first_matching_path() {
    let profiles = vec![
        ("oratory1990/A".to_string(), "Headphone A".to_string()),
        ("rtings/B".to_string(), "Headphone B".to_string()),
        ("rtings/B".to_string(), "Other B".to_string()),
    ];
    assert_eq!(profile_name(&profiles, "rtings/B"), "Headphone B");
    assert_eq!(profile_name(&profiles, "missing"), "");
}

#[test]
fn radio_titles_follow_new_announcements() {
    assert_eq!(announced_title("Station", Some("Artist - Song")), Some("Artist - Song".to_string()));
    assert_eq!(announced_title("Artist - Song", Some("Artist - Song")), None);
    assert_eq!(announced_title("Station", Some("")), None);
    assert_eq!(announced_title("Station", None), None);
}
