use lyra::providers::{
    active_provider_index, parse_u16, port_or_default, provider_display_name, record_connection_failure,
    remove_if_present, upsert_at,
};

fn list() -> Vec<(String, String)> {
    vec![
        ("local".to_string(), "Local".to_string()),
        ("mpd-home".to_string(), "Home".to_string()),
        ("mpd-home".to_string(), "Dup".to_string()),
    ]
}

#[test]
fn active_index_is_first_matching_id() {
    assert_eq!(active_provider_index(&list(), "mpd-home"), Some(1));
    assert_eq!(active_provider_index(&list(), "local"), Some(0));
    assert_eq!(active_provider_index(&list(), "subsonic"), None);
}

#[test]
fn ports_parse_like_std() {
    for text in ["6600", "+80", "0", "65535", "65536", "", "+", "-1", " 80", "80a", "00012", "999999999999"] {
        assert_eq!(parse_u16(text), text.parse::<u16>().ok(), "{text:?}");
    }
    assert_eq!(port_or_default("abc"), 6600);
    assert_eq!(port_or_default("7000"), 7000);
}

#[test]
fn server_list_edits() {
    let mut v = vec![1, 2, 3];
    upsert_at(&mut v, 1, 20);
    assert_eq!(v, vec![1, 20, 3]);
    upsert_at(&mut v, 9, 40);
    assert_eq!(v, vec![1, 20, 3, 40]);
    assert!(remove_if_present(&mut v, 0));
    assert_eq!(v, vec![20, 3, 40]);
    assert!(!remove_if_present(&mut v, 3));
    assert_eq!(v, vec![20, 3, 40]);
}

#[test]
fn display_name_falls_back_to_id() {
    assert_eq!(provider_display_name(&"Home".to_string(), &"mpd-1".to_string()), "Home");
    assert_eq!(provider_display_name(&String::new(), &"mpd-1".to_string()), "mpd-1");
}

#[test]
fn failure_notifies_only_on_change() {
    let mut statuses: Vec<Option<String>> = vec![None, Some("Connected".to_string())];
    assert!(record_connection_failure(&mut statuses, Some(0), "failed: refused".to_string()));
    assert_eq!(statuses[0].as_deref(), Some("failed: refused"));
    assert!(!record_connection_failure(&mut statuses, Some(0), "failed: refused".to_string()));
    assert!(record_connection_failure(&mut statuses, Some(0), "failed: timeout".to_string()));
    assert!(!record_connection_failure(&mut statuses, None, "x".to_string()));
    assert!(record_connection_failure(&mut statuses, Some(5), "x".to_string()));
    assert_eq!(statuses.len(), 2);
}

#[test]
fn server_cards_keep_one_status_per_card() {
    let mut cards = lyra::providers::ServerCards::from_edits(vec!["a".to_string(), "b".to_string()]);
    assert_eq!(cards.statuses, vec![None, None]);
    cards.add("c".to_string());
    assert_eq!(cards.edits.len(), cards.statuses.len());
    cards.set_status(1, "connected".to_string());
    assert_eq!(cards.statuses[1].as_deref(), Some("connected"));
    assert!(cards.record_failure(Some(2), "failed".to_string()));
    assert!(!cards.record_failure(Some(2), "failed".to_string()));
    assert!(cards.remove(0));
    assert_eq!(cards.edits, vec!["b".to_string(), "c".to_string()]);
    assert_eq!(cards.statuses, vec![Some("connected".to_string()), Some("failed".to_string())]);
    assert!(!cards.remove(5));
    cards.edit(0, "b2".to_string());
    cards.edit(9, "x".to_string());
    assert_eq!(cards.edits, vec!["b2".to_string(), "c".to_string()]);
    assert_eq!(cards.edits.len(), cards.statuses.len());
}
