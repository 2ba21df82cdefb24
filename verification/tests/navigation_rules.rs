use lyra::navigation::{
    escape_action, nav_page_for_shortcut, page_load, shortcut_allowed, ContextDrawer, ContextPage, EscapeAction,
    MenuAction, MenuCommand, Page, PageLoad, SearchBar, Shortcut, SongFilters,
};

#[test]
fn menu_actions_send_their_commands() {
    assert_eq!(MenuAction::Settings.message(), MenuCommand::ToggleContextPage(ContextPage::Settings));
    assert_eq!(MenuAction::Search.message(), MenuCommand::ToggleLibrarySearch);
    assert_eq!(MenuAction::Quit.message(), MenuCommand::Quit);
    assert_eq!(MenuAction::ScanLibrary.message(), MenuCommand::ScanLibrary);
    assert_eq!(ContextPage::default(), ContextPage::About);
}

#[test]
fn drawer_toggles_same_page_and_switches_others() {
    let mut d = ContextDrawer { page: ContextPage::About, shown: false };
    d.toggle_page(ContextPage::About);
    assert_eq!(d, ContextDrawer { page: ContextPage::About, shown: true });
    d.toggle_page(ContextPage::About);
    assert!(!d.shown);
    d.toggle_page(ContextPage::Equalizer);
    assert_eq!(d, ContextDrawer { page: ContextPage::Equalizer, shown: true });
    d.toggle_page(ContextPage::Providers);
    assert_eq!(d, ContextDrawer { page: ContextPage::Providers, shown: true });
    d.show_lyrics();
    assert_eq!(d, ContextDrawer { page: ContextPage::Lyrics, shown: true });
}

#[test]
fn shortcuts_blocked_while_searching() {
    assert!(!shortcut_allowed(true, Shortcut::PlayPause));
    assert!(!shortcut_allowed(true, Shortcut::NavPage(2)));
    assert!(shortcut_allowed(true, Shortcut::Escape));
    assert!(shortcut_allowed(true, Shortcut::FocusSearch));
    assert!(shortcut_allowed(false, Shortcut::Mute));
}

#[test]
fn escape_priorities() {
    assert_eq!(escape_action(true, true, true), EscapeAction::CloseDrawer);
    assert_eq!(escape_action(false, true, true), EscapeAction::CollapseNowPlaying);
    assert_eq!(escape_action(false, false, true), EscapeAction::ClearSearch);
    assert_eq!(escape_action(false, false, false), EscapeAction::Nothing);
}

#[test]
fn nav_page_numbers() {
    assert_eq!(nav_page_for_shortcut(1), Some(Page::Albums));
    assert_eq!(nav_page_for_shortcut(0), Some(Page::Albums));
    assert_eq!(nav_page_for_shortcut(3), Some(Page::Songs));
    assert_eq!(nav_page_for_shortcut(10), Some(Page::Convert));
    assert_eq!(nav_page_for_shortcut(11), None);
    assert_eq!(page_load(Some(Page::Genres)), PageLoad::Genres);
    assert_eq!(page_load(Some(Page::Radio)), PageLoad::RadioStations);
    assert_eq!(page_load(Some(Page::Albums)), PageLoad::Nothing);
    assert_eq!(page_load(None), PageLoad::Nothing);
}

#[test]
fn song_filters_are_exclusive() {
    let mut f = SongFilters { favorites_only: false, genre: Some("Jazz".to_string()) };
    f.toggle_favorites();
    assert!(f.favorites_only && f.genre.is_none());
    assert!(f.filter_by_genre("Rock".to_string()));
    assert!(!f.favorites_only);
    assert_eq!(f.genre.as_deref(), Some("Rock"));
    assert!(!f.filter_by_genre(String::new()));
    assert!(f.genre.is_none());
}

#[test]
fn search_bar_toggle_and_clear() {
    let mut s = SearchBar { active: false, query: "old".to_string() };
    assert!(s.toggle());
    assert_eq!(s.query, "old");
    assert!(s.query_active());
    assert!(!s.toggle());
    assert!(s.query.is_empty());
    s.active = true;
    s.query = "   ".to_string();
    assert!(!s.query_active());
    s.clear();
    assert!(!s.active && s.query.is_empty());
}
