//! Pages, drawers, menu actions and keyboard shortcuts, and the view
//! state they switch.

use vstd::prelude::*;
use crate::text::{trim_text, trimmed};

verus! {

/// Navigation pages, in the order the navigation bar lists them.
#[derive(Clone, Copy, Debug, PartialEq, Eq, Structural)]
pub enum Page {
    Albums,
    Artists,
    Songs,
    Playlists,
    SmartPlaylists,
    Genres,
    Folders,
    Podcasts,
    Radio,
    Convert,
}

/// Context drawer pages.
#[derive(Copy, Clone, Debug, Default, Eq, PartialEq, Structural)]
pub enum ContextPage {
    #[default]
    About,
    Equalizer,
    Lyrics,
    Providers,
    Settings,
}

/// Menu bar actions.
#[derive(Clone, Copy, Debug, Eq, PartialEq, Structural)]
pub enum MenuAction {
    About,
    Equalizer,
    Providers,
    Settings,
    ScanLibrary,
    AddMusicDir,
    Search,
    Quit,
}

/// What a menu action asks the application to do.
#[derive(Clone, Copy, Debug, Eq, PartialEq, Structural)]
pub enum MenuCommand {
    ToggleContextPage(ContextPage),
    ScanLibrary,
    AddMusicDir,
    ToggleLibrarySearch,
    Quit,
}

impl MenuAction {
    /// The command a menu action sends.
    pub fn message(&self) -> (r: MenuCommand)
        ensures
            r == match *self {
                MenuAction::About => MenuCommand::ToggleContextPage(ContextPage::About),
                MenuAction::Equalizer => MenuCommand::ToggleContextPage(ContextPage::Equalizer),
                MenuAction::Providers => MenuCommand::ToggleContextPage(ContextPage::Providers),
                MenuAction::Settings => MenuCommand::ToggleContextPage(ContextPage::Settings),
                MenuAction::ScanLibrary => MenuCommand::ScanLibrary,
                MenuAction::AddMusicDir => MenuCommand::AddMusicDir,
                MenuAction::Search => MenuCommand::ToggleLibrarySearch,
                MenuAction::Quit => MenuCommand::Quit,
            },
    {
        match self {
            MenuAction::About => MenuCommand::ToggleContextPage(ContextPage::About),
            MenuAction::Equalizer => MenuCommand::ToggleContextPage(ContextPage::Equalizer),
            MenuAction::Providers => MenuCommand::ToggleContextPage(ContextPage::Providers),
            MenuAction::Settings => MenuCommand::ToggleContextPage(ContextPage::Settings),
            MenuAction::ScanLibrary => MenuCommand::ScanLibrary,
            MenuAction::AddMusicDir => MenuCommand::AddMusicDir,
            MenuAction::Search => MenuCommand::ToggleLibrarySearch,
            MenuAction::Quit => MenuCommand::Quit,
        }
    }
}

/// The context drawer: which page it shows and whether it is open.
#[derive(Clone, Copy, Debug, Eq, PartialEq, Structural)]
pub struct ContextDrawer {
    pub page: ContextPage,
    pub shown: bool,
}

impl ContextDrawer {
    /// Asking for the page the drawer already shows opens or closes it;
    /// asking for another page switches to it and opens the drawer.
    pub fn toggle_page(&mut self, page: ContextPage)
        ensures
            old(self).page == page ==> *final(self) == (ContextDrawer { page, shown: !old(self).shown }),
            old(self).page != page ==> *final(self) == (ContextDrawer { page, shown: true }),
    {
        if self.page == page {
            self.shown = !self.shown;
        } else {
            self.page = page;
            self.shown = true;
        }
    }

    /// Opens the drawer on the lyrics page.
    pub fn show_lyrics(&mut self)
        ensures
            *final(self) == (ContextDrawer { page: ContextPage::Lyrics, shown: true }),
    {
        self.page = ContextPage::Lyrics;
        self.shown = true;
    }
}

/// Toggling the same drawer page twice leaves the drawer as it was.
pub proof fn lemma_toggle_page_twice(d: ContextDrawer, page: ContextPage)
    requires
        d.page == page,
    ensures
        ({
            let once = ContextDrawer { page, shown: !d.shown };
            let twice = ContextDrawer { page, shown: !once.shown };
            twice == d
        }),
{
}

/// Global keyboard shortcuts.
#[derive(Clone, Copy, Debug, Eq, PartialEq, Structural)]
pub enum Shortcut {
    PlayPause,
    Stop,
    Next,
    Previous,
    SeekForward,
    SeekBackward,
    VolumeUp,
    VolumeDown,
    Mute,
    ToggleShuffle,
    CycleRepeat,
    ToggleFavorite,
    ToggleLyrics,
    ToggleExpanded,
    FocusSearch,
    NavPage(u8),
    Escape,
}

/// While the search bar is up, only the search and escape shortcuts act,
/// so typing a query cannot trigger playback or navigation.
pub fn shortcut_allowed(search_active: bool, shortcut: Shortcut) -> (r: bool)
    ensures
        r == (!search_active || shortcut == Shortcut::FocusSearch || shortcut == Shortcut::Escape),
{
    match shortcut {
        Shortcut::FocusSearch | Shortcut::Escape => true,
        _ => !search_active,
    }
}

/// What the escape key does.
#[derive(Clone, Copy, Debug, Eq, PartialEq, Structural)]
pub enum EscapeAction {
    CloseDrawer,
    CollapseNowPlaying,
    ClearSearch,
    Nothing,
}

/// Escape closes the context drawer if it is open; else collapses the
/// expanded now-playing view if it is expanded or expanding; else clears
/// the search if the search bar is up.
pub fn escape_action(drawer_shown: bool, expanded: bool, search_active: bool) -> (r: EscapeAction)
    ensures
        r == if drawer_shown {
            EscapeAction::CloseDrawer
        } else if expanded {
            EscapeAction::CollapseNowPlaying
        } else if search_active {
            EscapeAction::ClearSearch
        } else {
            EscapeAction::Nothing
        },
{
    if drawer_shown {
        EscapeAction::CloseDrawer
    } else if expanded {
        EscapeAction::CollapseNowPlaying
    } else if search_active {
        EscapeAction::ClearSearch
    } else {
        EscapeAction::Nothing
    }
}

/// The pages in navigation-bar order.
pub open spec fn page_at(i: int) -> Option<Page> {
    if i == 0 {
        Some(Page::Albums)
    } else if i == 1 {
        Some(Page::Artists)
    } else if i == 2 {
        Some(Page::Songs)
    } else if i == 3 {
        Some(Page::Playlists)
    } else if i == 4 {
        Some(Page::SmartPlaylists)
    } else if i == 5 {
        Some(Page::Genres)
    } else if i == 6 {
        Some(Page::Folders)
    } else if i == 7 {
        Some(Page::Podcasts)
    } else if i == 8 {
        Some(Page::Radio)
    } else if i == 9 {
        Some(Page::Convert)
    } else {
        None
    }
}

/// The page the `n`th-page shortcut opens: the `n`th entry of the
/// navigation bar, counting from one (zero also gives the first).
pub fn nav_page_for_shortcut(n: u8) -> (r: Option<Page>)
    ensures
        r == page_at(if n == 0 { 0 } else { n - 1 }),
{
    let i = if n == 0 { 0 } else { n - 1 };
    match i {
        0 => Some(Page::Albums),
        1 => Some(Page::Artists),
        2 => Some(Page::Songs),
        3 => Some(Page::Playlists),
        4 => Some(Page::SmartPlaylists),
        5 => Some(Page::Genres),
        6 => Some(Page::Folders),
        7 => Some(Page::Podcasts),
        8 => Some(Page::Radio),
        9 => Some(Page::Convert),
        _ => None,
    }
}

/// The navigation bar lists Albums, Artists, Songs, Playlists, Smart
/// playlists, Genres, Folders, Podcasts, Radio and Convert, in that order,
/// and nothing else; so the shortcut for page `n` (from one to ten) opens
/// the `n`th of them, no two shortcuts open the same page, and there is
/// no page for a higher `n`.
pub proof fn lemma_shortcuts_follow_the_navigation_bar()
    ensures
        forall|n: int| 1 <= n <= 10 ==> #[trigger] page_at(n - 1) == Some(
            seq![
                Page::Albums, Page::Artists, Page::Songs, Page::Playlists, Page::SmartPlaylists,
                Page::Genres, Page::Folders, Page::Podcasts, Page::Radio, Page::Convert,
            ][n - 1],
        ),
        forall|n: int| n > 10 ==> #[trigger] page_at(n - 1) is None,
        forall|m: int, n: int| 1 <= m <= 10 && 1 <= n <= 10 && #[trigger] page_at(m - 1) == #[trigger] page_at(n - 1) ==> m == n,
{
    let bar = seq![
        Page::Albums, Page::Artists, Page::Songs, Page::Playlists, Page::SmartPlaylists,
        Page::Genres, Page::Folders, Page::Podcasts, Page::Radio, Page::Convert,
    ];
    assert forall|n: int| 1 <= n <= 10 implies #[trigger] page_at(n - 1) == Some(bar[n - 1]) by {
        assert(bar[0] == Page::Albums && bar[1] == Page::Artists && bar[2] == Page::Songs);
        assert(bar[3] == Page::Playlists && bar[4] == Page::SmartPlaylists && bar[5] == Page::Genres);
        assert(bar[6] == Page::Folders && bar[7] == Page::Podcasts && bar[8] == Page::Radio && bar[9] == Page::Convert);
    }
}

/// What a page loads when it is opened.
#[derive(Clone, Copy, Debug, Eq, PartialEq, Structural)]
pub enum PageLoad {
    Playlists,
    SmartPlaylists,
    Genres,
    FolderTree,
    Podcasts,
    RadioStations,
    Nothing,
}

/// Playlists, smart playlists, genres, podcasts and radio stations load
/// lazily when their page opens; the folders page rebuilds its tree.
pub fn page_load(page: Option<Page>) -> (r: PageLoad)
    ensures
        r == match page {
            Some(Page::Playlists) => PageLoad::Playlists,
            Some(Page::SmartPlaylists) => PageLoad::SmartPlaylists,
            Some(Page::Genres) => PageLoad::Genres,
            Some(Page::Folders) => PageLoad::FolderTree,
            Some(Page::Podcasts) => PageLoad::Podcasts,
            Some(Page::Radio) => PageLoad::RadioStations,
            _ => PageLoad::Nothing,
        },
{
    match page {
        Some(Page::Playlists) => PageLoad::Playlists,
        Some(Page::SmartPlaylists) => PageLoad::SmartPlaylists,
        Some(Page::Genres) => PageLoad::Genres,
        Some(Page::Folders) => PageLoad::FolderTree,
        Some(Page::Podcasts) => PageLoad::Podcasts,
        Some(Page::Radio) => PageLoad::RadioStations,
        _ => PageLoad::Nothing,
    }
}

/// The song list's filters: favorites only, or one genre.
#[derive(Debug)]
pub struct SongFilters {
    pub favorites_only: bool,
    pub genre: Option<String>,
}

/// At most one song filter is on.
pub open spec fn filters_exclusive(f: &SongFilters) -> bool {
    !(f.favorites_only && f.genre is Some)
}

impl SongFilters {
    /// Toggles the favorites filter; turning it on clears the genre filter.
    pub fn toggle_favorites(&mut self)
        ensures
            final(self).favorites_only == !old(self).favorites_only,
            final(self).favorites_only ==> final(self).genre is None,
            !final(self).favorites_only ==> final(self).genre == old(self).genre,
    {
        self.favorites_only = !self.favorites_only;
        if self.favorites_only {
            self.genre = None;
        }
    }

    /// Filters by a genre; an empty genre clears the genre filter, a
    /// non-empty one turns the favorites filter off.
    pub fn filter_by_genre(&mut self, genre: String) -> (navigate_to_songs: bool)
        ensures
            genre@.len() == 0 ==> final(self).genre is None && final(self).favorites_only == old(self).favorites_only && !navigate_to_songs,
            genre@.len() > 0 ==> final(self).genre == Some(genre) && !final(self).favorites_only && navigate_to_songs,
    {
        if genre.as_str().is_empty() {
            self.genre = None;
            false
        } else {
            self.genre = Some(genre);
            self.favorites_only = false;
            true
        }
    }
}

/// Both filter operations keep at most one song filter on.
pub proof fn lemma_song_filters_stay_exclusive(before: &SongFilters, after_toggle: &SongFilters, after_genre: &SongFilters, genre: Seq<char>)
    requires
        filters_exclusive(before),
        after_toggle.favorites_only == !before.favorites_only,
        after_toggle.favorites_only ==> after_toggle.genre is None,
        !after_toggle.favorites_only ==> after_toggle.genre == before.genre,
        genre.len() == 0 ==> after_genre.genre is None && after_genre.favorites_only == before.favorites_only,
        genre.len() > 0 ==> after_genre.genre is Some && !after_genre.favorites_only,
    ensures
        filters_exclusive(after_toggle),
        filters_exclusive(after_genre),
{
}

/// The library search bar: whether it is up, and its query text.
#[derive(Debug)]
pub struct SearchBar {
    pub active: bool,
    pub query: String,
}

impl SearchBar {
    /// Shows or hides the search bar; hiding it clears the query. Returns
    /// whether the input should take keyboard focus (when it appears).
    pub fn toggle(&mut self) -> (focus: bool)
        ensures
            final(self).active == !old(self).active,
            focus == final(self).active,
            final(self).active ==> final(self).query == old(self).query,
            !final(self).active ==> final(self).query@.len() == 0,
    {
        self.active = !self.active;
        if self.active {
            return true;
        }
        self.query = String::new();
        false
    }

    /// Whether the filtered lists are in use: the bar is up and the query
    /// has text beyond white space.
    pub fn query_active(&self) -> (r: bool)
        ensures
            r == (self.active && trimmed(self.query@).len() > 0),
    {
        if !self.active {
            return false;
        }
        let t = trim_text(self.query.as_str());
        !t.as_str().is_empty()
    }

    /// Clears the query and hides the search bar.
    pub fn clear(&mut self)
        ensures
            !final(self).active,
            final(self).query@.len() == 0,
    {
        self.query = String::new();
        self.active = false;
    }
}

} // verus!
