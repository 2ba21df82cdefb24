//! Library state and decision logic of the Lyra music player: library
//! search and reload bookkeeping, artist aggregation, track sorting,
//! playback and scrobbling decisions, navigation and shortcut handling,
//! provider settings and the small text formats the player reads.

pub mod text;
pub mod reload;
pub mod library;
pub mod search;
pub mod order;
pub mod artists;
pub mod delimiters;
pub mod playback;
pub mod navigation;
pub mod providers;
pub mod uri;
pub mod episode;
pub mod clock;
pub mod flags;
pub mod marks;
pub mod cover;
pub mod session;
pub mod convert;
pub mod podcasts;
pub mod credentials;
pub mod state;
pub mod presets;
pub mod settings;
pub mod images;
