//! Playback decisions: scrobbling, position bookkeeping, seeking, podcast
//! resume points and what MPRIS clients may do. Times are whole
//! milliseconds or microseconds as named.

use vstd::prelude::*;
use crate::library::Track;
use crate::text::same_text;

verus! {

broadcast use vstd::string::group_string_axioms;

/// Scrobble bookkeeping for the current track.
#[derive(Clone, Copy, Debug, PartialEq, Eq)]
pub struct ScrobbleState {
    pub now_playing_sent: bool,
    pub scrobble_sent: bool,
}

/// What to tell the Subsonic server after a playback tick.
#[derive(Clone, Copy, Debug, PartialEq, Eq)]
pub struct ScrobbleAction {
    pub send_now_playing: bool,
    pub send_scrobble: bool,
}

/// The point at which a track counts as played: half its length (halved
/// as `Duration / 2` does, dropping a leftover half nanosecond) or four
/// minutes, whichever comes first. Times are in nanoseconds.
pub open spec fn scrobble_point_ns(duration_ns: u128) -> int {
    if duration_ns / 2 < 240_000_000_000 { (duration_ns / 2) as int } else { 240_000_000_000 }
}

/// The scrobble point is half the track's length (rounded down to a whole
/// nanosecond) but never later than four minutes in: it is at most both,
/// and equal to one of them.
pub proof fn lemma_scrobble_point_is_half_or_four_minutes(duration_ns: u128)
    ensures
        scrobble_point_ns(duration_ns) <= 240_000_000_000,
        2 * scrobble_point_ns(duration_ns) <= duration_ns,
        scrobble_point_ns(duration_ns) == 240_000_000_000
            || 2 * scrobble_point_ns(duration_ns) == duration_ns
            || 2 * scrobble_point_ns(duration_ns) + 1 == duration_ns,
        duration_ns >= 480_000_000_000 ==> scrobble_point_ns(duration_ns) == 240_000_000_000,
{
}

/// The scrobble state when a new track starts.
pub fn scrobble_reset() -> (s: ScrobbleState)
    ensures
        !s.now_playing_sent,
        !s.scrobble_sent,
{
    ScrobbleState { now_playing_sent: false, scrobble_sent: false }
}

/// One scrobble step for a Subsonic track at `position_ns` of
/// `duration_ns`: the "now playing" notice goes out once per track; the
/// scrobble goes out once, when the position reaches the threshold (half
/// the duration or four minutes, whichever is first) and the threshold is
/// above zero.
pub fn scrobble_step(state: ScrobbleState, position_ns: u128, duration_ns: u128) -> (r: (ScrobbleState, ScrobbleAction))
    ensures
        r.1.send_now_playing == !state.now_playing_sent,
        r.0.now_playing_sent,
        r.1.send_scrobble == (!state.scrobble_sent && position_ns >= scrobble_point_ns(duration_ns)
            && scrobble_point_ns(duration_ns) > 0),
        r.0.scrobble_sent == (state.scrobble_sent || r.1.send_scrobble),
{
    let send_now_playing = !state.now_playing_sent;
    let half = duration_ns / 2;
    let point: u128 = if half < 240_000_000_000 { half } else { 240_000_000_000 };
    let send_scrobble = !state.scrobble_sent && position_ns >= point && point > 0;
    (
        ScrobbleState { now_playing_sent: true, scrobble_sent: state.scrobble_sent || send_scrobble },
        ScrobbleAction { send_now_playing, send_scrobble },
    )
}

/// Within one track, the server hears "now playing" once and the scrobble
/// at most once, however many steps are taken: after a step that sent
/// either notice, no later step sends it again.
pub proof fn lemma_scrobbles_at_most_once(
    s0: ScrobbleState,
    s1: ScrobbleState,
    a1: ScrobbleAction,
    s2: ScrobbleState,
    a2: ScrobbleAction,
    p1: u128,
    p2: u128,
    d: u128,
)
    requires
        a1.send_now_playing == !s0.now_playing_sent,
        s1.now_playing_sent,
        a1.send_scrobble == (!s0.scrobble_sent && p1 >= scrobble_point_ns(d) && scrobble_point_ns(d) > 0),
        s1.scrobble_sent == (s0.scrobble_sent || a1.send_scrobble),
        a2.send_now_playing == !s1.now_playing_sent,
        s2.now_playing_sent,
        a2.send_scrobble == (!s1.scrobble_sent && p2 >= scrobble_point_ns(d) && scrobble_point_ns(d) > 0),
        s2.scrobble_sent == (s1.scrobble_sent || a2.send_scrobble),
    ensures
        !a2.send_now_playing,
        a1.send_scrobble ==> !a2.send_scrobble,
        s0.scrobble_sent ==> !a1.send_scrobble && !a2.send_scrobble,
{
}

/// The position shown for the current track: the backend's position, but
/// never past the track's end.
pub fn clamp_position(position_ns: u128, duration_ns: u128) -> (r: u128)
    ensures
        r == if position_ns > duration_ns { duration_ns } else { position_ns },
{
    if position_ns > duration_ns { duration_ns } else { position_ns }
}

/// The title a radio stream shows once the stream announced `announced`:
/// a non-empty announcement that differs from the shown title replaces
/// it; otherwise the title stays.
pub fn announced_title(shown: &str, announced: Option<&str>) -> (r: Option<String>)
    ensures
        (announced matches Some(a) && a@.len() > 0 && a@ != shown@) ==> (r matches Some(t) && t@ == announced->0@),
        !(announced matches Some(a) && a@.len() > 0 && a@ != shown@) ==> r is None,
{
    match announced {
        Some(a) => {
            if a.unicode_len() > 0 && !same_text(a, shown) {
                Some(a.to_string())
            } else {
                None
            }
        },
        None => None,
    }
}

/// Where the seek shortcuts go: five seconds forward (not past the end)
/// or back (not before the start); no seek when the track has no length.
pub fn shortcut_seek_target(position_ns: u128, duration_ns: u128, forward: bool) -> (r: Option<u128>)
    ensures
        duration_ns == 0 ==> r is None,
        duration_ns > 0 && forward ==> r == Some(
            if position_ns + 5_000_000_000 < duration_ns { (position_ns + 5_000_000_000) as u128 } else { duration_ns },
        ),
        duration_ns > 0 && !forward ==> r == Some(
            if position_ns >= 5_000_000_000 { (position_ns - 5_000_000_000) as u128 } else { 0 },
        ),
{
    if duration_ns == 0 {
        return None;
    }
    if forward {
        let target = position_ns.saturating_add(5_000_000_000);
        Some(if target < duration_ns { target } else { duration_ns })
    } else {
        Some(position_ns.saturating_sub(5_000_000_000))
    }
}

/// Where an MPRIS client's seek goes, in microseconds: by `offset_us`
/// from the position (`Seek`) or to `offset_us` (`SetPosition`), kept
/// within the track; no seek when the track has no length.
pub fn mpris_seek_target(position_us: i64, duration_us: i64, offset_us: i64, relative: bool) -> (r: Option<i64>)
    requires
        relative ==> i64::MIN <= position_us + offset_us <= i64::MAX,
    ensures
        duration_us <= 0 ==> r is None,
        duration_us > 0 ==> r == Some({
            let target = if relative { position_us + offset_us } else { offset_us as int };
            if target < 0 { 0 } else if target > duration_us { duration_us } else { target as i64 }
        }),
{
    if duration_us <= 0 {
        return None;
    }
    let target = if relative { position_us + offset_us } else { offset_us };
    Some(if target < 0 { 0 } else if target > duration_us { duration_us } else { target })
}

/// Whether the periodic tick should persist a podcast episode's position:
/// on each new whole second that is a multiple of five.
pub fn should_save_podcast_position(position_secs: u64, last_saved_secs: u64) -> (r: bool)
    ensures
        r == (position_secs != last_saved_secs && position_secs % 5 == 0),
{
    position_secs != last_saved_secs && position_secs % 5 == 0
}

/// Where a podcast episode resumes: its saved position when one was saved.
pub fn podcast_resume_position(saved_position_ms: i64) -> (r: Option<u64>)
    ensures
        saved_position_ms > 0 ==> r == Some(saved_position_ms as u64),
        saved_position_ms <= 0 ==> r is None,
{
    if saved_position_ms > 0 { Some(saved_position_ms as u64) } else { None }
}

/// The playback state a player reports.
#[derive(Clone, Copy, Debug, PartialEq, Eq)]
pub enum PlaybackState {
    Playing,
    Paused,
    Stopped,
}

/// The playback status MPRIS clients see.
#[derive(Clone, Copy, Debug, PartialEq, Eq)]
pub enum MprisStatus {
    Playing,
    Paused,
    Stopped,
}

/// The MPRIS status for the player's state; no player counts as stopped.
pub fn mpris_status(state: Option<PlaybackState>) -> (r: MprisStatus)
    ensures
        r == match state {
            Some(PlaybackState::Playing) => MprisStatus::Playing,
            Some(PlaybackState::Paused) => MprisStatus::Paused,
            _ => MprisStatus::Stopped,
        },
{
    match state {
        Some(PlaybackState::Playing) => MprisStatus::Playing,
        Some(PlaybackState::Paused) => MprisStatus::Paused,
        Some(PlaybackState::Stopped) | None => MprisStatus::Stopped,
    }
}

/// What MPRIS clients may ask for.
#[derive(Clone, Copy, Debug, PartialEq, Eq)]
pub struct MprisControls {
    pub can_go_next: bool,
    pub can_go_previous: bool,
    pub can_seek: bool,
    pub can_play: bool,
}

/// The MPRIS controls: skipping needs a current track and a non-empty
/// library; seeking needs a current track that is not a radio stream;
/// playing needs a current track.
pub fn mpris_controls(current: Option<&Track>, library_empty: bool) -> (r: MprisControls)
    ensures
        r.can_go_next == (current is Some && !library_empty),
        r.can_go_previous == (current is Some && !library_empty),
        r.can_seek == (current matches Some(t) && t.provider_id@ != "radio"@),
        r.can_play == current is Some,
{
    match current {
        Some(t) => {
            let radio = same_text(t.provider_id.as_str(), "radio");
            MprisControls { can_go_next: !library_empty, can_go_previous: !library_empty, can_seek: !radio, can_play: true }
        },
        None => MprisControls { can_go_next: false, can_go_previous: false, can_seek: false, can_play: false },
    }
}

/// The repeat setting.
#[derive(Clone, Copy, Debug, PartialEq, Eq, Structural)]
pub enum RepeatMode {
    Off,
    All,
    One,
}

/// The setting after one press of the repeat button: off, all, one, and
/// round again.
pub open spec fn next_repeat(mode: RepeatMode) -> RepeatMode {
    match mode {
        RepeatMode::Off => RepeatMode::All,
        RepeatMode::All => RepeatMode::One,
        RepeatMode::One => RepeatMode::Off,
    }
}

/// The setting after `n` presses of the repeat button.
pub open spec fn repeat_after(mode: RepeatMode, n: nat) -> RepeatMode
    decreases n,
{
    if n == 0 { mode } else { next_repeat(repeat_after(mode, (n - 1) as nat)) }
}

impl RepeatMode {
    /// The setting after one press of the repeat button.
    pub fn next(self) -> (r: RepeatMode)
        ensures
            r == next_repeat(self),
    {
        match self {
            RepeatMode::Off => RepeatMode::All,
            RepeatMode::All => RepeatMode::One,
            RepeatMode::One => RepeatMode::Off,
        }
    }
}

/// Three presses of the repeat button bring the setting back to where it
/// was, passing through each setting once.
pub proof fn lemma_repeat_cycle(m: RepeatMode)
    ensures
        repeat_after(m, 3) == m,
        repeat_after(m, 0) != repeat_after(m, 1),
        repeat_after(m, 1) != repeat_after(m, 2),
        repeat_after(m, 0) != repeat_after(m, 2),
{
    reveal_with_fuel(repeat_after, 4);
}

/// How many presses of the repeat button an MPRIS client's loop request
/// takes: the button is pressed until the setting is the one asked for,
/// at most three times.
pub fn presses_to_reach(current: RepeatMode, wanted: RepeatMode) -> (n: u8)
    ensures
        n <= 2,
        repeat_after(current, n as nat) == wanted,
        forall|k: nat| k < n ==> #[trigger] repeat_after(current, k) != wanted,
{
    let mut mode = current;
    let mut n: u8 = 0;
    while n < 3
        invariant
            n <= 3,
            mode == repeat_after(current, n as nat),
            forall|k: nat| k < n ==> #[trigger] repeat_after(current, k) != wanted,
        ensures
            n <= 3,
            mode == repeat_after(current, n as nat),
            forall|k: nat| k < n ==> #[trigger] repeat_after(current, k) != wanted,
            mode == wanted || n == 3,
        decreases 3 - n,
    {
        if mode == wanted {
            break;
        }
        proof {
            assert(repeat_after(current, (n + 1) as nat) == next_repeat(repeat_after(current, n as nat)));
        }
        mode = mode.next();
        n = n + 1;
    }
    proof {
        reveal_with_fuel(repeat_after, 4);
        if n == 3 {
            assert(repeat_after(current, 0) != wanted);
            assert(repeat_after(current, 1) != wanted);
            assert(repeat_after(current, 2) != wanted);
        }
    }
    n
}

/// The MPRIS loop status.
#[derive(Clone, Copy, Debug, PartialEq, Eq)]
pub enum LoopMode {
    Off,
    Playlist,
    Track,
}

/// MPD's single-mode setting.
#[derive(Clone, Copy, Debug, PartialEq, Eq)]
pub enum SingleMode {
    Enabled,
    Disabled,
}

/// The MPRIS loop status for a repeat setting.
pub fn loop_mode_of(mode: RepeatMode) -> (r: LoopMode)
    ensures
        r == match mode {
            RepeatMode::Off => LoopMode::Off,
            RepeatMode::All => LoopMode::Playlist,
            RepeatMode::One => LoopMode::Track,
        },
{
    match mode {
        RepeatMode::Off => LoopMode::Off,
        RepeatMode::All => LoopMode::Playlist,
        RepeatMode::One => LoopMode::Track,
    }
}

/// The repeat setting an MPRIS loop status asks for.
pub fn repeat_mode_of(mode: LoopMode) -> (r: RepeatMode)
    ensures
        r == match mode {
            LoopMode::Off => RepeatMode::Off,
            LoopMode::Playlist => RepeatMode::All,
            LoopMode::Track => RepeatMode::One,
        },
{
    match mode {
        LoopMode::Off => RepeatMode::Off,
        LoopMode::Playlist => RepeatMode::All,
        LoopMode::Track => RepeatMode::One,
    }
}

/// MPD's (repeat, single) settings for a repeat setting.
pub fn mpd_repeat_settings(mode: RepeatMode) -> (r: (bool, SingleMode))
    ensures
        r == match mode {
            RepeatMode::Off => (false, SingleMode::Disabled),
            RepeatMode::All => (true, SingleMode::Disabled),
            RepeatMode::One => (true, SingleMode::Enabled),
        },
{
    match mode {
        RepeatMode::Off => (false, SingleMode::Disabled),
        RepeatMode::All => (true, SingleMode::Disabled),
        RepeatMode::One => (true, SingleMode::Enabled),
    }
}

/// The loop status and the repeat setting it asks for correspond one to
/// one: mapping either way and back gives the start.
pub proof fn lemma_loop_mode_round_trip(m: RepeatMode, l: LoopMode)
    ensures
        (match (match m {
            RepeatMode::Off => LoopMode::Off,
            RepeatMode::All => LoopMode::Playlist,
            RepeatMode::One => LoopMode::Track,
        }) {
            LoopMode::Off => RepeatMode::Off,
            LoopMode::Playlist => RepeatMode::All,
            LoopMode::Track => RepeatMode::One,
        }) == m,
        (match (match l {
            LoopMode::Off => RepeatMode::Off,
            LoopMode::Playlist => RepeatMode::All,
            LoopMode::Track => RepeatMode::One,
        }) {
            RepeatMode::Off => LoopMode::Off,
            RepeatMode::All => LoopMode::Playlist,
            RepeatMode::One => LoopMode::Track,
        }) == l,
{
}

} // verus!
