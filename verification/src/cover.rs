//! When the blurred cover-art background is recomputed, and which results
//! of that computation are kept.

use vstd::prelude::*;
use crate::library::Track;
use crate::text::same_text;

verus! {

broadcast use vstd::string::group_string_axioms;

/// The artist a track's cover art is filed under: its album artist, or its
/// artist when the album artist is empty.
pub fn cover_artist(track: &Track) -> (r: &String)
    ensures
        r@ == if track.album_artist@.len() == 0 { track.artist@ } else { track.album_artist@ },
{
    if track.album_artist.as_str().is_empty() { &track.artist } else { &track.album_artist }
}

/// What to do about the blurred background after the current track or the
/// loaded cover art changed.
#[derive(Clone, Copy, Debug, PartialEq, Eq)]
pub enum BlurStep {
    /// No current track: drop the background, its key and the accent colour.
    ClearAll,
    /// The background already belongs to this album: nothing to do.
    UpToDate,
    /// The album's cover bytes have not arrived: forget the key so a later
    /// arrival retries, but keep showing the previous background.
    AwaitBytes,
    /// Compute the background from the cover bytes, with the key cleared
    /// until the result arrives.
    Compute,
}

/// Decides the blur step from the current track's album key (none without
/// a current track), the key of the background shown, and whether the
/// album's cover bytes are loaded; returns the step and the key to keep.
pub fn blur_step(current_key: Option<&String>, shown_key: &Option<String>, bytes_loaded: bool) -> (r: (BlurStep, Option<String>))
    ensures
        current_key is None ==> r.0 == BlurStep::ClearAll && r.1 is None,
        current_key matches Some(k) ==> (shown_key matches Some(s) && s@ == k@) ==> r.0 == BlurStep::UpToDate && r.1 == *shown_key,
        current_key matches Some(k) ==> !(shown_key matches Some(s) && s@ == k@) ==> r.1 is None
            && r.0 == (if bytes_loaded { BlurStep::Compute } else { BlurStep::AwaitBytes }),
{
    match current_key {
        None => (BlurStep::ClearAll, None),
        Some(k) => {
            let same = match shown_key {
                Some(s) => same_text(s.as_str(), k.as_str()),
                None => false,
            };
            if same {
                (BlurStep::UpToDate, shown_key.clone())
            } else if bytes_loaded {
                (BlurStep::Compute, None)
            } else {
                (BlurStep::AwaitBytes, None)
            }
        },
    }
}

/// A finished blur computation applies only while its key is still the
/// current track's album key; a slower result for an earlier track is
/// dropped.
pub fn blur_result_applies(current_key: Option<&String>, result_key: &String) -> (r: bool)
    ensures
        r == (current_key matches Some(k) && k@ == result_key@),
{
    match current_key {
        Some(k) => same_text(k.as_str(), result_key.as_str()),
        None => false,
    }
}

} // verus!
