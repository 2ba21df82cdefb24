//! Favorite flags and ratings: a change for one track id is applied to
//! every copy of that track the library holds.

use vstd::prelude::*;
use crate::library::{Album, AlbumView, Artist, ArtistView, Track, album_views, artist_views};
use crate::text::chars_of;

verus! {

/// The decimal digit for `d < 10`.
pub open spec fn digit_char(d: int) -> char {
    if d == 0 { '0' } else if d == 1 { '1' } else if d == 2 { '2' } else if d == 3 { '3' }
    else if d == 4 { '4' } else if d == 5 { '5' } else if d == 6 { '6' } else if d == 7 { '7' }
    else if d == 8 { '8' } else { '9' }
}

/// The decimal digits of a positive number (none for zero).
pub open spec fn positive_digits(n: nat) -> Seq<char>
    decreases n,
{
    if n == 0 {
        Seq::empty()
    } else {
        positive_digits(n / 10).push(digit_char((n % 10) as int))
    }
}

/// The decimal text of an integer, as `to_string` writes it: a `-` for
/// negatives, then the digits without leading zeros (`0` for zero).
pub open spec fn decimal_text(i: int) -> Seq<char> {
    if i == 0 {
        seq!['0']
    } else if i < 0 {
        seq!['-'] + positive_digits((-i) as nat)
    } else {
        positive_digits(i as nat)
    }
}

fn digit_of(d: u64) -> (c: char)
    requires
        d < 10,
    ensures
        c == digit_char(d as int),
{
    if d == 0 { '0' } else if d == 1 { '1' } else if d == 2 { '2' } else if d == 3 { '3' }
    else if d == 4 { '4' } else if d == 5 { '5' } else if d == 6 { '6' } else if d == 7 { '7' }
    else if d == 8 { '8' } else { '9' }
}

/// The decimal text of an id, as `i64::to_string` writes it.
pub fn id_text(id: i64) -> (r: Vec<char>)
    ensures
        r@ == decimal_text(id as int),
{
    if id == 0 {
        let mut z: Vec<char> = Vec::new();
        z.push('0');
        assert(z@ =~= seq!['0']);
        return z;
    }
    let magnitude: u64 = if id < 0 { (0i128 - id as i128) as u64 } else { id as u64 };
    let ghost n0: nat = if id < 0 { (-(id as int)) as nat } else { id as nat };
    assert(magnitude == n0);
    let mut m = magnitude;
    let mut acc: Vec<char> = Vec::new();
    assert(positive_digits(n0) =~= positive_digits(m as nat) + acc@);
    while m > 0
        invariant
            positive_digits(n0) == positive_digits(m as nat) + acc@,
        decreases m,
    {
        let d = digit_of(m % 10);
        let ghost before = acc@;
        acc.insert(0, d);
        assert(positive_digits(m as nat) == positive_digits((m / 10) as nat).push(d));
        assert(acc@ =~= seq![d] + before);
        assert(positive_digits((m / 10) as nat) + acc@ =~= positive_digits(m as nat) + before);
        m = m / 10;
    }
    assert(positive_digits(0) =~= Seq::<char>::empty());
    assert(acc@ =~= positive_digits(n0));
    if id < 0 {
        let ghost digits = acc@;
        acc.insert(0, '-');
        assert(acc@ =~= seq!['-'] + digits);
    }
    acc
}

/// A change to one track's marks.
#[derive(Clone, Copy, Debug, PartialEq, Eq)]
pub enum TrackEdit {
    Favorite(bool),
    Rating(Option<u8>),
}

/// The rating a star control sets: none for zero.
pub fn rating_edit(rating: u8) -> (e: TrackEdit)
    ensures
        e == TrackEdit::Rating(if rating == 0 { None } else { Some(rating) }),
{
    TrackEdit::Rating(if rating == 0 { None } else { Some(rating) })
}

/// A track with the edit applied when its id's decimal text is `id`.
pub open spec fn edited(t: Track, id: Seq<char>, e: TrackEdit) -> Track {
    if decimal_text(t.id as int) == id {
        match e {
            TrackEdit::Favorite(f) => Track { is_favorite: f, ..t },
            TrackEdit::Rating(r) => Track { rating: r, ..t },
        }
    } else {
        t
    }
}

/// A list of tracks with the edit applied to every track with that id.
pub open spec fn edited_tracks(ts: Seq<Track>, id: Seq<char>, e: TrackEdit) -> Seq<Track> {
    ts.map_values(|t: Track| edited(t, id, e))
}

/// An album with the edit applied to its tracks.
pub open spec fn edited_album(a: AlbumView, id: Seq<char>, e: TrackEdit) -> AlbumView {
    AlbumView { tracks: edited_tracks(a.tracks, id, e), ..a }
}

/// An artist entry with the edit applied to its albums' tracks.
pub open spec fn edited_artist(a: ArtistView, id: Seq<char>, e: TrackEdit) -> ArtistView {
    ArtistView { albums: a.albums.map_values(|al: AlbumView| edited_album(al, id, e)), ..a }
}

fn edit_track(t: &mut Track, id: &Vec<char>, e: TrackEdit)
    ensures
        *final(t) == edited(*old(t), id@, e),
{
    let text = id_text(t.id);
    let mut same = text.len() == id.len();
    let mut k: usize = 0;
    while same && k < text.len()
        invariant
            text@ == decimal_text(t.id as int),
            same ==> text.len() == id.len(),
            k <= text.len(),
            same ==> forall|m: int| 0 <= m < k ==> text@[m] == id@[m],
            !same ==> text@ != id@,
        decreases text.len() - k,
    {
        if text[k] != id[k] {
            same = false;
        }
        k += 1;
    }
    if same {
        assert(text@ =~= id@);
        match e {
            TrackEdit::Favorite(f) => t.is_favorite = f,
            TrackEdit::Rating(r) => t.rating = r,
        }
    }
}

/// Applies the edit to every track in the list whose id's decimal text is
/// `id`.
pub fn edit_tracks(tracks: &mut Vec<Track>, id: &Vec<char>, e: TrackEdit)
    ensures
        final(tracks)@ == edited_tracks(old(tracks)@, id@, e),
{
    let ghost start = tracks@;
    let mut i: usize = 0;
    while i < tracks.len()
        invariant
            i <= tracks@.len(),
            tracks@.len() == start.len(),
            forall|k: int| 0 <= k < i ==> #[trigger] tracks@[k] == edited(start[k], id@, e),
            forall|k: int| i <= k < tracks@.len() ==> #[trigger] tracks@[k] == start[k],
        decreases tracks.len() - i,
    {
        edit_track(&mut tracks[i], id, e);
        i += 1;
    }
    assert(tracks@ =~= edited_tracks(start, id@, e));
}

/// Applies the edit to the tracks of every album.
pub fn edit_albums(albums: &mut Vec<Album>, id: &Vec<char>, e: TrackEdit)
    ensures
        album_views(final(albums)@) == album_views(old(albums)@).map_values(|a: AlbumView| edited_album(a, id@, e)),
{
    let ghost start = album_views(albums@);
    let mut i: usize = 0;
    while i < albums.len()
        invariant
            i <= albums@.len(),
            albums@.len() == start.len(),
            start.len() == old(albums)@.len(),
            start == album_views(old(albums)@),
            forall|k: int| 0 <= k < i ==> (#[trigger] albums@[k])@ == edited_album(start[k], id@, e),
            forall|k: int| i <= k < albums@.len() ==> (#[trigger] albums@[k])@ == start[k],
        decreases albums.len() - i,
    {
        edit_tracks(&mut albums[i].tracks, id, e);
        i += 1;
    }
    assert(album_views(albums@) =~= start.map_values(|a: AlbumView| edited_album(a, id@, e)));
}

/// Applies the edit to the tracks of every album of every artist entry.
pub fn edit_artists(artists: &mut Vec<Artist>, id: &Vec<char>, e: TrackEdit)
    ensures
        artist_views(final(artists)@) == artist_views(old(artists)@).map_values(|a: ArtistView| edited_artist(a, id@, e)),
{
    let ghost start = artist_views(artists@);
    let mut i: usize = 0;
    while i < artists.len()
        invariant
            i <= artists@.len(),
            artists@.len() == start.len(),
            start == artist_views(old(artists)@),
            forall|k: int| 0 <= k < i ==> (#[trigger] artists@[k])@ == edited_artist(start[k], id@, e),
            forall|k: int| i <= k < artists@.len() ==> (#[trigger] artists@[k])@ == start[k],
        decreases artists.len() - i,
    {
        edit_albums(&mut artists[i].albums, id, e);
        proof {
            assert(artists@[i as int]@.albums =~= start[i as int].albums.map_values(|al: AlbumView| edited_album(al, id@, e)));
        }
        i += 1;
    }
    assert(artist_views(artists@) =~= start.map_values(|a: ArtistView| edited_artist(a, id@, e)));
}

/// The library's copies of tracks: the track list, the albums, the artist
/// index and the current track.
pub struct TrackCopies {
    pub tracks: Vec<Track>,
    pub albums: Vec<Album>,
    pub artists: Vec<Artist>,
    pub current: Option<Track>,
}

/// Applies a favorite or rating change made for the track with id text
/// `track_id` to every copy of that track: in the track list, in every
/// album, in every artist entry's albums, and to the current track.
pub fn apply_track_edit(copies: &mut TrackCopies, track_id: &str, e: TrackEdit)
    ensures
        final(copies).tracks@ == edited_tracks(old(copies).tracks@, track_id@, e),
        album_views(final(copies).albums@) == album_views(old(copies).albums@).map_values(|a: AlbumView| edited_album(a, track_id@, e)),
        artist_views(final(copies).artists@) == artist_views(old(copies).artists@).map_values(|a: ArtistView| edited_artist(a, track_id@, e)),
        final(copies).current == match old(copies).current {
            Some(t) => Some(edited(t, track_id@, e)),
            None => None,
        },
{
    let id = chars_of(track_id);
    edit_tracks(&mut copies.tracks, &id, e);
    edit_albums(&mut copies.albums, &id, e);
    edit_artists(&mut copies.artists, &id, e);
    match &mut copies.current {
        Some(t) => edit_track(t, &id, e),
        None => {},
    }
}

/// An edit touches only the tracks with that id, and only the mark it
/// changes: every other field of every track stays as it was.
pub proof fn lemma_edit_touches_only_matching_tracks(ts: Seq<Track>, id: Seq<char>, e: TrackEdit, k: int)
    requires
        0 <= k < ts.len(),
    ensures
        decimal_text(ts[k].id as int) != id ==> edited_tracks(ts, id, e)[k] == ts[k],
        ({
            let t = edited_tracks(ts, id, e)[k];
            &&& t.id == ts[k].id && t.title == ts[k].title && t.artist == ts[k].artist && t.album == ts[k].album
            &&& t.path == ts[k].path && t.duration_ns == ts[k].duration_ns && t.provider_id == ts[k].provider_id
            &&& (e is Favorite ==> t.rating == ts[k].rating)
            &&& (e is Rating ==> t.is_favorite == ts[k].is_favorite)
        }),
        edited_tracks(ts, id, e).len() == ts.len(),
{
}

/// An edit sets the mark it carries on every track with that id: a
/// favorite change makes the flag exactly the new state (so a track can be
/// un-favorited), a rating change makes the rating exactly the new one;
/// a track with another id is left as it was. The same holds of every
/// copy a list of tracks holds.
pub proof fn lemma_edit_sets_the_new_mark(ts: Seq<Track>, id: Seq<char>, favorite: bool, rating: Option<u8>)
    ensures
        forall|k: int| 0 <= k < ts.len() && decimal_text(ts[k].id as int) == id ==> {
            &&& (#[trigger] edited_tracks(ts, id, TrackEdit::Favorite(favorite))[k]).is_favorite == favorite
            &&& edited_tracks(ts, id, TrackEdit::Rating(rating))[k].rating == rating
        },
        forall|k: int| 0 <= k < ts.len() && decimal_text(ts[k].id as int) != id ==> {
            &&& #[trigger] edited_tracks(ts, id, TrackEdit::Favorite(favorite))[k] == ts[k]
            &&& edited_tracks(ts, id, TrackEdit::Rating(rating))[k] == ts[k]
        },
        edited_tracks(ts, id, TrackEdit::Favorite(favorite)).len() == ts.len(),
        edited_tracks(ts, id, TrackEdit::Rating(rating)).len() == ts.len(),
{
}

/// A track's id text is its decimal numeral: distinct ids have distinct
/// texts, so an edit for one id never reaches a track with another.
pub proof fn lemma_id_text_tells_ids_apart(a: i64, b: i64)
    ensures
        decimal_text(a as int) == decimal_text(b as int) ==> a == b,
{
    if decimal_text(a as int) == decimal_text(b as int) {
        lemma_decimal_text_injective(a as int, b as int);
    }
}

proof fn lemma_positive_digits_shape(n: nat)
    ensures
        n > 0 ==> positive_digits(n).len() > 0 && positive_digits(n)[0] != '0',
        forall|k: int| 0 <= k < positive_digits(n).len() ==> #[trigger] positive_digits(n)[k] != '-',
    decreases n,
{
    if n > 0 {
        lemma_positive_digits_shape(n / 10);
        let d = positive_digits(n);
        assert(d == positive_digits(n / 10).push(digit_char((n % 10) as int)));
        if n / 10 == 0 {
            assert(n % 10 != 0);
        } else {
            assert(d[0] == positive_digits(n / 10)[0]);
        }
        assert forall|k: int| 0 <= k < d.len() implies #[trigger] d[k] != '-' by {
            if k < d.len() - 1 {
                assert(d[k] == positive_digits(n / 10)[k]);
            }
        }
    }
}

proof fn lemma_positive_digits_injective(m: nat, n: nat)
    requires
        positive_digits(m) == positive_digits(n),
    ensures
        m == n,
    decreases m + n,
{
    if m == 0 || n == 0 {
        lemma_positive_digits_shape(m);
        lemma_positive_digits_shape(n);
    } else {
        let dm = positive_digits(m);
        let dn = positive_digits(n);
        assert(dm.drop_last() == positive_digits(m / 10));
        assert(dn.drop_last() == positive_digits(n / 10));
        assert(dm[dm.len() - 1] == digit_char((m % 10) as int));
        assert(dn[dn.len() - 1] == digit_char((n % 10) as int));
        assert(dm.len() == dn.len());
        assert(digit_char((m % 10) as int) == digit_char((n % 10) as int));
        assert(m % 10 == n % 10);
        lemma_positive_digits_injective(m / 10, n / 10);
    }
}

proof fn lemma_decimal_text_injective(a: int, b: int)
    requires
        decimal_text(a) == decimal_text(b),
    ensures
        a == b,
{
    if a > 0 {
        lemma_positive_digits_shape(a as nat);
    }
    if b > 0 {
        lemma_positive_digits_shape(b as nat);
    }
    if a < 0 {
        lemma_positive_digits_shape((-a) as nat);
    }
    if b < 0 {
        lemma_positive_digits_shape((-b) as nat);
    }
    if a == 0 || b == 0 {
        if a != 0 {
            assert(decimal_text(b) =~= seq!['0']);
        }
        if b != 0 {
            assert(decimal_text(a) =~= seq!['0']);
        }
    } else if a > 0 && b > 0 {
        lemma_positive_digits_injective(a as nat, b as nat);
    } else if a < 0 && b < 0 {
        assert(positive_digits((-a) as nat) =~= decimal_text(a).drop_first());
        assert(positive_digits((-b) as nat) =~= decimal_text(b).drop_first());
        lemma_positive_digits_injective((-a) as nat, (-b) as nat);
    } else if a < 0 {
        assert(decimal_text(a)[0] == '-');
        assert(decimal_text(b)[0] != '-');
    } else {
        assert(decimal_text(b)[0] == '-');
        assert(decimal_text(a)[0] != '-');
    }
}

} // verus!
