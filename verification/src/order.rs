//! Stable ordering of library lists by a text or numeric key, as
//! `sort_by`/`sort_by_key` with `String` and integer keys order them.

use vstd::prelude::*;
use crate::library::{Album, AlbumView, Artist, ArtistView, Track, album_views, artist_views};
use crate::text::chars_of;

verus! {

/// Text order of two character sequences: code point by code point, a
/// proper prefix first. For UTF-8 strings this is the byte order that
/// `String`'s `Ord` uses.
pub open spec fn lex_lt(a: Seq<char>, b: Seq<char>) -> bool
    decreases a.len(),
{
    if a.len() == 0 {
        b.len() > 0
    } else if b.len() == 0 {
        false
    } else if (a[0] as int) < (b[0] as int) {
        true
    } else if a[0] == b[0] {
        lex_lt(a.drop_first(), b.drop_first())
    } else {
        false
    }
}

/// A sort key: some text, or a number.
pub enum KeyValue {
    Text(Seq<char>),
    Number(u128),
}

/// Strict order of keys; text keys come before numeric ones (a list is
/// only ever sorted by keys of one kind).
pub open spec fn key_lt(a: KeyValue, b: KeyValue) -> bool {
    match a {
        KeyValue::Text(x) => match b {
            KeyValue::Text(y) => lex_lt(x, y),
            KeyValue::Number(_) => true,
        },
        KeyValue::Number(x) => match b {
            KeyValue::Text(_) => false,
            KeyValue::Number(y) => x < y,
        },
    }
}

proof fn lemma_lex_irreflexive(a: Seq<char>)
    ensures
        !lex_lt(a, a),
    decreases a.len(),
{
    if a.len() > 0 {
        lemma_lex_irreflexive(a.drop_first());
    }
}

proof fn lemma_lex_asymmetric(a: Seq<char>, b: Seq<char>)
    ensures
        lex_lt(a, b) ==> !lex_lt(b, a),
    decreases a.len(),
{
    if a.len() > 0 && b.len() > 0 && a[0] == b[0] {
        lemma_lex_asymmetric(a.drop_first(), b.drop_first());
    }
}

proof fn lemma_lex_transitive(a: Seq<char>, b: Seq<char>, c: Seq<char>)
    ensures
        lex_lt(a, b) && lex_lt(b, c) ==> lex_lt(a, c),
    decreases a.len(),
{
    if a.len() > 0 && b.len() > 0 && c.len() > 0 {
        lemma_lex_transitive(a.drop_first(), b.drop_first(), c.drop_first());
    }
}

proof fn lemma_lex_total(a: Seq<char>, b: Seq<char>)
    ensures
        a != b ==> lex_lt(a, b) || lex_lt(b, a),
    decreases a.len(),
{
    if a.len() > 0 && b.len() > 0 {
        lemma_lex_total(a.drop_first(), b.drop_first());
        if a[0] == b[0] && a.drop_first() == b.drop_first() {
            assert(a =~= seq![a[0]] + a.drop_first());
            assert(b =~= seq![b[0]] + b.drop_first());
        }
    } else if a.len() == 0 && b.len() == 0 {
        assert(a =~= b);
    }
}

/// `key_lt` is a strict total order.
pub proof fn lemma_key_order(a: KeyValue, b: KeyValue, c: KeyValue)
    ensures
        !key_lt(a, a),
        key_lt(a, b) ==> !key_lt(b, a),
        key_lt(a, b) && key_lt(b, c) ==> key_lt(a, c),
        a != b ==> key_lt(a, b) || key_lt(b, a),
        !key_lt(a, b) && !key_lt(b, c) ==> !key_lt(a, c),
{
    match a {
        KeyValue::Text(x) => {
            lemma_lex_irreflexive(x);
            match b {
                KeyValue::Text(y) => {
                    lemma_lex_asymmetric(x, y);
                    lemma_lex_total(x, y);
                    match c {
                        KeyValue::Text(z) => {
                            lemma_lex_transitive(x, y, z);
                            lemma_lex_transitive(z, y, x);
                            lemma_lex_total(x, z);
                            lemma_lex_total(y, z);
                            lemma_lex_transitive(z, x, y);
                            lemma_lex_transitive(y, z, x);
                            lemma_lex_asymmetric(x, z);
                            lemma_lex_asymmetric(z, y);
                            lemma_lex_asymmetric(y, z);
                            lemma_lex_asymmetric(z, x);
                        },
                        KeyValue::Number(_) => {},
                    }
                },
                KeyValue::Number(_) => {},
            }
        },
        KeyValue::Number(_) => {},
    }
}

/// `perm` lists every index of `keys` once, in an order where keys never
/// decrease and entries with equal keys keep their relative order: the
/// order in which a stable sort leaves the entries.
pub open spec fn is_stable_order(keys: Seq<KeyValue>, perm: Seq<usize>) -> bool {
    &&& perm.len() == keys.len()
    &&& forall|a: int| 0 <= a < perm.len() ==> (#[trigger] perm[a] as int) < keys.len()
    &&& perm.no_duplicates()
    &&& forall|j: usize| (j as int) < keys.len() ==> #[trigger] perm.contains(j)
    &&& forall|a: int, b: int|
        0 <= a < b < perm.len() ==> !key_lt(keys[perm[b] as int], keys[perm[a] as int])
    &&& forall|a: int, b: int|
        0 <= a < b < perm.len() && !key_lt(keys[perm[a] as int], keys[perm[b] as int]) ==> perm[a] < perm[b]
}

/// A sort key held at run time.
pub enum SortKey {
    Text(Vec<char>),
    Number(u128),
}

impl View for SortKey {
    type V = KeyValue;

    open spec fn view(&self) -> KeyValue {
        match self {
            SortKey::Text(t) => KeyValue::Text(t@),
            SortKey::Number(n) => KeyValue::Number(*n),
        }
    }
}

/// Whether text `a` comes strictly before text `b`.
pub fn text_less(a: &Vec<char>, b: &Vec<char>) -> (r: bool)
    ensures
        r == lex_lt(a@, b@),
{
    let mut i: usize = 0;
    assert(a@.skip(0) =~= a@);
    assert(b@.skip(0) =~= b@);
    while i < a.len() && i < b.len()
        invariant
            i <= a.len(),
            i <= b.len(),
            lex_lt(a@, b@) == lex_lt(a@.skip(i as int), b@.skip(i as int)),
        decreases a.len() - i,
    {
        let x = a[i];
        let y = b[i];
        assert(a@.skip(i as int)[0] == x);
        assert(b@.skip(i as int)[0] == y);
        if x < y {
            return true;
        }
        if x != y {
            return false;
        }
        assert(a@.skip(i as int).drop_first() =~= a@.skip(i + 1));
        assert(b@.skip(i as int).drop_first() =~= b@.skip(i + 1));
        i += 1;
    }
    if i == a.len() {
        assert(a@.skip(i as int).len() == 0);
        i < b.len()
    } else {
        assert(b@.skip(i as int).len() == 0);
        false
    }
}

/// Whether key `a` comes strictly before key `b`.
pub fn key_less(a: &SortKey, b: &SortKey) -> (r: bool)
    ensures
        r == key_lt(a@, b@),
{
    match a {
        SortKey::Text(x) => match b {
            SortKey::Text(y) => text_less(x, y),
            SortKey::Number(_) => true,
        },
        SortKey::Number(x) => match b {
            SortKey::Text(_) => false,
            SortKey::Number(y) => *x < *y,
        },
    }
}

/// The views of a list of run-time keys.
pub open spec fn key_values(keys: Seq<SortKey>) -> Seq<KeyValue> {
    keys.map_values(|k: SortKey| k@)
}

/// The order in which a stable sort by `keys` leaves the entries
/// (insertion sort: each entry goes after every earlier entry whose key
/// is not greater).
pub fn stable_order(keys: &Vec<SortKey>) -> (perm: Vec<usize>)
    ensures
        is_stable_order(key_values(keys@), perm@),
{
    let ghost ks = key_values(keys@);
    let mut perm: Vec<usize> = Vec::new();
    let mut i: usize = 0;
    while i < keys.len()
        invariant
            i <= keys.len(),
            ks == key_values(keys@),
            ks.len() == keys@.len(),
            perm@.len() == i,
            forall|a: int| 0 <= a < perm@.len() ==> (#[trigger] perm@[a] as int) < i,
            perm@.no_duplicates(),
            forall|j: usize| j < i ==> #[trigger] perm@.contains(j),
            forall|a: int, b: int|
                0 <= a < b < perm@.len() ==> !key_lt(ks[perm@[b] as int], ks[perm@[a] as int]),
            forall|a: int, b: int|
                0 <= a < b < perm@.len() && !key_lt(ks[perm@[a] as int], ks[perm@[b] as int])
                    ==> perm@[a] < perm@[b],
        decreases keys.len() - i,
    {
        let mut p: usize = i;
        while p > 0 && key_less(&keys[i], &keys[perm[p - 1]])
            invariant
                p <= i,
                i < keys.len(),
                perm@.len() == i,
                ks == key_values(keys@),
                forall|a: int| 0 <= a < perm@.len() ==> (#[trigger] perm@[a] as int) < i,
                forall|q: int| p <= q < i ==> key_lt(ks[i as int], #[trigger] ks[perm@[q] as int]),
            decreases p,
        {
            p -= 1;
        }
        let ghost old_perm = perm@;
        proof {
            if p > 0 {
                assert(!key_lt(ks[i as int], ks[old_perm[p - 1] as int]));
            }
        }
        perm.insert(p, i);
        proof {
            let np = perm@;
            assert(np == old_perm.insert(p as int, i));
            assert forall|a: int| 0 <= a < np.len() implies (#[trigger] np[a] as int) < i + 1 by {
                if a > p {
                    assert(np[a] == old_perm[a - 1]);
                }
            }
            assert forall|a: int, b: int| 0 <= a < np.len() && 0 <= b < np.len() && a != b implies
                np[a] != np[b] by {
                if a == p as int {
                    if b < p {
                        assert(np[b] == old_perm[b]);
                    } else {
                        assert(np[b] == old_perm[b - 1]);
                    }
                } else if b == p as int {
                    if a < p {
                        assert(np[a] == old_perm[a]);
                    } else {
                        assert(np[a] == old_perm[a - 1]);
                    }
                } else {
                    let oa = if a < p { a } else { a - 1 };
                    let ob = if b < p { b } else { b - 1 };
                    assert(np[a] == old_perm[oa]);
                    assert(np[b] == old_perm[ob]);
                }
            }
            assert forall|j: usize| j < i + 1 implies #[trigger] np.contains(j) by {
                if j == i {
                    assert(np[p as int] == i);
                } else {
                    assert(old_perm.contains(j));
                    let c = choose|c: int| 0 <= c < old_perm.len() && old_perm[c] == j;
                    if c < p {
                        assert(np[c] == old_perm[c]);
                    } else {
                        assert(np[c + 1] == old_perm[c]);
                    }
                }
            }
            assert forall|a: int, b: int| 0 <= a < b < np.len() implies
                !key_lt(ks[np[b] as int], ks[np[a] as int]) && (!key_lt(ks[np[a] as int], ks[np[b] as int]) ==> np[a] < np[b]) by {
                if a == p as int {
                    assert(np[b] == old_perm[b - 1]);
                    lemma_key_order(ks[i as int], ks[np[b] as int], ks[i as int]);
                } else if b == p as int {
                    assert(np[a] == old_perm[a]);
                    if a < p - 1 {
                        lemma_key_order(ks[i as int], ks[old_perm[p - 1] as int], ks[old_perm[a] as int]);
                    }
                } else {
                    let oa = if a < p { a } else { a - 1 };
                    let ob = if b < p { b } else { b - 1 };
                    assert(np[a] == old_perm[oa]);
                    assert(np[b] == old_perm[ob]);
                }
            }
        }
        i += 1;
    }
    perm
}


/// `output` is `input` rearranged in the order a stable sort by `keys`
/// (one key per entry of `input`) gives.
pub open spec fn is_stable_sort_of<T>(input: Seq<T>, output: Seq<T>, keys: Seq<KeyValue>) -> bool {
    exists|perm: Seq<usize>|
        #[trigger] is_stable_order(keys, perm) && output == perm.map_values(|j: usize| input[j as int])
}

/// The column the song list is sorted by.
#[derive(Clone, Copy, Debug, PartialEq, Eq)]
pub enum SortField {
    Title,
    Artist,
    Album,
    Duration,
}

/// The key a track is sorted by for a column.
pub open spec fn track_key(t: Track, field: SortField) -> KeyValue {
    match field {
        SortField::Title => KeyValue::Text(t.title@),
        SortField::Artist => KeyValue::Text(t.artist@),
        SortField::Album => KeyValue::Text(t.album@),
        SortField::Duration => KeyValue::Number(t.duration_ns),
    }
}

/// The keys of a list of tracks for a column.
pub open spec fn track_keys(tracks: Seq<Track>, field: SortField) -> Seq<KeyValue> {
    tracks.map_values(|t: Track| track_key(t, field))
}

/// The keys of albums sorted by name.
pub open spec fn album_name_keys(albums: Seq<AlbumView>) -> Seq<KeyValue> {
    albums.map_values(|a: AlbumView| KeyValue::Text(a.name))
}

/// The keys of artists sorted by name.
pub open spec fn artist_name_keys(artists: Seq<ArtistView>) -> Seq<KeyValue> {
    artists.map_values(|a: ArtistView| KeyValue::Text(a.name))
}

fn text_key(s: &String) -> (k: SortKey)
    ensures
        k@ == KeyValue::Text(s@),
{
    SortKey::Text(chars_of(s.as_str()))
}

/// Sorts the tracks by a column, keeping the order of tracks with equal
/// keys: by title, artist or album text, or by duration.
pub fn sort_tracks(tracks: &mut Vec<Track>, field: SortField)
    ensures
        is_stable_sort_of(old(tracks)@, final(tracks)@, track_keys(old(tracks)@, field)),
{
    let mut keys: Vec<SortKey> = Vec::new();
    let mut i: usize = 0;
    while i < tracks.len()
        invariant
            i <= tracks.len(),
            keys@.len() == i,
            forall|k: int| 0 <= k < i ==> (#[trigger] keys@[k])@ == track_key(tracks@[k], field),
        decreases tracks.len() - i,
    {
        let t = &tracks[i];
        let k = match field {
            SortField::Title => text_key(&t.title),
            SortField::Artist => text_key(&t.artist),
            SortField::Album => text_key(&t.album),
            SortField::Duration => SortKey::Number(t.duration_ns),
        };
        keys.push(k);
        i += 1;
    }
    assert(key_values(keys@) =~= track_keys(tracks@, field));
    let perm = stable_order(&keys);
    let mut out: Vec<Track> = Vec::new();
    let mut j: usize = 0;
    while j < perm.len()
        invariant
            is_stable_order(track_keys(tracks@, field), perm@),
            track_keys(tracks@, field).len() == tracks@.len(),
            j <= perm@.len(),
            out@ == perm@.take(j as int).map_values(|x: usize| tracks@[x as int]),
        decreases perm.len() - j,
    {
        let idx = perm[j];
        assert((perm@[j as int] as int) < tracks@.len());
        out.push(tracks[idx].duplicate());
        j += 1;
        assert(out@ =~= perm@.take(j as int).map_values(|x: usize| tracks@[x as int]));
    }
    assert(perm@.take(perm@.len() as int) =~= perm@);
    let ghost before = tracks@;
    *tracks = out;
    assert(is_stable_order(track_keys(before, field), perm@) && tracks@ == perm@.map_values(|x: usize| before[x as int]));
}

/// Sorts albums by name, keeping the order of albums with equal names.
pub fn sort_albums_by_name(albums: &mut Vec<Album>)
    ensures
        is_stable_sort_of(album_views(old(albums)@), album_views(final(albums)@), album_name_keys(album_views(old(albums)@))),
{
    let ghost views = album_views(albums@);
    let mut keys: Vec<SortKey> = Vec::new();
    let mut i: usize = 0;
    while i < albums.len()
        invariant
            i <= albums.len(),
            views == album_views(albums@),
            keys@.len() == i,
            forall|k: int| 0 <= k < i ==> (#[trigger] keys@[k])@ == KeyValue::Text(albums@[k].name@),
        decreases albums.len() - i,
    {
        keys.push(text_key(&albums[i].name));
        i += 1;
    }
    assert(key_values(keys@) =~= album_name_keys(views));
    let perm = stable_order(&keys);
    let mut out: Vec<Album> = Vec::new();
    let mut j: usize = 0;
    while j < perm.len()
        invariant
            is_stable_order(album_name_keys(views), perm@),
            views == album_views(albums@),
            album_name_keys(views).len() == albums@.len(),
            j <= perm@.len(),
            out@.len() == j,
            forall|k: int| 0 <= k < j ==> (#[trigger] out@[k])@ == views[perm@[k] as int],
        decreases perm.len() - j,
    {
        let idx = perm[j];
        assert((perm@[j as int] as int) < albums@.len());
        out.push(albums[idx].duplicate());
        j += 1;
    }
    *albums = out;
    assert(album_views(albums@) =~= perm@.map_values(|x: usize| views[x as int]));
}

/// Sorts artists by name, keeping the order of artists with equal names.
pub fn sort_artists_by_name(artists: &mut Vec<Artist>)
    ensures
        is_stable_sort_of(artist_views(old(artists)@), artist_views(final(artists)@), artist_name_keys(artist_views(old(artists)@))),
{
    let ghost views = artist_views(artists@);
    let mut keys: Vec<SortKey> = Vec::new();
    let mut i: usize = 0;
    while i < artists.len()
        invariant
            i <= artists.len(),
            views == artist_views(artists@),
            keys@.len() == i,
            forall|k: int| 0 <= k < i ==> (#[trigger] keys@[k])@ == KeyValue::Text(artists@[k].name@),
        decreases artists.len() - i,
    {
        keys.push(text_key(&artists[i].name));
        i += 1;
    }
    assert(key_values(keys@) =~= artist_name_keys(views));
    let perm = stable_order(&keys);
    let mut out: Vec<Artist> = Vec::new();
    let mut j: usize = 0;
    while j < perm.len()
        invariant
            is_stable_order(artist_name_keys(views), perm@),
            views == artist_views(artists@),
            artist_name_keys(views).len() == artists@.len(),
            j <= perm@.len(),
            out@.len() == j,
            forall|k: int| 0 <= k < j ==> (#[trigger] out@[k])@ == views[perm@[k] as int],
        decreases perm.len() - j,
    {
        let idx = perm[j];
        assert((perm@[j as int] as int) < artists@.len());
        out.push(artists[idx].duplicate());
        j += 1;
    }
    *artists = out;
    assert(artist_views(artists@) =~= perm@.map_values(|x: usize| views[x as int]));
}


/// Entry `u` goes before entry `v` in a stable sort by `keys`: its key is
/// smaller, or the keys are equal and it came first.
pub open spec fn sorts_before(keys: Seq<KeyValue>, u: int, v: int) -> bool {
    key_lt(keys[u], keys[v]) || (!key_lt(keys[v], keys[u]) && !key_lt(keys[u], keys[v]) && u < v)
}

proof fn lemma_stable_order_sorts_before(keys: Seq<KeyValue>, p: Seq<usize>, a: int, b: int)
    requires
        is_stable_order(keys, p),
        0 <= a < b < p.len(),
    ensures
        sorts_before(keys, p[a] as int, p[b] as int),
{
}

proof fn lemma_sorts_before_asymmetric(keys: Seq<KeyValue>, u: int, v: int)
    requires
        0 <= u < keys.len(),
        0 <= v < keys.len(),
    ensures
        !(sorts_before(keys, u, v) && sorts_before(keys, v, u)),
{
    lemma_key_order(keys[u], keys[v], keys[u]);
}

proof fn lemma_stable_orders_agree_up_to(keys: Seq<KeyValue>, p: Seq<usize>, q: Seq<usize>, k: int)
    requires
        is_stable_order(keys, p),
        is_stable_order(keys, q),
        0 <= k <= p.len(),
    ensures
        forall|b: int| 0 <= b < k ==> p[b] == q[b],
    decreases k,
{
    if k > 0 {
        lemma_stable_orders_agree_up_to(keys, p, q, k - 1);
        let a = k - 1;
        let x = p[a];
        let y = q[a];
        if x != y {
            assert(keys.len() == p.len());
            assert(p.contains(x));
            assert(q.contains(x)) by {
                assert((x as int) < keys.len());
            }
            let c = choose|c: int| 0 <= c < q.len() && q[c] == x;
            if c < a {
                assert(p[c] == q[c]);
                assert(false);
            }
            assert(c != a);
            assert(p.contains(y)) by {
                assert((y as int) < keys.len());
            }
            let d = choose|d: int| 0 <= d < p.len() && p[d] == y;
            if d < a {
                assert(p[d] == q[d]);
                assert(q[d] == y);
                assert(false);
            }
            assert(d != a);
            lemma_stable_order_sorts_before(keys, q, a, c);
            lemma_stable_order_sorts_before(keys, p, a, d);
            lemma_sorts_before_asymmetric(keys, x as int, y as int);
        }
    }
}

/// There is only one stable order for a list of keys, so a stable sort
/// has exactly one possible result.
pub proof fn lemma_stable_order_unique(keys: Seq<KeyValue>, p: Seq<usize>, q: Seq<usize>)
    requires
        is_stable_order(keys, p),
        is_stable_order(keys, q),
    ensures
        p == q,
{
    lemma_stable_orders_agree_up_to(keys, p, q, p.len() as int);
    assert(p =~= q);
}

/// A stable sort of a list has exactly one result.
pub proof fn lemma_stable_sort_unique<T>(input: Seq<T>, out1: Seq<T>, out2: Seq<T>, keys: Seq<KeyValue>)
    requires
        is_stable_sort_of(input, out1, keys),
        is_stable_sort_of(input, out2, keys),
    ensures
        out1 == out2,
{
    let p = choose|perm: Seq<usize>| #[trigger] is_stable_order(keys, perm) && out1 == perm.map_values(|j: usize| input[j as int]);
    let q = choose|perm: Seq<usize>| #[trigger] is_stable_order(keys, perm) && out2 == perm.map_values(|j: usize| input[j as int]);
    lemma_stable_order_unique(keys, p, q);
}

/// Sorting the song list by a column orders the tracks by that column:
/// by title, artist or album text (code point order) or by length, never
/// putting a later key first. The result holds the same tracks, each once,
/// and tracks with equal values in the column keep their order.
pub proof fn lemma_track_sort_orders_by_column(input: Seq<Track>, output: Seq<Track>, field: SortField)
    requires
        is_stable_sort_of(input, output, track_keys(input, field)),
    ensures
        output.len() == input.len(),
        forall|a: int, b: int| 0 <= a < b < output.len() ==> match field {
            SortField::Title => !lex_lt(#[trigger] output[b].title@, #[trigger] output[a].title@),
            SortField::Artist => !lex_lt(output[b].artist@, output[a].artist@),
            SortField::Album => !lex_lt(output[b].album@, output[a].album@),
            SortField::Duration => output[a].duration_ns <= output[b].duration_ns,
        },
        exists|perm: Seq<usize>| {
            &&& perm.len() == input.len()
            &&& perm.no_duplicates()
            &&& forall|k: int| 0 <= k < perm.len() ==> (#[trigger] perm[k] as int) < input.len() && output[k] == input[perm[k] as int]
            &&& forall|a: int, b: int| 0 <= a < b < output.len() && (match field {
                SortField::Title => output[a].title@ == output[b].title@,
                SortField::Artist => output[a].artist@ == output[b].artist@,
                SortField::Album => output[a].album@ == output[b].album@,
                SortField::Duration => output[a].duration_ns == output[b].duration_ns,
            }) ==> #[trigger] perm[a] < #[trigger] perm[b]
        },
{
    let keys = track_keys(input, field);
    let p = choose|perm: Seq<usize>| #[trigger] is_stable_order(keys, perm) && output == perm.map_values(|j: usize| input[j as int]);
    assert forall|k: int| 0 <= k < output.len() implies output[k] == input[p[k] as int] && keys[p[k] as int] == track_key(output[k], field) by {
        assert((p[k] as int) < keys.len());
    }
    assert forall|a: int, b: int| 0 <= a < b < output.len() implies match field {
        SortField::Title => !lex_lt(#[trigger] output[b].title@, #[trigger] output[a].title@),
        SortField::Artist => !lex_lt(output[b].artist@, output[a].artist@),
        SortField::Album => !lex_lt(output[b].album@, output[a].album@),
        SortField::Duration => output[a].duration_ns <= output[b].duration_ns,
    } by {
        assert(!key_lt(keys[p[b] as int], keys[p[a] as int]));
        assert(keys[p[a] as int] == track_key(output[a], field));
        assert(keys[p[b] as int] == track_key(output[b], field));
    }
    assert forall|a: int, b: int| 0 <= a < b < output.len() && (match field {
        SortField::Title => output[a].title@ == output[b].title@,
        SortField::Artist => output[a].artist@ == output[b].artist@,
        SortField::Album => output[a].album@ == output[b].album@,
        SortField::Duration => output[a].duration_ns == output[b].duration_ns,
    }) implies #[trigger] p[a] < #[trigger] p[b] by {
        assert(keys[p[a] as int] == track_key(output[a], field));
        assert(keys[p[b] as int] == track_key(output[b], field));
        assert(keys[p[a] as int] == keys[p[b] as int]);
        match keys[p[a] as int] {
            KeyValue::Text(x) => lemma_lex_irreflexive(x),
            KeyValue::Number(_) => {},
        }
        assert(!key_lt(keys[p[a] as int], keys[p[b] as int]));
    }
    assert forall|k: int| 0 <= k < p.len() implies (#[trigger] p[k] as int) < input.len() && output[k] == input[p[k] as int] by {
        assert((p[k] as int) < keys.len());
    }
}

/// Sorting albums or artists by name orders them by name (code point
/// order), never putting a later name first.
pub proof fn lemma_name_sort_orders_by_name(albums: Seq<AlbumView>, sorted_albums: Seq<AlbumView>, artists: Seq<ArtistView>, sorted_artists: Seq<ArtistView>)
    requires
        is_stable_sort_of(albums, sorted_albums, album_name_keys(albums)),
        is_stable_sort_of(artists, sorted_artists, artist_name_keys(artists)),
    ensures
        sorted_albums.len() == albums.len(),
        sorted_artists.len() == artists.len(),
        forall|a: int, b: int| 0 <= a < b < sorted_albums.len() ==> !lex_lt(#[trigger] sorted_albums[b].name, #[trigger] sorted_albums[a].name),
        forall|a: int, b: int| 0 <= a < b < sorted_artists.len() ==> !lex_lt(#[trigger] sorted_artists[b].name, #[trigger] sorted_artists[a].name),
{
    let ak = album_name_keys(albums);
    let p = choose|perm: Seq<usize>| #[trigger] is_stable_order(ak, perm) && sorted_albums == perm.map_values(|j: usize| albums[j as int]);
    assert forall|a: int, b: int| 0 <= a < b < sorted_albums.len() implies !lex_lt(#[trigger] sorted_albums[b].name, #[trigger] sorted_albums[a].name) by {
        assert(!key_lt(ak[p[b] as int], ak[p[a] as int]));
        assert((p[a] as int) < ak.len() && (p[b] as int) < ak.len());
        assert(sorted_albums[a] == albums[p[a] as int]);
        assert(sorted_albums[b] == albums[p[b] as int]);
    }
    let rk = artist_name_keys(artists);
    let q = choose|perm: Seq<usize>| #[trigger] is_stable_order(rk, perm) && sorted_artists == perm.map_values(|j: usize| artists[j as int]);
    assert forall|a: int, b: int| 0 <= a < b < sorted_artists.len() implies !lex_lt(#[trigger] sorted_artists[b].name, #[trigger] sorted_artists[a].name) by {
        assert(!key_lt(rk[q[b] as int], rk[q[a] as int]));
        assert((q[a] as int) < rk.len() && (q[b] as int) < rk.len());
        assert(sorted_artists[a] == artists[q[a] as int]);
        assert(sorted_artists[b] == artists[q[b] as int]);
    }
}

} // verus!
