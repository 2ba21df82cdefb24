//! The artist-tag delimiter list as the settings text box shows it:
//! delimiters joined by `" | "`, and the parse back into a list.

use vstd::prelude::*;
use crate::library::string_views;
use crate::text::{chars_of, occurs_at, occurs_at_exec, trim_bounds, trimmed};

verus! {

broadcast use vstd::string::group_string_axioms;

/// The separator between delimiters in the text box.
pub open spec fn separator() -> Seq<char> {
    seq![' ', '|', ' ']
}

/// The first position at or after `i` where the separator starts in `s`.
pub open spec fn first_separator_from(s: Seq<char>, i: int) -> Option<int>
    decreases s.len() - i,
{
    if i < 0 || i + 3 > s.len() {
        None
    } else if occurs_at(s, separator(), i) {
        Some(i)
    } else {
        first_separator_from(s, i + 1)
    }
}

/// The pieces of `s` from position `start` on, cut at each separator from
/// left to right, as `str::split(" | ")` gives them.
pub open spec fn split_from(s: Seq<char>, start: int) -> Seq<Seq<char>>
    decreases s.len() - start,
{
    if start < 0 || start > s.len() {
        Seq::empty()
    } else {
        match first_separator_from(s, start) {
            None => seq![s.subrange(start, s.len() as int)],
            Some(i) => if start <= i && i + 3 <= s.len() {
                seq![s.subrange(start, i)] + split_from(s, i + 3)
            } else {
                Seq::empty()
            },
        }
    }
}

/// The pieces trimmed, without the ones that trim to nothing.
pub open spec fn kept_pieces(pieces: Seq<Seq<char>>) -> Seq<Seq<char>>
    decreases pieces.len(),
{
    if pieces.len() == 0 {
        Seq::empty()
    } else {
        let rest = kept_pieces(pieces.drop_first());
        if trimmed(pieces[0]).len() > 0 {
            seq![trimmed(pieces[0])] + rest
        } else {
            rest
        }
    }
}

/// What the delimiter text box holds as a list: the text cut at each
/// `" | "`, each piece trimmed, and empty pieces dropped.
pub open spec fn parsed_delimiters(text: Seq<char>) -> Seq<Seq<char>> {
    kept_pieces(split_from(text, 0))
}

proof fn lemma_first_separator(s: Seq<char>, i: int)
    requires
        0 <= i,
    ensures
        first_separator_from(s, i) matches Some(j) ==> i <= j && j + 3 <= s.len() && occurs_at(s, separator(), j),
    decreases s.len() - i,
{
    if i + 3 <= s.len() && !occurs_at(s, separator(), i) {
        lemma_first_separator(s, i + 1);
    }
}

/// The first position at or after `from` where the separator starts.
fn find_separator(chars: &Vec<char>, sep: &Vec<char>, from: usize) -> (r: Option<usize>)
    requires
        sep@ == separator(),
        from <= chars@.len(),
    ensures
        r matches Some(j) ==> first_separator_from(chars@, from as int) == Some(j as int),
        r is None ==> first_separator_from(chars@, from as int) is None,
{
    let mut i = from;
    while i < chars.len() && chars.len() - i >= 3
        invariant
            from <= i <= chars@.len(),
            sep@ == separator(),
            first_separator_from(chars@, from as int) == first_separator_from(chars@, i as int),
        decreases chars.len() - i,
    {
        if occurs_at_exec(chars, sep, i) {
            return Some(i);
        }
        i += 1;
    }
    None
}

proof fn lemma_kept_prepend(p: Seq<char>, rest: Seq<Seq<char>>)
    ensures
        kept_pieces(seq![p] + rest) == (if trimmed(p).len() > 0 { seq![trimmed(p)] } else { Seq::empty() }) + kept_pieces(rest),
{
    let all = seq![p] + rest;
    assert(all.drop_first() =~= rest);
    assert(all[0] == p);
    if trimmed(p).len() == 0 {
        assert(Seq::<Seq<char>>::empty() + kept_pieces(rest) =~= kept_pieces(rest));
    }
}

/// Parses the delimiter-list text box (delimiters joined by `" | "`) back
/// into the list: the text is cut at each `" | "`, each piece trimmed,
/// and empty pieces dropped.
pub fn parse_delimiters_input(text: &str) -> (r: Vec<String>)
    ensures
        string_views(r@) == parsed_delimiters(text@),
{
    let chars = chars_of(text);
    let mut sep: Vec<char> = Vec::new();
    sep.push(' ');
    sep.push('|');
    sep.push(' ');
    assert(sep@ =~= separator());
    let mut out: Vec<String> = Vec::new();
    let mut pos: usize = 0;
    loop
        invariant
            chars@ == text@,
            sep@ == separator(),
            pos <= chars@.len(),
            string_views(out@) + kept_pieces(split_from(chars@, pos as int)) == parsed_delimiters(text@),
        decreases chars@.len() - pos,
    {
        let found = find_separator(&chars, &sep, pos);
        let end = match found {
            Some(j) => j,
            None => chars.len(),
        };
        proof {
            lemma_first_separator(chars@, pos as int);
        }
        let (a, b) = trim_bounds(&chars, pos, end);
        let ghost piece = chars@.subrange(pos as int, end as int);
        let ghost rest = match found {
            Some(j) => split_from(chars@, j + 3),
            None => Seq::<Seq<char>>::empty(),
        };
        proof {
            match found {
                Some(j) => {
                    assert(split_from(chars@, pos as int) == seq![piece] + rest);
                },
                None => {
                    assert(split_from(chars@, pos as int) == seq![piece]);
                    assert(seq![piece] =~= seq![piece] + rest);
                },
            }
            lemma_kept_prepend(piece, rest);
            assert(trimmed(piece) =~= chars@.subrange(a as int, b as int));
        }
        let ghost before = string_views(out@);
        if a < b {
            let part = text.substring_char(a, b);
            out.push(String::from_str(part));
            assert(string_views(out@) =~= before + seq![trimmed(piece)]);
        } else {
            assert(before + Seq::<Seq<char>>::empty() =~= before);
        }
        match found {
            Some(j) => {
                pos = j + 3;
                assert(string_views(out@) + kept_pieces(rest) =~= before + kept_pieces(seq![piece] + rest));
            },
            None => {
                assert(kept_pieces(rest) =~= Seq::<Seq<char>>::empty());
                assert(string_views(out@) =~= before + kept_pieces(seq![piece] + rest));
                return out;
            },
        }
    }
}

/// The delimiters joined by the separator, as `join(" | ")` gives them.
pub open spec fn joined(items: Seq<Seq<char>>) -> Seq<char>
    decreases items.len(),
{
    if items.len() == 0 {
        Seq::empty()
    } else if items.len() == 1 {
        items[0]
    } else {
        items[0] + separator() + joined(items.drop_first())
    }
}

proof fn lemma_joined_push(items: Seq<Seq<char>>, x: Seq<char>)
    requires
        items.len() > 0,
    ensures
        joined(items.push(x)) == joined(items) + separator() + x,
    decreases items.len(),
{
    let longer = items.push(x);
    if items.len() == 1 {
        assert(longer.drop_first() =~= seq![x]);
        assert(joined(longer.drop_first()) == x);
    } else {
        assert(longer.drop_first() =~= items.drop_first().push(x));
        lemma_joined_push(items.drop_first(), x);
        assert(joined(longer) =~= items[0] + separator() + (joined(items.drop_first()) + separator() + x));
    }
}

/// The delimiter list as the text box shows it: the delimiters joined by
/// `" | "`.
pub fn join_delimiters(items: &Vec<String>) -> (r: String)
    ensures
        r@ == joined(string_views(items@)),
{
    let mut r = String::new();
    let mut i: usize = 0;
    while i < items.len()
        invariant
            i <= items.len(),
            r@ == joined(string_views(items@).take(i as int)),
        decreases items.len() - i,
    {
        let ghost prefix = string_views(items@).take(i as int);
        assert(string_views(items@).take(i + 1) =~= prefix.push(items@[i as int]@));
        if i == 0 {
            assert(prefix.push(items@[0]@) =~= seq![items@[0]@]);
            r.append(items[i].as_str());
            assert(r@ =~= items@[0]@);
        } else {
            proof {
                lemma_joined_push(prefix, items@[i as int]@);
            }
            r.append(" | ");
            proof {
                reveal_strlit(" | ");
            }
            r.append(items[i].as_str());
            assert(r@ =~= joined(prefix) + separator() + items@[i as int]@);
        }
        i += 1;
    }
    assert(string_views(items@).take(items@.len() as int) =~= string_views(items@));
    r
}


proof fn lemma_first_separator_shift(s: Seq<char>, k: int, j: int)
    requires
        0 <= k <= s.len(),
        0 <= j <= s.len() - k,
    ensures
        first_separator_from(s, k + j) == (match first_separator_from(s.subrange(k, s.len() as int), j) {
            Some(i) => Some(i + k),
            None => None::<int>,
        }),
    decreases s.len() - k - j,
{
    let t = s.subrange(k, s.len() as int);
    if j + 3 <= t.len() {
        assert(t.subrange(j, j + 3) =~= s.subrange(k + j, k + j + 3));
        if !occurs_at(t, separator(), j) {
            lemma_first_separator_shift(s, k, j + 1);
        }
    }
}

proof fn lemma_split_shift(s: Seq<char>, k: int, j: int)
    requires
        0 <= k <= s.len(),
        0 <= j <= s.len() - k,
    ensures
        split_from(s, k + j) == split_from(s.subrange(k, s.len() as int), j),
    decreases s.len() - k - j,
{
    let t = s.subrange(k, s.len() as int);
    lemma_first_separator_shift(s, k, j);
    lemma_first_separator(t, j);
    match first_separator_from(t, j) {
        None => {
            assert(t.subrange(j, t.len() as int) =~= s.subrange(k + j, s.len() as int));
        },
        Some(i) => {
            assert(t.subrange(j, i) =~= s.subrange(k + j, k + i));
            lemma_split_shift(s, k, i + 3);
        },
    }
}

/// The text has no `|`.
pub open spec fn has_no_bar(d: Seq<char>) -> bool {
    forall|k: int| 0 <= k < d.len() ==> d[k] != '|'
}

proof fn lemma_no_separator(s: Seq<char>, i: int, p: int)
    requires
        0 <= i <= p,
        forall|m: int| i <= m < p ==> !occurs_at(s, separator(), m),
        p + 3 > s.len() || occurs_at(s, separator(), p),
    ensures
        first_separator_from(s, i) == (if p + 3 <= s.len() { Some(p) } else { None::<int> }),
    decreases p - i,
{
    if i < p {
        if i + 3 <= s.len() {
            lemma_no_separator(s, i + 1, p);
        } else {
            assert(p + 3 > s.len());
        }
    }
}

proof fn lemma_bar_free_has_no_separator(d: Seq<char>, m: int)
    requires
        has_no_bar(d),
        0 <= m,
        m + 1 < d.len(),
    ensures
        !occurs_at(d, separator(), m),
{
    if occurs_at(d, separator(), m) {
        assert(d.subrange(m, m + 3)[1] == separator()[1]);
    }
}

proof fn lemma_split_joined(items: Seq<Seq<char>>)
    requires
        items.len() > 0,
        forall|k: int| 0 <= k < items.len() ==> has_no_bar(#[trigger] items[k]),
    ensures
        split_from(joined(items), 0) == items,
    decreases items.len(),
{
    let s = joined(items);
    let d0 = items[0];
    if items.len() == 1 {
        assert forall|m: int| 0 <= m < d0.len() implies !occurs_at(d0, separator(), m) by {
            if m + 1 < d0.len() {
                lemma_bar_free_has_no_separator(d0, m);
            }
        }
        lemma_no_separator(d0, 0, d0.len() as int);
        assert(d0.subrange(0, d0.len() as int) =~= d0);
        assert(seq![d0] =~= items);
    } else {
        let rest = items.drop_first();
        let p = d0.len() as int;
        assert(s == d0 + separator() + joined(rest));
        assert forall|m: int| 0 <= m < p implies !occurs_at(s, separator(), m) by {
            if occurs_at(s, separator(), m) {
                assert(s.subrange(m, m + 3)[1] == '|');
                assert(s[m + 1] == '|');
                if m + 1 < p {
                    assert(s[m + 1] == d0[m + 1]);
                } else {
                    assert(s[m + 1] == separator()[0]);
                }
            }
        }
        assert(s.subrange(p, p + 3) =~= separator());
        lemma_no_separator(s, 0, p);
        assert(s.subrange(0, p) =~= d0);
        assert forall|k: int| 0 <= k < rest.len() implies has_no_bar(#[trigger] rest[k]) by {
            assert(rest[k] == items[k + 1]);
        }
        lemma_split_joined(rest);
        assert(s.subrange(p + 3, s.len() as int) =~= joined(rest));
        lemma_split_shift(s, p + 3, 0);
        assert(split_from(s, 0) == seq![d0] + split_from(s, p + 3));
        assert(seq![d0] + rest =~= items);
    }
}

proof fn lemma_kept_clean(items: Seq<Seq<char>>)
    requires
        forall|k: int| 0 <= k < items.len() ==> (#[trigger] items[k]).len() > 0 && trimmed(items[k]) == items[k],
    ensures
        kept_pieces(items) == items,
    decreases items.len(),
{
    if items.len() > 0 {
        let rest = items.drop_first();
        assert forall|k: int| 0 <= k < rest.len() implies (#[trigger] rest[k]).len() > 0 && trimmed(rest[k]) == rest[k] by {
            assert(rest[k] == items[k + 1]);
        }
        lemma_kept_clean(rest);
        assert(seq![items[0]] + rest =~= items);
    }
}

/// Parsing the text box back gives the delimiter list that was joined into
/// it, for delimiters that are non-empty, carry no surrounding white space
/// and contain no `|`.
pub proof fn lemma_parse_joined_round_trip(items: Seq<Seq<char>>)
    requires
        forall|k: int| 0 <= k < items.len() ==> {
            &&& (#[trigger] items[k]).len() > 0
            &&& trimmed(items[k]) == items[k]
            &&& has_no_bar(items[k])
        },
    ensures
        parsed_delimiters(joined(items)) == items,
{
    if items.len() == 0 {
        let e = Seq::<char>::empty();
        assert(joined(items) == e);
        lemma_no_separator(e, 0, 0);
        assert(e.subrange(0, 0) =~= e);
        assert(split_from(e, 0) == seq![e]);
        crate::text::lemma_trim_bounds(e);
        assert(seq![e].drop_first() =~= Seq::<Seq<char>>::empty());
        assert(trimmed(e).len() == 0);
        assert(kept_pieces(Seq::<Seq<char>>::empty()) == Seq::<Seq<char>>::empty());
        assert(kept_pieces(seq![e]) == kept_pieces(seq![e].drop_first()));
        assert(items =~= Seq::<Seq<char>>::empty());
    } else {
        lemma_split_joined(items);
        lemma_kept_clean(items);
    }
}

} // verus!
