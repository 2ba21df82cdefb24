//! Provider bookkeeping: the provider selector, server-list edits in the
//! settings drawer, connection status texts and port fields.

use vstd::prelude::*;
use crate::text::{chars_of, same_text};

verus! {

broadcast use vstd::string::group_string_axioms;

/// The first position in `ids` that equals `id`.
pub open spec fn first_position(ids: Seq<Seq<char>>, id: Seq<char>) -> Option<int>
    decreases ids.len(),
{
    if ids.len() == 0 {
        None
    } else {
        match first_position(ids.drop_last(), id) {
            Some(i) => Some(i),
            None => if ids.last() == id { Some(ids.len() - 1) } else { None },
        }
    }
}

/// The ids of the (id, display name) entries of the provider selector.
pub open spec fn entry_ids(list: Seq<(String, String)>) -> Seq<Seq<char>> {
    list.map_values(|e: (String, String)| e.0@)
}

/// The index of the active provider in the selector: the first entry
/// whose id is the active id.
pub fn active_provider_index(list: &Vec<(String, String)>, active_id: &str) -> (r: Option<usize>)
    ensures
        r matches Some(i) ==> i < list@.len() && first_position(entry_ids(list@), active_id@) == Some(i as int),
        r is None ==> first_position(entry_ids(list@), active_id@) is None,
{
    let ghost ids = entry_ids(list@);
    let mut i: usize = 0;
    while i < list.len()
        invariant
            i <= list.len(),
            ids == entry_ids(list@),
            first_position(ids.take(i as int), active_id@) is None,
        decreases list.len() - i,
    {
        let ghost prefix = ids.take(i as int + 1);
        assert(prefix.drop_last() =~= ids.take(i as int));
        assert(prefix.last() == list@[i as int].0@);
        if same_text(list[i].0.as_str(), active_id) {
            assert(first_position(ids, active_id@) == first_position(ids.take(i as int + 1), active_id@)) by {
                lemma_first_position_prefix(ids, active_id@, i as int + 1);
            }
            return Some(i);
        }
        i += 1;
    }
    assert(ids.take(list@.len() as int) =~= ids);
    None
}

proof fn lemma_first_position_prefix(ids: Seq<Seq<char>>, id: Seq<char>, k: int)
    requires
        0 <= k <= ids.len(),
        first_position(ids.take(k), id) is Some,
    ensures
        first_position(ids, id) == first_position(ids.take(k), id),
    decreases ids.len() - k,
{
    if k < ids.len() {
        let longer = ids.take(k + 1);
        assert(longer.drop_last() =~= ids.take(k));
        lemma_first_position_prefix(ids, id, k + 1);
    } else {
        assert(ids.take(k) =~= ids);
    }
}

/// Saves an edited entry at position `i`: it replaces the entry there, or
/// is appended when the list is shorter.
pub fn upsert_at<T>(list: &mut Vec<T>, i: usize, entry: T)
    ensures
        i < old(list)@.len() ==> final(list)@ == old(list)@.update(i as int, entry),
        i >= old(list)@.len() ==> final(list)@ == old(list)@.push(entry),
{
    if i < list.len() {
        list.set(i, entry);
    } else {
        list.push(entry);
    }
}

/// Removes the entry at position `i` when there is one; tells whether it did.
pub fn remove_if_present<T>(list: &mut Vec<T>, i: usize) -> (removed: bool)
    ensures
        removed == (i < old(list)@.len()),
        removed ==> final(list)@ == old(list)@.remove(i as int),
        !removed ==> final(list)@ == old(list)@,
{
    if i < list.len() {
        let _ = list.remove(i);
        true
    } else {
        false
    }
}

/// The name a provider is shown by: its configured name, or its id when
/// the name is empty.
pub fn provider_display_name(name: &String, id: &String) -> (r: String)
    ensures
        r@ == if name@.len() > 0 { name@ } else { id@ },
{
    if name.as_str().is_empty() { id.clone() } else { name.clone() }
}

/// Whether the status recorded at `i` is already `status`.
pub open spec fn status_is(statuses: Seq<Option<String>>, i: int, status: Seq<char>) -> bool {
    0 <= i < statuses.len() && match statuses[i] {
        Some(s) => s@ == status,
        None => false,
    }
}

/// Records a failed connection attempt's status text for the server at
/// `index` (when there is one), and tells whether to raise a notification:
/// only on the change into this failure, not when the same failure is
/// reported again on a retry.
pub fn record_connection_failure(statuses: &mut Vec<Option<String>>, index: Option<usize>, status: String) -> (notify: bool)
    ensures
        index is None ==> final(statuses)@ == old(statuses)@ && !notify,
        index matches Some(i) ==> {
            &&& i < old(statuses)@.len() ==> final(statuses)@ == old(statuses)@.update(i as int, Some(status))
            &&& i >= old(statuses)@.len() ==> final(statuses)@ == old(statuses)@
            &&& notify == !status_is(old(statuses)@, i as int, status@)
        },
{
    match index {
        None => false,
        Some(i) => {
            let already_failed = if i < statuses.len() {
                match &statuses[i] {
                    Some(s) => same_text(s.as_str(), status.as_str()),
                    None => false,
                }
            } else {
                false
            };
            if i < statuses.len() {
                statuses.set(i, Some(status));
            }
            !already_failed
        },
    }
}

/// Once a failure status has been recorded, reporting the same failure
/// again raises no notification.
pub proof fn lemma_repeated_failure_is_quiet(statuses: Seq<Option<String>>, i: int, status: String)
    requires
        0 <= i < statuses.len(),
    ensures
        status_is(statuses.update(i, Some(status)), i, status@),
{
}

/// The server cards of the settings drawer for one kind of server: the
/// edit state of each card and, beside it, the connection status text it
/// shows. The two lists stay the same length.
pub struct ServerCards<E> {
    pub edits: Vec<E>,
    pub statuses: Vec<Option<String>>,
}

impl<E> ServerCards<E> {
    /// Each card has exactly one status.
    pub open spec fn wf(&self) -> bool {
        self.edits@.len() == self.statuses@.len()
    }

    /// The cards for the configured servers, freshly (re)built: one card
    /// per server, none with a status yet.
    pub fn from_edits(edits: Vec<E>) -> (r: ServerCards<E>)
        ensures
            r.wf(),
            r.edits@ == edits@,
            forall|k: int| 0 <= k < r.statuses@.len() ==> #[trigger] r.statuses@[k] is None,
    {
        let mut statuses: Vec<Option<String>> = Vec::new();
        let mut i: usize = 0;
        while i < edits.len()
            invariant
                i <= edits@.len(),
                statuses@.len() == i,
                forall|k: int| 0 <= k < i ==> #[trigger] statuses@[k] is None,
            decreases edits@.len() - i,
        {
            statuses.push(None);
            i += 1;
        }
        ServerCards { edits, statuses }
    }

    /// Adds a card for a new server, with no status yet.
    pub fn add(&mut self, edit: E)
        requires
            old(self).wf(),
        ensures
            final(self).wf(),
            final(self).edits@ == old(self).edits@.push(edit),
            final(self).statuses@ == old(self).statuses@.push(None),
    {
        self.edits.push(edit);
        self.statuses.push(None);
    }

    /// Removes the card at `i` with its status, when there is one; tells
    /// whether it did.
    pub fn remove(&mut self, i: usize) -> (removed: bool)
        requires
            old(self).wf(),
        ensures
            final(self).wf(),
            removed == (i < old(self).edits@.len()),
            removed ==> final(self).edits@ == old(self).edits@.remove(i as int)
                && final(self).statuses@ == old(self).statuses@.remove(i as int),
            !removed ==> final(self).edits@ == old(self).edits@ && final(self).statuses@ == old(self).statuses@,
    {
        if i < self.edits.len() {
            let _ = self.edits.remove(i);
            let _ = self.statuses.remove(i);
            true
        } else {
            false
        }
    }

    /// Replaces the edit state of card `i` after a field was edited; an
    /// index past the cards changes nothing.
    pub fn edit(&mut self, i: usize, edit: E)
        requires
            old(self).wf(),
        ensures
            final(self).wf(),
            i < old(self).edits@.len() ==> final(self).edits@ == old(self).edits@.update(i as int, edit),
            i >= old(self).edits@.len() ==> final(self).edits@ == old(self).edits@,
            final(self).statuses@ == old(self).statuses@,
    {
        if i < self.edits.len() {
            self.edits.set(i, edit);
        }
    }

    /// Shows `status` on card `i` (a connection test's outcome); an index
    /// past the cards changes nothing.
    pub fn set_status(&mut self, i: usize, status: String)
        requires
            old(self).wf(),
        ensures
            final(self).wf(),
            final(self).edits@ == old(self).edits@,
            i < old(self).statuses@.len() ==> final(self).statuses@ == old(self).statuses@.update(i as int, Some(status)),
            i >= old(self).statuses@.len() ==> final(self).statuses@ == old(self).statuses@,
    {
        if i < self.statuses.len() {
            self.statuses.set(i, Some(status));
        }
    }

    /// Records a failed connection on card `index` (see
    /// `record_connection_failure`) and tells whether to notify.
    pub fn record_failure(&mut self, index: Option<usize>, status: String) -> (notify: bool)
        requires
            old(self).wf(),
        ensures
            final(self).wf(),
            final(self).edits@ == old(self).edits@,
            index is None ==> final(self).statuses@ == old(self).statuses@ && !notify,
            index matches Some(i) ==> {
                &&& i < old(self).statuses@.len() ==> final(self).statuses@ == old(self).statuses@.update(i as int, Some(status))
                &&& i >= old(self).statuses@.len() ==> final(self).statuses@ == old(self).statuses@
                &&& notify == !status_is(old(self).statuses@, i as int, status@)
            },
    {
        record_connection_failure(&mut self.statuses, index, status)
    }
}

/// A decimal digit.
pub open spec fn is_digit(c: char) -> bool {
    48 <= (c as u32) <= 57
}

/// The value of a run of decimal digits.
pub open spec fn digits_value(s: Seq<char>) -> int
    decreases s.len(),
{
    if s.len() == 0 {
        0
    } else {
        digits_value(s.drop_last()) * 10 + ((s.last() as u32) - 48)
    }
}

/// The digits of a number text: without one leading `+`.
pub open spec fn unsigned_digits(s: Seq<char>) -> Seq<char> {
    if s.len() > 0 && s[0] == '+' { s.drop_first() } else { s }
}

/// What `str::parse::<u16>` gives: the value of a non-empty run of
/// decimal digits, with an optional leading `+`, when it fits in 16 bits.
pub open spec fn parsed_u16(s: Seq<char>) -> Option<u16> {
    let d = unsigned_digits(s);
    if d.len() > 0 && (forall|k: int| 0 <= k < d.len() ==> is_digit(#[trigger] d[k])) && digits_value(d) <= 65535 {
        Some(digits_value(d) as u16)
    } else {
        None
    }
}

proof fn lemma_digits_value_nonneg(s: Seq<char>)
    requires
        forall|k: int| 0 <= k < s.len() ==> is_digit(#[trigger] s[k]),
    ensures
        digits_value(s) >= 0,
    decreases s.len(),
{
    if s.len() > 0 {
        assert forall|k: int| 0 <= k < s.len() - 1 implies is_digit(#[trigger] s.drop_last()[k]) by {
            assert(s.drop_last()[k] == s[k]);
        }
        lemma_digits_value_nonneg(s.drop_last());
        assert(is_digit(s[s.len() - 1]));
    }
}

/// Parses a port number as `str::parse::<u16>` does.
pub fn parse_u16(text: &str) -> (r: Option<u16>)
    ensures
        r == parsed_u16(text@),
{
    let chars = chars_of(text);
    let start: usize = if chars.len() > 0 && chars[0] == '+' { 1 } else { 0 };
    let ghost d = unsigned_digits(text@);
    assert(d =~= chars@.subrange(start as int, chars@.len() as int));
    if start >= chars.len() {
        return None;
    }
    let mut value: u32 = 0;
    let mut i = start;
    while i < chars.len()
        invariant
            start <= i <= chars@.len(),
            chars@ == text@,
            d == chars@.subrange(start as int, chars@.len() as int),
            d == unsigned_digits(text@),
            forall|k: int| 0 <= k < i - start ==> is_digit(#[trigger] d[k]),
            value as int == if digits_value(d.take(i - start)) > 65536 { 65536 } else { digits_value(d.take(i - start)) },
        decreases chars.len() - i,
    {
        let c = chars[i];
        let u = c as u32;
        if u < 48 || u > 57 {
            assert(d[i - start] == c);
            assert(!is_digit(d[i - start]));
            return None;
        }
        proof {
            let k = i - start;
            assert(d.take(k + 1).drop_last() =~= d.take(k));
            assert(d.take(k + 1).last() == c);
            assert forall|m: int| 0 <= m < k implies is_digit(#[trigger] d.take(k)[m]) by {
                assert(d.take(k)[m] == d[m]);
            }
            lemma_digits_value_nonneg(d.take(k));
        }
        let next = value * 10 + (u - 48);
        value = if next > 65536 { 65536 } else { next };
        i += 1;
    }
    assert(d.take(d.len() as int) =~= d);
    if value > 65535 {
        None
    } else {
        Some(value as u16)
    }
}

/// The port typed into a server's settings, or MPD's default port 6600
/// when it is not a valid port number.
pub fn port_or_default(text: &str) -> (r: u16)
    ensures
        r == match parsed_u16(text@) {
            Some(p) => p,
            None => 6600u16,
        },
{
    match parse_u16(text) {
        Some(p) => p,
        None => 6600,
    }
}

} // verus!
