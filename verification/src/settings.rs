//! Settings-drawer bookkeeping: the music folders the local provider
//! scans, and when a new configuration changes how artist tags split.

use vstd::prelude::*;
use crate::library::string_views;
use crate::text::same_text;

verus! {

broadcast use vstd::string::group_string_axioms;

/// The name of what `==` on `std::path::Path` gives for two path texts:
/// paths compare by their components, so texts that differ can name the
/// same path.
pub uninterp spec fn paths_equal(a: Seq<char>, b: Seq<char>) -> bool;

/// `Path::new(a) == Path::new(b)`; its result is a function of the two
/// texts alone.
#[verifier::external_body]
fn same_path(a: &str, b: &str) -> (r: bool)
    ensures
        r == paths_equal(a@, b@),
{
    std::path::Path::new(a) == std::path::Path::new(b)
}

/// Adds a picked folder to the scanned folders unless a folder with the
/// same path is already there; tells whether it added it (a rescan
/// follows then).
pub fn add_music_dir(dirs: &mut Vec<String>, dir: String) -> (added: bool)
    ensures
        added == !exists|k: int| 0 <= k < old(dirs)@.len() && paths_equal(#[trigger] old(dirs)@[k]@, dir@),
        added ==> final(dirs)@ == old(dirs)@.push(dir),
        !added ==> final(dirs)@ == old(dirs)@,
{
    let mut i: usize = 0;
    while i < dirs.len()
        invariant
            i <= dirs@.len(),
            forall|k: int| 0 <= k < i ==> !paths_equal(#[trigger] dirs@[k]@, dir@),
        decreases dirs@.len() - i,
    {
        if same_path(dirs[i].as_str(), dir.as_str()) {
            return false;
        }
        i += 1;
    }
    dirs.push(dir);
    true
}

/// Whether two delimiter lists hold the same texts in the same order.
fn same_delimiters(a: &Vec<String>, b: &Vec<String>) -> (r: bool)
    ensures
        r == (string_views(a@) == string_views(b@)),
{
    if a.len() != b.len() {
        proof {
            assert(string_views(a@).len() != string_views(b@).len());
        }
        return false;
    }
    let mut i: usize = 0;
    while i < a.len()
        invariant
            i <= a@.len(),
            a@.len() == b@.len(),
            forall|k: int| 0 <= k < i ==> #[trigger] a@[k]@ == b@[k]@,
        decreases a@.len() - i,
    {
        if !same_text(a[i].as_str(), b[i].as_str()) {
            proof {
                assert(string_views(a@)[i as int] != string_views(b@)[i as int]);
            }
            return false;
        }
        i += 1;
    }
    proof {
        assert(string_views(a@) =~= string_views(b@));
    }
    true
}

/// A new configuration changes how artist tags split when it turns
/// splitting on or off or brings other delimiters; the artists are then
/// rebuilt.
pub fn artist_split_changed(old_split: bool, old_delimiters: &Vec<String>, new_split: bool, new_delimiters: &Vec<String>) -> (r: bool)
    ensures
        r == (old_split != new_split || string_views(old_delimiters@) != string_views(new_delimiters@)),
{
    old_split != new_split || !same_delimiters(old_delimiters, new_delimiters)
}

} // verus!
