//! Equalizer preset bookkeeping apart from the gains themselves: under
//! which name a preset may be saved, and finding presets and AutoEQ
//! profiles by name or path.

use vstd::prelude::*;
use crate::providers::{active_provider_index, entry_ids, first_position};
use crate::text::{same_text, trim_text, trimmed};

verus! {

broadcast use vstd::string::group_string_axioms;

/// What a "save as" request with a given name comes to.
#[derive(Clone, Copy, Debug, PartialEq, Eq, Structural)]
pub enum PresetNameCheck {
    /// The name is blank: nothing is saved.
    Empty,
    /// The name is that of a built-in preset, which cannot be overwritten.
    Builtin,
    /// The preset is saved under this name.
    Accepted,
}

/// A blank name is refused first, then the name of a built-in preset
/// (`builtin` tells whether `name` is one); any other name is accepted.
pub fn save_as_check(name: &str, builtin: bool) -> (r: PresetNameCheck)
    ensures
        trimmed(name@).len() == 0 ==> r == PresetNameCheck::Empty,
        trimmed(name@).len() > 0 && builtin ==> r == PresetNameCheck::Builtin,
        trimmed(name@).len() > 0 && !builtin ==> r == PresetNameCheck::Accepted,
{
    let t = trim_text(name);
    if t.as_str().unicode_len() == 0 {
        PresetNameCheck::Empty
    } else if builtin {
        PresetNameCheck::Builtin
    } else {
        PresetNameCheck::Accepted
    }
}

/// The position of the first preset called `name`.
pub fn find_named(names: &Vec<String>, name: &str) -> (r: Option<usize>)
    ensures
        r matches Some(i) ==> {
            &&& i < names@.len()
            &&& names@[i as int]@ == name@
            &&& forall|k: int| 0 <= k < i ==> #[trigger] names@[k]@ != name@
        },
        r is None ==> forall|k: int| 0 <= k < names@.len() ==> #[trigger] names@[k]@ != name@,
{
    let mut i: usize = 0;
    while i < names.len()
        invariant
            i <= names@.len(),
            forall|k: int| 0 <= k < i ==> #[trigger] names@[k]@ != name@,
        decreases names@.len() - i,
    {
        if same_text(names[i].as_str(), name) {
            return Some(i);
        }
        i += 1;
    }
    None
}

/// The name of the AutoEQ profile stored at `path`, from the index's
/// (path, name) entries: that of the first entry with this path, or
/// nothing when the index has none.
pub fn profile_name(profiles: &Vec<(String, String)>, path: &str) -> (r: String)
    ensures
        first_position(entry_ids(profiles@), path@) matches Some(i) ==> 0 <= i < profiles@.len() && r@ == profiles@[i].1@,
        first_position(entry_ids(profiles@), path@) is None ==> r@.len() == 0,
{
    match active_provider_index(profiles, path) {
        Some(i) => profiles[i].1.clone(),
        None => String::new(),
    }
}

} // verus!
