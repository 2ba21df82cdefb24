//! Bookkeeping that lets asynchronous library reload results be told
//! apart from results of reloads that were superseded.

use vstd::prelude::*;
use crate::text::same_text;

verus! {

/// A reload result is stale when it was tagged with another generation or
/// another provider than the reload that is currently active.
pub open spec fn is_stale(
    current_generation: u64,
    current_provider_id: Seq<char>,
    result_generation: u64,
    result_provider_id: Seq<char>,
) -> bool {
    result_generation != current_generation || result_provider_id != current_provider_id
}

/// Pure staleness check for an async library reload result: `true` when
/// the result's `(generation, provider_id)` no longer matches the active
/// reload, so the result must be discarded.
pub fn reload_result_is_stale(
    current_generation: u64,
    current_provider_id: &str,
    result_generation: u64,
    result_provider_id: &str,
) -> (stale: bool)
    ensures
        stale == is_stale(current_generation, current_provider_id@, result_generation, result_provider_id@),
{
    result_generation != current_generation || !same_text(result_provider_id, current_provider_id)
}


/// The reload generation counter: bumped at the start of every reload or
/// scan, so results tagged with an older generation can be recognised.
pub struct ReloadTracker {
    pub generation: u64,
}

/// What to do when a library scan reports back.
#[derive(Clone, Copy, Debug, PartialEq, Eq)]
pub enum ScanOutcome {
    /// The result belongs to a superseded scan: change nothing.
    Ignore,
    /// The scan is over; reload the library when `reload` is set.
    Finished { reload: bool },
}

impl ReloadTracker {
    /// A tracker before any reload.
    pub fn new() -> (r: ReloadTracker)
        ensures
            r.generation == 0,
    {
        ReloadTracker { generation: 0 }
    }

    /// Bumps the generation counter, invalidating any in-flight result
    /// tagged with an older generation, and returns the new generation.
    pub fn begin_reload_generation(&mut self) -> (g: u64)
        requires
            old(self).generation < u64::MAX,
        ensures
            final(self).generation == old(self).generation + 1,
            g == final(self).generation,
    {
        self.generation = self.generation + 1;
        self.generation
    }

    /// Whether a result tagged with `generation` and `provider_id` is stale
    /// while `active_id` is the active provider.
    pub fn is_stale_reload(&self, active_id: &str, generation: u64, provider_id: &str) -> (stale: bool)
        ensures
            stale == is_stale(self.generation, active_id@, generation, provider_id@),
    {
        reload_result_is_stale(self.generation, active_id, generation, provider_id)
    }

    /// What to do when a scan tagged with `generation`/`provider_id`
    /// completes having updated `count` tracks: ignore it when stale;
    /// otherwise finish, reloading when tracks changed or the library is
    /// still empty.
    pub fn on_scan_complete(&self, active_id: &str, generation: u64, provider_id: &str, count: usize, library_empty: bool) -> (r: ScanOutcome)
        ensures
            is_stale(self.generation, active_id@, generation, provider_id@) ==> r == ScanOutcome::Ignore,
            !is_stale(self.generation, active_id@, generation, provider_id@)
                ==> r == (ScanOutcome::Finished { reload: count > 0 || library_empty }),
    {
        if self.is_stale_reload(active_id, generation, provider_id) {
            ScanOutcome::Ignore
        } else {
            ScanOutcome::Finished { reload: count > 0 || library_empty }
        }
    }
}

/// Once a new reload has begun, every result of an earlier reload is
/// stale, whatever provider it names; a result is accepted only when it
/// carries the current generation and the active provider's id.
pub proof fn lemma_superseded_results_are_stale(
    earlier: u64,
    current: u64,
    active_id: Seq<char>,
    result_generation: u64,
    result_provider_id: Seq<char>,
)
    requires
        result_generation <= earlier < current,
    ensures
        is_stale(current, active_id, result_generation, result_provider_id),
        !is_stale(current, active_id, current, active_id),
{
}

} // verus!
