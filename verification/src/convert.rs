//! Planning the conversion queue: what kind of job a picked file makes and
//! the ids new jobs get.

use vstd::prelude::*;
use crate::episode::{extension_of, path_extension_of};
use crate::text::{ascii_lower, eq_ignore_ascii_case, same_text_ignore_ascii_case};

verus! {

/// What a conversion job does.
#[derive(Clone, Copy, Debug, PartialEq, Eq)]
pub enum JobKind {
    /// Split an album image along its CUE sheet.
    CueSplit,
    /// Convert one file.
    Convert,
}

/// A file whose extension is `cue` (in any ASCII case) is split along the
/// sheet; anything else is converted.
pub open spec fn job_kind_of(path: Seq<char>) -> JobKind {
    match path_extension_of(path) {
        Some(e) => if eq_ignore_ascii_case(e, seq!['c', 'u', 'e']) { JobKind::CueSplit } else { JobKind::Convert },
        None => JobKind::Convert,
    }
}

/// Only a CUE sheet is split: a picked file makes a split job exactly when
/// its extension is the three letters c, u, e (by code point) in either
/// case; a file with any other extension (an `.mkv` video, an audio file)
/// or none is converted.
pub proof fn lemma_only_cue_sheets_split(path: Seq<char>)
    ensures
        job_kind_of(path) == JobKind::CueSplit <==> (path_extension_of(path) matches Some(e) && {
            &&& e.len() == 3
            &&& (e[0] as u32 == 'c' as u32 || e[0] as u32 == 'C' as u32)
            &&& (e[1] as u32 == 'u' as u32 || e[1] as u32 == 'U' as u32)
            &&& (e[2] as u32 == 'e' as u32 || e[2] as u32 == 'E' as u32)
        }),
        job_kind_of(path) == JobKind::Convert <==> !(job_kind_of(path) == JobKind::CueSplit),
{
    match path_extension_of(path) {
        Some(e) => {
            let cue = seq!['c', 'u', 'e'];
            if e.len() == 3 {
                assert(ascii_lower(cue[0]) == 99 && ascii_lower(cue[1]) == 117 && ascii_lower(cue[2]) == 101);
                assert('c' as u32 == 99 && 'C' as u32 == 67 && 'u' as u32 == 117 && 'U' as u32 == 85);
                assert('e' as u32 == 101 && 'E' as u32 == 69);
                if eq_ignore_ascii_case(e, cue) {
                    assert(ascii_lower(e[0]) == 99);
                    assert(ascii_lower(e[1]) == 117);
                    assert(ascii_lower(e[2]) == 101);
                    assert(e[0] as u32 == 99 || e[0] as u32 == 67);
                    assert(e[1] as u32 == 117 || e[1] as u32 == 85);
                    assert(e[2] as u32 == 101 || e[2] as u32 == 69);
                }
                if (e[0] as u32 == 99 || e[0] as u32 == 67) && (e[1] as u32 == 117 || e[1] as u32 == 85)
                    && (e[2] as u32 == 101 || e[2] as u32 == 69) {
                    assert forall|k: int| 0 <= k < e.len() implies ascii_lower(#[trigger] e[k]) == ascii_lower(cue[k]) by {}
                }
            }
        },
        None => {},
    }
}

/// The kind of job a picked file makes.
pub fn job_kind_for(path: &str) -> (k: JobKind)
    ensures
        k == job_kind_of(path@),
{
    match extension_of(path) {
        Some(e) => {
            let is_cue = same_text_ignore_ascii_case(e.as_str(), "cue");
            proof {
                reveal_strlit("cue");
                assert("cue"@ =~= seq!['c', 'u', 'e']);
            }
            if is_cue { JobKind::CueSplit } else { JobKind::Convert }
        },
        None => JobKind::Convert,
    }
}

/// Ids for `count` new jobs, taken in order from the next free id; returns
/// them and the next free id afterwards.
pub fn assign_job_ids(next_id: u64, count: usize) -> (r: (Vec<u64>, u64))
    requires
        next_id + count <= u64::MAX,
    ensures
        r.0@.len() == count,
        forall|k: int| 0 <= k < count ==> r.0@[k] == next_id + k,
        r.1 == next_id + count,
{
    let mut ids: Vec<u64> = Vec::new();
    let mut id = next_id;
    let mut i: usize = 0;
    while i < count
        invariant
            i <= count,
            next_id + count <= u64::MAX,
            id == next_id + i,
            ids@.len() == i,
            forall|k: int| 0 <= k < i ==> ids@[k] == next_id + k,
        decreases count - i,
    {
        ids.push(id);
        id = id + 1;
        i += 1;
    }
    (ids, id)
}

/// Where a conversion job stands.
#[derive(Clone, Copy, Debug, PartialEq, Eq, Structural)]
pub enum JobState {
    /// Waiting for the queue to be started.
    Queued,
    /// Being converted now.
    Running,
    /// Finished with its output written.
    Done,
    /// Stopped by an error.
    Failed,
    /// Stopped on request.
    Cancelled,
}

/// One entry of the conversion queue.
#[derive(Debug)]
pub struct ConvertJob {
    pub id: u64,
    pub path: String,
    pub kind: JobKind,
    pub state: JobState,
}

/// A job still has work ahead of it while it is queued or running.
pub open spec fn is_active(state: JobState) -> bool {
    state == JobState::Queued || state == JobState::Running
}

/// The ids of the queued jobs, in queue order.
pub open spec fn queued_ids(jobs: Seq<ConvertJob>) -> Seq<u64>
    decreases jobs.len(),
{
    if jobs.len() == 0 {
        Seq::empty()
    } else {
        let head = queued_ids(jobs.drop_last());
        if jobs.last().state == JobState::Queued { head.push(jobs.last().id) } else { head }
    }
}

/// The jobs that are still queued or running, in queue order.
pub open spec fn active_jobs(jobs: Seq<ConvertJob>) -> Seq<ConvertJob>
    decreases jobs.len(),
{
    if jobs.len() == 0 {
        Seq::empty()
    } else {
        let head = active_jobs(jobs.drop_last());
        if is_active(jobs.last().state) { head.push(jobs.last()) } else { head }
    }
}

/// The first position in the queue of the job with `id`.
pub open spec fn job_position(jobs: Seq<ConvertJob>, id: u64) -> Option<int>
    decreases jobs.len(),
{
    if jobs.len() == 0 {
        None
    } else {
        match job_position(jobs.drop_last(), id) {
            Some(i) => Some(i),
            None => if jobs.last().id == id { Some(jobs.len() - 1) } else { None },
        }
    }
}

/// Every job's id is below `next_id`, and no two jobs share an id.
pub open spec fn ids_fresh(jobs: Seq<ConvertJob>, next_id: u64) -> bool {
    &&& forall|k: int| 0 <= k < jobs.len() ==> #[trigger] jobs[k].id < next_id
    &&& forall|a: int, b: int| 0 <= a < b < jobs.len() ==> #[trigger] jobs[a].id != #[trigger] jobs[b].id
}

/// Appends one queued job per picked file, numbered from `next_id` on in
/// the order the files were picked; a `.cue` file makes a split job.
pub fn enqueue_files(jobs: &mut Vec<ConvertJob>, next_id: &mut u64, paths: Vec<String>)
    requires
        *old(next_id) + paths@.len() <= u64::MAX,
    ensures
        *final(next_id) == *old(next_id) + paths@.len(),
        final(jobs)@.len() == old(jobs)@.len() + paths@.len(),
        final(jobs)@.take(old(jobs)@.len() as int) == old(jobs)@,
        forall|k: int| 0 <= k < paths@.len() ==> {
            let j = #[trigger] final(jobs)@[old(jobs)@.len() + k];
            &&& j.id == *old(next_id) + k
            &&& j.path@ == paths@[k]@
            &&& j.kind == job_kind_of(paths@[k]@)
            &&& j.state == JobState::Queued
        },
        ids_fresh(old(jobs)@, *old(next_id)) ==> ids_fresh(final(jobs)@, *final(next_id)),
{
    let ghost start = jobs@;
    let ghost first = *next_id;
    let mut i: usize = 0;
    while i < paths.len()
        invariant
            i <= paths@.len(),
            first + paths@.len() <= u64::MAX,
            *next_id == first + i,
            jobs@.len() == start.len() + i,
            jobs@.take(start.len() as int) == start,
            forall|k: int| 0 <= k < i ==> {
                let j = #[trigger] jobs@[start.len() + k];
                &&& j.id == first + k
                &&& j.path@ == paths@[k]@
                &&& j.kind == job_kind_of(paths@[k]@)
                &&& j.state == JobState::Queued
            },
        decreases paths@.len() - i,
    {
        let path = paths[i].clone();
        let kind = job_kind_for(path.as_str());
        let id = *next_id;
        let ghost before = jobs@;
        jobs.push(ConvertJob { id, path, kind, state: JobState::Queued });
        proof {
            assert(jobs@.take(start.len() as int) =~= before.take(start.len() as int));
            assert forall|k: int| 0 <= k < i + 1 implies {
                let j = #[trigger] jobs@[start.len() + k];
                &&& j.id == first + k
                &&& j.path@ == paths@[k]@
                &&& j.kind == job_kind_of(paths@[k]@)
                &&& j.state == JobState::Queued
            } by {
                if k < i {
                    assert(jobs@[start.len() + k] == before[start.len() + k]);
                }
            }
        }
        *next_id = id + 1;
        i += 1;
    }
    proof {
        if ids_fresh(start, first) {
            let fin = jobs@;
            assert forall|k: int| 0 <= k < fin.len() implies #[trigger] fin[k].id < *next_id by {
                if k < start.len() {
                    assert(fin.take(start.len() as int)[k] == fin[k]);
                } else {
                    assert(fin[start.len() + (k - start.len())].id == first + (k - start.len()));
                }
            }
            assert forall|a: int, b: int| 0 <= a < b < fin.len() implies #[trigger] fin[a].id != #[trigger] fin[b].id by {
                if b < start.len() {
                    assert(fin.take(start.len() as int)[a] == fin[a]);
                    assert(fin.take(start.len() as int)[b] == fin[b]);
                    assert(start[a].id != start[b].id);
                } else if a < start.len() {
                    assert(fin.take(start.len() as int)[a] == fin[a]);
                    assert(start[a].id < first);
                    assert(fin[start.len() + (b - start.len())].id == first + (b - start.len()));
                } else {
                    assert(fin[start.len() + (a - start.len())].id == first + (a - start.len()));
                    assert(fin[start.len() + (b - start.len())].id == first + (b - start.len()));
                }
            }
        }
    }
}

/// Starts the queue: every queued job becomes running, the others keep
/// their state; returns the ids of the jobs it started, in queue order.
pub fn start_queued(jobs: &mut Vec<ConvertJob>) -> (started: Vec<u64>)
    ensures
        final(jobs)@.len() == old(jobs)@.len(),
        forall|k: int| 0 <= k < old(jobs)@.len() ==> {
            let j = #[trigger] final(jobs)@[k];
            &&& j.id == old(jobs)@[k].id
            &&& j.path == old(jobs)@[k].path
            &&& j.kind == old(jobs)@[k].kind
            &&& j.state == (if old(jobs)@[k].state == JobState::Queued { JobState::Running } else { old(jobs)@[k].state })
        },
        started@ == queued_ids(old(jobs)@),
        forall|n: u64| ids_fresh(old(jobs)@, n) ==> #[trigger] ids_fresh(final(jobs)@, n),
{
    let ghost start = jobs@;
    let mut started: Vec<u64> = Vec::new();
    let mut i: usize = 0;
    while i < jobs.len()
        invariant
            i <= jobs@.len(),
            jobs@.len() == start.len(),
            forall|k: int| i <= k < start.len() ==> jobs@[k] == start[k],
            forall|k: int| 0 <= k < i ==> {
                let j = #[trigger] jobs@[k];
                &&& j.id == start[k].id
                &&& j.path == start[k].path
                &&& j.kind == start[k].kind
                &&& j.state == (if start[k].state == JobState::Queued { JobState::Running } else { start[k].state })
            },
            started@ == queued_ids(start.take(i as int)),
        decreases jobs@.len() - i,
    {
        proof {
            assert(start.take(i as int + 1).drop_last() =~= start.take(i as int));
        }
        if jobs[i].state == JobState::Queued {
            let job = ConvertJob {
                id: jobs[i].id,
                path: jobs[i].path.clone(),
                kind: jobs[i].kind,
                state: JobState::Running,
            };
            started.push(job.id);
            let ghost before = jobs@;
            jobs.set(i, job);
            proof {
                assert forall|k: int| i < k < start.len() implies jobs@[k] == start[k] by {
                    assert(jobs@[k] == before[k]);
                }
                assert forall|k: int| 0 <= k < i implies jobs@[k] == before[k] by {}
            }
        }
        i += 1;
    }
    proof {
        assert(start.take(start.len() as int) =~= start);
        lemma_same_ids_fresh(start, jobs@);
    }
    started
}

/// Records how the job with `id` ended: the first job with that id takes
/// the new state; the queue is otherwise unchanged.
pub fn finish_job(jobs: &mut Vec<ConvertJob>, id: u64, state: JobState)
    ensures
        final(jobs)@.len() == old(jobs)@.len(),
        job_position(old(jobs)@, id) is None ==> final(jobs)@ == old(jobs)@,
        job_position(old(jobs)@, id) matches Some(p) ==> {
            &&& forall|k: int| 0 <= k < old(jobs)@.len() && k != p ==> #[trigger] final(jobs)@[k] == old(jobs)@[k]
            &&& final(jobs)@[p].id == old(jobs)@[p].id
            &&& final(jobs)@[p].path == old(jobs)@[p].path
            &&& final(jobs)@[p].kind == old(jobs)@[p].kind
            &&& final(jobs)@[p].state == state
        },
        forall|n: u64| ids_fresh(old(jobs)@, n) ==> #[trigger] ids_fresh(final(jobs)@, n),
{
    let ghost start = jobs@;
    let mut i: usize = 0;
    while i < jobs.len()
        invariant
            i <= jobs@.len(),
            jobs@ == start,
            start == old(jobs)@,
            job_position(start.take(i as int), id) is None,
        decreases jobs@.len() - i,
    {
        proof {
            assert(start.take(i as int + 1).drop_last() =~= start.take(i as int));
        }
        if jobs[i].id == id {
            proof {
                lemma_job_position_prefix(start, id, i as int + 1);
            }
            let job = ConvertJob {
                id: jobs[i].id,
                path: jobs[i].path.clone(),
                kind: jobs[i].kind,
                state,
            };
            jobs.set(i, job);
            proof {
                lemma_same_ids_fresh(start, jobs@);
            }
            return;
        }
        i += 1;
    }
    proof {
        assert(start.take(start.len() as int) =~= start);
    }
}

proof fn lemma_job_position_prefix(jobs: Seq<ConvertJob>, id: u64, k: int)
    requires
        0 <= k <= jobs.len(),
        job_position(jobs.take(k), id) is Some,
    ensures
        job_position(jobs, id) == job_position(jobs.take(k), id),
    decreases jobs.len() - k,
{
    if k < jobs.len() {
        assert(jobs.take(k + 1).drop_last() =~= jobs.take(k));
        lemma_job_position_prefix(jobs, id, k + 1);
    } else {
        assert(jobs.take(k) =~= jobs);
    }
}

/// Clears the finished jobs: keeps the queued and running ones, in order.
pub fn clear_finished(jobs: &mut Vec<ConvertJob>)
    ensures
        final(jobs)@ == active_jobs(old(jobs)@),
        forall|n: u64| ids_fresh(old(jobs)@, n) ==> #[trigger] ids_fresh(final(jobs)@, n),
{
    let ghost start = jobs@;
    let mut kept: Vec<ConvertJob> = Vec::new();
    let mut i: usize = 0;
    while i < jobs.len()
        invariant
            i <= jobs@.len(),
            jobs@ == start,
            kept@ == active_jobs(start.take(i as int)),
        decreases jobs@.len() - i,
    {
        proof {
            assert(start.take(i as int + 1).drop_last() =~= start.take(i as int));
        }
        let state = jobs[i].state;
        if state == JobState::Queued || state == JobState::Running {
            kept.push(ConvertJob {
                id: jobs[i].id,
                path: jobs[i].path.clone(),
                kind: jobs[i].kind,
                state,
            });
        }
        i += 1;
    }
    proof {
        assert(start.take(start.len() as int) =~= start);
        assert forall|n: u64| ids_fresh(start, n) implies #[trigger] ids_fresh(active_jobs(start), n) by {
            lemma_active_ids_fresh(start, n);
        }
    }
    *jobs = kept;
}

/// Jobs with the same ids, position by position, are as fresh as before.
proof fn lemma_same_ids_fresh(before: Seq<ConvertJob>, after: Seq<ConvertJob>)
    requires
        after.len() == before.len(),
        forall|k: int| 0 <= k < before.len() ==> #[trigger] after[k].id == before[k].id,
    ensures
        forall|n: u64| ids_fresh(before, n) ==> #[trigger] ids_fresh(after, n),
{
    assert forall|n: u64| ids_fresh(before, n) implies #[trigger] ids_fresh(after, n) by {
        assert forall|k: int| 0 <= k < after.len() implies #[trigger] after[k].id < n by {
            assert(before[k].id < n);
        }
        assert forall|a: int, b: int| 0 <= a < b < after.len() implies #[trigger] after[a].id != #[trigger] after[b].id by {
            assert(before[a].id != before[b].id);
        }
    }
}

/// `pos` lists, in increasing order, the positions in `jobs` that the
/// entries of `kept` come from.
spec fn drawn_from(jobs: Seq<ConvertJob>, kept: Seq<ConvertJob>, pos: Seq<int>) -> bool {
    &&& pos.len() == kept.len()
    &&& forall|k: int| 0 <= k < pos.len() ==> 0 <= #[trigger] pos[k] < jobs.len() && kept[k] == jobs[pos[k]]
    &&& forall|a: int, b: int| 0 <= a < b < pos.len() ==> #[trigger] pos[a] < #[trigger] pos[b]
}

/// Every kept job comes from the queue, and a later kept job comes from
/// a later position.
proof fn lemma_active_from(jobs: Seq<ConvertJob>)
    ensures
        exists|pos: Seq<int>| #[trigger] drawn_from(jobs, active_jobs(jobs), pos),
    decreases jobs.len(),
{
    if jobs.len() == 0 {
        let pos: Seq<int> = Seq::empty();
        assert(drawn_from(jobs, active_jobs(jobs), pos));
    } else {
        let rest = jobs.drop_last();
        lemma_active_from(rest);
        let p = choose|pos: Seq<int>| #[trigger] drawn_from(rest, active_jobs(rest), pos);
        if is_active(jobs.last().state) {
            let q = p.push(jobs.len() - 1);
            assert forall|k: int| 0 <= k < q.len() implies 0 <= #[trigger] q[k] < jobs.len() && active_jobs(jobs)[k] == jobs[q[k]] by {
                if k < p.len() {
                    assert(q[k] == p[k]);
                    assert(rest[p[k]] == jobs[p[k]]);
                }
            }
            assert forall|a: int, b: int| 0 <= a < b < q.len() implies #[trigger] q[a] < #[trigger] q[b] by {
                if b < p.len() {
                    assert(q[a] == p[a] && q[b] == p[b]);
                } else {
                    assert(q[a] == p[a]);
                }
            }
            assert(drawn_from(jobs, active_jobs(jobs), q));
        } else {
            assert forall|k: int| 0 <= k < p.len() implies 0 <= #[trigger] p[k] < jobs.len() && active_jobs(jobs)[k] == jobs[p[k]] by {
                assert(rest[p[k]] == jobs[p[k]]);
            }
            assert(drawn_from(jobs, active_jobs(jobs), p));
        }
    }
}

proof fn lemma_active_ids_fresh(jobs: Seq<ConvertJob>, n: u64)
    requires
        ids_fresh(jobs, n),
    ensures
        ids_fresh(active_jobs(jobs), n),
{
    lemma_active_from(jobs);
    let act = active_jobs(jobs);
    let p = choose|pos: Seq<int>| #[trigger] drawn_from(jobs, act, pos);
    assert forall|k: int| 0 <= k < act.len() implies #[trigger] act[k].id < n by {
        assert(0 <= p[k] < jobs.len());
        assert(jobs[p[k]].id < n);
    }
    assert forall|a: int, b: int| 0 <= a < b < act.len() implies #[trigger] act[a].id != #[trigger] act[b].id by {
        assert(p[a] < p[b]);
        assert(0 <= p[a] && p[b] < jobs.len());
        assert(jobs[p[a]].id != jobs[p[b]].id);
    }
}

/// Whether any job is converting now (the queue's progress ticker runs
/// only then).
pub fn any_running(jobs: &Vec<ConvertJob>) -> (r: bool)
    ensures
        r == exists|k: int| 0 <= k < jobs@.len() && #[trigger] jobs@[k].state == JobState::Running,
{
    let mut i: usize = 0;
    while i < jobs.len()
        invariant
            i <= jobs@.len(),
            forall|k: int| 0 <= k < i ==> #[trigger] jobs@[k].state != JobState::Running,
        decreases jobs@.len() - i,
    {
        if jobs[i].state == JobState::Running {
            return true;
        }
        i += 1;
    }
    false
}

proof fn lemma_no_queued_ids(jobs: Seq<ConvertJob>)
    requires
        forall|k: int| 0 <= k < jobs.len() ==> #[trigger] jobs[k].state != JobState::Queued,
    ensures
        queued_ids(jobs).len() == 0,
    decreases jobs.len(),
{
    if jobs.len() > 0 {
        let rest = jobs.drop_last();
        assert forall|k: int| 0 <= k < rest.len() implies #[trigger] rest[k].state != JobState::Queued by {
            assert(rest[k] == jobs[k]);
        }
        lemma_no_queued_ids(rest);
    }
}

/// Starting the queue a second time starts nothing: the first start left
/// no job queued.
pub proof fn lemma_start_twice_starts_nothing(
    q0: Seq<ConvertJob>,
    q1: Seq<ConvertJob>,
    first: Seq<u64>,
    q2: Seq<ConvertJob>,
    second: Seq<u64>,
)
    requires
        q1.len() == q0.len(),
        forall|k: int| 0 <= k < q0.len() ==> {
            let j = #[trigger] q1[k];
            &&& j.id == q0[k].id
            &&& j.path == q0[k].path
            &&& j.kind == q0[k].kind
            &&& j.state == (if q0[k].state == JobState::Queued { JobState::Running } else { q0[k].state })
        },
        first == queued_ids(q0),
        second == queued_ids(q1),
    ensures
        second.len() == 0,
{
    assert forall|k: int| 0 <= k < q1.len() implies #[trigger] q1[k].state != JobState::Queued by {
        assert(q1[k].state == (if q0[k].state == JobState::Queued { JobState::Running } else { q0[k].state }));
    }
    lemma_no_queued_ids(q1);
}

} // verus!
