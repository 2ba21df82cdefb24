//! Podcast and radio bookkeeping: search submissions, which podcast is
//! open, and episode downloads in flight.

use vstd::prelude::*;
use std::collections::HashSet;
use crate::library::string_views;
use crate::text::{same_text, trim_text, trimmed};

verus! {

broadcast use vstd::std_specs::hash::group_hash_axioms;

/// The text a search or subscribe field submits: its trimmed text, or
/// nothing when that is empty.
pub fn submitted_text(field: &str) -> (r: Option<String>)
    ensures
        trimmed(field@).len() == 0 ==> r is None,
        trimmed(field@).len() > 0 ==> (r matches Some(t) && t@ == trimmed(field@)),
{
    let t = trim_text(field);
    if t.as_str().is_empty() { None } else { Some(t) }
}

/// Whether the podcast with `id` is the one open in the detail view
/// (`selected` indexes `podcast_ids`).
pub fn podcast_is_selected(selected: Option<usize>, podcast_ids: &Vec<i64>, id: i64) -> (r: bool)
    ensures
        r == (selected matches Some(i) && i < podcast_ids@.len() && podcast_ids@[i as int] == id),
{
    match selected {
        Some(i) => i < podcast_ids.len() && podcast_ids[i] == id,
        None => false,
    }
}

/// Starts tracking a download of episode `id`; tells whether it is new
/// (a download already in flight for it is not started again).
pub fn begin_download(downloading: &mut HashSet<i64>, id: i64) -> (started: bool)
    ensures
        final(downloading)@ == old(downloading)@.insert(id),
        started == !old(downloading)@.contains(id),
{
    downloading.insert(id)
}

/// Stops tracking the download of episode `id` once it finished.
pub fn finish_download(downloading: &mut HashSet<i64>, id: i64)
    ensures
        final(downloading)@ == old(downloading)@.remove(id),
{
    downloading.remove(&id);
}

/// While a download is in flight, asking for the same episode again
/// starts nothing; once it has finished, it can start again.
pub proof fn lemma_download_started_once(
    s0: Set<i64>,
    s1: Set<i64>,
    started_again: bool,
    s2: Set<i64>,
    s3: Set<i64>,
    started_after: bool,
    id: i64,
)
    requires
        s1 == s0.insert(id),
        s2 == s1.insert(id),
        started_again == !s1.contains(id),
        s3 == s2.remove(id),
        started_after == !s3.contains(id),
    ensures
        !started_again,
        started_after,
{
}

/// One episode in the open podcast's episode list.
#[derive(Debug)]
pub struct PodcastEpisode {
    pub id: i64,
    pub title: String,
    pub enclosure_url: String,
    pub downloaded_path: String,
    pub duration_secs: i64,
    pub position_ms: i64,
    pub played: bool,
}

impl PodcastEpisode {
    /// A copy of this episode with another downloaded path.
    fn with_download(&self, path: String) -> (r: PodcastEpisode)
        ensures
            r == (PodcastEpisode { downloaded_path: path, ..*self }),
    {
        PodcastEpisode {
            id: self.id,
            title: self.title.clone(),
            enclosure_url: self.enclosure_url.clone(),
            downloaded_path: path,
            duration_secs: self.duration_secs,
            position_ms: self.position_ms,
            played: self.played,
        }
    }

    /// A copy of this episode with another played mark.
    fn with_played(&self, played: bool) -> (r: PodcastEpisode)
        ensures
            r == (PodcastEpisode { played: played, ..*self }),
    {
        PodcastEpisode {
            id: self.id,
            title: self.title.clone(),
            enclosure_url: self.enclosure_url.clone(),
            downloaded_path: self.downloaded_path.clone(),
            duration_secs: self.duration_secs,
            position_ms: self.position_ms,
            played,
        }
    }
}

/// The first position in the list of the episode with `id`.
pub open spec fn episode_position(episodes: Seq<PodcastEpisode>, id: i64) -> Option<int>
    decreases episodes.len(),
{
    if episodes.len() == 0 {
        None
    } else {
        match episode_position(episodes.drop_last(), id) {
            Some(i) => Some(i),
            None => if episodes.last().id == id { Some(episodes.len() - 1) } else { None },
        }
    }
}

proof fn lemma_episode_position_prefix(episodes: Seq<PodcastEpisode>, id: i64, k: int)
    requires
        0 <= k <= episodes.len(),
        episode_position(episodes.take(k), id) is Some,
    ensures
        episode_position(episodes, id) == episode_position(episodes.take(k), id),
    decreases episodes.len() - k,
{
    if k < episodes.len() {
        assert(episodes.take(k + 1).drop_last() =~= episodes.take(k));
        lemma_episode_position_prefix(episodes, id, k + 1);
    } else {
        assert(episodes.take(k) =~= episodes);
    }
}

/// Records where a finished download was stored: the first episode with
/// `id` takes the path; an episode no longer listed is left alone.
pub fn record_download(episodes: &mut Vec<PodcastEpisode>, id: i64, path: String)
    ensures
        episode_position(old(episodes)@, id) is None ==> final(episodes)@ == old(episodes)@,
        episode_position(old(episodes)@, id) matches Some(p) ==> final(episodes)@ == old(episodes)@.update(
            p,
            PodcastEpisode { downloaded_path: path, ..old(episodes)@[p] },
        ),
{
    let ghost start = episodes@;
    let mut i: usize = 0;
    while i < episodes.len()
        invariant
            i <= episodes@.len(),
            episodes@ == start,
            start == old(episodes)@,
            episode_position(start.take(i as int), id) is None,
        decreases episodes@.len() - i,
    {
        proof {
            assert(start.take(i as int + 1).drop_last() =~= start.take(i as int));
        }
        if episodes[i].id == id {
            proof {
                lemma_episode_position_prefix(start, id, i as int + 1);
            }
            let updated = episodes[i].with_download(path);
            episodes.set(i, updated);
            return;
        }
        i += 1;
    }
    proof {
        assert(start.take(start.len() as int) =~= start);
    }
}

/// Marks the episode at `idx` played or unplayed (once the store took the
/// change); an index past the list changes nothing.
pub fn set_played(episodes: &mut Vec<PodcastEpisode>, idx: usize, played: bool)
    ensures
        idx >= old(episodes)@.len() ==> final(episodes)@ == old(episodes)@,
        idx < old(episodes)@.len() ==> final(episodes)@ == old(episodes)@.update(
            idx as int,
            PodcastEpisode { played: played, ..old(episodes)@[idx as int] },
        ),
{
    if idx < episodes.len() {
        let updated = episodes[idx].with_played(played);
        episodes.set(idx, updated);
    }
}

/// Forgets the download of the episode at `idx` (once its file was removed
/// and the store cleared it); an index past the list changes nothing.
pub fn clear_download(episodes: &mut Vec<PodcastEpisode>, idx: usize)
    ensures
        idx >= old(episodes)@.len() ==> final(episodes)@ == old(episodes)@,
        idx < old(episodes)@.len() ==> {
            &&& final(episodes)@.len() == old(episodes)@.len()
            &&& forall|k: int| 0 <= k < old(episodes)@.len() && k != idx ==> #[trigger] final(episodes)@[k] == old(episodes)@[k]
            &&& final(episodes)@[idx as int].downloaded_path@.len() == 0
            &&& final(episodes)@[idx as int] == (PodcastEpisode {
                downloaded_path: final(episodes)@[idx as int].downloaded_path,
                ..old(episodes)@[idx as int]
            })
        },
{
    if idx < episodes.len() {
        let updated = episodes[idx].with_download(String::new());
        episodes.set(idx, updated);
    }
}

/// The selection once the entry at `removed` was deleted: it is cleared
/// when it pointed at that entry, and kept otherwise.
pub fn selection_after_removal(selected: Option<usize>, removed: usize) -> (r: Option<usize>)
    ensures
        selected == Some(removed) ==> r is None,
        selected != Some(removed) ==> r == selected,
{
    match selected {
        Some(i) => if i == removed { None } else { Some(i) },
        None => None,
    }
}

/// The icon URLs still to fetch, in order: those that are not empty and
/// not among the already `cached` ones.
pub open spec fn icons_wanted(urls: Seq<Seq<char>>, cached: Seq<Seq<char>>) -> Seq<Seq<char>>
    decreases urls.len(),
{
    if urls.len() == 0 {
        Seq::empty()
    } else {
        let head = icons_wanted(urls.drop_last(), cached);
        let u = urls.last();
        if u.len() > 0 && !cached.contains(u) { head.push(u) } else { head }
    }
}

/// Picks the podcast and station icons to download: each listed URL that
/// is not empty and has no icon yet.
pub fn icons_to_fetch(urls: &Vec<String>, cached: &Vec<String>) -> (r: Vec<String>)
    ensures
        string_views(r@) == icons_wanted(string_views(urls@), string_views(cached@)),
{
    let ghost us = string_views(urls@);
    let ghost cs = string_views(cached@);
    let mut r: Vec<String> = Vec::new();
    let mut i: usize = 0;
    while i < urls.len()
        invariant
            i <= urls@.len(),
            us == string_views(urls@),
            cs == string_views(cached@),
            string_views(r@) == icons_wanted(us.take(i as int), cs),
        decreases urls@.len() - i,
    {
        proof {
            assert(us.take(i as int + 1).drop_last() =~= us.take(i as int));
        }
        let url = &urls[i];
        let mut known = false;
        let mut j: usize = 0;
        while j < cached.len()
            invariant
                j <= cached@.len(),
                cs == string_views(cached@),
                known == exists|k: int| 0 <= k < j && #[trigger] cs[k] == url@,
            decreases cached@.len() - j,
        {
            if same_text(cached[j].as_str(), url.as_str()) {
                proof {
                    assert(cs[j as int] == url@);
                }
                known = true;
            }
            j += 1;
        }
        proof {
            if cs.contains(url@) {
                let k = choose|k: int| 0 <= k < cs.len() && cs[k] == url@;
                assert(cs[k] == url@);
            }
            if known {
                assert(cs.contains(url@));
            }
        }
        if url.as_str().unicode_len() > 0 && !known {
            let ghost before = r@;
            r.push(url.clone());
            proof {
                assert(string_views(r@) =~= string_views(before).push(url@));
            }
        }
        i += 1;
    }
    proof {
        assert(us.take(urls@.len() as int) =~= us);
    }
    r
}

} // verus!
