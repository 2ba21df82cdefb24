use lyra::convert::{any_running, clear_finished, enqueue_files, finish_job, start_queued, ConvertJob, JobKind, JobState};
use lyra::library::{Playlist, Track};
use lyra::podcasts::{clear_download, icons_to_fetch, record_download, selection_after_removal, set_played, PodcastEpisode};
use lyra::session::{playlist_queue, rename_seed};

fn job(id: u64, state: JobState) -> ConvertJob {
    ConvertJob { id, path: format!("/music/{id}.flac"), kind: JobKind::Convert, state }
}

fn states(jobs: &[ConvertJob]) -> Vec<JobState> {
    jobs.iter().map(|j| j.state).collect()
}

#[test]
fn picked_files_are_queued_with_fresh_ids() {
    let mut jobs = vec![job(1, JobState::Done)];
    let mut next_id = 7u64;
    enqueue_files(&mut jobs, &mut next_id, vec!["/rips/album.CUE".to_string(), "/rips/song.flac".to_string()]);
    assert_eq!(next_id, 9);
    assert_eq!(jobs.len(), 3);
    assert_eq!(jobs[0].id, 1);
    assert_eq!((jobs[1].id, jobs[1].path.as_str(), jobs[1].kind, jobs[1].state), (7, "/rips/album.CUE", JobKind::CueSplit, JobState::Queued));
    assert_eq!((jobs[2].id, jobs[2].path.as_str(), jobs[2].kind, jobs[2].state), (8, "/rips/song.flac", JobKind::Convert, JobState::Queued));
}

#[test]
fn starting_runs_every_queued_job_once() {
    let mut jobs = vec![job(1, JobState::Queued), job(2, JobState::Done), job(3, JobState::Queued), job(4, JobState::Running)];
    let started = start_queued(&mut jobs);
    assert_eq!(started, vec![1, 3]);
    assert_eq!(states(&jobs), vec![JobState::Running, JobState::Done, JobState::Running, JobState::Running]);
    let again = start_queued(&mut jobs);
    assert!(again.is_empty());
    assert!(any_running(&jobs));
}

#[test]
fn finishing_updates_the_first_job_with_that_id() {
    let mut jobs = vec![job(1, JobState::Running), job(2, JobState::Running)];
    finish_job(&mut jobs, 2, JobState::Failed);
    assert_eq!(states(&jobs), vec![JobState::Running, JobState::Failed]);
    finish_job(&mut jobs, 9, JobState::Done);
    assert_eq!(states(&jobs), vec![JobState::Running, JobState::Failed]);
    finish_job(&mut jobs, 1, JobState::Done);
    assert!(!any_running(&jobs));
}

#[test]
fn clearing_keeps_queued_and_running_jobs_in_order() {
    let mut jobs = vec![
        job(1, JobState::Done),
        job(2, JobState::Running),
        job(3, JobState::Cancelled),
        job(4, JobState::Queued),
        job(5, JobState::Failed),
    ];
    clear_finished(&mut jobs);
    let ids: Vec<u64> = jobs.iter().map(|j| j.id).collect();
    assert_eq!(ids, vec![2, 4]);
    assert_eq!(states(&jobs), vec![JobState::Running, JobState::Queued]);
}

fn episode(id: i64, path: &str) -> PodcastEpisode {
    PodcastEpisode {
        id,
        title: format!("Episode {id}"),
        enclosure_url: format!("https://feed.example/{id}.mp3"),
        downloaded_path: path.to_string(),
        duration_secs: 60,
        position_ms: 0,
        played: false,
    }
}

#[test]
fn finished_download_is_recorded_on_its_episode() {
    let mut eps = vec![episode(10, ""), episode(11, "")];
    record_download(&mut eps, 11, "/pods/11.mp3".to_string());
    assert_eq!(eps[0].downloaded_path, "");
    assert_eq!(eps[1].downloaded_path, "/pods/11.mp3");
    record_download(&mut eps, 99, "/pods/99.mp3".to_string());
    assert_eq!(eps[0].downloaded_path, "");
    assert_eq!(eps[1].downloaded_path, "/pods/11.mp3");
}

#[test]
fn played_mark_and_download_clearing_touch_one_episode() {
    let mut eps = vec![episode(1, "/a.mp3"), episode(2, "/b.mp3")];
    set_played(&mut eps, 1, true);
    assert!(!eps[0].played);
    assert!(eps[1].played);
    clear_download(&mut eps, 0);
    assert_eq!(eps[0].downloaded_path, "");
    assert_eq!(eps[1].downloaded_path, "/b.mp3");
    set_played(&mut eps, 5, true);
    clear_download(&mut eps, 5);
    assert!(!eps[0].played);
}

#[test]
fn removing_the_selected_entry_clears_the_selection() {
    assert_eq!(selection_after_removal(Some(2), 2), None);
    assert_eq!(selection_after_removal(Some(1), 2), Some(1));
    assert_eq!(selection_after_removal(None, 0), None);
}

fn track(id: i64) -> Track {
    Track {
        id,
        path: String::new(),
        title: format!("T{id}"),
        artist: String::new(),
        album_artist: String::new(),
        album: String::new(),
        genre: String::new(),
        duration_ns: 0,
        provider_id: "local".to_string(),
        source_uri: String::new(),
        is_favorite: false,
        rating: None,
    }
}

#[test]
fn playlists_play_only_when_they_hold_tracks() {
    let playlists = vec![
        Playlist { id: "a".to_string(), name: "Road".to_string(), tracks: vec![track(1), track(2)] },
        Playlist { id: "b".to_string(), name: "Empty".to_string(), tracks: vec![] },
    ];
    let q = playlist_queue(&playlists, 0).expect("playlist with tracks");
    assert_eq!(q.iter().map(|t| t.id).collect::<Vec<_>>(), vec![1, 2]);
    assert!(playlist_queue(&playlists, 1).is_none());
    assert!(playlist_queue(&playlists, 2).is_none());
    assert_eq!(rename_seed(&playlists, 1), "Empty");
    assert_eq!(rename_seed(&playlists, 3), "");
}

#[test]
fn only_missing_icons_are_fetched() {
    let urls = vec![
        "https://img/a.png".to_string(),
        String::new(),
        "https://img/b.png".to_string(),
        "https://img/c.png".to_string(),
    ];
    let cached = vec!["https://img/b.png".to_string()];
    assert_eq!(icons_to_fetch(&urls, &cached), vec!["https://img/a.png".to_string(), "https://img/c.png".to_string()]);
    assert!(icons_to_fetch(&vec![], &cached).is_empty());
}

#[test]
fn job_ids_stay_distinct_across_queue_operations() {
    let mut jobs: Vec<ConvertJob> = Vec::new();
    let mut next_id = 1u64;
    enqueue_files(&mut jobs, &mut next_id, vec!["/a.flac".to_string(), "/b.flac".to_string()]);
    let _ = start_queued(&mut jobs);
    finish_job(&mut jobs, 1, JobState::Done);
    clear_finished(&mut jobs);
    enqueue_files(&mut jobs, &mut next_id, vec!["/c.cue".to_string()]);
    let ids: Vec<u64> = jobs.iter().map(|j| j.id).collect();
    assert_eq!(ids, vec![2, 3]);
    assert_eq!(next_id, 4);
    assert!(ids.iter().all(|&id| id < next_id));
}
