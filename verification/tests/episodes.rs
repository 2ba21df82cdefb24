use lyra::convert::{assign_job_ids, job_kind_for, JobKind};
use lyra::episode::{episode_file_extension, episode_track, extension_of, radio_track};

#[test]
fn extension_from_mime_type() {
    assert_eq!(episode_file_extension("audio/mpeg", "https://x/y.ogg"), "mp3");
    assert_eq!(episode_file_extension("audio/x-m4a", ""), "m4a");
    assert_eq!(episode_file_extension("audio/mp4", ""), "m4a");
    assert_eq!(episode_file_extension("audio/ogg", ""), "ogg");
    assert_eq!(episode_file_extension("audio/flac", ""), "flac");
    assert_eq!(episode_file_extension("audio/wav", ""), "wav");
}

#[test]
fn extension_from_url_then_default() {
    assert_eq!(episode_file_extension("application/octet-stream", "https://cdn.example.com/ep/42.opus?token=a.b"), "opus");
    assert_eq!(episode_file_extension("", "https://cdn.example.com/ep/42.aac#t=1.5"), "aac");
    assert_eq!(episode_file_extension("", "https://cdn.example.com/ep/42"), "mp3");
    assert_eq!(episode_file_extension("", "https://cdn.example.com/ep/42."), "mp3");
    assert_eq!(episode_file_extension("", ""), "mp3");
}

#[test]
fn path_extension_wrapper() {
    assert_eq!(extension_of("/a/b.flac"), Some("flac".to_string()));
    assert_eq!(extension_of("/a/.hidden"), None);
    assert_eq!(extension_of("noext"), None);
}

#[test]
fn episode_and_radio_tracks() {
    let t = episode_track(&"Ep 1".to_string(), &"Show".to_string(), &String::new(), 90, &"https://x/e.mp3".to_string());
    assert_eq!(t.id, -1);
    assert_eq!(t.duration_ns, 90_000_000_000);
    assert_eq!(t.provider_id, "podcast");
    assert_eq!(t.album, "Show");
    assert_eq!(t.source_uri, "https://x/e.mp3");
    let t = episode_track(&"Ep".to_string(), &"Show".to_string(), &"/d/1.mp3".to_string(), -5, &String::new());
    assert_eq!(t.duration_ns, 0);
    assert_eq!(t.path, "/d/1.mp3");
    let r = radio_track(&"FIP".to_string(), &"https://stream".to_string());
    assert_eq!(r.title, "FIP");
    assert_eq!(r.provider_id, "radio");
    assert_eq!(r.duration_ns, 0);
}

#[test]
fn conversion_jobs() {
    assert_eq!(job_kind_for("/rips/album.CUE"), JobKind::CueSplit);
    assert_eq!(job_kind_for("/rips/album.cue"), JobKind::CueSplit);
    assert_eq!(job_kind_for("/rips/album.flac"), JobKind::Convert);
    assert_eq!(job_kind_for("/rips/cue"), JobKind::Convert);
    assert_eq!(assign_job_ids(5, 3), (vec![5, 6, 7], 8));
    assert_eq!(assign_job_ids(5, 0), (vec![], 5));
}
