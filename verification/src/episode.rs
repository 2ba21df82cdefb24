//! Podcast episodes and radio streams as playable tracks, and the file
//! extension a downloaded episode is stored under.

use vstd::prelude::*;
use crate::library::Track;
use crate::text::{chars_of, same_text};

verus! {

broadcast use vstd::string::group_string_axioms;

/// The name of what `Path::extension` gives for a path text: the part of
/// the final path component after its last `.`, when there is one.
pub uninterp spec fn path_extension_of(path: Seq<char>) -> Option<Seq<char>>;

/// `std::path::Path::extension`, as text; its result is a function of the
/// path alone.
#[verifier::external_body]
fn path_extension(path: &str) -> (r: Option<String>)
    ensures
        r matches Some(e) ==> path_extension_of(path@) == Some(e@),
        r is None ==> path_extension_of(path@) is None,
{
    match std::path::Path::new(path).extension() {
        Some(e) => e.to_str().map(String::from),
        None => None,
    }
}

/// The extension of a path, as text; no extension when it has none.
pub fn extension_of(path: &str) -> (r: Option<String>)
    ensures
        r matches Some(e) ==> path_extension_of(path@) == Some(e@),
        r is None ==> path_extension_of(path@) is None,
{
    path_extension(path)
}

/// The part of a URL before its query (`?`) or fragment (`#`).
pub open spec fn url_path_part(url: Seq<char>) -> Seq<char>
    decreases url.len(),
{
    if url.len() == 0 {
        url
    } else {
        let head = url_path_part(url.drop_last());
        if head.len() < url.len() - 1 {
            head
        } else if url.last() == '?' || url.last() == '#' {
            url.drop_last()
        } else {
            url
        }
    }
}

proof fn lemma_url_path_part(url: Seq<char>)
    ensures
        url_path_part(url).len() <= url.len(),
        url_path_part(url) == url.subrange(0, url_path_part(url).len() as int),
        forall|k: int| 0 <= k < url_path_part(url).len() ==> url[k] != '?' && url[k] != '#',
        url_path_part(url).len() < url.len() ==> (url[url_path_part(url).len() as int] == '?' || url[url_path_part(url).len() as int] == '#'),
    decreases url.len(),
{
    if url.len() > 0 {
        lemma_url_path_part(url.drop_last());
        let head = url_path_part(url.drop_last());
        if head.len() < url.len() - 1 {
            assert(url.drop_last()[head.len() as int] == url[head.len() as int]);
            assert(head =~= url.subrange(0, head.len() as int));
            assert forall|k: int| 0 <= k < head.len() implies url[k] != '?' && url[k] != '#' by {
                assert(url.drop_last()[k] == url[k]);
            }
        } else if url.last() == '?' || url.last() == '#' {
            assert(url.drop_last() =~= url.subrange(0, url.len() - 1));
            assert forall|k: int| 0 <= k < url.len() - 1 implies url[k] != '?' && url[k] != '#' by {
                assert(url.drop_last()[k] == url[k]);
            }
        } else {
            assert(url =~= url.subrange(0, url.len() as int));
            assert forall|k: int| 0 <= k < url.len() implies url[k] != '?' && url[k] != '#' by {
                if k < url.len() - 1 {
                    assert(url.drop_last()[k] == url[k]);
                }
            }
        }
    } else {
        assert(url =~= url.subrange(0, 0));
    }
}

/// The extension a downloaded episode is stored under: from its MIME
/// type when that is a known audio type; else the extension of the
/// enclosure URL's path (before any `?` or `#`) when it has a non-empty
/// one; else `mp3`.
pub open spec fn episode_extension(mime: Seq<char>, url: Seq<char>) -> Seq<char> {
    if mime == "audio/mpeg"@ {
        "mp3"@
    } else if mime == "audio/mp4"@ || mime == "audio/x-m4a"@ {
        "m4a"@
    } else if mime == "audio/ogg"@ {
        "ogg"@
    } else if mime == "audio/flac"@ {
        "flac"@
    } else if mime == "audio/wav"@ {
        "wav"@
    } else {
        match path_extension_of(url_path_part(url)) {
            Some(e) => if e.len() > 0 { e } else { "mp3"@ },
            None => "mp3"@,
        }
    }
}

/// Infers the file extension for a downloaded episode from its MIME type,
/// falling back to the enclosure URL's own extension, then `mp3`.
pub fn episode_file_extension(mime: &str, enclosure_url: &str) -> (r: String)
    ensures
        r@ == episode_extension(mime@, enclosure_url@),
{
    if same_text(mime, "audio/mpeg") {
        return String::from_str("mp3");
    }
    if same_text(mime, "audio/mp4") || same_text(mime, "audio/x-m4a") {
        return String::from_str("m4a");
    }
    if same_text(mime, "audio/ogg") {
        return String::from_str("ogg");
    }
    if same_text(mime, "audio/flac") {
        return String::from_str("flac");
    }
    if same_text(mime, "audio/wav") {
        return String::from_str("wav");
    }
    let chars = chars_of(enclosure_url);
    let mut end: usize = 0;
    while end < chars.len() && chars[end] != '?' && chars[end] != '#'
        invariant
            end <= chars@.len(),
            chars@ == enclosure_url@,
            forall|k: int| 0 <= k < end ==> chars@[k] != '?' && chars@[k] != '#',
        decreases chars.len() - end,
    {
        end += 1;
    }
    proof {
        lemma_url_path_part(chars@);
        let n = url_path_part(chars@).len() as int;
        if n < end {
            assert(chars@[n] != '?' && chars@[n] != '#');
        }
        if end < n {
            assert(chars@[end as int] != '?' && chars@[end as int] != '#');
        }
        assert(url_path_part(chars@) =~= chars@.subrange(0, end as int));
    }
    let path_part = enclosure_url.substring_char(0, end);
    match path_extension(path_part) {
        Some(e) => {
            if e.as_str().is_empty() {
                String::from_str("mp3")
            } else {
                e
            }
        },
        None => String::from_str("mp3"),
    }
}

/// A podcast episode as a playable track: titled by the episode, filed
/// under the podcast's title, played from the downloaded file when there
/// is one (else streamed from the enclosure URL), with a negative length
/// counted as zero.
pub fn episode_track(
    episode_title: &String,
    podcast_title: &String,
    downloaded_path: &String,
    duration_secs: i64,
    enclosure_url: &String,
) -> (t: Track)
    ensures
        t.id == -1,
        t.path@ == downloaded_path@,
        t.title@ == episode_title@,
        t.artist@ == podcast_title@,
        t.album_artist@ == podcast_title@,
        t.album@ == podcast_title@,
        t.genre@.len() == 0,
        t.duration_ns == (if duration_secs <= 0 { 0 } else { duration_secs * 1_000_000_000 }),
        t.provider_id@ == "podcast"@,
        t.source_uri@ == enclosure_url@,
        !t.is_favorite,
        t.rating is None,
{
    let secs: u128 = if duration_secs <= 0 { 0 } else { duration_secs as u128 };
    assert(secs * 1_000_000_000 <= u128::MAX) by (nonlinear_arith)
        requires
            secs <= i64::MAX;
    let duration_ns: u128 = secs * 1_000_000_000;
    Track {
        id: -1,
        path: downloaded_path.clone(),
        title: episode_title.clone(),
        artist: podcast_title.clone(),
        album_artist: podcast_title.clone(),
        album: podcast_title.clone(),
        genre: String::new(),
        duration_ns,
        provider_id: String::from_str("podcast"),
        source_uri: enclosure_url.clone(),
        is_favorite: false,
        rating: None,
    }
}

/// A resolved radio stream as a playable track: titled by the station
/// name, with no length, path or tags.
pub fn radio_track(name: &String, stream_url: &String) -> (t: Track)
    ensures
        t.id == -1,
        t.path@.len() == 0,
        t.title@ == name@,
        t.artist@.len() == 0,
        t.album_artist@.len() == 0,
        t.album@.len() == 0,
        t.genre@.len() == 0,
        t.duration_ns == 0,
        t.provider_id@ == "radio"@,
        t.source_uri@ == stream_url@,
        !t.is_favorite,
        t.rating is None,
{
    Track {
        id: -1,
        path: String::new(),
        title: name.clone(),
        artist: String::new(),
        album_artist: String::new(),
        album: String::new(),
        genre: String::new(),
        duration_ns: 0,
        provider_id: String::from_str("radio"),
        source_uri: stream_url.clone(),
        is_favorite: false,
        rating: None,
    }
}

} // verus!
