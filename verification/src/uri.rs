//! Turning the `file://` URIs a file chooser hands back into local paths.

use vstd::prelude::*;
use crate::library::string_views;
use crate::text::chars_of;

verus! {

broadcast use vstd::string::group_string_axioms;

/// The name of what `urlencoding::decode` gives for a text: the decoded
/// text, or the message of the UTF-8 error it reports.
pub uninterp spec fn url_decode_result(s: Seq<char>) -> Result<Seq<char>, Seq<char>>;

/// `urlencoding::decode`: percent-decodes `s` as UTF-8. Its result is a
/// function of `s` alone; a text without `%` comes back unchanged (the
/// crate returns the input itself when it finds no `%`). An error is
/// returned as its display text.
#[verifier::external_body]
fn percent_decode(s: &str) -> (r: Result<String, String>)
    ensures
        r matches Ok(v) ==> (url_decode_result(s@) matches Ok(p) && p == v@),
        r matches Err(e) ==> (url_decode_result(s@) matches Err(m) && m == e@),
        r is Ok || s@.contains('%'),
        r matches Ok(v) ==> (v@ == s@ || s@.contains('%')),
{
    match urlencoding::decode(s) {
        Ok(v) => Ok(v.into_owned()),
        Err(e) => Err(e.to_string()),
    }
}

/// The scheme prefix of a local file URI.
pub open spec fn file_scheme() -> Seq<char> {
    seq!['f', 'i', 'l', 'e', ':', '/', '/']
}

/// The local path a `file://` URI names, or the message for why it names
/// none: not a local file URI, or a path that does not decode.
pub open spec fn file_uri_path(uri: Seq<char>) -> Result<Seq<char>, Seq<char>> {
    if uri.len() >= 7 && uri.subrange(0, 7) == file_scheme() {
        match url_decode_result(uri.subrange(7, uri.len() as int)) {
            Ok(p) => Ok(p),
            Err(e) => Err("Could not decode URI path: "@ + e),
        }
    } else {
        Err("Not a local file URI: "@ + uri)
    }
}

/// The local path a `file://` URI names: the rest of the URI after the
/// scheme, percent-decoded.
pub fn decode_file_uri(uri: &str) -> (r: Result<String, String>)
    ensures
        r matches Ok(p) ==> file_uri_path(uri@) == Ok::<Seq<char>, Seq<char>>(p@),
        r matches Err(e) ==> file_uri_path(uri@) == Err::<Seq<char>, Seq<char>>(e@),
{
    let chars = chars_of(uri);
    let is_file = chars.len() >= 7 && chars[0] == 'f' && chars[1] == 'i' && chars[2] == 'l' && chars[3] == 'e'
        && chars[4] == ':' && chars[5] == '/' && chars[6] == '/';
    if is_file {
        assert(uri@.subrange(0, 7) =~= file_scheme());
        let rest = uri.substring_char(7, chars.len());
        match percent_decode(rest) {
            Ok(p) => Ok(p),
            Err(e) => {
                let mut msg = String::from_str("Could not decode URI path: ");
                msg.append(e.as_str());
                Err(msg)
            },
        }
    } else {
        proof {
            if uri@.len() >= 7 && uri@.subrange(0, 7) == file_scheme() {
                assert(uri@.subrange(0, 7)[0] == 'f');
                assert(uri@.subrange(0, 7)[1] == 'i');
                assert(uri@.subrange(0, 7)[2] == 'l');
                assert(uri@.subrange(0, 7)[3] == 'e');
                assert(uri@.subrange(0, 7)[4] == ':');
                assert(uri@.subrange(0, 7)[5] == '/');
                assert(uri@.subrange(0, 7)[6] == '/');
            }
        }
        let mut msg = String::from_str("Not a local file URI: ");
        msg.append(uri);
        Err(msg)
    }
}

/// The directory a directory chooser picked: the path of the first URI,
/// or a message when nothing was picked.
pub fn picked_directory(uris: &Vec<String>) -> (r: Result<String, String>)
    ensures
        uris@.len() == 0 ==> (r matches Err(e) && e@ == "No directory selected"@),
        uris@.len() > 0 ==> (r matches Ok(p) ==> file_uri_path(uris@[0]@) == Ok::<Seq<char>, Seq<char>>(p@)),
        uris@.len() > 0 ==> (r matches Err(e) ==> file_uri_path(uris@[0]@) == Err::<Seq<char>, Seq<char>>(e@)),
{
    if uris.len() == 0 {
        return Err(String::from_str("No directory selected"));
    }
    decode_file_uri(uris[0].as_str())
}

/// The paths of a list of URIs, or the message of the first one that names
/// no local path.
pub open spec fn decode_all(uris: Seq<Seq<char>>) -> Result<Seq<Seq<char>>, Seq<char>>
    decreases uris.len(),
{
    if uris.len() == 0 {
        Ok(Seq::empty())
    } else {
        match decode_all(uris.drop_last()) {
            Err(e) => Err(e),
            Ok(ps) => match file_uri_path(uris.last()) {
                Ok(p) => Ok(ps.push(p)),
                Err(e) => Err(e),
            },
        }
    }
}

proof fn lemma_decode_all_error_sticks(uris: Seq<Seq<char>>, k: int, m: int)
    requires
        0 <= k <= m <= uris.len(),
        decode_all(uris.take(k)) is Err,
    ensures
        decode_all(uris.take(m)) == decode_all(uris.take(k)),
    decreases m - k,
{
    if m > k {
        lemma_decode_all_error_sticks(uris, k, m - 1);
        assert(uris.take(m).drop_last() =~= uris.take(m - 1));
    }
}

/// The files a file chooser picked: the path of every URI, in order; the
/// message of the first URI that names no local path; or a message when
/// nothing was picked.
pub fn picked_files(uris: &Vec<String>) -> (r: Result<Vec<String>, String>)
    ensures
        r matches Ok(ps) ==> decode_all(string_views(uris@)) == Ok::<Seq<Seq<char>>, Seq<char>>(string_views(ps@)) && ps@.len() > 0,
        r matches Err(e) ==> decode_all(string_views(uris@)) == Err::<Seq<Seq<char>>, Seq<char>>(e@)
            || (decode_all(string_views(uris@)) == Ok::<Seq<Seq<char>>, Seq<char>>(Seq::empty()) && e@ == "No files selected"@),
{
    let ghost all = string_views(uris@);
    let mut paths: Vec<String> = Vec::new();
    let mut i: usize = 0;
    assert(all.take(0) =~= Seq::<Seq<char>>::empty());
    assert(string_views(paths@) =~= Seq::<Seq<char>>::empty());
    while i < uris.len()
        invariant
            i <= uris.len(),
            all == string_views(uris@),
            decode_all(all.take(i as int)) == Ok::<Seq<Seq<char>>, Seq<char>>(string_views(paths@)),
        decreases uris.len() - i,
    {
        assert(all.take(i + 1).drop_last() =~= all.take(i as int));
        assert(all.take(i + 1).last() == uris@[i as int]@);
        match decode_file_uri(uris[i].as_str()) {
            Ok(p) => {
                let ghost before = string_views(paths@);
                let ghost pv = p@;
                paths.push(p);
                assert(string_views(paths@) =~= before.push(pv));
            },
            Err(e) => {
                proof {
                    lemma_decode_all_error_sticks(all, i + 1, all.len() as int);
                    assert(all.take(all.len() as int) =~= all);
                }
                return Err(e);
            },
        }
        i += 1;
    }
    assert(all.take(all.len() as int) =~= all);
    if paths.len() == 0 {
        assert(string_views(paths@) =~= Seq::<Seq<char>>::empty());
        return Err(String::from_str("No files selected"));
    }
    Ok(paths)
}

} // verus!
