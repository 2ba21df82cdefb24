use lyra::uri::{decode_file_uri, picked_directory, picked_files};

#[test]
fn file_uri_is_decoded() {
    assert_eq!(decode_file_uri("file:///home/me/My%20Music"), Ok("/home/me/My Music".to_string()));
    assert_eq!(decode_file_uri("file:///plain/path"), Ok("/plain/path".to_string()));
    assert_eq!(decode_file_uri("file:///a%C3%A9"), Ok("/aé".to_string()));
}

#[test]
fn non_file_uri_is_rejected() {
    assert_eq!(
        decode_file_uri("https://example.com/x"),
        Err("Not a local file URI: https://example.com/x".to_string())
    );
}

#[test]
fn invalid_utf8_is_reported() {
    let r = decode_file_uri("file:///bad%FF");
    let msg = r.unwrap_err();
    assert!(msg.starts_with("Could not decode URI path: "), "{msg}");
}

#[test]
fn picked_lists() {
    assert_eq!(picked_directory(&vec![]), Err("No directory selected".to_string()));
    assert_eq!(
        picked_directory(&vec!["file:///music".to_string(), "file:///other".to_string()]),
        Ok("/music".to_string())
    );
    assert_eq!(picked_files(&vec![]), Err("No files selected".to_string()));
    assert_eq!(
        picked_files(&vec!["file:///a.flac".to_string(), "file:///b%20c.cue".to_string()]),
        Ok(vec!["/a.flac".to_string(), "/b c.cue".to_string()])
    );
    assert_eq!(
        picked_files(&vec!["file:///a.flac".to_string(), "smb://x".to_string(), "ftp://y".to_string()]),
        Err("Not a local file URI: smb://x".to_string())
    );
}
