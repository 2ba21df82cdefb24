use lyra::clock::{epoch_seconds, now_epoch};
use lyra::flags::AppFlags;
use std::path::PathBuf;

#[test]
fn clock_reads_after_2020() {
    assert!(now_epoch() > 1_577_836_800);
    assert_eq!(epoch_seconds(Some(42)), 42);
    assert_eq!(epoch_seconds(None), 0);
}

#[test]
fn flags_list_files_to_open() {
    let f = AppFlags::default();
    assert!(!f.has_files_to_open());
    let f = AppFlags { open_paths: vec![PathBuf::from("/tmp/a.flac")] };
    assert!(f.has_files_to_open());
}
