//! What the application is started with.

use vstd::prelude::*;
use std::path::PathBuf;

verus! {

#[verifier::external_type_specification]
#[verifier::external_body]
pub struct ExPathBuf(PathBuf);

/// Flags passed in at startup: the audio files (if any) the process was
/// launched or handed off to open.
#[derive(Debug, Clone, Default)]
pub struct AppFlags {
    pub open_paths: Vec<PathBuf>,
}

impl AppFlags {
    /// Whether the start-up asks for files to be opened.
    pub fn has_files_to_open(&self) -> (r: bool)
        ensures
            r == (self.open_paths@.len() > 0),
    {
        self.open_paths.len() > 0
    }
}

} // verus!
