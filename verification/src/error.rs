//! The ways in which one polling cycle can fail.

use vstd::prelude::*;

verus! {

/// Why a cycle ended without a new wallpaper, or the agent did not start.
#[derive(Clone, Copy, Debug, PartialEq, Eq, Structural)]
pub enum CycleError {
    /// The provider could not list the folder.
    ListError,
    /// The folder listing is empty.
    NoCandidates,
    /// Every listed file has been shown already.
    NoNewFiles,
    /// The provider answered the download with a failure.
    DownloadError,
    /// The content type is missing or names no known image format.
    UnsupportedContentType,
    /// The image could not be written to the local file.
    LocalWriteError,
    /// The desktop refused the new wallpaper.
    WallpaperSetError,
    /// The list of shown files could not be read or written.
    StorageError,
    /// The configuration directory could not be found or made.
    ConfigDirError,
}

impl CycleError {
    /// Expected in steady state: nothing to show, and nothing went wrong.
    pub open spec fn spec_is_expected(self) -> bool {
        self == CycleError::NoCandidates || self == CycleError::NoNewFiles
    }

    /// Tells an expected outcome from a genuine failure, for the log.
    #[verifier::when_used_as_spec(spec_is_expected)]
    pub fn is_expected(self) -> (r: bool)
        ensures
            r == self.spec_is_expected(),
    {
        match self {
            CycleError::NoCandidates => true,
            CycleError::NoNewFiles => true,
            _ => false,
        }
    }
}

} // verus!
