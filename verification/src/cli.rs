//! The command-line switches a run is started with, and what they decide.

use vstd::prelude::*;

verus! {

/// The three switches: run without prompting, never download the index,
/// never extract archives.
#[derive(Debug, Clone, PartialEq, Eq, Structural)]
pub struct Args {
    pub non_interactive: bool,
    pub no_download: bool,
    pub no_extract: bool,
}

impl Args {
    /// A missing geographic index is fetched without asking exactly when
    /// the run is non-interactive and downloading is not forbidden.
    pub fn should_download_database(&self) -> (r: bool)
        ensures
            r == (self.non_interactive && !self.no_download),
    {
        if self.non_interactive && !self.no_download {
            return true;
        }
        false
    }

    /// Missing archives are extracted without asking exactly when the run
    /// is non-interactive and extraction is not forbidden.
    pub fn should_extract_localities(&self) -> (r: bool)
        ensures
            r == (self.non_interactive && !self.no_extract),
    {
        if self.non_interactive && !self.no_extract {
            return true;
        }
        false
    }

    /// The run prompts before downloading or extracting exactly when no
    /// switch was given.
    pub fn is_interactive_mode(&self) -> (r: bool)
        ensures
            r == (!self.non_interactive && !self.no_download && !self.no_extract),
    {
        !self.non_interactive && !self.no_download && !self.no_extract
    }
}

} // verus!
