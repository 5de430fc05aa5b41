use vstd::prelude::*;
use crate::config::MemoryTester;

verus! {

/// Where the log goes.
#[derive(Clone, Copy, Debug, PartialEq, Eq, Structural)]
pub enum LogFile {
    /// `rusty_checker.log` inside the directory the user gave.
    InGivenDirectory,
    /// The path the user gave, as it is.
    Given,
    /// `rusty_checker.log` inside the default log directory.
    Default,
}

/// What is known of the path the user gave, as the file system and the
/// path's own shape tell it.
#[derive(Clone, Copy, Debug, PartialEq, Eq, Structural)]
pub struct PathFacts {
    pub is_dir: bool,
    pub ends_with_log: bool,
    pub is_existing_file: bool,
    pub has_parent: bool,
}

/// The choice of log file: a given directory gets the log inside it; a given
/// path that ends in `.log`, names an existing file or has a parent is used
/// as it is; anything else, and no path at all, falls back to the default.
pub open spec fn log_file_spec(given: bool, facts: PathFacts) -> LogFile {
    if !given {
        LogFile::Default
    } else if facts.is_dir {
        LogFile::InGivenDirectory
    } else if facts.ends_with_log || facts.is_existing_file || facts.has_parent {
        LogFile::Given
    } else {
        LogFile::Default
    }
}

impl MemoryTester {
    /// Chooses where the log goes, from what is known of the given path.
    pub fn log_file_choice(&self, facts: PathFacts) -> (choice: LogFile)
        ensures
            choice == log_file_spec(self.log_path.is_some(), facts),
    {
        match &self.log_path {
            None => LogFile::Default,
            Some(_) => {
                if facts.is_dir {
                    LogFile::InGivenDirectory
                } else if facts.ends_with_log {
                    LogFile::Given
                } else if facts.is_existing_file {
                    LogFile::Given
                } else if facts.has_parent {
                    LogFile::Given
                } else {
                    LogFile::Default
                }
            },
        }
    }
}

} // verus!
