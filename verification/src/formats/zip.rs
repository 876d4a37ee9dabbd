//! Zip archives.

use vstd::prelude::*;

use crate::archive::Archive;
use crate::formats::{spec_total_size, total_size_of, ListedFile, OpenError};

verus! {

/// The bit of the Unix mode of an entry that marks a directory.
pub const DIRECTORY_BIT: u32 = 16384;

/// A zip archive. Its directory lists the size of every entry.
#[derive(Debug)]
pub struct ZipArchive {
    path: String,
    total_size: u64,
}

/// Whether an entry of a zip archive is a directory: its Unix mode has the
/// directory bit, or its name ends in a separator.
pub open spec fn spec_is_directory(unix_mode: Option<u32>, stored: Seq<char>) -> bool {
    let mode = match unix_mode {
        Some(mode) => mode,
        None => 0u32,
    };
    (mode & DIRECTORY_BIT) != 0 || (stored.len() > 0 && stored.last() == '/')
}

impl ZipArchive {
    /// Opens the archive at `path`, whose directory lists `files`. The
    /// total size is the sum of the listed sizes; an archive whose sizes
    /// add up to more than can be counted is refused.
    pub fn open(path: &str, files: &Vec<ListedFile>) -> (r: Result<Self, OpenError>)
        ensures
            match r {
                Ok(archive) => archive.spec_path() == path@ && spec_total_size(files@) <= u64::MAX
                    && archive.spec_total_size() == Some(spec_total_size(files@) as u64),
                Err(e) => e == OpenError::TooLarge && spec_total_size(files@) > u64::MAX,
            },
    {
        match total_size_of(files) {
            Some(total_size) => Ok(ZipArchive { path: String::from_str(path), total_size }),
            None => Err(OpenError::TooLarge),
        }
    }

    /// Whether an entry is a directory, by its Unix mode and its name.
    pub fn is_directory(unix_mode: Option<u32>, stored: &str) -> (r: bool)
        ensures
            r == spec_is_directory(unix_mode, stored@),
    {
        let mode: u32 = match unix_mode {
            Some(mode) => mode,
            None => 0,
        };
        let n: usize = stored.unicode_len();
        (mode & DIRECTORY_BIT) != 0 || (n > 0 && stored.get_char(n - 1) == '/')
    }
}

impl Archive for ZipArchive {
    closed spec fn spec_path(&self) -> Seq<char> {
        self.path@
    }

    closed spec fn spec_total_size(&self) -> Option<u64> {
        Some(self.total_size)
    }

    open spec fn spec_entry_name(&self, stored: Seq<char>) -> Seq<char> {
        stored
    }

    fn path(&self) -> (r: &str) {
        self.path.as_str()
    }

    fn total_size(&self) -> (r: Option<u64>) {
        Some(self.total_size)
    }

    fn entry_name(&self, stored: &str) -> (r: String) {
        String::from_str(stored)
    }
}

} // verus!
