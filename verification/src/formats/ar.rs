//! Unix `ar` archives.

use vstd::prelude::*;

use crate::archive::Archive;

verus! {

/// An `ar` archive. Its members can only be read in a row, so the size of
/// the archive file stands for the total size.
#[derive(Debug)]
pub struct ArArchive {
    path: String,
    total_size: u64,
}

impl ArArchive {
    /// Opens the archive at `path`, whose file holds `file_len` bytes.
    pub fn open(path: &str, file_len: u64) -> (r: Self)
        ensures
            r.spec_path() == path@,
            r.spec_total_size() == Some(file_len),
    {
        ArArchive { path: String::from_str(path), total_size: file_len }
    }
}

impl Archive for ArArchive {
    closed spec fn spec_path(&self) -> Seq<char> {
        self.path@
    }

    closed spec fn spec_total_size(&self) -> Option<u64> {
        Some(self.total_size)
    }

    open spec fn spec_entry_name(&self, stored: Seq<char>) -> Seq<char> {
        stored
    }

    fn path(&self) -> (r: &str) {
        self.path.as_str()
    }

    fn total_size(&self) -> (r: Option<u64>) {
        Some(self.total_size)
    }

    fn entry_name(&self, stored: &str) -> (r: String) {
        String::from_str(stored)
    }
}

} // verus!
