//! Cabinet archives, by themselves or at the end of an executable.

use vstd::prelude::*;
use vstd::slice::slice_subrange;

use crate::archive::Archive;
use crate::formats::{spec_total_size, total_size_of, ListedFile, OpenError};
use crate::paths::{spec_with_separator, with_separator};

verus! {

/// The sections that a Windows executable of these bytes lists, each as the
/// place of its raw data in the file and the size of that data. None where
/// the bytes are no such executable.
pub uninterp spec fn pe_sections(bytes: Seq<u8>) -> Option<Seq<(u32, u32)>>;

/// The files that a cabinet of these bytes lists, folder by folder, each as
/// its name and its size when unpacked. None where the bytes are no cabinet.
pub uninterp spec fn cabinet_files(bytes: Seq<u8>) -> Option<Seq<(Seq<char>, u64)>>;

/// The names and sizes of listed files.
pub open spec fn listing_of(files: Seq<ListedFile>) -> Seq<(Seq<char>, u64)> {
    Seq::new(files.len(), |i: int| (files[i].name@, files[i].size))
}

/// Parses `bytes` with `goblin::pe::PE::parse` and hands out, for each
/// entry of the section table in its order, `pointer_to_raw_data` and
/// `size_of_raw_data`. What the parser finds is not stated here, only named.
/// `None` where it reports an error.
#[verifier::external_body]
fn parse_sections(bytes: &[u8]) -> (r: Option<Vec<(u32, u32)>>)
    ensures
        match r {
            Some(sections) => pe_sections(bytes@) == Some(sections@),
            None => pe_sections(bytes@) is None,
        },
{
    match goblin::pe::PE::parse(bytes) {
        Ok(pe) => Some(
            pe.sections.iter().map(
                |section| (section.pointer_to_raw_data, section.size_of_raw_data),
            ).collect(),
        ),
        Err(_) => None,
    }
}

/// Opens `bytes` with `cab::Cabinet::new` and hands out, for each file
/// entry of each folder in their order, `name` and `uncompressed_size`. What
/// the reader finds is not stated here, only named. `None` where it reports
/// an error.
#[verifier::external_body]
fn list_cabinet(bytes: &[u8]) -> (r: Option<Vec<ListedFile>>)
    ensures
        match r {
            Some(files) => cabinet_files(bytes@) == Some(listing_of(files@)),
            None => cabinet_files(bytes@) is None,
        },
{
    match cab::Cabinet::new(std::io::Cursor::new(bytes)) {
        Ok(cabinet) => Some(
            cabinet.folder_entries().flat_map(|folder| folder.file_entries()).map(
                |file|
                    ListedFile {
                        name: file.name().to_string(),
                        size: u64::from(file.uncompressed_size()),
                    },
            ).collect(),
        ),
        Err(_) => None,
    }
}

/// Why no cabinet was opened.
#[derive(Copy, Clone, Debug, PartialEq, Eq, Structural)]
pub enum CabError {
    /// The bytes are no Windows executable.
    NotExecutable,
    /// No cabinet follows the sections of the executable.
    NoCabinet,
    /// What stands at the place of the cabinet cannot be read as one.
    BadCabinet,
    /// The listed sizes add up to more than can be counted.
    TooLarge,
}

/// A cabinet archive. Its directory lists every file with its size.
#[derive(Debug)]
pub struct CabArchive {
    total_size: u64,
    path: String,
    files: Vec<String>,
    offset: usize,
}

/// Where the sections of an executable end in its file: behind the raw data
/// of the last section, and at the start where there is no section.
pub open spec fn spec_end_of_sections(sections: Seq<(u32, u32)>) -> int {
    if sections.len() == 0 {
        0
    } else {
        sections.last().0 + sections.last().1
    }
}

/// Whether the four bytes at `offset` are the signature of a cabinet.
pub open spec fn has_signature_at(bytes: Seq<u8>, offset: int) -> bool {
    &&& 0 <= offset
    &&& offset + 4 <= bytes.len()
    &&& bytes[offset] == 0x4d
    &&& bytes[offset + 1] == 0x53
    &&& bytes[offset + 2] == 0x43
    &&& bytes[offset + 3] == 0x46
}

/// The names of listed files.
pub open spec fn names_of(files: Seq<ListedFile>) -> Seq<Seq<char>> {
    Seq::new(files.len(), |i: int| files[i].name@)
}

/// What opening a cabinet gives, for the files that the cabinet lists:
/// the archive of these files, or the refusal of sizes that are too large.
pub open spec fn is_cabinet_of(
    r: Result<CabArchive, CabError>,
    files: Seq<ListedFile>,
    path: Seq<char>,
    offset: int,
) -> bool {
    match r {
        Ok(archive) => {
            &&& spec_total_size(files) <= u64::MAX
            &&& archive.spec_total_size() == Some(spec_total_size(files) as u64)
            &&& archive.spec_path() == path
            &&& archive.spec_files() == names_of(files)
            &&& archive.spec_offset() == offset
        },
        Err(e) => e == CabError::TooLarge && spec_total_size(files) > u64::MAX,
    }
}

impl CabArchive {
    /// The names of the files, as the cabinet stores them.
    pub closed spec fn spec_files(&self) -> Seq<Seq<char>> {
        Seq::new(self.files.len() as nat, |i: int| self.files[i]@)
    }

    /// Where in the file the cabinet starts.
    pub closed spec fn spec_offset(&self) -> int {
        self.offset as int
    }

    /// Opens the cabinet that `bytes` hold, the content of the file at `path`.
    pub fn open(bytes: &[u8], path: &str) -> (r: Result<Self, CabError>)
        ensures
            match cabinet_files(bytes@) {
                None => r == Err::<Self, CabError>(CabError::BadCabinet),
                Some(listing) => exists|files: Seq<ListedFile>|
                    listing == #[trigger] listing_of(files) && is_cabinet_of(r, files, path@, 0),
            },
    {
        match list_cabinet(bytes) {
            Some(files) => Self::from_cab_and_path(&files, path, 0),
            None => Err(CabError::BadCabinet),
        }
    }

    /// Finds the place of a cabinet behind the sections of an executable:
    /// the end of the last section's raw data, where the signature of a
    /// cabinet stands there.
    pub fn find_cabinet(bytes: &[u8], sections: &Vec<(u32, u32)>) -> (r: Option<usize>)
        ensures
            match r {
                Some(offset) => offset == spec_end_of_sections(sections@) && has_signature_at(
                    bytes@,
                    offset as int,
                ),
                None => !has_signature_at(bytes@, spec_end_of_sections(sections@)),
            },
    {
        let end: u64 = if sections.len() == 0 {
            0
        } else {
            let last = sections[sections.len() - 1];
            last.0 as u64 + last.1 as u64
        };
        let len: usize = bytes.len();
        if len < 4 || end > (len - 4) as u64 {
            return None;
        }
        let offset: usize = end as usize;
        if bytes[offset] == 0x4d && bytes[offset + 1] == 0x53 && bytes[offset + 2] == 0x43
            && bytes[offset + 3] == 0x46 {
            Some(offset)
        } else {
            None
        }
    }

    /// Opens the cabinet that follows the sections of an executable.
    /// `bytes` is the content of the file at `path`.
    pub fn find_in_executable(bytes: &[u8], path: &str) -> (r: Result<Self, CabError>)
        ensures
            match pe_sections(bytes@) {
                None => r == Err::<Self, CabError>(CabError::NotExecutable),
                Some(sections) => {
                    let offset = spec_end_of_sections(sections);
                    if !has_signature_at(bytes@, offset) {
                        r == Err::<Self, CabError>(CabError::NoCabinet)
                    } else {
                        match cabinet_files(bytes@.subrange(offset, bytes@.len() as int)) {
                            None => r == Err::<Self, CabError>(CabError::BadCabinet),
                            Some(listing) => exists|files: Seq<ListedFile>|
                                listing == #[trigger] listing_of(files) && is_cabinet_of(
                                    r,
                                    files,
                                    path@,
                                    offset,
                                ),
                        }
                    }
                },
            },
    {
        let sections = match parse_sections(bytes) {
            Some(sections) => sections,
            None => {
                return Err(CabError::NotExecutable);
            },
        };
        let offset: usize = match Self::find_cabinet(bytes, &sections) {
            Some(offset) => offset,
            None => {
                return Err(CabError::NoCabinet);
            },
        };
        match list_cabinet(slice_subrange(bytes, offset, bytes.len())) {
            Some(files) => Self::from_cab_and_path(&files, path, offset),
            None => Err(CabError::BadCabinet),
        }
    }

    /// Makes the archive of a cabinet from the files that it lists. The
    /// cabinet starts at `offset` in the file at `path`. The total size is
    /// the sum of the listed sizes.
    pub fn from_cab_and_path(files: &Vec<ListedFile>, path: &str, offset: usize) -> (r: Result<
        Self,
        CabError,
    >)
        ensures
            is_cabinet_of(r, files@, path@, offset as int),
    {
        let total_size: u64 = match total_size_of(files) {
            Some(total_size) => total_size,
            None => {
                return Err(CabError::TooLarge);
            },
        };
        let mut names: Vec<String> = Vec::new();
        let mut i: usize = 0;
        while i < files.len()
            invariant
                i <= files.len(),
                names.len() == i,
                forall|j: int| 0 <= j < i ==> (#[trigger] names[j])@ == files[j].name@,
            decreases files.len() - i,
        {
            names.push(files[i].name.clone());
            i += 1;
        }
        let archive = CabArchive { total_size, path: String::from_str(path), files: names, offset };
        assert(archive.spec_files() =~= names_of(files@));
        Ok(archive)
    }

    /// The names of the files, in the order of the cabinet.
    pub fn files(&self) -> (r: &Vec<String>)
        ensures
            r@.len() == self.spec_files().len(),
            forall|i: int| 0 <= i < r@.len() ==> (#[trigger] r@[i])@ == self.spec_files()[i],
    {
        &self.files
    }

    /// Where in the file the cabinet starts.
    pub fn offset(&self) -> (r: usize)
        ensures
            r == self.spec_offset(),
    {
        self.offset
    }
}

impl Archive for CabArchive {
    closed spec fn spec_path(&self) -> Seq<char> {
        self.path@
    }

    closed spec fn spec_total_size(&self) -> Option<u64> {
        Some(self.total_size)
    }

    open spec fn spec_entry_name(&self, stored: Seq<char>) -> Seq<char> {
        spec_with_separator(stored, '\\')
    }

    fn path(&self) -> (r: &str) {
        self.path.as_str()
    }

    fn total_size(&self) -> (r: Option<u64>) {
        Some(self.total_size)
    }

    fn entry_name(&self, stored: &str) -> (r: String) {
        with_separator(stored, '\\')
    }
}

} // verus!
