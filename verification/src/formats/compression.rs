//! Compression layers that may wrap a tarball or a single file.

use vstd::prelude::*;

use crate::archive::{Archive, ArchiveEntry};
use crate::formats::ArchiveType;
use crate::paths::{file_stem, spec_file_stem};
use crate::text::same_text;

verus! {

/// The compression of a normal file.
#[derive(Copy, Clone, Debug, PartialEq, Eq, Structural)]
pub enum Compression {
    Uncompressed,
    Gz,
    Xz,
    Bz2,
}

/// What the first read from a gzip stream over `bytes` yields into a buffer
/// of `limit` bytes, or nothing where the stream cannot be read.
pub uninterp spec fn gzip_prefix(bytes: Seq<u8>, limit: nat) -> Option<Seq<u8>>;

/// What the first read from an xz stream over `bytes` yields into a buffer
/// of `limit` bytes, or nothing where the stream cannot be read.
pub uninterp spec fn xz_prefix(bytes: Seq<u8>, limit: nat) -> Option<Seq<u8>>;

/// What the first read from a bzip2 stream over `bytes` yields into a buffer
/// of `limit` bytes, or nothing where the stream cannot be read.
pub uninterp spec fn bzip2_prefix(bytes: Seq<u8>, limit: nat) -> Option<Seq<u8>>;

/// The first `limit` bytes, or all of them where there are fewer.
pub open spec fn spec_prefix(bytes: Seq<u8>, limit: nat) -> Seq<u8> {
    if bytes.len() <= limit {
        bytes
    } else {
        bytes.subrange(0, limit as int)
    }
}

/// Opens `bytes` with `libflate::gzip::Decoder::new` and reads from the
/// decoder once, into a buffer of `limit` bytes. The decoder's output is not
/// stated here, only named; a read never yields more than the buffer holds.
/// An error on opening or on reading gives `None`.
#[verifier::external_body]
fn gunzip_prefix(bytes: &[u8], limit: usize) -> (r: Option<Vec<u8>>)
    ensures
        match r {
            Some(data) => gzip_prefix(bytes@, limit as nat) == Some(data@) && data@.len() <= limit,
            None => gzip_prefix(bytes@, limit as nat) is None,
        },
{
    let mut data = vec![0u8; limit];
    let mut decoder = libflate::gzip::Decoder::new(std::io::Cursor::new(bytes)).ok()?;
    let count = std::io::Read::read(&mut decoder, &mut data).ok()?;
    data.truncate(count);
    Some(data)
}

/// Wraps `bytes` in `xz2::read::XzDecoder::new` and reads from the decoder
/// once, into a buffer of `limit` bytes. The decoder's output is not stated
/// here, only named; a read never yields more than the buffer holds. An error
/// on reading gives `None`.
#[verifier::external_body]
fn unxz_prefix(bytes: &[u8], limit: usize) -> (r: Option<Vec<u8>>)
    ensures
        match r {
            Some(data) => xz_prefix(bytes@, limit as nat) == Some(data@) && data@.len() <= limit,
            None => xz_prefix(bytes@, limit as nat) is None,
        },
{
    let mut data = vec![0u8; limit];
    let mut decoder = xz2::read::XzDecoder::new(std::io::Cursor::new(bytes));
    let count = std::io::Read::read(&mut decoder, &mut data).ok()?;
    data.truncate(count);
    Some(data)
}

/// Wraps `bytes` in `bzip2::read::BzDecoder::new` and reads from the decoder
/// once, into a buffer of `limit` bytes. The decoder's output is not stated
/// here, only named; a read never yields more than the buffer holds. An error
/// on reading gives `None`.
#[verifier::external_body]
fn bunzip2_prefix(bytes: &[u8], limit: usize) -> (r: Option<Vec<u8>>)
    ensures
        match r {
            Some(data) => bzip2_prefix(bytes@, limit as nat) == Some(data@) && data@.len()
                <= limit,
            None => bzip2_prefix(bytes@, limit as nat) is None,
        },
{
    let mut data = vec![0u8; limit];
    let mut decoder = bzip2::read::BzDecoder::new(std::io::Cursor::new(bytes));
    let count = std::io::Read::read(&mut decoder, &mut data).ok()?;
    data.truncate(count);
    Some(data)
}

impl Compression {
    /// The compression that a mimetype names, if it names one.
    pub open spec fn spec_for_mimetype(mimetype: Seq<char>) -> Option<Compression> {
        if mimetype == "application/gzip"@ {
            Some(Compression::Gz)
        } else if mimetype == "application/x-xz"@ {
            Some(Compression::Xz)
        } else if mimetype == "application/bzip2"@ {
            Some(Compression::Bz2)
        } else {
            None
        }
    }

    /// Returns the compression for a mimetype.
    pub fn for_mimetype(mimetype: &str) -> (r: Option<Compression>)
        ensures
            r == Self::spec_for_mimetype(mimetype@),
    {
        if same_text(mimetype, "application/gzip") {
            Some(Compression::Gz)
        } else if same_text(mimetype, "application/x-xz") {
            Some(Compression::Xz)
        } else if same_text(mimetype, "application/bzip2") {
            Some(Compression::Bz2)
        } else {
            None
        }
    }

    /// The start of what `bytes` hold under this compression: at most `limit`
    /// bytes, as the decoder's first read yields them. Bytes that are not
    /// compressed stand for themselves.
    pub open spec fn spec_decompress(self, bytes: Seq<u8>, limit: nat) -> Option<Seq<u8>> {
        match self {
            Compression::Uncompressed => Some(spec_prefix(bytes, limit)),
            Compression::Gz => gzip_prefix(bytes, limit),
            Compression::Xz => xz_prefix(bytes, limit),
            Compression::Bz2 => bzip2_prefix(bytes, limit),
        }
    }

    /// Decompresses the start of `bytes`: one read of at most `limit` bytes.
    /// `None` where the bytes are not a stream of this compression.
    pub fn decompress(self, bytes: &[u8], limit: usize) -> (r: Option<Vec<u8>>)
        ensures
            match r {
                Some(data) => self.spec_decompress(bytes@, limit as nat) == Some(data@)
                    && data@.len() <= limit,
                None => self.spec_decompress(bytes@, limit as nat) is None,
            },
    {
        match self {
            Compression::Uncompressed => {
                let count: usize = if bytes.len() <= limit {
                    bytes.len()
                } else {
                    limit
                };
                let mut data: Vec<u8> = Vec::new();
                let mut i: usize = 0;
                while i < count
                    invariant
                        i <= count <= bytes@.len(),
                        data@ == bytes@.subrange(0, i as int),
                    decreases count - i,
                {
                    data.push(bytes[i]);
                    i += 1;
                    assert(data@ =~= bytes@.subrange(0, i as int));
                }
                assert(data@ =~= spec_prefix(bytes@, limit as nat));
                Some(data)
            },
            Compression::Gz => gunzip_prefix(bytes, limit),
            Compression::Xz => unxz_prefix(bytes, limit),
            Compression::Bz2 => bunzip2_prefix(bytes, limit),
        }
    }

    /// The archive type that this compression forms around `parent`: the bare
    /// single-file type when nothing was found inside, the matching tarball
    /// type around a tarball, and nothing around any other container.
    pub open spec fn spec_as_archive_type(self, parent: Option<ArchiveType>) -> Option<
        ArchiveType,
    > {
        match parent {
            None => match self {
                Compression::Uncompressed => None,
                Compression::Gz => Some(ArchiveType::SingleFileGz),
                Compression::Bz2 => Some(ArchiveType::SingleFileBz2),
                Compression::Xz => Some(ArchiveType::SingleFileXz),
            },
            Some(ArchiveType::Tar) => match self {
                Compression::Uncompressed => Some(ArchiveType::Tar),
                Compression::Gz => Some(ArchiveType::TarGz),
                Compression::Bz2 => Some(ArchiveType::TarBz2),
                Compression::Xz => Some(ArchiveType::TarXz),
            },
            Some(_) => None,
        }
    }

    /// Returns the archive type of this compression around `parent`.
    pub fn as_archive_type(self, parent: Option<ArchiveType>) -> (r: Option<ArchiveType>)
        ensures
            r == self.spec_as_archive_type(parent),
    {
        match parent {
            None => match self {
                Compression::Uncompressed => None,
                Compression::Gz => Some(ArchiveType::SingleFileGz),
                Compression::Bz2 => Some(ArchiveType::SingleFileBz2),
                Compression::Xz => Some(ArchiveType::SingleFileXz),
            },
            Some(ArchiveType::Tar) => match self {
                Compression::Uncompressed => Some(ArchiveType::Tar),
                Compression::Gz => Some(ArchiveType::TarGz),
                Compression::Bz2 => Some(ArchiveType::TarBz2),
                Compression::Xz => Some(ArchiveType::TarXz),
            },
            Some(_) => None,
        }
    }
}

/// A single compressed file, read as an archive of one entry.
#[derive(Debug)]
pub struct SingleFileArchive {
    path: String,
    compression: Compression,
    total_size: u64,
}

/// The name of the one entry of a compressed file: the stem of the file's
/// name, and `Unknown` where the path has none.
pub open spec fn spec_member_name(path: Seq<char>) -> Seq<char> {
    match spec_file_stem(path) {
        Some(stem) => stem,
        None => "Unknown"@,
    }
}

impl SingleFileArchive {
    /// The compression of the file.
    pub closed spec fn spec_compression(&self) -> Compression {
        self.compression
    }

    /// Opens the compressed file at `path`, which holds `file_len` bytes.
    pub fn open(path: &str, file_len: u64, compression: Compression) -> (r: Self)
        ensures
            r.spec_path() == path@,
            r.spec_total_size() == Some(file_len),
            r.spec_compression() == compression,
    {
        SingleFileArchive { path: String::from_str(path), compression, total_size: file_len }
    }

    /// The compression of the file.
    pub fn compression(&self) -> (r: Compression)
        ensures
            r == self.spec_compression(),
    {
        self.compression
    }

    /// The one entry of the archive: a file under the name of the
    /// compressed file without its ending.
    pub fn member(&self) -> (r: ArchiveEntry)
        ensures
            r.name@ == spec_member_name(self.spec_path()),
            !r.directory,
    {
        let name = match file_stem(self.path.as_str()) {
            Some(stem) => String::from_str(stem),
            None => String::from_str("Unknown"),
        };
        ArchiveEntry { name, directory: false }
    }
}

impl Archive for SingleFileArchive {
    closed spec fn spec_path(&self) -> Seq<char> {
        self.path@
    }

    closed spec fn spec_total_size(&self) -> Option<u64> {
        Some(self.total_size)
    }

    open spec fn spec_entry_name(&self, stored: Seq<char>) -> Seq<char> {
        stored
    }

    fn path(&self) -> (r: &str) {
        self.path.as_str()
    }

    fn total_size(&self) -> (r: Option<u64>) {
        Some(self.total_size)
    }

    fn entry_name(&self, stored: &str) -> (r: String) {
        String::from_str(stored)
    }
}

} // verus!
