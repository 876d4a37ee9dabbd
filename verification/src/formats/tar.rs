//! Tarballs, bare or behind a compression.

use vstd::prelude::*;

use crate::archive::Archive;
use crate::formats::Compression;

verus! {

/// The compression of the tarball.
#[derive(Copy, Clone, Debug, PartialEq, Eq, Structural)]
pub enum TarCompression {
    Uncompressed,
    Gzip,
    Xz,
    Bz2,
}

impl TarCompression {
    /// The compression layer that the tarball is read through.
    pub open spec fn spec_layer(self) -> Compression {
        match self {
            TarCompression::Uncompressed => Compression::Uncompressed,
            TarCompression::Gzip => Compression::Gz,
            TarCompression::Xz => Compression::Xz,
            TarCompression::Bz2 => Compression::Bz2,
        }
    }

    /// The compression of a tarball behind `layer`.
    pub open spec fn spec_of(layer: Compression) -> TarCompression {
        match layer {
            Compression::Uncompressed => TarCompression::Uncompressed,
            Compression::Gz => TarCompression::Gzip,
            Compression::Xz => TarCompression::Xz,
            Compression::Bz2 => TarCompression::Bz2,
        }
    }

    /// The compression layer that the tarball is read through.
    pub fn layer(self) -> (r: Compression)
        ensures
            r == self.spec_layer(),
            Self::spec_of(r) == self,
    {
        match self {
            TarCompression::Uncompressed => Compression::Uncompressed,
            TarCompression::Gzip => Compression::Gz,
            TarCompression::Xz => Compression::Xz,
            TarCompression::Bz2 => Compression::Bz2,
        }
    }

    /// The compression of a tarball behind `layer`.
    pub fn of(layer: Compression) -> (r: TarCompression)
        ensures
            r == Self::spec_of(layer),
            r.spec_layer() == layer,
    {
        match layer {
            Compression::Uncompressed => TarCompression::Uncompressed,
            Compression::Gz => TarCompression::Gzip,
            Compression::Xz => TarCompression::Xz,
            Compression::Bz2 => TarCompression::Bz2,
        }
    }
}

/// A tarball. Its entries can only be read in a row, so the size of the
/// archive file, compressed or not, stands for the total size.
#[derive(Debug)]
pub struct TarArchive {
    path: String,
    total_size: u64,
    compression: TarCompression,
}

impl TarArchive {
    /// The compression of the tarball.
    pub closed spec fn spec_compression(&self) -> TarCompression {
        self.compression
    }

    /// Opens the tarball at `path`, whose file holds `file_len` bytes.
    pub fn open(path: &str, file_len: u64, compression: TarCompression) -> (r: Self)
        ensures
            r.spec_path() == path@,
            r.spec_total_size() == Some(file_len),
            r.spec_compression() == compression,
    {
        TarArchive { path: String::from_str(path), total_size: file_len, compression }
    }

    /// The compression of the tarball.
    pub fn compression(&self) -> (r: TarCompression)
        ensures
            r == self.spec_compression(),
    {
        self.compression
    }
}

impl Archive for TarArchive {
    closed spec fn spec_path(&self) -> Seq<char> {
        self.path@
    }

    closed spec fn spec_total_size(&self) -> Option<u64> {
        Some(self.total_size)
    }

    open spec fn spec_entry_name(&self, stored: Seq<char>) -> Seq<char> {
        stored
    }

    fn path(&self) -> (r: &str) {
        self.path.as_str()
    }

    fn total_size(&self) -> (r: Option<u64>) {
        Some(self.total_size)
    }

    fn entry_name(&self, stored: &str) -> (r: String) {
        String::from_str(stored)
    }
}

} // verus!
