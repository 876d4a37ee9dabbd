//! The supported archive formats and how an input is recognised as one.
//!
//! The content decides first: its mimetype, as the sniffer classifies it,
//! names a container or a compression. Behind a compression the start of the
//! decompressed content is sniffed once more, for a tarball. Only where the
//! content says nothing does the file name decide.

use vstd::prelude::*;
use vstd::slice::slice_subrange;

use crate::archive::Archive;
use crate::paths::{file_name, spec_file_name};
use crate::text::{ends_with_folded, same_text, spec_ends_with_folded};

pub mod ar;
pub mod cab;
pub mod compression;
pub mod tar;
pub mod zip;

pub use self::ar::ArArchive;
pub use self::cab::CabArchive;
pub use self::compression::{Compression, SingleFileArchive};
pub use self::tar::{TarArchive, TarCompression};
pub use self::zip::ZipArchive;

verus! {

/// How many bytes of an input, and of what a compression holds, are looked at.
pub const SNIFF_LIMIT: usize = 131_072;

/// The supported archive types.
#[derive(Copy, Clone, Debug, PartialEq, Eq, Structural)]
pub enum ArchiveType {
    Ar,
    Zip,
    Tar,
    TarGz,
    TarXz,
    TarBz2,
    Cab,
    SingleFileGz,
    SingleFileXz,
    SingleFileBz2,
}

/// A file that the directory of an archive lists: its name as the archive
/// stores it, and its size when unpacked.
#[derive(Debug)]
pub struct ListedFile {
    pub name: String,
    pub size: u64,
}

/// Why an archive was not opened.
#[derive(Copy, Clone, Debug, PartialEq, Eq, Structural)]
pub enum OpenError {
    /// The listed sizes add up to more than can be counted.
    TooLarge,
}

/// An archive of any of the supported formats that was opened.
#[derive(Debug)]
pub enum OpenedArchive {
    Ar(ArArchive),
    Zip(ZipArchive),
    Tar(TarArchive),
    Cab(CabArchive),
    SingleFile(SingleFileArchive),
}

impl Archive for OpenedArchive {
    open spec fn spec_path(&self) -> Seq<char> {
        match self {
            OpenedArchive::Ar(archive) => archive.spec_path(),
            OpenedArchive::Zip(archive) => archive.spec_path(),
            OpenedArchive::Tar(archive) => archive.spec_path(),
            OpenedArchive::Cab(archive) => archive.spec_path(),
            OpenedArchive::SingleFile(archive) => archive.spec_path(),
        }
    }

    open spec fn spec_total_size(&self) -> Option<u64> {
        match self {
            OpenedArchive::Ar(archive) => archive.spec_total_size(),
            OpenedArchive::Zip(archive) => archive.spec_total_size(),
            OpenedArchive::Tar(archive) => archive.spec_total_size(),
            OpenedArchive::Cab(archive) => archive.spec_total_size(),
            OpenedArchive::SingleFile(archive) => archive.spec_total_size(),
        }
    }

    open spec fn spec_entry_name(&self, stored: Seq<char>) -> Seq<char> {
        match self {
            OpenedArchive::Ar(archive) => archive.spec_entry_name(stored),
            OpenedArchive::Zip(archive) => archive.spec_entry_name(stored),
            OpenedArchive::Tar(archive) => archive.spec_entry_name(stored),
            OpenedArchive::Cab(archive) => archive.spec_entry_name(stored),
            OpenedArchive::SingleFile(archive) => archive.spec_entry_name(stored),
        }
    }

    fn path(&self) -> (r: &str) {
        match self {
            OpenedArchive::Ar(archive) => archive.path(),
            OpenedArchive::Zip(archive) => archive.path(),
            OpenedArchive::Tar(archive) => archive.path(),
            OpenedArchive::Cab(archive) => archive.path(),
            OpenedArchive::SingleFile(archive) => archive.path(),
        }
    }

    fn total_size(&self) -> (r: Option<u64>) {
        match self {
            OpenedArchive::Ar(archive) => archive.total_size(),
            OpenedArchive::Zip(archive) => archive.total_size(),
            OpenedArchive::Tar(archive) => archive.total_size(),
            OpenedArchive::Cab(archive) => archive.total_size(),
            OpenedArchive::SingleFile(archive) => archive.total_size(),
        }
    }

    fn entry_name(&self, stored: &str) -> (r: String) {
        match self {
            OpenedArchive::Ar(archive) => archive.entry_name(stored),
            OpenedArchive::Zip(archive) => archive.entry_name(stored),
            OpenedArchive::Tar(archive) => archive.entry_name(stored),
            OpenedArchive::Cab(archive) => archive.entry_name(stored),
            OpenedArchive::SingleFile(archive) => archive.entry_name(stored),
        }
    }
}

/// The compression that an archive type of a tarball is read through.
pub open spec fn spec_tar_compression(ty: ArchiveType) -> Option<TarCompression> {
    match ty {
        ArchiveType::Tar => Some(TarCompression::Uncompressed),
        ArchiveType::TarGz => Some(TarCompression::Gzip),
        ArchiveType::TarXz => Some(TarCompression::Xz),
        ArchiveType::TarBz2 => Some(TarCompression::Bz2),
        _ => None,
    }
}

/// The compression of an archive type of a single compressed file.
pub open spec fn spec_single_file_compression(ty: ArchiveType) -> Option<Compression> {
    match ty {
        ArchiveType::SingleFileGz => Some(Compression::Gz),
        ArchiveType::SingleFileXz => Some(Compression::Xz),
        ArchiveType::SingleFileBz2 => Some(Compression::Bz2),
        _ => None,
    }
}

/// What opening an input as an archive of the type `ty` gives. The archive
/// is of the kind of the type, with the compression of the type, and lies at
/// `path`. A format with a directory has the sum of the listed sizes as its
/// total size, and is refused where they cannot be summed; any other has the
/// size of the file.
pub open spec fn is_opened_as(
    r: Result<OpenedArchive, OpenError>,
    ty: ArchiveType,
    path: Seq<char>,
    file_len: u64,
    files: Seq<ListedFile>,
) -> bool {
    let listed = ty == ArchiveType::Zip || ty == ArchiveType::Cab;
    match r {
        Err(e) => e == OpenError::TooLarge && listed && spec_total_size(files) > u64::MAX,
        Ok(opened) => {
            &&& opened.spec_path() == path
            &&& listed ==> spec_total_size(files) <= u64::MAX
            &&& opened.spec_total_size() == Some(
                if listed {
                    spec_total_size(files) as u64
                } else {
                    file_len
                },
            )
            &&& match opened {
                OpenedArchive::Ar(_) => ty == ArchiveType::Ar,
                OpenedArchive::Zip(_) => ty == ArchiveType::Zip,
                OpenedArchive::Tar(archive) => spec_tar_compression(ty) == Some(
                    archive.spec_compression(),
                ),
                OpenedArchive::Cab(archive) => ty == ArchiveType::Cab && archive.spec_files()
                    == self::cab::names_of(files) && archive.spec_offset() == 0,
                OpenedArchive::SingleFile(archive) => spec_single_file_compression(ty) == Some(
                    archive.spec_compression(),
                ),
            }
        },
    }
}

/// The sum of the sizes of listed files.
pub open spec fn spec_total_size(files: Seq<ListedFile>) -> nat
    decreases files.len(),
{
    if files.len() == 0 {
        0
    } else {
        spec_total_size(files.drop_last()) + files.last().size as nat
    }
}

/// The sizes of the first files of a listing add up to no more than those
/// of them all.
pub proof fn lemma_total_size_grows(files: Seq<ListedFile>, count: int)
    requires
        0 <= count <= files.len(),
    ensures
        spec_total_size(files.subrange(0, count)) <= spec_total_size(files),
    decreases files.len(),
{
    if count == files.len() {
        assert(files.subrange(0, count) =~= files);
    } else {
        lemma_total_size_grows(files.drop_last(), count);
        assert(files.drop_last().subrange(0, count) =~= files.subrange(0, count));
    }
}

/// The sum of the sizes of listed files, where it can be counted.
pub fn total_size_of(files: &Vec<ListedFile>) -> (r: Option<u64>)
    ensures
        match r {
            Some(total) => total == spec_total_size(files@),
            None => spec_total_size(files@) > u64::MAX,
        },
{
    let mut total: u64 = 0;
    let mut i: usize = 0;
    while i < files.len()
        invariant
            i <= files.len(),
            total == spec_total_size(files@.subrange(0, i as int)),
        decreases files.len() - i,
    {
        proof {
            let grown = files@.subrange(0, i + 1);
            assert(grown.drop_last() =~= files@.subrange(0, i as int));
            assert(grown.last() == files@[i as int]);
            lemma_total_size_grows(files@, i + 1);
        }
        match total.checked_add(files[i].size) {
            Some(sum) => {
                total = sum;
            },
            None => {
                return None;
            },
        }
        i += 1;
    }
    assert(files@.subrange(0, files.len() as int) =~= files@);
    Some(total)
}

/// Whether a mimetype is one of the base types that say nothing of a format.
pub open spec fn is_base_type(mimetype: Seq<char>) -> bool {
    ||| mimetype == "all/all"@
    ||| mimetype == "all/allfiles"@
    ||| mimetype == "inode/directory"@
    ||| mimetype == "text/plain"@
    ||| mimetype == "application/octet-stream"@
}

/// The place of the first parent that is no base type, or the number of
/// parents where all of them are.
pub open spec fn first_informative(parents: Seq<String>, from: int) -> int
    decreases parents.len() - from,
{
    if from < 0 || from >= parents.len() {
        parents.len() as int
    } else if !is_base_type(parents[from]@) {
        from
    } else {
        first_informative(parents, from + 1)
    }
}

/// The mimetype that stands for a sniffed one: the first of its parents
/// that is no base type, and the sniffed mimetype itself where it has no
/// such parent.
pub open spec fn spec_normalize_mimetype(mimetype: Seq<char>, parents: Seq<String>) -> Seq<char> {
    let at = first_informative(parents, 0);
    if at < parents.len() {
        parents[at]@
    } else {
        mimetype
    }
}

/// The container that a mimetype names, if it names one.
pub open spec fn spec_container_for_mimetype(mimetype: Seq<char>) -> Option<ArchiveType> {
    if mimetype == "application/zip"@ {
        Some(ArchiveType::Zip)
    } else if mimetype == "application/x-tar"@ {
        Some(ArchiveType::Tar)
    } else if mimetype == "application/x-archive"@ {
        Some(ArchiveType::Ar)
    } else if mimetype == "application/vnd.ms-cab-compressed"@ {
        Some(ArchiveType::Cab)
    } else {
        None
    }
}

/// What is found behind a compression: the tarball type of the compression
/// where the decompressed content is a tarball, and nothing else.
pub open spec fn spec_behind_compression(compression: Compression, inner: Seq<char>) -> Option<
    ArchiveType,
> {
    match spec_container_for_mimetype(inner) {
        Some(container) => compression.spec_as_archive_type(Some(container)),
        None => None,
    }
}

/// The archive type that the content gives. `outer` is the mimetype of the
/// content, `inner` that of what it holds when decompressed, where that
/// could be read. A container is taken at once. A compression gives the
/// tarball type where a tarball is behind it, and its single-file type
/// otherwise.
pub open spec fn spec_by_mimetypes(outer: Seq<char>, inner: Option<Seq<char>>) -> Option<
    ArchiveType,
> {
    match spec_container_for_mimetype(outer) {
        Some(container) => Some(container),
        None => match Compression::spec_for_mimetype(outer) {
            None => None,
            Some(compression) => {
                let behind = match inner {
                    Some(mimetype) => spec_behind_compression(compression, mimetype),
                    None => None,
                };
                match behind {
                    Some(found) => Some(found),
                    None => compression.spec_as_archive_type(None),
                }
            },
        },
    }
}

/// The archive type that the ending of a file name gives: the first rule
/// that fits, in this order, without regard to the case of letters.
pub open spec fn spec_by_suffix(name: Seq<char>) -> Option<ArchiveType> {
    if spec_ends_with_folded(name, ".a"@) || spec_ends_with_folded(name, ".ar"@) {
        Some(ArchiveType::Ar)
    } else if spec_ends_with_folded(name, ".zip"@) {
        Some(ArchiveType::Zip)
    } else if spec_ends_with_folded(name, ".tar"@) {
        Some(ArchiveType::Tar)
    } else if spec_ends_with_folded(name, ".tar.gz"@) || spec_ends_with_folded(name, ".tgz"@) {
        Some(ArchiveType::TarGz)
    } else if spec_ends_with_folded(name, ".tar.xz"@) || spec_ends_with_folded(name, ".txz"@) {
        Some(ArchiveType::TarXz)
    } else if spec_ends_with_folded(name, ".tar.bz2"@) || spec_ends_with_folded(name, ".tbz2"@)
        || spec_ends_with_folded(name, ".tbz"@) {
        Some(ArchiveType::TarBz2)
    } else {
        None
    }
}

/// The archive type that the file name of a path gives.
pub open spec fn spec_by_filename(path: Seq<char>) -> Option<ArchiveType> {
    match spec_file_name(path) {
        Some(name) => spec_by_suffix(name),
        None => None,
    }
}

/// The archive type of an input. `sniffed` holds the mimetypes of the
/// content, where the content could be read: its own, and that of what it
/// holds when decompressed. The content decides where it says anything; the
/// file name decides otherwise.
pub open spec fn spec_for_path(
    sniffed: Option<(Seq<char>, Option<Seq<char>>)>,
    path: Seq<char>,
) -> Option<ArchiveType> {
    let by_content = match sniffed {
        Some((outer, inner)) => spec_by_mimetypes(outer, inner),
        None => None,
    };
    match by_content {
        Some(found) => Some(found),
        None => spec_by_filename(path),
    }
}

/// The description of an archive type.
pub open spec fn spec_description(ty: ArchiveType) -> Seq<char> {
    match ty {
        ArchiveType::Ar => "unix ar archive"@,
        ArchiveType::Zip => "zip archive"@,
        ArchiveType::Tar => "uncompressed tarball"@,
        ArchiveType::TarGz => "gzip-compressed tarball"@,
        ArchiveType::TarXz => "xz-compressed tarball"@,
        ArchiveType::TarBz2 => "bzip2-compressed tarball"@,
        ArchiveType::Cab => "cabinet archive"@,
        ArchiveType::SingleFileGz => "gzip-compressed file"@,
        ArchiveType::SingleFileBz2 => "bzip2-compressed file"@,
        ArchiveType::SingleFileXz => "xz-compressed file"@,
    }
}

/// Content whose mimetype names a container is of that container's type,
/// whatever the file is called and whatever stands behind a compression.
pub proof fn lemma_container_by_content(
    outer: Seq<char>,
    inner: Option<Seq<char>>,
    path: Seq<char>,
)
    requires
        spec_container_for_mimetype(outer) is Some,
    ensures
        spec_for_path(Some((outer, inner)), path) == spec_container_for_mimetype(outer),
{
}

/// A compressed tarball is of the tarball type of its compression, never of
/// the single-file type, whatever the file is called: a tarball behind gzip
/// is a gzip-compressed tarball.
pub proof fn lemma_compressed_tarball(outer: Seq<char>, inner: Seq<char>, path: Seq<char>)
    requires
        Compression::spec_for_mimetype(outer) is Some,
        spec_container_for_mimetype(inner) == Some(ArchiveType::Tar),
    ensures
        spec_for_path(Some((outer, Some(inner))), path) is Some,
        spec_for_path(Some((outer, Some(inner))), path) == Compression::spec_for_mimetype(
            outer,
        )->0.spec_as_archive_type(Some(ArchiveType::Tar)),
        spec_for_path(Some((outer, Some(inner))), path) != Compression::spec_for_mimetype(
            outer,
        )->0.spec_as_archive_type(None),
        Compression::spec_for_mimetype(outer) == Some(Compression::Gz) ==> spec_for_path(
            Some((outer, Some(inner))),
            path,
        ) == Some(ArchiveType::TarGz),
{
    reveal_strlit("application/gzip");
    reveal_strlit("application/x-xz");
    reveal_strlit("application/bzip2");
    reveal_strlit("application/zip");
    reveal_strlit("application/x-tar");
    reveal_strlit("application/x-archive");
    reveal_strlit("application/vnd.ms-cab-compressed");
    if outer == "application/gzip"@ {
        assert(outer.len() == 16);
        assert(outer[14] == 'i');
    } else if outer == "application/x-xz"@ {
        assert(outer.len() == 16);
        assert(outer[14] == 'x');
    } else {
        assert(outer == "application/bzip2"@);
        assert(outer.len() == 17);
        assert(outer[12] == 'b');
    }
    assert(spec_container_for_mimetype(outer) is None);
}

/// Asks `tree_magic::from_u8` for the mimetype of `bytes`. Nothing is
/// stated of the answer: it follows the sniffer's tables and the order in
/// which it walks them.
#[verifier::external_body]
fn sniff_mimetype(bytes: &[u8]) -> (r: String) {
    tree_magic::from_u8(bytes).to_string()
}

/// The parents of `mimetype` in the sniffer's graph, `tree_magic::TYPE`: the
/// neighbours that `neighbors_directed` lists along incoming edges, in its
/// order. None for a mimetype that the graph does not hold. Nothing is
/// stated of the answer.
#[verifier::external_body]
fn mimetype_parents(mimetype: &str) -> (r: Vec<String>) {
    let types = &tree_magic::TYPE;
    match types.hash.get(mimetype) {
        Some(node) => types.graph.neighbors_directed(*node, petgraph::Direction::Incoming).map(
            |parent| types.graph[parent].to_string(),
        ).collect(),
        None => Vec::new(),
    }
}

/// Whether a mimetype is one of the base types.
pub fn is_base_mimetype(mimetype: &str) -> (r: bool)
    ensures
        r == is_base_type(mimetype@),
{
    same_text(mimetype, "all/all") || same_text(mimetype, "all/allfiles") || same_text(
        mimetype,
        "inode/directory",
    ) || same_text(mimetype, "text/plain") || same_text(mimetype, "application/octet-stream")
}

/// Walks up from a sniffed mimetype to the one that stands for it: to the
/// first of `parents` that is no base type.
pub fn normalize_mimetype(mimetype: String, parents: &Vec<String>) -> (r: String)
    ensures
        r@ == spec_normalize_mimetype(mimetype@, parents@),
{
    let mut i: usize = 0;
    while i < parents.len()
        invariant
            i <= parents.len(),
            first_informative(parents@, 0) == first_informative(parents@, i as int),
        decreases parents.len() - i,
    {
        if !is_base_mimetype(parents[i].as_str()) {
            return parents[i].clone();
        }
        i += 1;
    }
    mimetype
}

/// The mimetype that stands for the content of `bytes`: the sniffer's answer,
/// walked up by `normalize_mimetype`. That answer is not stated, so nothing is.
pub fn get_mimetype(bytes: &[u8]) -> (r: String) {
    let mimetype = sniff_mimetype(bytes);
    let parents = mimetype_parents(mimetype.as_str());
    normalize_mimetype(mimetype, &parents)
}

/// The container that a mimetype names, if it names one.
pub fn container_for_mimetype(mimetype: &str) -> (r: Option<ArchiveType>)
    ensures
        r == spec_container_for_mimetype(mimetype@),
{
    if same_text(mimetype, "application/zip") {
        Some(ArchiveType::Zip)
    } else if same_text(mimetype, "application/x-tar") {
        Some(ArchiveType::Tar)
    } else if same_text(mimetype, "application/x-archive") {
        Some(ArchiveType::Ar)
    } else if same_text(mimetype, "application/vnd.ms-cab-compressed") {
        Some(ArchiveType::Cab)
    } else {
        None
    }
}

/// The text of an optional text.
pub open spec fn text_of(s: Option<&str>) -> Option<Seq<char>> {
    match s {
        Some(s) => Some(s@),
        None => None,
    }
}

/// What sniffing the content of an input gave: the mimetype of the content
/// and, where that names a compression, the mimetype of what the content
/// holds when decompressed.
#[derive(Debug)]
pub struct Sniffed {
    pub outer: String,
    pub inner: Option<String>,
}

impl Sniffed {
    /// The two mimetypes as texts.
    pub open spec fn mimetypes(&self) -> (Seq<char>, Option<Seq<char>>) {
        (
            self.outer@,
            match self.inner {
                Some(inner) => Some(inner@),
                None => None,
            },
        )
    }
}

/// The mimetypes of what was sniffed, where anything was.
pub open spec fn mimetypes_of(sniffed: Option<&Sniffed>) -> Option<(Seq<char>, Option<Seq<char>>)> {
    match sniffed {
        Some(sniffed) => Some(sniffed.mimetypes()),
        None => None,
    }
}

impl ArchiveType {
    /// Determines the archive type of an input from the start of its content
    /// and from its path. `content` is `None` where the input could not be
    /// read; only its first `SNIFF_LIMIT` bytes are looked at.
    ///
    /// The content is handed to the sniffer, and what that answers is not
    /// stated: the result is what `for_sniffed` gives for the answer.
    /// Without content the file name alone decides, and a file name that
    /// names a format always gives a type.
    pub fn for_path(path: &str, content: Option<&[u8]>) -> (r: Option<ArchiveType>)
        ensures
            content is None ==> r == spec_by_filename(path@),
            spec_by_filename(path@) is Some ==> r is Some,
            exists|sniffed: Option<(Seq<char>, Option<Seq<char>>)>|
                (content is None <==> sniffed is None) && r == #[trigger] spec_for_path(
                    sniffed,
                    path@,
                ),
    {
        match content {
            Some(bytes) => {
                let start = if bytes.len() <= SNIFF_LIMIT {
                    bytes
                } else {
                    slice_subrange(bytes, 0, SNIFF_LIMIT)
                };
                let sniffed = Self::sniff(start);
                let r = Self::for_sniffed(Some(&sniffed), path);
                assert(r == spec_for_path(Some(sniffed.mimetypes()), path@));
                r
            },
            None => {
                let r = Self::for_sniffed(None, path);
                assert(r == spec_for_path(None, path@));
                r
            },
        }
    }

    /// Sniffs the content of `bytes`: its mimetype and, where that names a
    /// compression and the bytes can be decompressed, the mimetype of the
    /// start of what they hold. What the sniffer answers is not stated.
    pub fn sniff(bytes: &[u8]) -> (r: Sniffed)
        ensures
            r.inner is Some <==> Compression::spec_for_mimetype(r.outer@) is Some
                && Compression::spec_for_mimetype(r.outer@)->0.spec_decompress(
                bytes@,
                SNIFF_LIMIT as nat,
            ) is Some,
    {
        let outer = get_mimetype(bytes);
        let inner = match Compression::for_mimetype(outer.as_str()) {
            Some(compression) => Self::mimetype_behind_compression(bytes, compression),
            None => None,
        };
        Sniffed { outer, inner }
    }

    /// The archive type that the file name of a path gives.
    pub fn determine_by_filename(path: &str) -> (r: Option<ArchiveType>)
        ensures
            r == spec_by_filename(path@),
    {
        match file_name(path) {
            Some(name) => Self::by_suffix(name),
            None => None,
        }
    }

    /// The archive type that the ending of a file name gives.
    pub fn by_suffix(name: &str) -> (r: Option<ArchiveType>)
        ensures
            r == spec_by_suffix(name@),
    {
        if ends_with_folded(name, ".a") || ends_with_folded(name, ".ar") {
            Some(ArchiveType::Ar)
        } else if ends_with_folded(name, ".zip") {
            Some(ArchiveType::Zip)
        } else if ends_with_folded(name, ".tar") {
            Some(ArchiveType::Tar)
        } else if ends_with_folded(name, ".tar.gz") || ends_with_folded(name, ".tgz") {
            Some(ArchiveType::TarGz)
        } else if ends_with_folded(name, ".tar.xz") || ends_with_folded(name, ".txz") {
            Some(ArchiveType::TarXz)
        } else if ends_with_folded(name, ".tar.bz2") || ends_with_folded(name, ".tbz2")
            || ends_with_folded(name, ".tbz") {
            Some(ArchiveType::TarBz2)
        } else {
            None
        }
    }

    /// The archive type that the content of `bytes` gives. The content is
    /// handed to the sniffer, and what that answers is not stated: the
    /// result is what `by_mimetypes` gives for the answer.
    pub fn determine_by_magic(bytes: &[u8]) -> (r: Option<ArchiveType>)
        ensures
            exists|outer: Seq<char>, inner: Option<Seq<char>>|
                r == #[trigger] spec_by_mimetypes(outer, inner),
    {
        let sniffed = Self::sniff(bytes);
        let r = match &sniffed.inner {
            Some(inner) => Self::by_mimetypes(sniffed.outer.as_str(), Some(inner.as_str())),
            None => Self::by_mimetypes(sniffed.outer.as_str(), None),
        };
        assert(r == spec_by_mimetypes(sniffed.mimetypes().0, sniffed.mimetypes().1));
        r
    }

    /// The mimetype of what `bytes` hold under `compression`: the start of
    /// it is decompressed and sniffed. `None` where it cannot be
    /// decompressed.
    pub fn mimetype_behind_compression(bytes: &[u8], compression: Compression) -> (r: Option<
        String,
    >)
        ensures
            r is None <==> compression.spec_decompress(bytes@, SNIFF_LIMIT as nat) is None,
    {
        match compression.decompress(bytes, SNIFF_LIMIT) {
            Some(data) => Some(get_mimetype(data.as_slice())),
            None => None,
        }
    }

    /// What is found behind `compression` where the decompressed content
    /// has the mimetype `inner`.
    pub fn determine_behind_compression(compression: Compression, inner: &str) -> (r: Option<
        ArchiveType,
    >)
        ensures
            r == spec_behind_compression(compression, inner@),
    {
        match container_for_mimetype(inner) {
            Some(container) => compression.as_archive_type(Some(container)),
            None => None,
        }
    }

    /// The archive type that sniffed content gives: `outer` is the mimetype
    /// of the content, `inner` that of what it holds when decompressed.
    pub fn by_mimetypes(outer: &str, inner: Option<&str>) -> (r: Option<ArchiveType>)
        ensures
            r == spec_by_mimetypes(outer@, text_of(inner)),
    {
        match container_for_mimetype(outer) {
            Some(container) => Some(container),
            None => match Compression::for_mimetype(outer) {
                None => None,
                Some(compression) => {
                    let behind = match inner {
                        Some(mimetype) => Self::determine_behind_compression(
                            compression,
                            mimetype,
                        ),
                        None => None,
                    };
                    match behind {
                        Some(found) => Some(found),
                        None => compression.as_archive_type(None),
                    }
                },
            },
        }
    }

    /// The archive type of an input whose content was sniffed: the content
    /// decides where it says anything, the file name of `path` otherwise.
    /// `sniffed` is `None` where there was no content to go by.
    pub fn for_sniffed(sniffed: Option<&Sniffed>, path: &str) -> (r: Option<ArchiveType>)
        ensures
            r == spec_for_path(mimetypes_of(sniffed), path@),
    {
        let by_content = match sniffed {
            Some(sniffed) => match &sniffed.inner {
                Some(inner) => Self::by_mimetypes(sniffed.outer.as_str(), Some(inner.as_str())),
                None => Self::by_mimetypes(sniffed.outer.as_str(), None),
            },
            None => None,
        };
        match by_content {
            Some(found) => Some(found),
            None => Self::determine_by_filename(path),
        }
    }

    /// Opens the input at `path` as an archive of this type. `file_len` is
    /// the size of the file, `files` what the directory of the archive
    /// lists, for the formats that have one.
    pub fn open(self, path: &str, file_len: u64, files: &Vec<ListedFile>) -> (r: Result<
        OpenedArchive,
        OpenError,
    >)
        ensures
            is_opened_as(r, self, path@, file_len, files@),
    {
        match self {
            ArchiveType::Ar => Ok(OpenedArchive::Ar(ArArchive::open(path, file_len))),
            ArchiveType::Zip => match ZipArchive::open(path, files) {
                Ok(archive) => Ok(OpenedArchive::Zip(archive)),
                Err(e) => Err(e),
            },
            ArchiveType::Tar => Ok(
                OpenedArchive::Tar(TarArchive::open(path, file_len, TarCompression::Uncompressed)),
            ),
            ArchiveType::TarGz => Ok(
                OpenedArchive::Tar(TarArchive::open(path, file_len, TarCompression::Gzip)),
            ),
            ArchiveType::TarXz => Ok(
                OpenedArchive::Tar(TarArchive::open(path, file_len, TarCompression::Xz)),
            ),
            ArchiveType::TarBz2 => Ok(
                OpenedArchive::Tar(TarArchive::open(path, file_len, TarCompression::Bz2)),
            ),
            ArchiveType::Cab => match CabArchive::from_cab_and_path(files, path, 0) {
                Ok(archive) => Ok(OpenedArchive::Cab(archive)),
                Err(_) => Err(OpenError::TooLarge),
            },
            ArchiveType::SingleFileGz => Ok(
                OpenedArchive::SingleFile(SingleFileArchive::open(path, file_len, Compression::Gz)),
            ),
            ArchiveType::SingleFileBz2 => Ok(
                OpenedArchive::SingleFile(
                    SingleFileArchive::open(path, file_len, Compression::Bz2),
                ),
            ),
            ArchiveType::SingleFileXz => Ok(
                OpenedArchive::SingleFile(SingleFileArchive::open(path, file_len, Compression::Xz)),
            ),
        }
    }

    /// Every archive type, in the order of their declaration.
    pub fn all() -> (r: Vec<ArchiveType>)
        ensures
            r@ == seq![
                ArchiveType::Ar,
                ArchiveType::Zip,
                ArchiveType::Tar,
                ArchiveType::TarGz,
                ArchiveType::TarXz,
                ArchiveType::TarBz2,
                ArchiveType::Cab,
                ArchiveType::SingleFileGz,
                ArchiveType::SingleFileXz,
                ArchiveType::SingleFileBz2,
            ],
    {
        let mut types: Vec<ArchiveType> = Vec::new();
        types.push(ArchiveType::Ar);
        types.push(ArchiveType::Zip);
        types.push(ArchiveType::Tar);
        types.push(ArchiveType::TarGz);
        types.push(ArchiveType::TarXz);
        types.push(ArchiveType::TarBz2);
        types.push(ArchiveType::Cab);
        types.push(ArchiveType::SingleFileGz);
        types.push(ArchiveType::SingleFileXz);
        types.push(ArchiveType::SingleFileBz2);
        assert(types@ =~= seq![
            ArchiveType::Ar,
            ArchiveType::Zip,
            ArchiveType::Tar,
            ArchiveType::TarGz,
            ArchiveType::TarXz,
            ArchiveType::TarBz2,
            ArchiveType::Cab,
            ArchiveType::SingleFileGz,
            ArchiveType::SingleFileXz,
            ArchiveType::SingleFileBz2,
        ]);
        types
    }

    /// The description of the archive type, as it is shown to a user.
    pub fn to_string(&self) -> (r: String)
        ensures
            r@ == spec_description(*self),
    {
        let text = match self {
            ArchiveType::Ar => "unix ar archive",
            ArchiveType::Zip => "zip archive",
            ArchiveType::Tar => "uncompressed tarball",
            ArchiveType::TarGz => "gzip-compressed tarball",
            ArchiveType::TarXz => "xz-compressed tarball",
            ArchiveType::TarBz2 => "bzip2-compressed tarball",
            ArchiveType::Cab => "cabinet archive",
            ArchiveType::SingleFileGz => "gzip-compressed file",
            ArchiveType::SingleFileBz2 => "bzip2-compressed file",
            ArchiveType::SingleFileXz => "xz-compressed file",
        };
        String::from_str(text)
    }
}

} // verus!
