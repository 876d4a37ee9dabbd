//! The workspace that an archive is unpacked into, and what becomes of each
//! entry of the archive.

use vstd::prelude::*;

use crate::paths::{
    components, current_component, file_stem, is_plain_name, is_safe_entry_path, join,
    lemma_file_stem_is_plain, lemma_safe_entry_stays_inside, lemma_split_joined, parent,
    parent_component, resolve, spec_file_name,
    spec_file_stem, spec_is_safe_entry_path, spec_join, spec_parent, trim_trailing_separators,
    without_trailing_separators,
};
use crate::utils::{
    is_rename_without_conflict, is_scratch_name, lemma_scratch_name_is_plain,
    rename_resolving_conflict, scratch_name, IoFailure, Rename, RenameError, ScratchProbe,
    TempDirectory,
};

verus! {

/// An archive that was opened: where it lies, how much it holds, and how it
/// writes the names of its entries.
pub trait Archive {
    /// The path to the archive.
    spec fn spec_path(&self) -> Seq<char>;

    /// The total size of the archive in bytes, where it is known.
    spec fn spec_total_size(&self) -> Option<u64>;

    /// The name of an entry as the workspace writes it, from the name that
    /// the archive stores.
    spec fn spec_entry_name(&self, stored: Seq<char>) -> Seq<char>;

    /// The path to the archive.
    fn path(&self) -> (r: &str)
        ensures
            r@ == self.spec_path(),
    ;

    /// The total size of the archive in bytes, where it is known.
    fn total_size(&self) -> (r: Option<u64>)
        ensures
            r == self.spec_total_size(),
    ;

    /// The name of an entry as the workspace writes it.
    fn entry_name(&self, stored: &str) -> (r: String)
        ensures
            r@ == self.spec_entry_name(stored@),
    ;
}

/// An entry of an archive, as the archive lists it.
#[derive(Debug)]
pub struct ArchiveEntry {
    /// The name as the archive stores it.
    pub name: String,
    /// Whether the entry is a directory.
    pub directory: bool,
}

/// What is done with an entry of an archive.
#[derive(Debug)]
pub enum EntryAction {
    /// The entry is passed over: its name leads out of the workspace.
    Skip,
    /// The directory at `path` is made sure to exist.
    CreateDirectory { path: String },
    /// The content of the entry is written to the file at `path`.
    WriteFile { path: String },
}

/// Whether `action` is what is done with an entry of the name `name` in a
/// workspace at `scratch`. An entry whose name is not safe is skipped; any
/// other goes to its name below `scratch`.
pub open spec fn is_action_for(
    action: EntryAction,
    scratch: Seq<char>,
    name: Seq<char>,
    directory: bool,
) -> bool {
    match action {
        EntryAction::Skip => !spec_is_safe_entry_path(name),
        EntryAction::CreateDirectory { path } => spec_is_safe_entry_path(name) && directory
            && path@ == spec_join(scratch, name),
        EntryAction::WriteFile { path } => spec_is_safe_entry_path(name) && !directory && path@
            == spec_join(scratch, name),
    }
}

/// Whatever is made or written for an entry lies below the scratch
/// directory: its path leads nowhere else.
pub proof fn lemma_actions_stay_inside(
    action: EntryAction,
    scratch: Seq<char>,
    name: Seq<char>,
    directory: bool,
)
    requires
        is_action_for(action, scratch, name, directory),
    ensures
        match action {
            EntryAction::Skip => true,
            EntryAction::CreateDirectory { path } => resolve(components(scratch)).is_prefix_of(
                resolve(components(path@)),
            ),
            EntryAction::WriteFile { path } => resolve(components(scratch)).is_prefix_of(
                resolve(components(path@)),
            ),
        },
{
    if !(action is Skip) {
        lemma_safe_entry_stays_inside(scratch, name);
    }
}

/// What reading from the source of a copy gave.
#[derive(Copy, Clone, Debug, PartialEq, Eq, Structural)]
pub enum ReadOutcome {
    /// So many bytes were read; none at the end of the source.
    Data(usize),
    /// The read failed.
    Failed(IoFailure),
}

/// The next step of a copy.
#[derive(Copy, Clone, Debug, PartialEq, Eq, Structural)]
pub enum CopyStep {
    /// The source is at its end: so many bytes were copied in all.
    Finished { written: u64 },
    /// The bytes just read are written; so many are copied with them.
    Write { len: usize, written: u64 },
    /// The read is made again.
    Retry,
    /// The copy ends with the failure of the read.
    Fail(IoFailure),
}

/// The sum of two counts of bytes, held at the largest count where it would
/// pass it.
pub open spec fn spec_add_bytes(a: u64, b: int) -> u64 {
    if a + b > u64::MAX {
        u64::MAX
    } else {
        (a + b) as u64
    }
}

/// A file that is to be written: its path, and the directory that has to
/// exist before.
#[derive(Debug)]
pub struct FileTarget {
    pub path: String,
    pub directory: Option<String>,
}

/// What committing a workspace comes to: the rename that publishes its
/// content, and the scratch directory that is removed after it.
#[derive(Debug)]
pub struct Publication {
    pub rename: Rename,
    pub scratch: TempDirectory,
}

/// The rename that a commit decided on, or why it decided on none.
pub open spec fn rename_of(r: Result<Publication, RenameError>) -> Result<Rename, RenameError> {
    match r {
        Ok(publication) => Ok(publication.rename),
        Err(e) => Err(e),
    }
}

/// The workspace of one archive: its scratch directory, where its content
/// goes in the end, and how far unpacking has come.
#[derive(Debug)]
pub struct UnpackHelper {
    archive_base: String,
    dst: String,
    tmp: TempDirectory,
    total_size: Option<u64>,
    position: u64,
    message: String,
}

/// The name that the content of an archive is published under where it is
/// not a single item: the stem of the archive's file name, and `Archive`
/// where the path has none.
pub open spec fn archive_base_of(path: Seq<char>) -> Seq<char> {
    match spec_file_stem(path) {
        Some(stem) => stem,
        None => "Archive"@,
    }
}

/// What is moved when a workspace is committed: the one item in the scratch
/// directory, or the scratch directory itself where it holds none or more.
pub open spec fn spec_commit_source(scratch: Seq<char>, children: Seq<String>) -> Seq<char> {
    if children.len() == 1 {
        spec_join(scratch, children[0]@)
    } else {
        scratch
    }
}

/// Where a committed workspace is meant to go: the one item under its own
/// name, anything else under the name of the archive.
pub open spec fn spec_commit_target(
    dst: Seq<char>,
    archive_base: Seq<char>,
    children: Seq<String>,
) -> Seq<char> {
    if children.len() == 1 {
        spec_join(dst, children[0]@)
    } else {
        spec_join(dst, archive_base)
    }
}

/// The name that an archive is published under is a plain name, unless the
/// stem of the archive's file name is one of the two components that name
/// no file.
pub proof fn lemma_archive_base_is_plain(path: Seq<char>)
    ensures
        archive_base_of(path) == current_component() || archive_base_of(path)
            == parent_component() || is_plain_name(archive_base_of(path)),
{
    if spec_file_stem(path) is Some {
        lemma_file_stem_is_plain(path);
    } else {
        reveal_strlit("Archive");
        let name = "Archive"@;
        assert(name.len() == 7);
        assert(current_component().len() == 1);
        assert(parent_component().len() == 2);
        assert(!name.contains('/')) by {
            if name.contains('/') {
                let i = choose|i: int| 0 <= i < name.len() && name[i] == '/';
                assert(name[i] != '/');
            }
        }
    }
}

/// A single item is published under its own name in the destination, not
/// inside a directory named after the archive.
pub proof fn lemma_single_item_is_flattened(
    scratch: Seq<char>,
    dst: Seq<char>,
    archive_base: Seq<char>,
    children: Seq<String>,
)
    requires
        children.len() == 1,
        is_plain_name(children[0]@),
    ensures
        spec_file_name(spec_commit_source(scratch, children)) == Some(children[0]@),
        spec_parent(spec_commit_source(scratch, children)) == Some(
            without_trailing_separators(scratch),
        ),
        spec_file_name(spec_commit_target(dst, archive_base, children)) == Some(children[0]@),
        spec_parent(spec_commit_target(dst, archive_base, children)) == Some(
            without_trailing_separators(dst),
        ),
{
    lemma_split_joined(scratch, children[0]@);
    lemma_split_joined(dst, children[0]@);
}

/// Several items, or none, are published as one directory: the scratch
/// directory itself, under the name of the archive in the destination.
pub proof fn lemma_several_items_share_a_directory(
    scratch: Seq<char>,
    dst: Seq<char>,
    archive_base: Seq<char>,
    children: Seq<String>,
)
    requires
        children.len() != 1,
        is_plain_name(archive_base),
    ensures
        spec_commit_source(scratch, children) == scratch,
        spec_file_name(spec_commit_target(dst, archive_base, children)) == Some(archive_base),
        spec_parent(spec_commit_target(dst, archive_base, children)) == Some(
            without_trailing_separators(dst),
        ),
{
    lemma_split_joined(dst, archive_base);
}

impl UnpackHelper {
    /// The name of the archive without its ending.
    pub closed spec fn spec_archive_base(&self) -> Seq<char> {
        self.archive_base@
    }

    /// The directory that the content is published into.
    pub closed spec fn spec_destination(&self) -> Seq<char> {
        self.dst@
    }

    /// The path of the scratch directory.
    pub closed spec fn spec_path(&self) -> Seq<char> {
        self.tmp.spec_path()
    }

    /// The size that the progress runs up to, where it is known.
    pub closed spec fn spec_total_size(&self) -> Option<u64> {
        self.total_size
    }

    /// How many bytes were copied so far.
    pub closed spec fn spec_position(&self) -> u64 {
        self.position
    }

    /// The name of the file that is being worked on.
    pub closed spec fn spec_message(&self) -> Seq<char> {
        self.message@
    }

    /// Names the two places where the scratch directory of a workspace that
    /// publishes into `dst` may lie: one in `temp_root`, the system's area
    /// for temporary files, and one in `dst` itself, both under the same
    /// fresh name. The probe speaks of a hidden item in `dst`, so that `dst`
    /// is the directory whose file system the rename is tried on.
    pub fn scratch_probe(dst: &str, temp_root: &str) -> (r: ScratchProbe)
        ensures
            r.parent@ == without_trailing_separators(dst@),
            spec_parent(r.dst@) == Some(r.parent@),
            exists|inside: Seq<char>|
                is_scratch_name(inside) && r.dst@ == #[trigger] spec_join(dst@, inside),
            exists|name: Seq<char>|
                {
                    &&& is_scratch_name(name)
                    &&& r.candidate@ == #[trigger] spec_join(temp_root@, name)
                    &&& r.sibling@ == spec_join(r.parent@, name)
                    &&& spec_file_name(r.candidate@) == Some(name)
                    &&& spec_file_name(r.sibling@) == Some(name)
                },
    {
        let inside = scratch_name();
        let full = join(dst, inside.as_str());
        let directory = String::from_str(trim_trailing_separators(dst));
        let name = scratch_name();
        let candidate = join(temp_root, name.as_str());
        let sibling = join(directory.as_str(), name.as_str());
        proof {
            lemma_scratch_name_is_plain(inside@);
            lemma_scratch_name_is_plain(name@);
            lemma_split_joined(dst@, inside@);
            lemma_split_joined(temp_root@, name@);
            lemma_split_joined(directory@, name@);
        }
        ScratchProbe { dst: full, parent: directory, candidate, sibling }
    }

    /// Creates an unpack helper for an archive. `dst` is the directory that
    /// the content is published into, `tmp` the scratch directory.
    pub fn create<A: Archive>(archive: &A, dst: &str, tmp: TempDirectory) -> (r: UnpackHelper)
        ensures
            r.spec_archive_base() == archive_base_of(archive.spec_path()),
            r.spec_destination() == dst@,
            r.spec_path() == tmp.spec_path(),
            r.spec_total_size() == archive.spec_total_size(),
            r.spec_position() == 0,
            r.spec_message() == Seq::<char>::empty(),
    {
        let archive_base = match file_stem(archive.path()) {
            Some(stem) => String::from_str(stem),
            None => String::from_str("Archive"),
        };
        UnpackHelper {
            archive_base,
            dst: String::from_str(dst),
            tmp,
            total_size: archive.total_size(),
            position: 0,
            message: String::new(),
        }
    }

    /// Reports the temporary scratchpad path.
    pub fn path(&self) -> (r: &str)
        ensures
            r@ == self.spec_path(),
    {
        self.tmp.path()
    }

    /// The directory that the content is published into.
    pub fn destination(&self) -> (r: &str)
        ensures
            r@ == self.spec_destination(),
    {
        self.dst.as_str()
    }

    /// The name that the content is published under where it is not a
    /// single item.
    pub fn archive_base(&self) -> (r: &str)
        ensures
            r@ == self.spec_archive_base(),
    {
        self.archive_base.as_str()
    }

    /// Whether the progress runs up to a known size. Without one only the
    /// file that is worked on can be shown.
    pub fn is_determinate(&self) -> (r: bool)
        ensures
            r == self.spec_total_size() is Some,
    {
        self.total_size.is_some()
    }

    /// The size that the progress runs up to, where it is known.
    pub fn total_size(&self) -> (r: Option<u64>)
        ensures
            r == self.spec_total_size(),
    {
        self.total_size
    }

    /// How many bytes were copied so far.
    pub fn position(&self) -> (r: u64)
        ensures
            r == self.spec_position(),
    {
        self.position
    }

    /// The name of the file that is being worked on.
    pub fn message(&self) -> (r: &str)
        ensures
            r@ == self.spec_message(),
    {
        self.message.as_str()
    }

    /// Reports operating on a file.
    pub fn report_file(&mut self, filename: &str)
        ensures
            final(self).spec_message() == filename@,
            final(self).spec_archive_base() == old(self).spec_archive_base(),
            final(self).spec_destination() == old(self).spec_destination(),
            final(self).spec_path() == old(self).spec_path(),
            final(self).spec_total_size() == old(self).spec_total_size(),
            final(self).spec_position() == old(self).spec_position(),
    {
        self.message = String::from_str(filename);
    }

    /// Counts bytes that were copied. The count stays at the largest that it
    /// can hold.
    pub fn advance(&mut self, bytes: u64)
        ensures
            final(self).spec_position() == spec_add_bytes(old(self).spec_position(), bytes as int),
            final(self).spec_message() == old(self).spec_message(),
            final(self).spec_archive_base() == old(self).spec_archive_base(),
            final(self).spec_destination() == old(self).spec_destination(),
            final(self).spec_path() == old(self).spec_path(),
            final(self).spec_total_size() == old(self).spec_total_size(),
    {
        self.position = self.position.saturating_add(bytes);
    }

    /// Names the file in the workspace that `filename` is written to, and
    /// the directory that has to exist for it. Reports the file.
    pub fn write_file(&mut self, filename: &str) -> (r: FileTarget)
        ensures
            r.path@ == spec_join(old(self).spec_path(), filename@),
            match r.directory {
                Some(directory) => spec_parent(r.path@) == Some(directory@),
                None => spec_parent(r.path@) is None,
            },
            final(self).spec_message() == filename@,
            final(self).spec_archive_base() == old(self).spec_archive_base(),
            final(self).spec_destination() == old(self).spec_destination(),
            final(self).spec_path() == old(self).spec_path(),
            final(self).spec_total_size() == old(self).spec_total_size(),
            final(self).spec_position() == old(self).spec_position(),
    {
        let path = join(self.tmp.path(), filename);
        let directory = match parent(path.as_str()) {
            Some(directory) => Some(String::from_str(directory)),
            None => None,
        };
        self.report_file(filename);
        FileTarget { path, directory }
    }

    /// Decides where the content of the workspace goes. `children` holds the
    /// names of what lies directly in the scratch directory, `taken` the
    /// names that the destination holds already. A single item is published
    /// under its own name, anything else as a directory under the name of
    /// the archive; a name that is taken gives way to the first free one of
    /// its increments. The scratch directory comes back with the decision:
    /// its life ends once the rename is made.
    pub fn commit(self, children: &Vec<String>, working_dir: &str, taken: &Vec<String>) -> (r:
        Result<Publication, RenameError>)
        ensures
            is_rename_without_conflict(
                rename_of(r),
                spec_commit_source(self.spec_path(), children@),
                spec_commit_target(self.spec_destination(), self.spec_archive_base(), children@),
                working_dir@,
                taken@,
            ),
            r matches Ok(publication) ==> publication.scratch.spec_path() == self.spec_path(),
    {
        let decided = if children.len() == 1 {
            let to_move = join(self.tmp.path(), children[0].as_str());
            let intended = join(self.dst.as_str(), children[0].as_str());
            rename_resolving_conflict(to_move.as_str(), intended.as_str(), working_dir, taken)
        } else {
            let intended = join(self.dst.as_str(), self.archive_base.as_str());
            rename_resolving_conflict(self.tmp.path(), intended.as_str(), working_dir, taken)
        };
        match decided {
            Ok(rename) => Ok(Publication { rename, scratch: self.tmp }),
            Err(e) => Err(e),
        }
    }
}

/// Decides what is done with one entry of an archive. An entry whose name
/// leads out of the workspace is skipped, and nothing is reported of it. A
/// directory is made; a file is written, and reported.
pub fn unpack_entry<A: Archive>(archive: &A, helper: &mut UnpackHelper, entry: &ArchiveEntry) -> (r:
    EntryAction)
    ensures
        is_action_for(
            r,
            old(helper).spec_path(),
            archive.spec_entry_name(entry.name@),
            entry.directory,
        ),
        final(helper).spec_message() == if r is WriteFile {
            archive.spec_entry_name(entry.name@)
        } else {
            old(helper).spec_message()
        },
        final(helper).spec_archive_base() == old(helper).spec_archive_base(),
        final(helper).spec_destination() == old(helper).spec_destination(),
        final(helper).spec_path() == old(helper).spec_path(),
        final(helper).spec_total_size() == old(helper).spec_total_size(),
        final(helper).spec_position() == old(helper).spec_position(),
{
    let name = archive.entry_name(entry.name.as_str());
    if !is_safe_entry_path(name.as_str()) {
        EntryAction::Skip
    } else if entry.directory {
        EntryAction::CreateDirectory { path: join(helper.path(), name.as_str()) }
    } else {
        let target = helper.write_file(name.as_str());
        EntryAction::WriteFile { path: target.path }
    }
}

/// Decides what is done with each entry of an archive, in the archive's
/// order. Each entry is decided by itself: one that is skipped changes
/// nothing for the others.
pub fn unpack<A: Archive>(archive: &A, helper: &mut UnpackHelper, entries: &Vec<ArchiveEntry>) -> (r:
    Vec<EntryAction>)
    ensures
        r.len() == entries.len(),
        forall|i: int|
            0 <= i < entries.len() ==> is_action_for(
                #[trigger] r[i],
                old(helper).spec_path(),
                archive.spec_entry_name(entries[i].name@),
                entries[i].directory,
            ),
        final(helper).spec_archive_base() == old(helper).spec_archive_base(),
        final(helper).spec_destination() == old(helper).spec_destination(),
        final(helper).spec_path() == old(helper).spec_path(),
        final(helper).spec_total_size() == old(helper).spec_total_size(),
        final(helper).spec_position() == old(helper).spec_position(),
{
    let mut actions: Vec<EntryAction> = Vec::new();
    let mut i: usize = 0;
    while i < entries.len()
        invariant
            i <= entries.len(),
            actions.len() == i,
            forall|j: int|
                0 <= j < i ==> is_action_for(
                    #[trigger] actions[j],
                    old(helper).spec_path(),
                    archive.spec_entry_name(entries[j].name@),
                    entries[j].directory,
                ),
            helper.spec_archive_base() == old(helper).spec_archive_base(),
            helper.spec_destination() == old(helper).spec_destination(),
            helper.spec_path() == old(helper).spec_path(),
            helper.spec_total_size() == old(helper).spec_total_size(),
            helper.spec_position() == old(helper).spec_position(),
        decreases entries.len() - i,
    {
        let action = unpack_entry(archive, helper, &entries[i]);
        actions.push(action);
        i += 1;
    }
    actions
}

/// Decides the next step of a copy into the workspace, from what the last
/// read gave. `written` counts the bytes copied before. A read of no bytes
/// ends the copy; bytes that were read are written, and the progress goes on
/// by their number; an interrupted read is made again; any other failure
/// ends the copy.
pub fn copy_with_progress(helper: &mut UnpackHelper, written: u64, outcome: ReadOutcome) -> (r:
    CopyStep)
    ensures
        r == match outcome {
            ReadOutcome::Data(len) => if len == 0 {
                CopyStep::Finished { written }
            } else {
                CopyStep::Write { len, written: spec_add_bytes(written, len as int) }
            },
            ReadOutcome::Failed(IoFailure::Interrupted) => CopyStep::Retry,
            ReadOutcome::Failed(failure) => CopyStep::Fail(failure),
        },
        final(helper).spec_position() == match outcome {
            ReadOutcome::Data(len) => spec_add_bytes(old(helper).spec_position(), len as int),
            ReadOutcome::Failed(_) => old(helper).spec_position(),
        },
        final(helper).spec_message() == old(helper).spec_message(),
        final(helper).spec_archive_base() == old(helper).spec_archive_base(),
        final(helper).spec_destination() == old(helper).spec_destination(),
        final(helper).spec_path() == old(helper).spec_path(),
        final(helper).spec_total_size() == old(helper).spec_total_size(),
{
    match outcome {
        ReadOutcome::Data(len) => {
            if len == 0 {
                CopyStep::Finished { written }
            } else {
                let count: u64 = len as u64;
                helper.advance(count);
                CopyStep::Write { len, written: written.saturating_add(count) }
            }
        },
        ReadOutcome::Failed(IoFailure::Interrupted) => CopyStep::Retry,
        ReadOutcome::Failed(failure) => CopyStep::Fail(failure),
    }
}

} // verus!
