use std::collections::BTreeMap;
use std::io::{Read, Write};

use unbox::archive::{
    copy_with_progress, unpack_entry, Archive, ArchiveEntry, CopyStep, EntryAction, ReadOutcome,
    UnpackHelper,
};
use unbox::formats::{ArchiveType, Compression, ListedFile, OpenedArchive, ZipArchive};
use unbox::paths::{file_name, parent};
use unbox::utils::TempDirectory;

/// Files by their path, standing for a disk.
type Disk = BTreeMap<String, Vec<u8>>;

fn tarball(files: &[(&str, &[u8])]) -> Vec<u8> {
    let mut builder = tar::Builder::new(Vec::new());
    for (name, data) in files {
        let mut header = tar::Header::new_gnu();
        header.set_size(data.len() as u64);
        header.set_mode(0o644);
        let field = &mut header.as_old_mut().name;
        field[..name.len()].copy_from_slice(name.as_bytes());
        header.set_cksum();
        builder.append(&header, *data).unwrap();
    }
    builder.into_inner().unwrap()
}

fn gzip(data: &[u8]) -> Vec<u8> {
    let mut encoder = libflate::gzip::Encoder::new(Vec::new()).unwrap();
    encoder.write_all(data).unwrap();
    encoder.finish().into_result().unwrap()
}

fn workspace(archive: &OpenedArchive, dst: &str) -> UnpackHelper {
    let probe = UnpackHelper::scratch_probe(dst, "/tmp");
    let tmp = TempDirectory::for_path(probe, true, true).unwrap();
    UnpackHelper::create(archive, dst, tmp)
}

/// Copies a reader to the disk as the library's steps say.
fn copy(helper: &mut UnpackHelper, reader: &mut dyn Read, disk: &mut Disk, path: &str) -> u64 {
    let mut buffer = [0u8; 7];
    let mut written = 0;
    disk.insert(path.to_string(), Vec::new());
    loop {
        let outcome = ReadOutcome::Data(reader.read(&mut buffer).unwrap());
        match copy_with_progress(helper, written, outcome) {
            CopyStep::Finished { written } => return written,
            CopyStep::Write { len, written: total } => {
                disk.get_mut(path).unwrap().extend_from_slice(&buffer[..len]);
                written = total;
            }
            CopyStep::Retry => {}
            CopyStep::Fail(failure) => panic!("{:?}", failure),
        }
    }
}

/// The names of what lies directly in `directory`.
fn children(disk: &Disk, directory: &str) -> Vec<String> {
    let prefix = format!("{}/", directory);
    let mut names: Vec<String> = Vec::new();
    for path in disk.keys() {
        if let Some(rest) = path.strip_prefix(&prefix) {
            let name = rest.split('/').next().unwrap().to_string();
            if !names.contains(&name) {
                names.push(name);
            }
        }
    }
    names
}

/// Moves what lies at `from`, and below it, to `to`.
fn rename(disk: &mut Disk, from: &str, to: &str) {
    let moved: Vec<String> = disk
        .keys()
        .filter(|path| *path == from || path.starts_with(&format!("{}/", from)))
        .cloned()
        .collect();
    for path in moved {
        let data = disk.remove(&path).unwrap();
        let target = format!("{}{}", to, &path[from.len()..]);
        assert!(!disk.contains_key(&target));
        disk.insert(target, data);
    }
}

fn publish(helper: UnpackHelper, disk: &mut Disk, dst: &str) -> String {
    let scratch = helper.path().to_string();
    let found = children(disk, &scratch);
    let taken = children(disk, dst);
    let publication = helper.commit(&found, "/", &taken).unwrap();
    let decided = publication.rename;
    rename(disk, &decided.from, &decided.to);
    assert_eq!(publication.scratch.path(), scratch);
    assert!(children(disk, &scratch).is_empty());
    decided.to
}

fn unpack_tar(bytes: &[u8], name: &str, disk: &mut Disk, dst: &str) -> String {
    let ty = ArchiveType::for_path(name, Some(bytes)).unwrap();
    let archive = ty.open(&format!("/data/{}", name), bytes.len() as u64, &vec![]).unwrap();
    let layer = match &archive {
        OpenedArchive::Tar(tar) => tar.compression().layer(),
        other => panic!("{:?}", other),
    };
    let mut helper = workspace(&archive, dst);
    let reader: Box<dyn Read> = match layer {
        Compression::Uncompressed => Box::new(bytes),
        Compression::Gz => Box::new(libflate::gzip::Decoder::new(bytes).unwrap()),
        Compression::Xz => Box::new(xz2::read::XzDecoder::new(bytes)),
        Compression::Bz2 => Box::new(bzip2::read::BzDecoder::new(bytes)),
    };
    let mut entries = tar::Archive::new(reader);
    for entry in entries.entries().unwrap() {
        let mut entry = entry.unwrap();
        let stored = String::from_utf8(entry.path_bytes().to_vec()).unwrap();
        let listed = ArchiveEntry {
            name: stored,
            directory: entry.header().entry_type().is_dir(),
        };
        match unpack_entry(&archive, &mut helper, &listed) {
            EntryAction::Skip => {}
            EntryAction::CreateDirectory { .. } => {}
            EntryAction::WriteFile { path } => {
                copy(&mut helper, &mut entry, disk, &path);
            }
        }
    }
    publish(helper, disk, dst)
}

#[test]
fn gzip_tar_round_trip() {
    let binary: Vec<u8> = (0..=255u8).cycle().take(5000).collect();
    let files: Vec<(&str, &[u8])> = vec![
        ("project/readme.txt", b"read me\n"),
        ("project/src/main.c", b"int main(void) { return 0; }\n"),
        ("project/data/blob.bin", &binary),
        ("project/empty", b""),
    ];
    let bytes = gzip(&tarball(&files));
    assert_eq!(
        ArchiveType::for_path("release.bin", Some(&bytes)),
        Some(ArchiveType::TarGz)
    );
    let mut disk = Disk::new();
    let published = unpack_tar(&bytes, "release.bin", &mut disk, "/dst");
    assert_eq!(published, "/dst/project");
    assert_eq!(disk.len(), files.len());
    for (name, data) in files {
        assert_eq!(disk.get(&format!("/dst/{}", name)).unwrap(), data, "{}", name);
    }
}

#[test]
fn several_roots_are_published_under_the_archive_name() {
    let files: Vec<(&str, &[u8])> = vec![("a", b"first"), ("b", b"second")];
    let bytes = gzip(&tarball(&files));
    let mut disk = Disk::new();
    let published = unpack_tar(&bytes, "bundle.tar.gz", &mut disk, "/dst");
    assert_eq!(published, "/dst/bundle.tar");
    assert_eq!(disk.get("/dst/bundle.tar/a").unwrap(), b"first");
    assert_eq!(disk.get("/dst/bundle.tar/b").unwrap(), b"second");
    assert_eq!(disk.len(), 2);
}

#[test]
fn single_file_is_published_under_its_own_name() {
    let files: Vec<(&str, &[u8])> = vec![("payload.txt", b"the payload")];
    let bytes = tarball(&files);
    let mut disk = Disk::new();
    let published = unpack_tar(&bytes, "bundle.tar", &mut disk, "/dst");
    assert_eq!(published, "/dst/payload.txt");
    assert_eq!(disk.get("/dst/payload.txt").unwrap(), b"the payload");
    assert_eq!(disk.len(), 1);
}

#[test]
fn two_archives_that_want_one_name_keep_both() {
    let mut disk = Disk::new();
    let first = tarball(&[("out", b"content of the first")]);
    let second = tarball(&[("out", b"content of the second")]);
    assert_eq!(unpack_tar(&first, "one.tar", &mut disk, "/dst"), "/dst/out");
    assert_eq!(unpack_tar(&second, "two.tar", &mut disk, "/dst"), "/dst/out-2");
    assert_eq!(disk.get("/dst/out").unwrap(), b"content of the first");
    assert_eq!(disk.get("/dst/out-2").unwrap(), b"content of the second");
    let third = tarball(&[("out", b"content of the third")]);
    assert_eq!(unpack_tar(&third, "three.tar", &mut disk, "/dst"), "/dst/out-3");
    assert_eq!(disk.get("/dst/out").unwrap(), b"content of the first");
    assert_eq!(disk.len(), 3);
}

#[test]
fn entries_that_lead_out_are_never_written() {
    let files: Vec<(&str, &[u8])> = vec![
        ("good/one.txt", b"one"),
        ("../../etc/passwd", b"root::0:0"),
        ("/etc/passwd", b"root::0:0"),
        ("good/../../escape", b"gone"),
        ("good/two.txt", b"two"),
    ];
    let bytes = gzip(&tarball(&files));
    let mut disk = Disk::new();
    disk.insert(String::from("/etc/passwd"), b"intact".to_vec());
    let published = unpack_tar(&bytes, "evil.tgz", &mut disk, "/dst");
    assert_eq!(published, "/dst/good");
    assert_eq!(disk.get("/dst/good/one.txt").unwrap(), b"one");
    assert_eq!(disk.get("/dst/good/two.txt").unwrap(), b"two");
    assert_eq!(disk.get("/etc/passwd").unwrap(), b"intact");
    assert_eq!(disk.len(), 3);
    for path in disk.keys() {
        assert!(!path.contains(".."));
    }
}

#[test]
fn ar_members_that_lead_out_are_skipped() {
    let mut builder = ar::Builder::new(Vec::new());
    for (name, data) in [
        ("first.o", &b"first"[..]),
        ("../evil.o", &b"evil"[..]),
        ("/absolute/path/to/member.o", &b"abs"[..]),
        ("last.o", &b"last"[..]),
    ] {
        let header = ar::Header::new(name.as_bytes().to_vec(), data.len() as u64);
        builder.append(&header, data).unwrap();
    }
    let bytes = builder.into_inner().unwrap();
    let ty = ArchiveType::for_path("lib.bin", Some(&bytes)).unwrap();
    assert_eq!(ty, ArchiveType::Ar);
    let archive = ty.open("/data/libthing.a", bytes.len() as u64, &vec![]).unwrap();
    assert_eq!(archive.total_size(), Some(bytes.len() as u64));
    let mut helper = workspace(&archive, "/dst");
    let mut disk = Disk::new();
    let mut reader = ar::Archive::new(&bytes[..]);
    while let Some(entry) = reader.next_entry() {
        let mut entry = entry.unwrap();
        let stored = String::from_utf8(entry.header().identifier().to_vec()).unwrap();
        let listed = ArchiveEntry { name: stored, directory: false };
        if let EntryAction::WriteFile { path } = unpack_entry(&archive, &mut helper, &listed) {
            copy(&mut helper, &mut entry, &mut disk, &path);
        }
    }
    assert_eq!(helper.position(), 9);
    assert_eq!(helper.message(), "last.o");
    let published = publish(helper, &mut disk, "/dst");
    assert_eq!(published, "/dst/libthing");
    assert_eq!(disk.get("/dst/libthing/first.o").unwrap(), b"first");
    assert_eq!(disk.get("/dst/libthing/last.o").unwrap(), b"last");
    assert_eq!(disk.len(), 2);
}

#[test]
fn zip_round_trip() {
    let mut writer = zip::ZipWriter::new(std::io::Cursor::new(Vec::new()));
    let options = zip::write::SimpleFileOptions::default();
    writer.add_directory("site/", options).unwrap();
    writer.start_file("site/index.html", options).unwrap();
    writer.write_all(b"<html></html>").unwrap();
    writer.start_file("site/css/main.css", options).unwrap();
    writer.write_all(b"body {}").unwrap();
    let bytes = writer.finish().unwrap().into_inner();

    let mut reader = zip::ZipArchive::new(std::io::Cursor::new(&bytes[..])).unwrap();
    let mut listing = Vec::new();
    for index in 0..reader.len() {
        let file = reader.by_index(index).unwrap();
        let name = file.name().unwrap().to_string();
        listing.push(ListedFile { name, size: file.size() });
    }
    let ty = ArchiveType::for_path("download", Some(&bytes)).unwrap();
    assert_eq!(ty, ArchiveType::Zip);
    let archive = ty.open("/data/download", bytes.len() as u64, &listing).unwrap();
    assert_eq!(archive.total_size(), Some(20));
    let mut helper = workspace(&archive, "/dst");
    let mut disk = Disk::new();
    let mut directories = Vec::new();
    for index in 0..reader.len() {
        let mut file = reader.by_index(index).unwrap();
        let name = file.name().unwrap().to_string();
        let listed = ArchiveEntry {
            directory: ZipArchive::is_directory(file.unix_mode(), &name),
            name,
        };
        match unpack_entry(&archive, &mut helper, &listed) {
            EntryAction::Skip => panic!("{}", listed.name),
            EntryAction::CreateDirectory { path } => directories.push(path),
            EntryAction::WriteFile { path } => {
                copy(&mut helper, &mut file, &mut disk, &path);
            }
        }
    }
    assert_eq!(directories.len(), 1);
    assert_eq!(file_name(&directories[0]), Some("site"));
    assert_eq!(parent(&directories[0]), Some(helper.path()));
    assert_eq!(helper.position(), 20);
    let published = publish(helper, &mut disk, "/dst");
    assert_eq!(published, "/dst/site");
    assert_eq!(disk.get("/dst/site/index.html").unwrap(), b"<html></html>");
    assert_eq!(disk.get("/dst/site/css/main.css").unwrap(), b"body {}");
}
