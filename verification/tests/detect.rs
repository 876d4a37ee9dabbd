use std::io::Write;

use unbox::formats::{
    get_mimetype, normalize_mimetype, ArchiveType, Compression, Sniffed, SNIFF_LIMIT,
};

fn tarball(files: &[(&str, &[u8])]) -> Vec<u8> {
    let mut builder = tar::Builder::new(Vec::new());
    for (name, data) in files {
        let mut header = tar::Header::new_gnu();
        header.set_size(data.len() as u64);
        header.set_mode(0o644);
        header.set_cksum();
        builder.append_data(&mut header, name, *data).unwrap();
    }
    builder.into_inner().unwrap()
}

fn gzip(data: &[u8]) -> Vec<u8> {
    let mut encoder = libflate::gzip::Encoder::new(Vec::new()).unwrap();
    encoder.write_all(data).unwrap();
    encoder.finish().into_result().unwrap()
}

fn xz(data: &[u8]) -> Vec<u8> {
    let mut encoder = xz2::write::XzEncoder::new(Vec::new(), 6);
    encoder.write_all(data).unwrap();
    encoder.finish().unwrap()
}

fn bzip2(data: &[u8]) -> Vec<u8> {
    let mut encoder = bzip2::write::BzEncoder::new(Vec::new(), bzip2::Compression::default());
    encoder.write_all(data).unwrap();
    encoder.finish().unwrap()
}

fn zip_archive(files: &[(&str, &[u8])]) -> Vec<u8> {
    let mut writer = zip::ZipWriter::new(std::io::Cursor::new(Vec::new()));
    for (name, data) in files {
        writer
            .start_file(*name, zip::write::SimpleFileOptions::default())
            .unwrap();
        writer.write_all(data).unwrap();
    }
    writer.finish().unwrap().into_inner()
}

fn ar_archive(files: &[(&str, &[u8])]) -> Vec<u8> {
    let mut builder = ar::Builder::new(Vec::new());
    for (name, data) in files {
        let header = ar::Header::new(name.as_bytes().to_vec(), data.len() as u64);
        builder.append(&header, *data).unwrap();
    }
    builder.into_inner().unwrap()
}

fn strings(list: &[&str]) -> Vec<String> {
    list.iter().map(|name| name.to_string()).collect()
}

#[test]
fn suffix_rules() {
    assert_eq!(ArchiveType::by_suffix("lib.a"), Some(ArchiveType::Ar));
    assert_eq!(ArchiveType::by_suffix("lib.ar"), Some(ArchiveType::Ar));
    assert_eq!(ArchiveType::by_suffix("data.zip"), Some(ArchiveType::Zip));
    assert_eq!(ArchiveType::by_suffix("data.tar"), Some(ArchiveType::Tar));
    assert_eq!(ArchiveType::by_suffix("data.tar.gz"), Some(ArchiveType::TarGz));
    assert_eq!(ArchiveType::by_suffix("data.tgz"), Some(ArchiveType::TarGz));
    assert_eq!(ArchiveType::by_suffix("data.tar.xz"), Some(ArchiveType::TarXz));
    assert_eq!(ArchiveType::by_suffix("data.txz"), Some(ArchiveType::TarXz));
    assert_eq!(ArchiveType::by_suffix("data.tar.bz2"), Some(ArchiveType::TarBz2));
    assert_eq!(ArchiveType::by_suffix("data.tbz2"), Some(ArchiveType::TarBz2));
    assert_eq!(ArchiveType::by_suffix("data.tbz"), Some(ArchiveType::TarBz2));
}

#[test]
fn suffix_rules_ignore_case() {
    assert_eq!(ArchiveType::by_suffix("DATA.ZIP"), Some(ArchiveType::Zip));
    assert_eq!(ArchiveType::by_suffix("Data.Tar.Gz"), Some(ArchiveType::TarGz));
    assert_eq!(ArchiveType::by_suffix("data.TBZ2"), Some(ArchiveType::TarBz2));
    assert_eq!(ArchiveType::by_suffix("LIB.A"), Some(ArchiveType::Ar));
}

#[test]
fn suffix_rules_need_the_whole_ending() {
    for name in [
        "data.bin",
        "data",
        "",
        "zip",
        "data.zip.bak",
        "data.gz",
        "data.xz",
        "data.bz2",
        "data.tar.",
        "data.tb",
        "data.cab",
        "tar",
        "data_tar",
    ] {
        assert_eq!(ArchiveType::by_suffix(name), None, "{}", name);
    }
    assert_eq!(ArchiveType::by_suffix(".zip"), Some(ArchiveType::Zip));
    assert_eq!(ArchiveType::by_suffix(".a"), Some(ArchiveType::Ar));
}

#[test]
fn suffix_rules_agree_with_patterns() {
    let rules = [
        (r"(?i)\.ar?$", ArchiveType::Ar),
        (r"(?i)\.zip$", ArchiveType::Zip),
        (r"(?i)\.tar$", ArchiveType::Tar),
        (r"(?i)\.t(ar\.gz|gz)$", ArchiveType::TarGz),
        (r"(?i)\.t(ar\.xz|xz)$", ArchiveType::TarXz),
        (r"(?i)\.t(ar\.bz2|bz2?)$", ArchiveType::TarBz2),
    ];
    let names = [
        "a.a", "a.ar", "a.arr", "a.zip", "a.ZIP", "a.zipx", "a.tar", "a.tar.gz", "a.tgz",
        "a.tar.xz", "a.txz", "a.tar.bz2", "a.tbz2", "a.tbz", "a.tb", "a.t", "a.TAR.GZ", "a.Tar",
        "a.gz", "a", "", ".", ".a", ".tar.gz", "a.tar.gz ", "a.tar\n", "a.zıp", "a.Kar", "a.tär",
        "x.t.gz", "x.targz", "x.tar.bz", "x.tbz22",
    ];
    for name in names {
        let mut expected = None;
        for (pattern, ty) in rules.iter() {
            if regex::Regex::new(pattern).unwrap().is_match(name) {
                expected = Some(*ty);
                break;
            }
        }
        assert_eq!(ArchiveType::by_suffix(name), expected, "{:?}", name);
    }
}

#[test]
fn file_name_decides_not_the_directory() {
    assert_eq!(
        ArchiveType::determine_by_filename("/data.zip/readme"),
        None
    );
    assert_eq!(
        ArchiveType::determine_by_filename("/srv/files/data.tar.gz"),
        Some(ArchiveType::TarGz)
    );
    assert_eq!(
        ArchiveType::determine_by_filename("data.zip/"),
        Some(ArchiveType::Zip)
    );
    assert_eq!(ArchiveType::determine_by_filename("data.zip/.."), None);
    assert_eq!(ArchiveType::determine_by_filename(""), None);
}

#[test]
fn containers_by_mimetype() {
    assert_eq!(
        ArchiveType::by_mimetypes("application/zip", None),
        Some(ArchiveType::Zip)
    );
    assert_eq!(
        ArchiveType::by_mimetypes("application/x-tar", None),
        Some(ArchiveType::Tar)
    );
    assert_eq!(
        ArchiveType::by_mimetypes("application/x-archive", None),
        Some(ArchiveType::Ar)
    );
    assert_eq!(
        ArchiveType::by_mimetypes("application/vnd.ms-cab-compressed", None),
        Some(ArchiveType::Cab)
    );
    assert_eq!(ArchiveType::by_mimetypes("application/pdf", None), None);
    assert_eq!(ArchiveType::by_mimetypes("text/plain", Some("application/x-tar")), None);
}

#[test]
fn compression_by_mimetype() {
    assert_eq!(Compression::for_mimetype("application/gzip"), Some(Compression::Gz));
    assert_eq!(Compression::for_mimetype("application/x-xz"), Some(Compression::Xz));
    assert_eq!(Compression::for_mimetype("application/bzip2"), Some(Compression::Bz2));
    assert_eq!(Compression::for_mimetype("application/zip"), None);
    assert_eq!(Compression::for_mimetype("application/x-tar"), None);
    assert_eq!(Compression::for_mimetype(""), None);
}

#[test]
fn compression_around_a_tarball_is_a_compressed_tarball() {
    assert_eq!(
        ArchiveType::by_mimetypes("application/gzip", Some("application/x-tar")),
        Some(ArchiveType::TarGz)
    );
    assert_eq!(
        ArchiveType::by_mimetypes("application/x-xz", Some("application/x-tar")),
        Some(ArchiveType::TarXz)
    );
    assert_eq!(
        ArchiveType::by_mimetypes("application/bzip2", Some("application/x-tar")),
        Some(ArchiveType::TarBz2)
    );
}

#[test]
fn compression_around_anything_else_is_a_single_file() {
    assert_eq!(
        ArchiveType::by_mimetypes("application/gzip", None),
        Some(ArchiveType::SingleFileGz)
    );
    assert_eq!(
        ArchiveType::by_mimetypes("application/gzip", Some("text/plain")),
        Some(ArchiveType::SingleFileGz)
    );
    assert_eq!(
        ArchiveType::by_mimetypes("application/x-xz", Some("application/zip")),
        Some(ArchiveType::SingleFileXz)
    );
    assert_eq!(
        ArchiveType::by_mimetypes("application/bzip2", Some("application/gzip")),
        Some(ArchiveType::SingleFileBz2)
    );
}

#[test]
fn as_archive_type_table() {
    assert_eq!(Compression::Uncompressed.as_archive_type(None), None);
    assert_eq!(Compression::Gz.as_archive_type(None), Some(ArchiveType::SingleFileGz));
    assert_eq!(Compression::Bz2.as_archive_type(None), Some(ArchiveType::SingleFileBz2));
    assert_eq!(Compression::Xz.as_archive_type(None), Some(ArchiveType::SingleFileXz));
    assert_eq!(
        Compression::Uncompressed.as_archive_type(Some(ArchiveType::Tar)),
        Some(ArchiveType::Tar)
    );
    assert_eq!(
        Compression::Gz.as_archive_type(Some(ArchiveType::Tar)),
        Some(ArchiveType::TarGz)
    );
    assert_eq!(
        Compression::Bz2.as_archive_type(Some(ArchiveType::Tar)),
        Some(ArchiveType::TarBz2)
    );
    assert_eq!(
        Compression::Xz.as_archive_type(Some(ArchiveType::Tar)),
        Some(ArchiveType::TarXz)
    );
    assert_eq!(Compression::Gz.as_archive_type(Some(ArchiveType::Zip)), None);
    assert_eq!(Compression::Gz.as_archive_type(Some(ArchiveType::TarGz)), None);
    assert_eq!(Compression::Xz.as_archive_type(Some(ArchiveType::Ar)), None);
}

fn sniffed(outer: &str, inner: Option<&str>) -> Sniffed {
    Sniffed { outer: outer.to_string(), inner: inner.map(|x| x.to_string()) }
}

#[test]
fn sniffed_content_comes_before_the_file_name() {
    let zip = sniffed("application/zip", None);
    assert_eq!(
        ArchiveType::for_sniffed(Some(&zip), "data.bin"),
        Some(ArchiveType::Zip)
    );
    assert_eq!(
        ArchiveType::for_sniffed(Some(&zip), "data.tar.gz"),
        Some(ArchiveType::Zip)
    );
    let text = sniffed("text/plain", None);
    assert_eq!(
        ArchiveType::for_sniffed(Some(&text), "data.tar.gz"),
        Some(ArchiveType::TarGz)
    );
    assert_eq!(
        ArchiveType::for_sniffed(None, "data.tar.gz"),
        Some(ArchiveType::TarGz)
    );
    assert_eq!(ArchiveType::for_sniffed(None, "data.bin"), None);
    let png = sniffed("image/png", None);
    assert_eq!(ArchiveType::for_sniffed(Some(&png), "picture.png"), None);
    let tgz = sniffed("application/gzip", Some("application/x-tar"));
    assert_eq!(
        ArchiveType::for_sniffed(Some(&tgz), "data.zip"),
        Some(ArchiveType::TarGz)
    );
}

#[test]
fn sniffing_looks_behind_a_compression() {
    let plain = ArchiveType::sniff(&tarball(&[("a", b"a")]));
    assert_eq!(plain.outer, "application/x-tar");
    assert_eq!(plain.inner, None);
    let packed = ArchiveType::sniff(&gzip(&tarball(&[("a", b"a")])));
    assert_eq!(packed.outer, "application/gzip");
    assert_eq!(packed.inner, Some(String::from("application/x-tar")));
    let text = ArchiveType::sniff(&xz(b"some text\n"));
    assert_eq!(text.outer, "application/x-xz");
    assert_eq!(text.inner, Some(String::from("text/plain")));
}

#[test]
fn mimetype_walks_up_to_the_first_parent_that_is_no_base_type() {
    let odt = String::from("application/vnd.oasis.opendocument.text");
    assert_eq!(
        normalize_mimetype(odt.clone(), &strings(&["application/zip"])),
        "application/zip"
    );
    assert_eq!(
        normalize_mimetype(odt.clone(), &strings(&["application/octet-stream"])),
        odt
    );
    assert_eq!(normalize_mimetype(odt.clone(), &strings(&[])), odt);
    assert_eq!(
        normalize_mimetype(
            odt.clone(),
            &strings(&["application/zip", "application/x-other", "text/plain", "application/late"])
        ),
        "application/zip"
    );
    for base in [
        "all/all",
        "all/allfiles",
        "inode/directory",
        "text/plain",
        "application/octet-stream",
    ] {
        assert_eq!(normalize_mimetype(odt.clone(), &strings(&[base])), odt);
        assert_eq!(
            normalize_mimetype(odt.clone(), &strings(&[base, "application/zip"])),
            "application/zip"
        );
        assert_eq!(
            normalize_mimetype(odt.clone(), &strings(&[base, base, "text/plain"])),
            odt
        );
    }
}

#[test]
fn zip_content_is_zip_whatever_the_name() {
    let bytes = zip_archive(&[("a.txt", b"hello"), ("b.txt", b"world")]);
    assert_eq!(get_mimetype(&bytes), "application/zip");
    assert_eq!(
        ArchiveType::for_path("data.bin", Some(&bytes)),
        Some(ArchiveType::Zip)
    );
    assert_eq!(
        ArchiveType::for_path("data.tar.gz", Some(&bytes)),
        Some(ArchiveType::Zip)
    );
    assert_eq!(ArchiveType::for_path("data", Some(&bytes)), Some(ArchiveType::Zip));
}

#[test]
fn a_format_built_on_zip_is_taken_for_zip() {
    let mut writer = zip::ZipWriter::new(std::io::Cursor::new(Vec::new()));
    let stored = zip::write::SimpleFileOptions::default()
        .compression_method(zip::CompressionMethod::Stored);
    writer.start_file("mimetype", stored).unwrap();
    writer.write_all(b"application/epub+zip").unwrap();
    writer
        .start_file("META-INF/container.xml", zip::write::SimpleFileOptions::default())
        .unwrap();
    writer.write_all(b"<container/>").unwrap();
    let bytes = writer.finish().unwrap().into_inner();
    assert_eq!(tree_magic::from_u8(&bytes), "application/epub+zip");
    assert_eq!(get_mimetype(&bytes), "application/zip");
    assert_eq!(
        ArchiveType::for_path("book.epub", Some(&bytes)),
        Some(ArchiveType::Zip)
    );
}

#[test]
fn tar_content_is_tar() {
    let bytes = tarball(&[("dir/hello.txt", b"hello")]);
    assert_eq!(get_mimetype(&bytes), "application/x-tar");
    assert_eq!(
        ArchiveType::for_path("data.bin", Some(&bytes)),
        Some(ArchiveType::Tar)
    );
}

#[test]
fn ar_content_is_ar() {
    let bytes = ar_archive(&[("hello.txt", b"hello")]);
    assert_eq!(get_mimetype(&bytes), "application/x-archive");
    assert_eq!(
        ArchiveType::for_path("data.zip", Some(&bytes)),
        Some(ArchiveType::Ar)
    );
}

#[test]
fn gzip_compressed_tar_is_detected_as_compressed_tarball() {
    let bytes = gzip(&tarball(&[("dir/hello.txt", b"hello"), ("second", b"more")]));
    assert_eq!(get_mimetype(&bytes), "application/gzip");
    assert_eq!(
        ArchiveType::for_path("backup.bin", Some(&bytes)),
        Some(ArchiveType::TarGz)
    );
    assert_eq!(
        ArchiveType::for_path("backup.gz", Some(&bytes)),
        Some(ArchiveType::TarGz)
    );
    assert_eq!(
        ArchiveType::determine_by_magic(&bytes),
        Some(ArchiveType::TarGz)
    );
}

#[test]
fn xz_compressed_tar_is_detected_as_compressed_tarball() {
    let bytes = xz(&tarball(&[("dir/hello.txt", b"hello")]));
    assert_eq!(
        ArchiveType::for_path("backup.bin", Some(&bytes)),
        Some(ArchiveType::TarXz)
    );
}

#[test]
fn gzip_compressed_text_is_a_single_file() {
    let bytes = gzip(b"just some text, nothing else\n");
    assert_eq!(
        ArchiveType::for_path("notes.bin", Some(&bytes)),
        Some(ArchiveType::SingleFileGz)
    );
    assert_eq!(
        ArchiveType::for_path("notes.tar.gz", Some(&bytes)),
        Some(ArchiveType::SingleFileGz)
    );
}

#[test]
fn gzip_compressed_zip_is_a_single_file() {
    let bytes = gzip(&zip_archive(&[("a.txt", b"hello")]));
    assert_eq!(
        ArchiveType::for_path("odd.bin", Some(&bytes)),
        Some(ArchiveType::SingleFileGz)
    );
}

#[test]
fn unknown_content_falls_back_to_the_file_name() {
    let text = b"plain text that is no archive at all\n";
    assert_eq!(
        ArchiveType::for_path("data.tar.gz", Some(text)),
        Some(ArchiveType::TarGz)
    );
    assert_eq!(ArchiveType::for_path("data.txt", Some(text)), None);
    assert_eq!(ArchiveType::for_path("data.zip", Some(b"")), Some(ArchiveType::Zip));
}

#[test]
fn short_and_odd_content_is_sniffed() {
    let samples: Vec<Vec<u8>> = vec![
        zip_archive(&[("a.txt", b"hello")]),
        tarball(&[("a.txt", b"hello")]),
        gzip(&tarball(&[("a.txt", b"hello")])),
        xz(b"hello"),
        bzip2(b"hello"),
        ar_archive(&[("a.txt", b"hello")]),
        b"MZ\x90\x00PE\x00\x00MSCF".to_vec(),
        (0..=255u8).collect(),
    ];
    for sample in samples {
        for len in 0..sample.len().min(300) {
            let cut = &sample[..len];
            let found = ArchiveType::for_path("data.tar", Some(cut));
            assert!(found.is_some());
            let sniffed = ArchiveType::sniff(cut);
            assert_eq!(
                ArchiveType::for_sniffed(Some(&sniffed), "data.tar"),
                found
            );
        }
    }
    for fill in [0u8, 1, b' ', b'a', 0x1f, 0x8b, 0xff] {
        for len in [0usize, 1, 2, 3, 4, 7, 8, 63, 64, 257, 262, 263, 511, 512, 513, 4096] {
            let bytes = vec![fill; len];
            assert!(ArchiveType::for_path("data.zip", Some(&bytes)).is_some());
        }
    }
}

#[test]
fn unreadable_content_falls_back_to_the_file_name() {
    assert_eq!(ArchiveType::for_path("data.zip", None), Some(ArchiveType::Zip));
    assert_eq!(ArchiveType::for_path("data.tbz", None), Some(ArchiveType::TarBz2));
    assert_eq!(ArchiveType::for_path("data.bin", None), None);
}

#[test]
fn bzip2_content_is_told_by_the_file_name() {
    let bytes = bzip2(&tarball(&[("dir/hello.txt", b"hello")]));
    assert_eq!(
        ArchiveType::for_path("backup.tar.bz2", Some(&bytes)),
        Some(ArchiveType::TarBz2)
    );
}

#[test]
fn only_the_start_of_the_content_is_looked_at() {
    let mut bytes = zip_archive(&[("a.txt", b"hello")]);
    bytes.resize(SNIFF_LIMIT + 4096, 0);
    assert_eq!(
        ArchiveType::for_path("data.bin", Some(&bytes)),
        Some(ArchiveType::Zip)
    );
}

#[test]
fn decompress_reads_the_start() {
    let text = b"hello hello hello hello";
    assert_eq!(
        Compression::Gz.decompress(&gzip(text), SNIFF_LIMIT),
        Some(text.to_vec())
    );
    assert_eq!(
        Compression::Xz.decompress(&xz(text), SNIFF_LIMIT),
        Some(text.to_vec())
    );
    assert_eq!(
        Compression::Bz2.decompress(&bzip2(text), SNIFF_LIMIT),
        Some(text.to_vec())
    );
    assert_eq!(
        Compression::Uncompressed.decompress(text, SNIFF_LIMIT),
        Some(text.to_vec())
    );
}

#[test]
fn decompress_keeps_to_the_limit() {
    let text = b"hello hello hello hello";
    assert_eq!(
        Compression::Uncompressed.decompress(text, 5),
        Some(b"hello".to_vec())
    );
    assert_eq!(Compression::Uncompressed.decompress(text, 0), Some(Vec::new()));
    let data = Compression::Gz.decompress(&gzip(text), 5).unwrap();
    assert_eq!(data, b"hello".to_vec());
    let data = Compression::Xz.decompress(&xz(text), 7).unwrap();
    assert_eq!(data, b"hello h".to_vec());
    let data = Compression::Bz2.decompress(&bzip2(text), 3).unwrap();
    assert_eq!(data, b"hel".to_vec());
}

#[test]
fn decompress_refuses_what_is_not_compressed() {
    let text = b"this is no compressed stream";
    assert_eq!(Compression::Gz.decompress(text, SNIFF_LIMIT), None);
    assert_eq!(Compression::Xz.decompress(text, SNIFF_LIMIT), None);
    assert_eq!(Compression::Bz2.decompress(text, SNIFF_LIMIT), None);
    assert_eq!(Compression::Gz.decompress(b"", SNIFF_LIMIT), None);
}

#[test]
fn decompress_of_cut_off_streams() {
    let text: Vec<u8> = (0..4000u32).map(|i| (i % 251) as u8).collect();
    for (compression, stream) in [
        (Compression::Gz, gzip(&text)),
        (Compression::Xz, xz(&text)),
        (Compression::Bz2, bzip2(&text)),
    ] {
        for len in 0..stream.len() {
            if let Some(data) = compression.decompress(&stream[..len], 64) {
                assert!(data.len() <= 64);
                assert_eq!(&data[..], &text[..data.len()]);
            }
        }
        let whole = compression.decompress(&stream, SNIFF_LIMIT).unwrap();
        assert_eq!(&whole[..], &text[..whole.len()]);
        assert!(!whole.is_empty());
    }
}

#[test]
fn descriptions() {
    assert_eq!(ArchiveType::Ar.to_string(), "unix ar archive");
    assert_eq!(ArchiveType::Zip.to_string(), "zip archive");
    assert_eq!(ArchiveType::Tar.to_string(), "uncompressed tarball");
    assert_eq!(ArchiveType::TarGz.to_string(), "gzip-compressed tarball");
    assert_eq!(ArchiveType::TarXz.to_string(), "xz-compressed tarball");
    assert_eq!(ArchiveType::TarBz2.to_string(), "bzip2-compressed tarball");
    assert_eq!(ArchiveType::Cab.to_string(), "cabinet archive");
    assert_eq!(ArchiveType::SingleFileGz.to_string(), "gzip-compressed file");
    assert_eq!(ArchiveType::SingleFileBz2.to_string(), "bzip2-compressed file");
    assert_eq!(ArchiveType::SingleFileXz.to_string(), "xz-compressed file");
}

#[test]
fn all_types_in_order() {
    assert_eq!(
        ArchiveType::all(),
        vec![
            ArchiveType::Ar,
            ArchiveType::Zip,
            ArchiveType::Tar,
            ArchiveType::TarGz,
            ArchiveType::TarXz,
            ArchiveType::TarBz2,
            ArchiveType::Cab,
            ArchiveType::SingleFileGz,
            ArchiveType::SingleFileXz,
            ArchiveType::SingleFileBz2,
        ]
    );
}
