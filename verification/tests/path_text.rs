use unbox::paths::{
    contains_parent_component, file_name, file_stem, is_absolute, is_safe_entry_path, join,
    parent, stem, with_separator,
};

#[test]
fn entries_that_lead_upwards_are_not_safe() {
    assert!(!is_safe_entry_path("../../etc/passwd"));
    assert!(!is_safe_entry_path(".."));
    assert!(!is_safe_entry_path("a/../b"));
    assert!(!is_safe_entry_path("a/b/.."));
    assert!(!is_safe_entry_path("a//../b"));
    assert!(!is_safe_entry_path("./.."));
}

#[test]
fn rooted_entries_are_not_safe() {
    assert!(!is_safe_entry_path("/etc/passwd"));
    assert!(!is_safe_entry_path("/"));
    assert!(!is_safe_entry_path("//server/share/file"));
}

#[test]
fn entries_on_a_drive_are_not_safe() {
    assert!(!is_safe_entry_path("C:/Windows/system.ini"));
    assert!(!is_safe_entry_path("c:autoexec.bat"));
    assert!(!is_safe_entry_path("z:"));
}

#[test]
fn plain_entries_are_safe() {
    for name in [
        "payload.txt",
        "dir/file",
        "dir/",
        "./file",
        "a/./b",
        "..a",
        "a..",
        "...",
        "a/..b/c",
        "a/b../c",
        "",
        ".",
        "1:x",
        "ab:c",
        "a\\..\\b",
        "dir//file",
    ] {
        assert!(is_safe_entry_path(name), "{}", name);
    }
}

#[test]
fn parent_components_are_whole_components() {
    assert!(contains_parent_component(".."));
    assert!(contains_parent_component("../x"));
    assert!(contains_parent_component("x/.."));
    assert!(contains_parent_component("x/../y"));
    assert!(contains_parent_component("/.."));
    assert!(!contains_parent_component("..."));
    assert!(!contains_parent_component("..x/y.."));
    assert!(!contains_parent_component("x/.. /y"));
    assert!(!contains_parent_component(""));
}

#[test]
fn separators_of_a_format_become_those_of_the_workspace() {
    assert_eq!(with_separator("dir\\sub\\file.txt", '\\'), "dir/sub/file.txt");
    assert_eq!(with_separator("\\\\", '\\'), "//");
    assert_eq!(with_separator("plain", '\\'), "plain");
    assert_eq!(with_separator("", '\\'), "");
    assert_eq!(with_separator("a/b\\c", '\\'), "a/b/c");
    assert_eq!(with_separator("ä\\ö", '\\'), "ä/ö");
    assert!(!is_safe_entry_path(&with_separator("..\\..\\boot.ini", '\\')));
    assert!(!is_safe_entry_path(&with_separator("\\boot.ini", '\\')));
}

#[test]
fn join_puts_one_separator_between() {
    assert_eq!(join("/dst", "payload.txt"), "/dst/payload.txt");
    assert_eq!(join("/dst/", "payload.txt"), "/dst/payload.txt");
    assert_eq!(join("", "payload.txt"), "payload.txt");
    assert_eq!(join("/", "a"), "/a");
    assert_eq!(join("a", "b/c"), "a/b/c");
    assert_eq!(join("a", ""), "a/");
    assert_eq!(join("/dst", "/rooted"), "/rooted");
}

#[test]
fn join_agrees_with_the_platform() {
    for (base, rel) in [
        ("/dst", "payload.txt"),
        ("/dst/", "payload.txt"),
        ("", "x"),
        ("/", "a"),
        ("a", "b/c"),
        ("/dst", "/rooted"),
        ("rel/dir", "name"),
    ] {
        let expected = std::path::Path::new(base).join(rel);
        assert_eq!(join(base, rel), expected.to_str().unwrap());
    }
}

#[test]
fn file_names() {
    assert_eq!(file_name("/usr/bin/foo.txt"), Some("foo.txt"));
    assert_eq!(file_name("foo.txt"), Some("foo.txt"));
    assert_eq!(file_name("dir/"), Some("dir"));
    assert_eq!(file_name("dir//"), Some("dir"));
    assert_eq!(file_name("dir/."), Some("dir"));
    assert_eq!(file_name("dir/./"), Some("dir"));
    assert_eq!(file_name("./x"), Some("x"));
    assert_eq!(file_name("a/..b"), Some("..b"));
    assert_eq!(file_name(".hidden"), Some(".hidden"));
    assert_eq!(file_name("/"), None);
    assert_eq!(file_name(""), None);
    assert_eq!(file_name("."), None);
    assert_eq!(file_name(".."), None);
    assert_eq!(file_name("a/.."), None);
    assert_eq!(file_name("a/../"), None);
}

#[test]
fn file_names_agree_with_the_platform() {
    for path in [
        "/usr/bin/foo.txt",
        "foo.txt",
        "dir/",
        "dir//",
        "dir/.",
        "dir/./",
        "./x",
        "/",
        "",
        ".",
        "..",
        "a/..",
        "a/b/c.tar.gz",
        "//a",
        "a//b",
        "./",
        "./.",
        ".a",
        "a.",
        "a/.b/",
    ] {
        let expected = std::path::Path::new(path)
            .file_name()
            .map(|name| name.to_str().unwrap());
        assert_eq!(file_name(path), expected, "{}", path);
    }
}

#[test]
fn stems() {
    assert_eq!(stem("archive.zip"), "archive");
    assert_eq!(stem("archive.tar.gz"), "archive.tar");
    assert_eq!(stem("archive"), "archive");
    assert_eq!(stem(".hidden"), ".hidden");
    assert_eq!(stem(".hidden.gz"), ".hidden");
    assert_eq!(stem("dot."), "dot");
    assert_eq!(stem(""), "");
    assert_eq!(stem("..x"), ".");
}

#[test]
fn file_stems_agree_with_the_platform() {
    for path in [
        "/data/archive.zip",
        "archive.tar.gz",
        "archive",
        ".hidden",
        ".hidden.gz",
        "dot.",
        "",
        "/",
        "..",
        "a/..",
        "dir.d/",
        "a.b/c",
        "x/..y",
        "ü.gz",
    ] {
        let expected = std::path::Path::new(path)
            .file_stem()
            .map(|name| name.to_str().unwrap());
        assert_eq!(file_stem(path), expected, "{}", path);
    }
}

#[test]
fn parents() {
    assert_eq!(parent("/dst/out"), Some("/dst"));
    assert_eq!(parent("/dst/out/"), Some("/dst"));
    assert_eq!(parent("/out"), Some("/"));
    assert_eq!(parent("out"), Some(""));
    assert_eq!(parent("a/b/c"), Some("a/b"));
    assert_eq!(parent("a//b"), Some("a"));
    assert_eq!(parent("//a"), Some("/"));
    assert_eq!(parent("a/.."), Some("a"));
    assert_eq!(parent("/"), None);
    assert_eq!(parent(""), None);
    assert_eq!(parent("."), None);
}

#[test]
fn parents_agree_with_the_platform_on_rooted_paths() {
    for path in [
        "/dst/out",
        "/dst/out/",
        "/out",
        "/a/b/c",
        "/a//b",
        "/",
        "/a/..",
        "/a/b/.",
        "/home/me/.unbox-1",
    ] {
        let expected = std::path::Path::new(path)
            .parent()
            .map(|dir| dir.to_str().unwrap());
        assert_eq!(parent(path), expected, "{}", path);
    }
}

#[test]
fn rooted_paths() {
    assert!(is_absolute("/"));
    assert!(is_absolute("/a"));
    assert!(!is_absolute(""));
    assert!(!is_absolute("a/"));
    assert!(!is_absolute("./a"));
}
