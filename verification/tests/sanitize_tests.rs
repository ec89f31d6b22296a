use std::path::Path;

use sikap_file_storage::utils::sanitize::sanitize;

fn some(text: &str) -> Option<String> {
    Some(text.to_string())
}

#[test]
fn traversal_yields_only_the_final_segment() {
    assert_eq!(sanitize("../../etc/passwd"), some("passwd"));
    assert_eq!(sanitize("/etc/passwd"), some("passwd"));
    assert_eq!(sanitize("a/../../b/c.txt"), some("c.txt"));
    assert_eq!(sanitize("./../x"), some("x"));
}

#[test]
fn plain_names_are_kept() {
    assert_eq!(sanitize("photo.jpg"), some("photo.jpg"));
    assert_eq!(sanitize(".hidden"), some(".hidden"));
    assert_eq!(sanitize("..."), some("..."));
    assert_eq!(sanitize("..a"), some("..a"));
    assert_eq!(sanitize("a b.txt"), some("a b.txt"));
    assert_eq!(sanitize("back\\slash"), some("back\\slash"));
}

#[test]
fn names_without_a_final_segment_are_rejected() {
    assert_eq!(sanitize(""), None);
    assert_eq!(sanitize("/"), None);
    assert_eq!(sanitize("///"), None);
    assert_eq!(sanitize("."), None);
    assert_eq!(sanitize("./"), None);
    assert_eq!(sanitize("/."), None);
    assert_eq!(sanitize("./."), None);
}

#[test]
fn paths_that_end_in_the_parent_directory_are_rejected() {
    assert_eq!(sanitize(".."), None);
    assert_eq!(sanitize("../.."), None);
    assert_eq!(sanitize("../"), None);
    assert_eq!(sanitize("a/.."), None);
    assert_eq!(sanitize("a/../"), None);
    assert_eq!(sanitize("a/.././"), None);
}

#[test]
fn trailing_separators_and_dot_segments_are_passed_over() {
    assert_eq!(sanitize("dir/"), some("dir"));
    assert_eq!(sanitize("dir//"), some("dir"));
    assert_eq!(sanitize("foo.txt/."), some("foo.txt"));
    assert_eq!(sanitize("foo.txt/.//"), some("foo.txt"));
    assert_eq!(sanitize("a/b/./"), some("b"));
    assert_eq!(sanitize("a/./b"), some("b"));
}

#[test]
fn names_outside_ascii_are_kept_whole() {
    assert_eq!(sanitize("björk/été.png"), some("été.png"));
    assert_eq!(sanitize("日本語/写真.jpg/"), some("写真.jpg"));
    assert_eq!(sanitize("🚀"), some("🚀"));
}

#[test]
fn sanitized_names_are_plain() {
    let inputs = [
        "../../etc/passwd",
        "a/b/c",
        "x",
        "./y/.",
        "//z//",
        "..a/..b",
        "tmp/foo.txt",
        "été/ü",
    ];
    for input in inputs {
        let name = sanitize(input).unwrap();
        assert!(!name.is_empty());
        assert!(!name.contains('/'));
        assert_ne!(name, ".");
        assert_ne!(name, "..");
        assert_eq!(sanitize(&name), Some(name.clone()));
        assert_eq!(sanitize(&format!("some/dir/{}", name)), Some(name.clone()));
    }
}

#[test]
fn sanitize_agrees_with_the_file_name_of_a_unix_path() {
    if std::path::MAIN_SEPARATOR != '/' {
        return;
    }
    let inputs = [
        "",
        ".",
        "..",
        "...",
        "/",
        "//",
        "a",
        "a/",
        "a//",
        "a/.",
        "a/./",
        "a/..",
        "a/../",
        "./a",
        "../a",
        "/a",
        "/a/b",
        "a/b/c.tar.gz",
        "foo.txt/.//",
        "./.",
        "/.",
        "/..",
        ".a",
        "a.",
        "a/.b",
        "a/b.",
        "a/.../",
        "a/..b",
        "a\\b/c\\d",
        " ",
        "a/ ",
        "été/写真.jpg",
    ];
    for input in inputs {
        let expected = Path::new(input)
            .file_name()
            .map(|name| name.to_str().unwrap().to_string());
        assert_eq!(sanitize(input), expected, "input {:?}", input);
    }
}
