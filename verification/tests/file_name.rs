use mini_utils::file_name::{file_name_from_path, final_segment};
use std::path::Path;

fn segment(path: &str) -> Option<String> {
    final_segment(path)
}

fn some(text: &str) -> Option<String> {
    Some(text.to_string())
}

#[test]
fn the_last_segment_of_a_plain_path() {
    assert_eq!(segment("/a/b/report.pdf"), some("report.pdf"));
    assert_eq!(segment("/report.pdf"), some("report.pdf"));
    assert_eq!(segment("report.pdf"), some("report.pdf"));
    assert_eq!(segment("a/b"), some("b"));
}

#[test]
fn an_empty_path_has_no_segment() {
    assert_eq!(segment(""), None);
}

#[test]
fn a_path_of_slashes_has_no_segment() {
    assert_eq!(segment("/"), None);
    assert_eq!(segment("//"), None);
    assert_eq!(segment("////"), None);
}

#[test]
fn trailing_slashes_are_passed_over() {
    assert_eq!(segment("/a/b/"), some("b"));
    assert_eq!(segment("/a/b///"), some("b"));
    assert_eq!(segment("a/"), some("a"));
}

#[test]
fn single_dots_are_passed_over() {
    assert_eq!(segment("/a/b/."), some("b"));
    assert_eq!(segment("/a/b/./"), some("b"));
    assert_eq!(segment("/a/./././"), some("a"));
    assert_eq!(segment("a/."), some("a"));
    assert_eq!(segment("."), None);
    assert_eq!(segment("./"), None);
    assert_eq!(segment("/."), None);
    assert_eq!(segment("/./."), None);
}

#[test]
fn a_path_that_ends_in_two_dots_has_no_segment() {
    assert_eq!(segment(".."), None);
    assert_eq!(segment("/.."), None);
    assert_eq!(segment("/a/.."), None);
    assert_eq!(segment("/a/../"), None);
    assert_eq!(segment("/a/../."), None);
    assert_eq!(segment("/a/..//./"), None);
}

#[test]
fn two_dots_earlier_in_the_path_do_not_matter() {
    assert_eq!(segment("/../a"), some("a"));
    assert_eq!(segment("../../a/"), some("a"));
}

#[test]
fn names_that_only_begin_with_dots_count() {
    assert_eq!(segment("/a/.hidden"), some(".hidden"));
    assert_eq!(segment("/a/..b"), some("..b"));
    assert_eq!(segment("/a/..."), some("..."));
    assert_eq!(segment("/a/b."), some("b."));
    assert_eq!(segment("/a/b.."), some("b.."));
    assert_eq!(segment("/a/. "), some(". "));
}

#[test]
fn segments_are_counted_in_characters() {
    assert_eq!(segment("/caf\u{e9}/\u{fc}ber.txt"), some("\u{fc}ber.txt"));
    assert_eq!(segment("/日本/語/"), some("語"));
    assert_eq!(segment("/a/\u{1f600}"), some("\u{1f600}"));
}

#[test]
fn other_separators_are_ordinary_characters() {
    assert_eq!(segment("a\\b"), some("a\\b"));
    assert_eq!(segment("/a/b?c"), some("b?c"));
    assert_eq!(segment("/a/b c"), some("b c"));
}

#[test]
fn the_name_is_the_segment_where_there_is_one() {
    assert_eq!(file_name_from_path("/a/b/report.pdf"), "report.pdf");
    assert_eq!(file_name_from_path("/a/b/"), "b");
    assert_eq!(file_name_from_path("/index.htm"), "index.htm");
}

#[test]
fn the_name_is_the_default_where_there_is_no_segment() {
    assert_eq!(file_name_from_path(""), "index.html");
    assert_eq!(file_name_from_path("/"), "index.html");
    assert_eq!(file_name_from_path("/a/.."), "index.html");
    assert_eq!(file_name_from_path("./."), "index.html");
}

#[test]
fn the_name_never_leaves_the_directory() {
    let paths = [
        "", "/", "/a", "/a/", "/a/..", "/a/../..", "../..", "/./", "/a//b", "/.../", "..//",
        "/a/b/../../../etc/passwd", "/etc/passwd/", "x", "/x/.", "/x/./..",
    ];
    for path in paths {
        let name = file_name_from_path(path);
        assert!(!name.is_empty());
        assert!(!name.contains('/'));
        assert_ne!(name, ".");
        assert_ne!(name, "..");
    }
}

#[test]
fn segments_agree_with_the_file_name_of_a_unix_path() {
    let paths = [
        "", "/", "//", "a", "/a", "a/", "/a/b", "/a/b/", "/a//b//", ".", "..", "./", "../", "/.",
        "/..", "./a", "../a", "a/.", "a/..", "a/./", "a/../", "/a/./b", "/a/../b", "/a/b/./.",
        "/a/b/../.", "./.", "./..", ".../", "/.a", "/a.", "/..a", "/a..", "/ ", "/a/ /", "/é/ü",
    ];
    for path in paths {
        let expected = Path::new(path).file_name().map(|name| name.to_str().unwrap().to_string());
        assert_eq!(final_segment(path), expected);
    }
}
