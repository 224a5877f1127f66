use captain::paths::{
    components, extension, file_name, join_path, parent_path, path_before, same_path,
};
use captain::text::{
    before, contains, find, insert_sorted, is_among, is_whitespace, join, lines, replace, same,
    same_bytes, starts_with, trim, trim_end,
};
use std::path::{Path, PathBuf};

const TEXTS: [&str; 14] = [
    "",
    " ",
    "a",
    "  a b\t\n",
    "\u{3000}x\u{a0}",
    "one\ntwo",
    "one\r\ntwo\r\n",
    "\n\nx\n",
    "x\r",
    "\r\n",
    "caf\u{e9} \u{1f600}",
    "aaa",
    "abab",
    "\u{85}z\u{2029}",
];

const PATHS: [&str; 30] = [
    "",
    ".",
    "..",
    "/",
    "//",
    "/.",
    "./",
    "a",
    "a/",
    "a/.",
    "./a",
    "a/b",
    "a//b",
    "a/./b",
    "a/../b",
    "/a",
    "/a/b.rs",
    "/a/b/",
    "/a/b/.",
    "/a/b/..",
    ".gitignore",
    "x/.gitignore",
    "x.tar.gz",
    "x.",
    "/a/.b.c",
    "./.",
    "././x",
    "caf\u{e9}/\u{1f600}.txt",
    "../x",
    "/../x",
];

#[test]
fn white_space_is_that_of_std() {
    for code in 0..=0x10ffffu32 {
        if let Some(c) = char::from_u32(code) {
            assert_eq!(is_whitespace(c), c.is_whitespace(), "{:x}", code);
        }
    }
}

#[test]
fn texts_are_searched_like_std_does() {
    for text in TEXTS {
        for pattern in TEXTS {
            assert_eq!(contains(text, pattern), text.contains(pattern));
            assert_eq!(
                find(text, pattern),
                text.find(pattern).map(|at| text[..at].chars().count())
            );
            assert_eq!(starts_with(text, pattern), text.starts_with(pattern));
            assert_eq!(same(text, pattern), text == pattern);
            assert_eq!(before(text, pattern), text < pattern);
            assert_eq!(
                same_bytes(text.as_bytes(), pattern.as_bytes()),
                text.as_bytes() == pattern.as_bytes()
            );
            if !pattern.is_empty() {
                assert_eq!(replace(text, pattern, "<>"), text.replace(pattern, "<>"));
            }
        }
    }
}

#[test]
fn texts_are_split_like_std_does() {
    for text in TEXTS {
        assert_eq!(trim(text), text.trim());
        assert_eq!(trim_end(text), text.trim_end());
        let expected: Vec<String> = text.lines().map(String::from).collect();
        assert_eq!(lines(text), expected);
    }
}

#[test]
fn texts_are_joined() {
    let none: Vec<String> = Vec::new();
    assert_eq!(join(&none, ", "), "");
    assert_eq!(join(&["a".to_string()], ", "), "a");
    assert_eq!(join(&["a".to_string(), "".to_string(), "c".to_string()], ", "), "a, , c");
}

#[test]
fn sorted_lists_stay_sorted_without_repetition() {
    let mut list: Vec<String> = Vec::new();
    for text in ["b", "a", "c", "a", "B", "b"] {
        insert_sorted(&mut list, text.to_string());
    }
    assert_eq!(list, ["B", "a", "b", "c"]);
    assert!(is_among(&list, "c"));
    assert!(!is_among(&list, "d"));
}

#[test]
fn paths_are_taken_apart_like_std_does() {
    for path in PATHS {
        let std_path = Path::new(path);
        let expected: Vec<String> =
            std_path.components().map(|c| c.as_os_str().to_str().unwrap().to_string()).collect();
        assert_eq!(components(path), expected, "{path}");
        assert_eq!(
            parent_path(path),
            std_path.parent().map(|p| p.to_str().unwrap().to_string()),
            "{path}"
        );
        assert_eq!(
            extension(path),
            std_path.extension().map(|e| e.to_str().unwrap().to_string()),
            "{path}"
        );
        assert_eq!(
            file_name(path),
            std_path.file_name().map(|e| e.to_str().unwrap().to_string()),
            "{path}"
        );
        let mut popped = PathBuf::from(path);
        assert_eq!(popped.pop(), parent_path(path).is_some());
        if let Some(parent) = parent_path(path) {
            assert_eq!(popped.to_str().unwrap(), parent);
        }
    }
}

#[test]
fn paths_are_put_together_and_ordered_like_std_does() {
    for a in PATHS {
        for b in PATHS {
            assert_eq!(join_path(a, b), Path::new(a).join(b).to_str().unwrap(), "{a} {b}");
            assert_eq!(path_before(a, b), Path::new(a) < Path::new(b), "{a} {b}");
            assert_eq!(same_path(a, b), Path::new(a) == Path::new(b), "{a} {b}");
        }
    }
}

#[test]
fn file_in_directory_has_the_directory_as_parent() {
    let path = join_path("/work/crate", "Cargo.toml");
    assert_eq!(path, "/work/crate/Cargo.toml");
    assert_eq!(parent_path(&path).unwrap(), "/work/crate");
    assert_eq!(file_name(&path).unwrap(), "Cargo.toml");
    assert_eq!(parent_path("/"), None);
    assert_eq!(parent_path(""), None);
}

#[test]
fn parents_and_joins_change_the_last_components() {
    for path in PATHS {
        if let Some(parent) = parent_path(path) {
            let mut parts = components(path);
            parts.pop();
            assert_eq!(components(&parent), parts, "{path}");
        }
    }
    for base in PATHS {
        if !base.is_empty() {
            let mut parts = components(base);
            parts.extend(["x".to_string(), "..".to_string(), "y".to_string()]);
            assert_eq!(components(&join_path(base, "./x//../y/")), parts, "{base}");
        }
    }
}
