use std::path::Path;

use windows_cleaner::link::build_destination_path as link_destination_path;
use windows_cleaner::path::{file_name, is_absolute, join, parent, same_path};
use windows_cleaner::platform::Platform;
use windows_cleaner::rename::build_destination_path;

const SAMPLES: [&str; 32] = [
    "",
    ".",
    "..",
    "/",
    "//",
    "///",
    "a",
    "a/",
    "a//",
    "a/.",
    "a/..",
    "a/./",
    "./a",
    "././a",
    "./.",
    "./",
    "../a",
    "/a",
    "/a/",
    "/a/.",
    "/a/..",
    "/.",
    "/./a",
    "/..",
    "a/b",
    "a/./b",
    "a//b",
    "a/../b",
    "/a/b/c",
    "/a//b/./c/",
    "a b/c.txt",
    "C:\\a\\b.txt",
];

fn utf8(path: &Path) -> String {
    path.to_str().expect("the samples are text").to_string()
}

#[test]
fn build_destination_uses_source_name() {
    let destination = build_destination_path(Platform::Windows, "C:\\a\\b.txt", "D:\\dest")
        .expect("destination should build");
    assert_eq!(destination, "D:\\dest\\b.txt");
}

#[test]
fn destination_takes_the_name_on_every_platform() {
    let unix = link_destination_path(Platform::Unix, "/a/b.txt", "/dest").expect("it has a name");
    assert_eq!(unix, "/dest/b.txt");
    let drive = link_destination_path(Platform::Windows, "C:\\a\\b.txt", "D:").expect("a name");
    assert_eq!(drive, "D:b.txt");
    let slash = link_destination_path(Platform::Windows, "C:/a/b.txt/", "D:/dest/").expect("a name");
    assert_eq!(slash, "D:/dest/b.txt");
}

#[test]
fn source_without_a_name_has_no_destination() {
    let report = build_destination_path(Platform::Windows, "C:\\", "D:\\dest").expect_err("no name");
    assert_eq!(report.message, "source path has no file name: C:\\");
    assert!(report.cause.is_none());
    let report = build_destination_path(Platform::Windows, "C:\\a\\..", "D:\\dest").expect_err("dots");
    assert_eq!(report.message, "source path has no file name: C:\\a\\..");
    assert!(build_destination_path(Platform::Unix, "/", "/dest").is_err());
}

#[test]
fn names_and_parents_are_those_of_the_platform() {
    for sample in SAMPLES {
        let path = Path::new(sample);
        assert_eq!(
            file_name(Platform::Unix, sample),
            path.file_name().map(|name| name.to_str().expect("text").to_string()),
            "file name of {sample:?}"
        );
        assert_eq!(parent(Platform::Unix, sample), path.parent().map(utf8), "parent of {sample:?}");
        assert_eq!(is_absolute(Platform::Unix, sample), path.is_absolute(), "{sample:?}");
    }
}

#[test]
fn joins_and_comparisons_are_those_of_the_platform() {
    for left in SAMPLES {
        for right in SAMPLES {
            assert_eq!(
                join(Platform::Unix, left, right),
                utf8(&Path::new(left).join(right)),
                "{left:?} with {right:?}"
            );
            assert_eq!(
                same_path(Platform::Unix, left, right),
                Path::new(left) == Path::new(right),
                "{left:?} and {right:?}"
            );
        }
    }
}

#[test]
fn windows_names() {
    let w = Platform::Windows;
    assert_eq!(file_name(w, "C:\\a\\b.txt").as_deref(), Some("b.txt"));
    assert_eq!(file_name(w, "C:/a/b.txt").as_deref(), Some("b.txt"));
    assert_eq!(file_name(w, "C:\\a\\.\\").as_deref(), Some("a"));
    assert_eq!(file_name(w, "C:a").as_deref(), Some("a"));
    assert_eq!(file_name(w, "C:"), None);
    assert_eq!(file_name(w, "C:\\"), None);
    assert_eq!(file_name(w, "\\\\server\\share"), None);
    assert_eq!(file_name(w, "\\\\server\\share\\f").as_deref(), Some("f"));
    assert_eq!(file_name(w, "\\\\?\\C:\\a\\b").as_deref(), Some("b"));
    assert_eq!(file_name(w, "\\\\?\\C:\\a/b").as_deref(), Some("a/b"));
    assert_eq!(file_name(w, "\\\\?\\UNC\\server\\share\\f").as_deref(), Some("f"));
    assert_eq!(file_name(w, "\\\\.\\COM1"), None);
}

#[test]
fn windows_parents() {
    let w = Platform::Windows;
    assert_eq!(parent(w, "C:\\a\\b").as_deref(), Some("C:\\a"));
    assert_eq!(parent(w, "C:\\a").as_deref(), Some("C:\\"));
    assert_eq!(parent(w, "C:a").as_deref(), Some("C:"));
    assert_eq!(parent(w, "C:\\"), None);
    assert_eq!(parent(w, "a").as_deref(), Some(""));
    assert_eq!(parent(w, "\\\\server\\share\\f").as_deref(), Some("\\\\server\\share\\"));
}

#[test]
fn windows_absolute_paths() {
    let w = Platform::Windows;
    assert!(is_absolute(w, "C:\\a"));
    assert!(is_absolute(w, "c:/a"));
    assert!(is_absolute(w, "\\\\server\\share\\f"));
    assert!(is_absolute(w, "\\\\?\\C:\\a"));
    assert!(!is_absolute(w, "C:a"));
    assert!(!is_absolute(w, "\\a"));
    assert!(!is_absolute(w, "a"));
}

#[test]
fn windows_joins() {
    let w = Platform::Windows;
    assert_eq!(join(w, "C:\\a", "b"), "C:\\a\\b");
    assert_eq!(join(w, "C:\\a\\", "b"), "C:\\a\\b");
    assert_eq!(join(w, "C:\\a", "D:\\b"), "D:\\b");
    assert_eq!(join(w, "C:\\a", "\\b"), "C:\\b");
    assert_eq!(join(w, "C:", "b"), "C:b");
    assert_eq!(join(w, "", "b"), "b");
    assert_eq!(join(w, "C:\\a", "D:b"), "D:b");
    assert_eq!(join(w, "\\\\?\\C:\\a", "..\\b"), "\\\\?\\C:\\b");
}

#[test]
fn windows_paths_compare_by_their_parts() {
    let w = Platform::Windows;
    assert!(same_path(w, "C:\\a\\b", "c:/a/./b/"));
    assert!(!same_path(w, "C:\\a\\b", "C:\\a\\B"));
    assert!(!same_path(w, "C:\\a", "D:\\a"));
    assert!(!same_path(w, "C:\\a", "C:a"));
    assert!(!same_path(w, "\\\\server\\share\\f", "\\\\other\\share\\f"));
}
