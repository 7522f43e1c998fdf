use docstrings::tmp::{tmp_file_named, FILENAMELEN};
use docstrings::tmp_file_from_path;

#[test]
fn tmp_file_from() {
    let _tp: String = tmp_file_from_path("src");
}

#[test]
fn tmp_file_lies_next_to_the_target() {
    let tp = tmp_file_from_path("dir/sub/file.rs");
    assert!(tp.starts_with("dir/sub/"));
    let name = &tp["dir/sub/".len()..];
    assert_eq!(name.len(), FILENAMELEN);
    assert!(name.chars().all(|c| c.is_ascii_alphanumeric()));

    let bare = tmp_file_from_path("file.rs");
    assert_eq!(bare.len(), FILENAMELEN);
    assert!(bare.chars().all(|c| c.is_ascii_alphanumeric()));
}

#[test]
fn tmp_file_named_keeps_the_directory() {
    assert_eq!(tmp_file_named("a/b.rs", "XYZ"), "a/XYZ");
    assert_eq!(tmp_file_named("/abs/c.py", "T"), "/abs/T");
    assert_eq!(tmp_file_named("src", "T"), "T");
    assert_eq!(tmp_file_named("a/b/", "T"), "a/T");
    assert_eq!(tmp_file_named("a/b//", "T"), "a/T");
    assert_eq!(tmp_file_named("a/", "T"), "T");
    assert_eq!(tmp_file_named("/", "T"), "T");
    assert_eq!(tmp_file_named("/x", "T"), "/T");
}
