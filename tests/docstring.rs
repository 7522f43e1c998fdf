use docstrings::block::{build, strip_block};
use docstrings::docstring::{find_created_date, find_created_line, today};
use docstrings::update::{insert_contents, refresh_contents, updated_contents};
use docstrings::walk::{glob_pattern, walk_patterns};
use docstrings::{remove_docstring_from_contents, Docstring, ErrorKind, FileType};

const HEADER: &str = "/*\n* MIT License\n*\n* Copyright (c) 2023 Wilhelm Ågren\n*\n* File created: 2023-10-02\n* Last updated: 2023-10-04\n*/\n\nuse crate::FileType;\n";

fn rust_docstring() -> Docstring {
    Docstring::new("src/docstring.rs".to_owned(), "LICENSE".to_owned(), FileType::Rust)
}

#[test]
fn find_created_date_ok() {
    let mut ds = rust_docstring();
    ds.try_find_created_date(HEADER).unwrap();
}

#[test]
fn format_contents_ok() {
    let mut ds = rust_docstring();
    ds.set_license_text("MIT License".to_owned());
    ds.try_find_created_date(HEADER).unwrap();
    ds.format_contents().unwrap();
    let block = ds.get_formatted_contents().unwrap();
    assert!(block.starts_with("/*\n* MIT License\n* File created: 2023-10-02\n* Last updated: "));
    assert!(block.ends_with("\n*/\n\n"));
}

#[test]
fn created_date_is_the_first_date_on_the_created_line() {
    assert_eq!(find_created_date("File created: 2023-10-02").unwrap(), "2023-10-02");
    assert_eq!(find_created_date(HEADER).unwrap(), "2023-10-02");
    let text = "x\n# File created: 2021-3-7 and 2022-01-01\n# File created: 1999-12-31\n";
    assert_eq!(find_created_date(text).unwrap(), "2021-3-7");
    assert_eq!(
        find_created_line(text).unwrap(),
        "# File created: 2021-3-7 and 2022-01-01"
    );
}

#[test]
fn created_date_takes_one_or_two_digit_month_and_day() {
    assert_eq!(find_created_date("* File created: 2023-10-24").unwrap(), "2023-10-24");
    assert_eq!(find_created_date("* File created: 2023-12-31\n").unwrap(), "2023-12-31");
    assert_eq!(find_created_date("* File created: 2023-11-19").unwrap(), "2023-11-19");
    assert_eq!(find_created_date("* File created: 23-1-5").unwrap(), "23-1-5");
    assert_eq!(find_created_date("* File created: 7-09-30 x").unwrap(), "7-09-30");
    let no_day = find_created_date("* File created: 2023-10-").map_err(|e| e.kind());
    assert_eq!(no_day, Err(ErrorKind::NotFound));
}

#[test]
fn today_has_the_rendered_date_shape() {
    let date = today();
    let chars: Vec<char> = date.chars().collect();
    let n = chars.len();
    assert!(n >= 10);
    assert_eq!(chars[n - 3], '-');
    assert_eq!(chars[n - 6], '-');
    let month: u32 = date[n - 5..n - 3].parse().unwrap();
    let day: u32 = date[n - 2..].parse().unwrap();
    assert!((1..=12).contains(&month));
    assert!((1..=31).contains(&day));
    assert!(chars[..n - 6].iter().all(|c| c.is_ascii_digit()));
}

#[test]
fn refresh_replaces_a_block_written_by_hand() {
    let old = "\"\"\" Project header\nSome text\nFile created: 2019-7-4\n\"\"\" end\nimport sys\n";
    let run_date = today();
    let out = refresh_contents(old.as_bytes().to_vec(), "MIT", FileType::Python, &run_date).unwrap();
    assert_eq!(
        out,
        format!("\"\"\"\nMIT\nFile created: 2019-7-4\nLast updated: {run_date}\n\"\"\"\n\nimport sys\n")
    );
}

#[test]
fn created_date_missing_is_not_found() {
    let no_line = find_created_date("fn main() {}\n").map_err(|e| e.kind());
    assert_eq!(no_line, Err(ErrorKind::NotFound));
    assert_eq!(find_created_line("fn main() {}\n"), None);
    let no_date = find_created_date("* File created: yesterday\n* 2023-10-02").map_err(|e| e.kind());
    assert_eq!(no_date, Err(ErrorKind::NotFound));
    let mut ds = rust_docstring();
    let r = ds.try_find_created_date("nothing here").map_err(|e| e.kind());
    assert_eq!(r, Err(ErrorKind::NotFound));
}

#[test]
fn new_file_block_for_one_line_license() {
    let date = today();
    let mut ds = rust_docstring();
    ds.set_license_text("MIT".to_owned());
    ds.format_contents_on(&date).unwrap();
    let expected = format!("/*\n* MIT\n* File created: {date}\n* Last updated: {date}\n*/\n\n");
    assert_eq!(ds.get_formatted_contents().unwrap(), expected);
}

#[test]
fn format_contents_uses_the_local_date() {
    let mut ds = rust_docstring();
    ds.set_license_text("MIT".to_owned());
    ds.format_contents().unwrap();
    let block = ds.get_formatted_contents().unwrap();
    let date = today();
    assert_eq!(block, format!("/*\n* MIT\n* File created: {date}\n* Last updated: {date}\n*/\n\n"));
}

#[test]
fn today_is_an_iso_date() {
    let date = today();
    assert_eq!(date.len(), 10);
    let bytes = date.as_bytes();
    assert_eq!(bytes[4], b'-');
    assert_eq!(bytes[7], b'-');
    assert!(date.chars().filter(|c| *c != '-').all(|c| c.is_ascii_digit()));
}

#[test]
fn format_before_reading_license_is_invalid_data() {
    let mut ds = rust_docstring();
    assert_eq!(ds.try_get_contents().map_err(|e| e.kind()), Err(ErrorKind::InvalidData));
    let r = ds.format_contents_on("2024-01-01").map_err(|e| e.kind());
    assert_eq!(r, Err(ErrorKind::InvalidData));
    assert_eq!(ds.get_formatted_contents(), None);
}

#[test]
fn docstring_paths_and_contents() {
    let mut ds = rust_docstring();
    assert_eq!(ds.target_path(), "src/docstring.rs");
    assert_eq!(ds.license_path(), "LICENSE");
    ds.set_license_text("Apache".to_owned());
    assert_eq!(ds.try_get_contents().unwrap(), "Apache");
}

#[test]
fn build_splits_license_lines() {
    let style = FileType::Python.get_comment_style();
    let block = build("line one\n\nline three\n", &style, "2020-01-01", "2024-02-03");
    assert_eq!(
        block,
        "\"\"\"\nline one\n\nline three\n\nFile created: 2020-01-01\nLast updated: 2024-02-03\n\"\"\"\n\n"
    );
    let lua = FileType::Lua.get_comment_style();
    assert_eq!(
        build("a\nb", &lua, "1", "2"),
        "--[[\n-- a\n-- b\n-- File created: 1\n-- Last updated: 2\n--]]\n\n"
    );
}

#[test]
fn strip_after_build_gives_back_the_body() {
    for ft in [FileType::Rust, FileType::Python, FileType::Haskell, FileType::Ruby, FileType::Lua] {
        let style = ft.get_comment_style();
        for body in ["", "int main(){}", "\nfn main() {}\n", "x\n/* not a block */\n"] {
            let block = build("MIT License\n\nCopyright (c) 2023\n", &style, "2023-10-02", "2024-05-06");
            let text = format!("{block}{body}");
            assert_eq!(strip_block(&text, &style), body);
        }
    }
}

#[test]
fn strip_without_a_complete_block_keeps_the_text() {
    let style = FileType::C.get_comment_style();
    assert_eq!(strip_block("int main(){}", &style), "int main(){}");
    assert_eq!(strip_block("/* open\nno close\n", &style), "/* open\nno close\n");
    assert_eq!(strip_block("", &style), "");
    assert_eq!(strip_block("a\n/*\n* x\n*/\nb", &style), "a\nb");
    assert_eq!(strip_block("/*\n*/", &style), "");
}

#[test]
fn remove_docstring_from_bytes() {
    let style = FileType::Rust.get_comment_style();
    let out = remove_docstring_from_contents(HEADER.as_bytes().to_vec(), style.clone()).unwrap();
    assert_eq!(out, "use crate::FileType;\n");
    let bad = remove_docstring_from_contents(vec![0x66, 0xff, 0x0a], style).map_err(|e| e.kind());
    assert_eq!(bad, Err(ErrorKind::InvalidData));
}

#[test]
fn insert_into_existing_file_keeps_its_content() {
    let date = today();
    let existing = b"int main(){}".to_vec();
    let out = insert_contents(existing, "MIT", FileType::C, &date).unwrap();
    assert_eq!(
        out,
        format!("/*\n* MIT\n* File created: {date}\n* Last updated: {date}\n*/\n\nint main(){{}}")
    );
    let style = FileType::C.get_comment_style();
    assert_eq!(strip_block(&out, &style), "int main(){}");
}

#[test]
fn insert_keeps_a_recorded_created_date() {
    let out = insert_contents(HEADER.as_bytes().to_vec(), "MIT", FileType::Rust, "2030-01-01").unwrap();
    assert_eq!(
        out,
        "/*\n* MIT\n* File created: 2023-10-02\n* Last updated: 2030-01-01\n*/\n\nuse crate::FileType;\n"
    );
    let bad = insert_contents(vec![0xc3], "MIT", FileType::Rust, "2030-01-01").map_err(|e| e.kind());
    assert_eq!(bad, Err(ErrorKind::InvalidData));
}

#[test]
fn batch_refresh_leaves_one_block_per_file() {
    let style = FileType::Python.get_comment_style();
    let bodies = ["import os\n", "def f():\n    return 1\n", "print('hi')\n"];
    let created = ["2021-01-01", "2022-02-02", "2023-03-03"];
    let run_date = today();
    for i in 0..3 {
        let stamped = format!("{}{}", build("MIT", &style, created[i], "2023-10-04"), bodies[i]);
        let refreshed = refresh_contents(stamped.into_bytes(), "MIT", FileType::Python, &run_date).unwrap();
        assert_eq!(refreshed.matches("File created: ").count(), 1);
        assert_eq!(refreshed.matches("\"\"\"\n").count(), 2);
        assert!(refreshed.contains(&format!("Last updated: {run_date}\n")));
        let updated: Vec<&str> = refreshed.lines().filter(|l| l.contains("Last updated: ")).collect();
        assert_eq!(updated, vec![format!("Last updated: {run_date}")]);
        assert!(refreshed.contains(&format!("File created: {}\n", created[i])));
        assert_eq!(strip_block(&refreshed, &style), bodies[i]);
        let again = refresh_contents(refreshed.clone().into_bytes(), "MIT", FileType::Python, &run_date).unwrap();
        assert_eq!(again, refreshed);
    }
}

#[test]
fn refresh_needs_a_created_date() {
    let r = refresh_contents(b"print(1)\n".to_vec(), "MIT", FileType::Python, "2024-01-01").map_err(|e| e.kind());
    assert_eq!(r, Err(ErrorKind::NotFound));
    let r = refresh_contents(vec![0xff], "MIT", FileType::Python, "2024-01-01").map_err(|e| e.kind());
    assert_eq!(r, Err(ErrorKind::InvalidData));
}

#[test]
fn updated_contents_prepends_the_block() {
    let style = FileType::Rust.get_comment_style();
    let out = updated_contents("/*\n* X\n*/\n\n", HEADER.as_bytes().to_vec(), style.clone()).unwrap();
    assert_eq!(out, "/*\n* X\n*/\n\nuse crate::FileType;\n");
    let bad = updated_contents("B", vec![0xfe], style).map_err(|e| e.kind());
    assert_eq!(bad, Err(ErrorKind::InvalidData));
}

#[test]
fn walk_patterns_cover_every_extension() {
    assert_eq!(glob_pattern("src", "rs"), "./src/**/*.rs");
    assert_eq!(
        walk_patterns("proj", FileType::CPP),
        vec!["./proj/**/*.cc", "./proj/**/*.cpp", "./proj/**/*.cxx"]
    );
}
