use docstrings::filetype::FileType;
use docstrings::{CommentStyle, ErrorKind};

fn file_to_type() -> Vec<(&'static str, FileType)> {
    vec![
        ("c", FileType::C),
        ("cc", FileType::CPP),
        ("cpp", FileType::CPP),
        ("cxx", FileType::CPP),
        ("cs", FileType::CSharp),
        ("pyx", FileType::Cython),
        ("ex", FileType::Elixir),
        ("exs", FileType::Elixir),
        ("erl", FileType::Erlang),
        ("hrl", FileType::Erlang),
        ("fs", FileType::FSharp),
        ("fsi", FileType::FSharp),
        ("fsx", FileType::FSharp),
        ("fsscript", FileType::FSharp),
        ("go", FileType::Go),
        ("hs", FileType::Haskell),
        ("lhs", FileType::Haskell),
        ("HC", FileType::HolyC),
        ("java", FileType::Java),
        ("js", FileType::JavaScript),
        ("jl", FileType::Julia),
        ("kt", FileType::Kotlin),
        ("kts", FileType::Kotlin),
        ("lisp", FileType::Lisp),
        ("lsp", FileType::Lisp),
        ("l", FileType::Lisp),
        ("cl", FileType::Lisp),
        ("fasl", FileType::Lisp),
        ("lua", FileType::Lua),
        ("plx", FileType::Perl),
        ("pm", FileType::Perl),
        ("xs", FileType::Perl),
        ("t", FileType::Perl),
        ("pod", FileType::Perl),
        ("cgi", FileType::Perl),
        ("php", FileType::PHP),
        ("phar", FileType::PHP),
        ("phtml", FileType::PHP),
        ("pht", FileType::PHP),
        ("phps", FileType::PHP),
        ("ps1", FileType::PowerShell),
        ("psc1", FileType::PowerShell),
        ("pssc", FileType::PowerShell),
        ("pl", FileType::Prolog),
        ("pro", FileType::Prolog),
        ("P", FileType::Prolog),
        ("py", FileType::Python),
        ("pyi", FileType::Python),
        ("pyc", FileType::Python),
        ("pyd", FileType::Python),
        ("pyw", FileType::Python),
        ("pyz", FileType::Python),
        ("qs", FileType::QSharp),
        ("r", FileType::R),
        ("rdata", FileType::R),
        ("rds", FileType::R),
        ("rb", FileType::Ruby),
        ("rs", FileType::Rust),
        ("scala", FileType::Scala),
        ("sc", FileType::Scala),
        ("swift", FileType::Swift),
        ("SWIFT", FileType::Swift),
        ("ts", FileType::TypeScript),
        ("tsx", FileType::TypeScript),
        ("mts", FileType::TypeScript),
        ("cts", FileType::TypeScript),
        ("vim", FileType::Vim),
        ("zig", FileType::Zig),
        ("zir", FileType::Zig),
    ]
}

fn type_to_style() -> Vec<(FileType, CommentStyle<'static>)> {
    vec![
        (FileType::C, CommentStyle::new("/*", "* ", "*/")),
        (FileType::CPP, CommentStyle::new("/*", "* ", "*/")),
        (FileType::CSharp, CommentStyle::new("/*", "* ", "*/")),
        (FileType::Cython, CommentStyle::new("\"\"\"", "", "\"\"\"")),
        (FileType::Elixir, CommentStyle::new("# ", "# ", "# ")),
        (FileType::Erlang, CommentStyle::new("%", "% ", "%")),
        (FileType::FSharp, CommentStyle::new("(*", "* ", "*)")),
        (FileType::Go, CommentStyle::new("/*", "* ", "*/")),
        (FileType::Haskell, CommentStyle::new("{-", "- ", "-}")),
        (FileType::HolyC, CommentStyle::new("/*", "* ", "*/")),
        (FileType::Java, CommentStyle::new("/*", "* ", "*/")),
        (FileType::JavaScript, CommentStyle::new("/*", "* ", "*/")),
        (FileType::Julia, CommentStyle::new("#=", "= ", "=#")),
        (FileType::Kotlin, CommentStyle::new("/*", "* ", "*/")),
        (FileType::Lisp, CommentStyle::new(";;;;", ";;;; ", ";;;;")),
        (FileType::Lua, CommentStyle::new("--[[", "-- ", "--]]")),
        (FileType::Perl, CommentStyle::new("=", "", "=cut")),
        (FileType::PHP, CommentStyle::new("/*", "* ", "*/")),
        (FileType::Prolog, CommentStyle::new("/*", "* ", "*/")),
        (FileType::Python, CommentStyle::new("\"\"\"", "", "\"\"\"")),
        (FileType::QSharp, CommentStyle::new("///", "///", "///")),
        (FileType::R, CommentStyle::new("#", "# ", "#")),
        (FileType::Ruby, CommentStyle::new("=begin", "", "=end")),
        (FileType::Rust, CommentStyle::new("/*", "* ", "*/")),
        (FileType::Scala, CommentStyle::new("/*", "* ", "*/")),
        (FileType::Swift, CommentStyle::new("/*", "* ", "*/")),
        (FileType::TypeScript, CommentStyle::new("/*", "* ", "*/")),
        (FileType::Vim, CommentStyle::new("\'\"\'", "\'\"\'", "\'\"\'")),
        (FileType::Zig, CommentStyle::new("/*", "* ", "*/")),
    ]
}

#[test]
fn try_from_filename_error() {
    let expected = Err(ErrorKind::NotFound);
    let result = FileType::try_from_filename("_lol__haha.kebab").map_err(|e| e.kind());
    assert_eq!(expected, result);
}

#[test]
fn try_from_filename_ok_all() {
    for (file_ending, expected) in file_to_type() {
        let result = FileType::from_extension(file_ending).unwrap();
        assert_eq!(expected, result);
        let result = FileType::try_from_filename(&format!("name.{}", file_ending)).unwrap();
        assert_eq!(expected, result);
    }
}

#[test]
fn get_comment_style_ok_all() {
    for (filetype, expected) in type_to_style() {
        let result = filetype.get_comment_style();
        assert_eq!(expected, result);
    }
}

#[test]
fn powershell_comment_style() {
    let style = FileType::PowerShell.get_comment_style();
    assert_eq!(style, CommentStyle::new("<#", "# ", "#>"));
}

#[test]
fn every_extension_resolves_to_a_well_formed_style() {
    for (file_ending, _) in file_to_type() {
        let ft = FileType::try_from_filename(&format!("src/main.{}", file_ending)).unwrap();
        let style = ft.get_comment_style();
        assert!(!style.start().is_empty());
        assert!(!style.end().is_empty());
        assert!(!style.start().contains('\n'));
        assert!(!style.normal().contains('\n'));
        assert!(!style.end().contains('\n'));
    }
    let rust = FileType::try_from_filename("lib.rs").unwrap().get_comment_style();
    assert_ne!(rust.start(), rust.end());
}

#[test]
fn unknown_or_missing_extension_is_not_found() {
    for name in ["Makefile", "README", "archive.tar.gz", "notes.", "x.RS", "x.Py", ""] {
        let result = FileType::try_from_filename(name).map_err(|e| e.kind());
        assert_eq!(Err(ErrorKind::NotFound), result, "{}", name);
    }
    assert_eq!(FileType::from_extension("kebab"), None);
}

#[test]
fn extension_is_the_text_after_the_last_dot() {
    assert_eq!(FileType::try_from_filename("a.b.rs").unwrap(), FileType::Rust);
    assert_eq!(FileType::try_from_filename("dir.d/x.py").unwrap(), FileType::Python);
    assert_eq!(FileType::try_from_filename(".rs").unwrap(), FileType::Rust);
    assert_eq!(FileType::try_from_filename("Main.HC").unwrap(), FileType::HolyC);
}

#[test]
fn file_endings_lists_the_extensions_of_a_language() {
    assert_eq!(FileType::CPP.file_endings(), vec!["cc", "cpp", "cxx"]);
    assert_eq!(FileType::Rust.file_endings(), vec!["rs"]);
    assert_eq!(
        FileType::Python.file_endings(),
        vec!["py", "pyc", "pyd", "pyi", "pyw", "pyz"]
    );
    assert_eq!(FileType::Zig.file_endings(), vec!["zig", "zir"]);
}

#[test]
fn display_names() {
    assert_eq!(FileType::HolyC.name(), "HolyC");
    assert_eq!(FileType::CPP.name(), "C++");
    assert_eq!(FileType::CSharp.name(), "C#");
    assert_eq!(FileType::Rust.name(), "Rust");
}
