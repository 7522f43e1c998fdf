//! Languages, the extensions that name them, and their comment syntax.

use vstd::prelude::*;

use crate::comment::CommentStyle;
use crate::error::{Error, ErrorKind};
use crate::text::{chars_equal, chars_of};

verus! {

/// A source language, which fixes the comment syntax of a docstring block.
#[derive(Debug, Clone, Copy, PartialEq, Eq, Hash, Structural)]
pub enum FileType {
    C,
    CPP,
    CSharp,
    Cython,
    Elixir,
    Erlang,
    FSharp,
    Go,
    Haskell,
    HolyC,
    Java,
    JavaScript,
    Julia,
    Kotlin,
    Lisp,
    Lua,
    Perl,
    PHP,
    PowerShell,
    Prolog,
    Python,
    QSharp,
    R,
    Ruby,
    Rust,
    Scala,
    Swift,
    TypeScript,
    Vim,
    Zig,
}

/// The extension table: each extension with the language it names, sorted
/// by `key_order`, so that no extension appears twice.
pub open spec fn extensions() -> Seq<(Seq<char>, FileType)> {
    seq![
        ("HC"@, FileType::HolyC),
        ("P"@, FileType::Prolog),
        ("SWIFT"@, FileType::Swift),
        ("c"@, FileType::C),
        ("cc"@, FileType::CPP),
        ("cgi"@, FileType::Perl),
        ("cl"@, FileType::Lisp),
        ("cpp"@, FileType::CPP),
        ("cs"@, FileType::CSharp),
        ("cts"@, FileType::TypeScript),
        ("cxx"@, FileType::CPP),
        ("erl"@, FileType::Erlang),
        ("ex"@, FileType::Elixir),
        ("exs"@, FileType::Elixir),
        ("fasl"@, FileType::Lisp),
        ("fs"@, FileType::FSharp),
        ("fsi"@, FileType::FSharp),
        ("fsscript"@, FileType::FSharp),
        ("fsx"@, FileType::FSharp),
        ("go"@, FileType::Go),
        ("hrl"@, FileType::Erlang),
        ("hs"@, FileType::Haskell),
        ("java"@, FileType::Java),
        ("jl"@, FileType::Julia),
        ("js"@, FileType::JavaScript),
        ("kt"@, FileType::Kotlin),
        ("kts"@, FileType::Kotlin),
        ("l"@, FileType::Lisp),
        ("lhs"@, FileType::Haskell),
        ("lisp"@, FileType::Lisp),
        ("lsp"@, FileType::Lisp),
        ("lua"@, FileType::Lua),
        ("mts"@, FileType::TypeScript),
        ("phar"@, FileType::PHP),
        ("php"@, FileType::PHP),
        ("phps"@, FileType::PHP),
        ("pht"@, FileType::PHP),
        ("phtml"@, FileType::PHP),
        ("pl"@, FileType::Prolog),
        ("plx"@, FileType::Perl),
        ("pm"@, FileType::Perl),
        ("pod"@, FileType::Perl),
        ("pro"@, FileType::Prolog),
        ("ps1"@, FileType::PowerShell),
        ("psc1"@, FileType::PowerShell),
        ("pssc"@, FileType::PowerShell),
        ("py"@, FileType::Python),
        ("pyc"@, FileType::Python),
        ("pyd"@, FileType::Python),
        ("pyi"@, FileType::Python),
        ("pyw"@, FileType::Python),
        ("pyx"@, FileType::Cython),
        ("pyz"@, FileType::Python),
        ("qs"@, FileType::QSharp),
        ("r"@, FileType::R),
        ("rb"@, FileType::Ruby),
        ("rdata"@, FileType::R),
        ("rds"@, FileType::R),
        ("rs"@, FileType::Rust),
        ("sc"@, FileType::Scala),
        ("scala"@, FileType::Scala),
        ("swift"@, FileType::Swift),
        ("t"@, FileType::Perl),
        ("ts"@, FileType::TypeScript),
        ("tsx"@, FileType::TypeScript),
        ("vim"@, FileType::Vim),
        ("xs"@, FileType::Perl),
        ("zig"@, FileType::Zig),
        ("zir"@, FileType::Zig),
    ]
}

/// The language of the first entry of `t`, from index `i` on, whose
/// extension is `e`.
pub open spec fn lookup_from(t: Seq<(Seq<char>, FileType)>, e: Seq<char>, i: int) -> Option<
    FileType,
>
    decreases t.len() - i,
{
    if i < 0 || i >= t.len() {
        None
    } else if t[i].0 == e {
        Some(t[i].1)
    } else {
        lookup_from(t, e, i + 1)
    }
}

/// The language that extension `e` names, if any.
pub open spec fn lookup_extension(e: Seq<char>) -> Option<FileType> {
    lookup_from(extensions(), e, 0)
}

/// The extensions of the entries of `t` that name `ft`, in order.
pub open spec fn endings_in(t: Seq<(Seq<char>, FileType)>, ft: FileType) -> Seq<Seq<char>>
    decreases t.len(),
{
    if t.len() == 0 {
        seq![]
    } else if t.last().1 == ft {
        endings_in(t.drop_last(), ft).push(t.last().0)
    } else {
        endings_in(t.drop_last(), ft)
    }
}

/// The index of the last `c` among the first `n` characters of `s`.
pub open spec fn last_index_of(s: Seq<char>, c: char, n: int) -> Option<int>
    decreases n,
{
    if n <= 0 {
        None
    } else if s[n - 1] == c {
        Some(n - 1)
    } else {
        last_index_of(s, c, n - 1)
    }
}

/// The text after the last `.` of a file name, if it has a `.`.
pub open spec fn extension_of(name: Seq<char>) -> Option<Seq<char>> {
    match last_index_of(name, '.', name.len() as int) {
        Some(i) => Some(name.subrange(i + 1, name.len() as int)),
        None => None,
    }
}

/// The language of a file name: the one its extension names.
pub open spec fn filetype_of(name: Seq<char>) -> Option<FileType> {
    match extension_of(name) {
        Some(e) => lookup_extension(e),
        None => None,
    }
}

/// The comment markers of a language: (opening marker, line prefix,
/// closing marker).
pub open spec fn style_of(ft: FileType) -> (Seq<char>, Seq<char>, Seq<char>) {
    match ft {
        FileType::C => ("/*"@, "* "@, "*/"@),
        FileType::CPP => ("/*"@, "* "@, "*/"@),
        FileType::CSharp => ("/*"@, "* "@, "*/"@),
        FileType::Cython => ("\"\"\""@, ""@, "\"\"\""@),
        FileType::Elixir => ("# "@, "# "@, "# "@),
        FileType::Erlang => ("%"@, "% "@, "%"@),
        FileType::FSharp => ("(*"@, "* "@, "*)"@),
        FileType::Go => ("/*"@, "* "@, "*/"@),
        FileType::Haskell => ("{-"@, "- "@, "-}"@),
        FileType::HolyC => ("/*"@, "* "@, "*/"@),
        FileType::Java => ("/*"@, "* "@, "*/"@),
        FileType::JavaScript => ("/*"@, "* "@, "*/"@),
        FileType::Julia => ("#="@, "= "@, "=#"@),
        FileType::Kotlin => ("/*"@, "* "@, "*/"@),
        FileType::Lisp => (";;;;"@, ";;;; "@, ";;;;"@),
        FileType::Lua => ("--[["@, "-- "@, "--]]"@),
        FileType::Perl => ("="@, ""@, "=cut"@),
        FileType::PHP => ("/*"@, "* "@, "*/"@),
        FileType::PowerShell => ("<#"@, "# "@, "#>"@),
        FileType::Prolog => ("/*"@, "* "@, "*/"@),
        FileType::Python => ("\"\"\""@, ""@, "\"\"\""@),
        FileType::QSharp => ("///"@, "///"@, "///"@),
        FileType::R => ("#"@, "# "@, "#"@),
        FileType::Ruby => ("=begin"@, ""@, "=end"@),
        FileType::Rust => ("/*"@, "* "@, "*/"@),
        FileType::Scala => ("/*"@, "* "@, "*/"@),
        FileType::Swift => ("/*"@, "* "@, "*/"@),
        FileType::TypeScript => ("/*"@, "* "@, "*/"@),
        FileType::Vim => ("\'\"\'"@, "\'\"\'"@, "\'\"\'"@),
        FileType::Zig => ("/*"@, "* "@, "*/"@),
    }
}

/// The display name of a language.
pub open spec fn name_of(ft: FileType) -> Seq<char> {
    match ft {
        FileType::C => "C"@,
        FileType::CPP => "C++"@,
        FileType::CSharp => "C#"@,
        FileType::Cython => "Cython"@,
        FileType::Elixir => "Elixir"@,
        FileType::Erlang => "Erlang"@,
        FileType::FSharp => "FSharp"@,
        FileType::Go => "Go"@,
        FileType::Haskell => "Haskell"@,
        FileType::HolyC => "HolyC"@,
        FileType::Java => "Java"@,
        FileType::JavaScript => "JavaScript"@,
        FileType::Julia => "Julia"@,
        FileType::Kotlin => "Kotlin"@,
        FileType::Lisp => "Lisp"@,
        FileType::Lua => "Lua"@,
        FileType::Perl => "Perl"@,
        FileType::PHP => "PHP"@,
        FileType::PowerShell => "PowerShell"@,
        FileType::Prolog => "Prolog"@,
        FileType::Python => "Python"@,
        FileType::QSharp => "QSharp"@,
        FileType::R => "R"@,
        FileType::Ruby => "Ruby"@,
        FileType::Rust => "Rust"@,
        FileType::Scala => "Scala"@,
        FileType::Swift => "Swift"@,
        FileType::TypeScript => "TypeScript"@,
        FileType::Vim => "Vim"@,
        FileType::Zig => "Zig"@,
    }
}

/// The extension table, in the order the spec function lists it.
pub fn extension_table() -> (r: Vec<(&'static str, FileType)>)
    ensures
        r@.len() == extensions().len(),
        forall|i: int|
            0 <= i < r@.len() ==> (#[trigger] r@[i]).0@ == extensions()[i].0 && r@[i].1
                == extensions()[i].1,
{
    vec![
        ("HC", FileType::HolyC),
        ("P", FileType::Prolog),
        ("SWIFT", FileType::Swift),
        ("c", FileType::C),
        ("cc", FileType::CPP),
        ("cgi", FileType::Perl),
        ("cl", FileType::Lisp),
        ("cpp", FileType::CPP),
        ("cs", FileType::CSharp),
        ("cts", FileType::TypeScript),
        ("cxx", FileType::CPP),
        ("erl", FileType::Erlang),
        ("ex", FileType::Elixir),
        ("exs", FileType::Elixir),
        ("fasl", FileType::Lisp),
        ("fs", FileType::FSharp),
        ("fsi", FileType::FSharp),
        ("fsscript", FileType::FSharp),
        ("fsx", FileType::FSharp),
        ("go", FileType::Go),
        ("hrl", FileType::Erlang),
        ("hs", FileType::Haskell),
        ("java", FileType::Java),
        ("jl", FileType::Julia),
        ("js", FileType::JavaScript),
        ("kt", FileType::Kotlin),
        ("kts", FileType::Kotlin),
        ("l", FileType::Lisp),
        ("lhs", FileType::Haskell),
        ("lisp", FileType::Lisp),
        ("lsp", FileType::Lisp),
        ("lua", FileType::Lua),
        ("mts", FileType::TypeScript),
        ("phar", FileType::PHP),
        ("php", FileType::PHP),
        ("phps", FileType::PHP),
        ("pht", FileType::PHP),
        ("phtml", FileType::PHP),
        ("pl", FileType::Prolog),
        ("plx", FileType::Perl),
        ("pm", FileType::Perl),
        ("pod", FileType::Perl),
        ("pro", FileType::Prolog),
        ("ps1", FileType::PowerShell),
        ("psc1", FileType::PowerShell),
        ("pssc", FileType::PowerShell),
        ("py", FileType::Python),
        ("pyc", FileType::Python),
        ("pyd", FileType::Python),
        ("pyi", FileType::Python),
        ("pyw", FileType::Python),
        ("pyx", FileType::Cython),
        ("pyz", FileType::Python),
        ("qs", FileType::QSharp),
        ("r", FileType::R),
        ("rb", FileType::Ruby),
        ("rdata", FileType::R),
        ("rds", FileType::R),
        ("rs", FileType::Rust),
        ("sc", FileType::Scala),
        ("scala", FileType::Scala),
        ("swift", FileType::Swift),
        ("t", FileType::Perl),
        ("ts", FileType::TypeScript),
        ("tsx", FileType::TypeScript),
        ("vim", FileType::Vim),
        ("xs", FileType::Perl),
        ("zig", FileType::Zig),
        ("zir", FileType::Zig),
    ]
}

impl FileType {
    /// The language that extension `ext` names.
    pub fn from_extension(ext: &str) -> (r: Option<FileType>)
        ensures
            r == lookup_extension(ext@),
    {
        let table = extension_table();
        let e = chars_of(ext);
        let mut i: usize = 0;
        while i < table.len()
            invariant
                table@.len() == extensions().len(),
                forall|j: int|
                    0 <= j < table@.len() ==> (#[trigger] table@[j]).0@ == extensions()[j].0
                        && table@[j].1 == extensions()[j].1,
                e@ == ext@,
                i <= table.len(),
                lookup_from(extensions(), e@, i as int) == lookup_extension(ext@),
            decreases table.len() - i,
        {
            let key = chars_of(table[i].0);
            if chars_equal(&key, &e) {
                return Some(table[i].1);
            }
            i = i + 1;
        }
        None
    }

    /// The language of a file name, from the text after its last `.`.
    pub fn try_from_filename(fname: &str) -> (r: Result<FileType, Error>)
        ensures
            r == (match filetype_of(fname@) {
                Some(ft) => Ok(ft),
                None => Err(Error { kind: ErrorKind::NotFound }),
            }),
    {
        let v = chars_of(fname);
        let mut n = v.len();
        while n > 0 && v[n - 1] != '.'
            invariant
                n <= v.len(),
                v@ == fname@,
                last_index_of(v@, '.', n as int) == last_index_of(v@, '.', v.len() as int),
            decreases n,
        {
            n = n - 1;
        }
        if n == 0 {
            return Err(Error::new(ErrorKind::NotFound));
        }
        let ext = fname.substring_char(n, v.len());
        match FileType::from_extension(ext) {
            Some(ft) => Ok(ft),
            None => Err(Error::new(ErrorKind::NotFound)),
        }
    }

    /// The extensions that name this language, in table order.
    pub fn file_endings(&self) -> (r: Vec<&'static str>)
        ensures
            r@.map_values(|e: &str| e@) == endings_in(extensions(), *self),
    {
        let table = extension_table();
        let mut r: Vec<&'static str> = Vec::new();
        let mut i: usize = 0;
        while i < table.len()
            invariant
                table@.len() == extensions().len(),
                forall|j: int|
                    0 <= j < table@.len() ==> (#[trigger] table@[j]).0@ == extensions()[j].0
                        && table@[j].1 == extensions()[j].1,
                i <= table.len(),
                r@.map_values(|e: &str| e@) == endings_in(extensions().take(i as int), *self),
            decreases table.len() - i,
        {
            let (key, ft) = table[i];
            proof {
                assert(extensions().take(i + 1).drop_last() =~= extensions().take(i as int));
            }
            if ft == *self {
                r.push(key);
            }
            assert(r@.map_values(|e: &str| e@) =~= endings_in(extensions().take(i + 1), *self));
            i = i + 1;
        }
        assert(extensions().take(table.len() as int) =~= extensions());
        r
    }

    /// The comment markers of this language.
    pub fn get_comment_style(&self) -> (r: CommentStyle<'static>)
        ensures
            r@ == style_of(*self),
    {
        let (start, normal, end) = match self {
            FileType::C => ("/*", "* ", "*/"),
            FileType::CPP => ("/*", "* ", "*/"),
            FileType::CSharp => ("/*", "* ", "*/"),
            FileType::Cython => ("\"\"\"", "", "\"\"\""),
            FileType::Elixir => ("# ", "# ", "# "),
            FileType::Erlang => ("%", "% ", "%"),
            FileType::FSharp => ("(*", "* ", "*)"),
            FileType::Go => ("/*", "* ", "*/"),
            FileType::Haskell => ("{-", "- ", "-}"),
            FileType::HolyC => ("/*", "* ", "*/"),
            FileType::Java => ("/*", "* ", "*/"),
            FileType::JavaScript => ("/*", "* ", "*/"),
            FileType::Julia => ("#=", "= ", "=#"),
            FileType::Kotlin => ("/*", "* ", "*/"),
            FileType::Lisp => (";;;;", ";;;; ", ";;;;"),
            FileType::Lua => ("--[[", "-- ", "--]]"),
            FileType::Perl => ("=", "", "=cut"),
            FileType::PHP => ("/*", "* ", "*/"),
            FileType::PowerShell => ("<#", "# ", "#>"),
            FileType::Prolog => ("/*", "* ", "*/"),
            FileType::Python => ("\"\"\"", "", "\"\"\""),
            FileType::QSharp => ("///", "///", "///"),
            FileType::R => ("#", "# ", "#"),
            FileType::Ruby => ("=begin", "", "=end"),
            FileType::Rust => ("/*", "* ", "*/"),
            FileType::Scala => ("/*", "* ", "*/"),
            FileType::Swift => ("/*", "* ", "*/"),
            FileType::TypeScript => ("/*", "* ", "*/"),
            FileType::Vim => ("\'\"\'", "\'\"\'", "\'\"\'"),
            FileType::Zig => ("/*", "* ", "*/"),
        };
        CommentStyle::new(start, normal, end)
    }

    /// The display name of this language.
    pub fn name(&self) -> (r: &'static str)
        ensures
            r@ == name_of(*self),
    {
        match self {
            FileType::C => "C",
            FileType::CPP => "C++",
            FileType::CSharp => "C#",
            FileType::Cython => "Cython",
            FileType::Elixir => "Elixir",
            FileType::Erlang => "Erlang",
            FileType::FSharp => "FSharp",
            FileType::Go => "Go",
            FileType::Haskell => "Haskell",
            FileType::HolyC => "HolyC",
            FileType::Java => "Java",
            FileType::JavaScript => "JavaScript",
            FileType::Julia => "Julia",
            FileType::Kotlin => "Kotlin",
            FileType::Lisp => "Lisp",
            FileType::Lua => "Lua",
            FileType::Perl => "Perl",
            FileType::PHP => "PHP",
            FileType::PowerShell => "PowerShell",
            FileType::Prolog => "Prolog",
            FileType::Python => "Python",
            FileType::QSharp => "QSharp",
            FileType::R => "R",
            FileType::Ruby => "Ruby",
            FileType::Rust => "Rust",
            FileType::Scala => "Scala",
            FileType::Swift => "Swift",
            FileType::TypeScript => "TypeScript",
            FileType::Vim => "Vim",
            FileType::Zig => "Zig",
        }
    }
}

/// The code of the character at `i` of `s`, or 0 past its end.
pub open spec fn char_code(s: Seq<char>, i: int) -> int {
    if 0 <= i < s.len() {
        s[i] as int
    } else {
        0
    }
}

/// The order of the extension table: by the first three characters, then by
/// length.
pub open spec fn key_order(s: Seq<char>) -> int {
    ((char_code(s, 0) * 0x200000 + char_code(s, 1)) * 0x200000 + char_code(s, 2)) * 16 + s.len()
}

/// Whether the extensions of `t`, from index `k` on, come in strictly
/// increasing `key_order` and hold no `.`.
pub open spec fn increasing_from(t: Seq<(Seq<char>, FileType)>, k: int) -> bool
    decreases t.len() - k,
{
    if 0 <= k < t.len() {
        &&& !t[k].0.contains('.')
        &&& k + 1 < t.len() ==> key_order(t[k].0) < key_order(t[k + 1].0)
        &&& increasing_from(t, k + 1)
    } else {
        true
    }
}

/// The extension table is sorted strictly by `key_order`, and no extension
/// holds a `.`.
pub proof fn lemma_extensions_increasing()
    ensures
        increasing_from(extensions(), 0),
{
    reveal_strlit("HC");
    reveal_strlit("P");
    reveal_strlit("SWIFT");
    reveal_strlit("c");
    reveal_strlit("cc");
    reveal_strlit("cgi");
    reveal_strlit("cl");
    reveal_strlit("cpp");
    reveal_strlit("cs");
    reveal_strlit("cts");
    reveal_strlit("cxx");
    reveal_strlit("erl");
    reveal_strlit("ex");
    reveal_strlit("exs");
    reveal_strlit("fasl");
    reveal_strlit("fs");
    reveal_strlit("fsi");
    reveal_strlit("fsscript");
    reveal_strlit("fsx");
    reveal_strlit("go");
    reveal_strlit("hrl");
    reveal_strlit("hs");
    reveal_strlit("java");
    reveal_strlit("jl");
    reveal_strlit("js");
    reveal_strlit("kt");
    reveal_strlit("kts");
    reveal_strlit("l");
    reveal_strlit("lhs");
    reveal_strlit("lisp");
    reveal_strlit("lsp");
    reveal_strlit("lua");
    reveal_strlit("mts");
    reveal_strlit("phar");
    reveal_strlit("php");
    reveal_strlit("phps");
    reveal_strlit("pht");
    reveal_strlit("phtml");
    reveal_strlit("pl");
    reveal_strlit("plx");
    reveal_strlit("pm");
    reveal_strlit("pod");
    reveal_strlit("pro");
    reveal_strlit("ps1");
    reveal_strlit("psc1");
    reveal_strlit("pssc");
    reveal_strlit("py");
    reveal_strlit("pyc");
    reveal_strlit("pyd");
    reveal_strlit("pyi");
    reveal_strlit("pyw");
    reveal_strlit("pyx");
    reveal_strlit("pyz");
    reveal_strlit("qs");
    reveal_strlit("r");
    reveal_strlit("rb");
    reveal_strlit("rdata");
    reveal_strlit("rds");
    reveal_strlit("rs");
    reveal_strlit("sc");
    reveal_strlit("scala");
    reveal_strlit("swift");
    reveal_strlit("t");
    reveal_strlit("ts");
    reveal_strlit("tsx");
    reveal_strlit("vim");
    reveal_strlit("xs");
    reveal_strlit("zig");
    reveal_strlit("zir");
    assert(extensions().len() == 69);
    assert(increasing_from(extensions(), 69));
    assert(increasing_from(extensions(), 68));
    assert(increasing_from(extensions(), 67));
    assert(increasing_from(extensions(), 66));
    assert(increasing_from(extensions(), 65));
    assert(increasing_from(extensions(), 64));
    assert(increasing_from(extensions(), 63));
    assert(increasing_from(extensions(), 62));
    assert(increasing_from(extensions(), 61));
    assert(increasing_from(extensions(), 60));
    assert(increasing_from(extensions(), 59));
    assert(increasing_from(extensions(), 58));
    assert(increasing_from(extensions(), 57));
    assert(increasing_from(extensions(), 56));
    assert(increasing_from(extensions(), 55));
    assert(increasing_from(extensions(), 54));
    assert(increasing_from(extensions(), 53));
    assert(increasing_from(extensions(), 52));
    assert(increasing_from(extensions(), 51));
    assert(increasing_from(extensions(), 50));
    assert(increasing_from(extensions(), 49));
    assert(increasing_from(extensions(), 48));
    assert(increasing_from(extensions(), 47));
    assert(increasing_from(extensions(), 46));
    assert(increasing_from(extensions(), 45));
    assert(increasing_from(extensions(), 44));
    assert(increasing_from(extensions(), 43));
    assert(increasing_from(extensions(), 42));
    assert(increasing_from(extensions(), 41));
    assert(increasing_from(extensions(), 40));
    assert(increasing_from(extensions(), 39));
    assert(increasing_from(extensions(), 38));
    assert(increasing_from(extensions(), 37));
    assert(increasing_from(extensions(), 36));
    assert(increasing_from(extensions(), 35));
    assert(increasing_from(extensions(), 34));
    assert(increasing_from(extensions(), 33));
    assert(increasing_from(extensions(), 32));
    assert(increasing_from(extensions(), 31));
    assert(increasing_from(extensions(), 30));
    assert(increasing_from(extensions(), 29));
    assert(increasing_from(extensions(), 28));
    assert(increasing_from(extensions(), 27));
    assert(increasing_from(extensions(), 26));
    assert(increasing_from(extensions(), 25));
    assert(increasing_from(extensions(), 24));
    assert(increasing_from(extensions(), 23));
    assert(increasing_from(extensions(), 22));
    assert(increasing_from(extensions(), 21));
    assert(increasing_from(extensions(), 20));
    assert(increasing_from(extensions(), 19));
    assert(increasing_from(extensions(), 18));
    assert(increasing_from(extensions(), 17));
    assert(increasing_from(extensions(), 16));
    assert(increasing_from(extensions(), 15));
    assert(increasing_from(extensions(), 14));
    assert(increasing_from(extensions(), 13));
    assert(increasing_from(extensions(), 12));
    assert(increasing_from(extensions(), 11));
    assert(increasing_from(extensions(), 10));
    assert(increasing_from(extensions(), 9));
    assert(increasing_from(extensions(), 8));
    assert(increasing_from(extensions(), 7));
    assert(increasing_from(extensions(), 6));
    assert(increasing_from(extensions(), 5));
    assert(increasing_from(extensions(), 4));
    assert(increasing_from(extensions(), 3));
    assert(increasing_from(extensions(), 2));
    assert(increasing_from(extensions(), 1));
    assert(increasing_from(extensions(), 0));
}

/// In a table whose extensions increase from `k` on, each later entry has a
/// greater order and no extension holds a `.`.
pub proof fn lemma_increasing_order(t: Seq<(Seq<char>, FileType)>, k: int)
    requires
        0 <= k,
        increasing_from(t, k),
    ensures
        forall|i: int, j: int|
            k <= i < j < t.len() ==> key_order(#[trigger] t[i].0) < key_order(#[trigger] t[j].0),
        forall|i: int| k <= i < t.len() ==> !(#[trigger] t[i].0).contains('.'),
    decreases t.len() - k,
{
    if k < t.len() {
        lemma_increasing_order(t, k + 1);
        assert forall|i: int, j: int|
            k <= i < j < t.len() implies key_order(#[trigger] t[i].0) < key_order(
                #[trigger] t[j].0,
            ) by {
            if i == k && j > k + 1 {
                assert(key_order(t[k + 1].0) < key_order(t[j].0));
            }
        }
    }
}

/// No extension appears twice in the table.
pub proof fn lemma_extensions_unique()
    ensures
        forall|i: int, j: int|
            0 <= i < j < extensions().len() ==> (#[trigger] extensions()[i]).0
                != (#[trigger] extensions()[j]).0,
{
    lemma_extensions_increasing();
    lemma_increasing_order(extensions(), 0);
    assert forall|i: int, j: int| 0 <= i < j < extensions().len() implies (
    #[trigger] extensions()[i]).0 != (#[trigger] extensions()[j]).0 by {
        assert(key_order(extensions()[i].0) < key_order(extensions()[j].0));
    }
}

/// Looking an extension up from index `j` finds the entry at `i` when no
/// entry between them has the same extension.
proof fn lemma_lookup_reaches(t: Seq<(Seq<char>, FileType)>, i: int, j: int)
    requires
        0 <= j <= i < t.len(),
        forall|m: int| j <= m < i ==> (#[trigger] t[m]).0 != t[i].0,
    ensures
        lookup_from(t, t[i].0, j) == Some(t[i].1),
    decreases i - j,
{
    if j < i {
        lemma_lookup_reaches(t, i, j + 1);
    }
}

/// Every extension of the table names its own language.
pub proof fn lemma_every_extension_resolves(i: int)
    requires
        0 <= i < extensions().len(),
    ensures
        lookup_extension(extensions()[i].0) == Some(extensions()[i].1),
{
    lemma_extensions_unique();
    assert forall|m: int| 0 <= m < i implies (#[trigger] extensions()[m]).0 != extensions()[i].0 by {
        assert(extensions()[m].0 != extensions()[i].0);
    }
    lemma_lookup_reaches(extensions(), i, 0);
}

/// The extension of a name that ends in `.` and a run without `.` is that
/// run.
pub proof fn lemma_extension_after_dot(base: Seq<char>, e: Seq<char>)
    requires
        !e.contains('.'),
    ensures
        extension_of(base + seq!['.'] + e) == Some(e),
{
    let name = base + seq!['.'] + e;
    let d = base.len() as int;
    assert forall|n: int| d + 1 <= n <= name.len() implies last_index_of(name, '.', n)
        == Some(d) by {
        lemma_last_index_over(name, d, n);
    }
    assert(name.subrange(d + 1, name.len() as int) =~= e);
}

/// Scanning back from `n` over characters that are not `.` reaches the `.`
/// at `d`.
proof fn lemma_last_index_over(name: Seq<char>, d: int, n: int)
    requires
        0 <= d < n <= name.len(),
        name[d] == '.',
        forall|m: int| d < m < name.len() ==> name[m] != '.',
    ensures
        last_index_of(name, '.', n) == Some(d),
    decreases n,
{
    if n - 1 > d {
        lemma_last_index_over(name, d, n - 1);
    }
}

/// Every file name that ends in `.` and an extension of the table resolves
/// to the language that extension names.
pub proof fn lemma_every_filename_resolves(base: Seq<char>, i: int)
    requires
        0 <= i < extensions().len(),
    ensures
        filetype_of(base + seq!['.'] + extensions()[i].0) == Some(extensions()[i].1),
{
    lemma_extensions_increasing();
    lemma_increasing_order(extensions(), 0);
    lemma_every_extension_resolves(i);
    lemma_extension_after_dot(base, extensions()[i].0);
}

/// Whether the opening and the closing marker of `ft` are the same text.
pub open spec fn shares_markers(ft: FileType) -> bool {
    ft == FileType::Cython || ft == FileType::Elixir || ft == FileType::Erlang || ft
        == FileType::Lisp || ft == FileType::Python || ft == FileType::QSharp || ft == FileType::R
        || ft == FileType::Vim
}

/// Every file name that resolves to a language gets a comment style whose
/// opening and closing markers are non-empty and each fit on one line, as
/// does its line prefix.
pub proof fn lemma_resolved_style_well_formed(name: Seq<char>)
    requires
        filetype_of(name) is Some,
    ensures
        style_of(filetype_of(name)->0).0.len() > 0,
        style_of(filetype_of(name)->0).2.len() > 0,
        crate::block::single_line_style(style_of(filetype_of(name)->0)),
{
    lemma_style_well_formed(filetype_of(name)->0);
}

/// Every language's opening and closing markers are non-empty, and all
/// three markers fit on one line.
pub proof fn lemma_style_well_formed(ft: FileType)
    ensures
        style_of(ft).0.len() > 0,
        style_of(ft).2.len() > 0,
        crate::block::single_line_style(style_of(ft)),
{
    reveal_strlit("# ");
    reveal_strlit("#");
    reveal_strlit("#=");
    reveal_strlit("#>");
    reveal_strlit("%");
    reveal_strlit("(*");
    reveal_strlit("*)");
    reveal_strlit("*/");
    reveal_strlit("--[[");
    reveal_strlit("--]]");
    reveal_strlit("-}");
    reveal_strlit("/*");
    reveal_strlit("///");
    reveal_strlit(";;;;");
    reveal_strlit("<#");
    reveal_strlit("=");
    reveal_strlit("=#");
    reveal_strlit("=begin");
    reveal_strlit("=cut");
    reveal_strlit("=end");
    reveal_strlit("\"\"\"");
    reveal_strlit("\'\"\'");
    reveal_strlit("{-");
    reveal_strlit("* ");
    reveal_strlit("");
    reveal_strlit("% ");
    reveal_strlit("- ");
    reveal_strlit("= ");
    reveal_strlit(";;;; ");
    reveal_strlit("-- ");
}

/// Every language's opening and closing markers are at most six
/// characters long.
pub proof fn lemma_markers_short(ft: FileType)
    ensures
        style_of(ft).0.len() <= 6,
        style_of(ft).2.len() <= 6,
{
    reveal_strlit("# ");
    reveal_strlit("#");
    reveal_strlit("#=");
    reveal_strlit("#>");
    reveal_strlit("%");
    reveal_strlit("(*");
    reveal_strlit("*)");
    reveal_strlit("*/");
    reveal_strlit("--[[");
    reveal_strlit("--]]");
    reveal_strlit("-}");
    reveal_strlit("/*");
    reveal_strlit("///");
    reveal_strlit(";;;;");
    reveal_strlit("<#");
    reveal_strlit("=");
    reveal_strlit("=#");
    reveal_strlit("=begin");
    reveal_strlit("=cut");
    reveal_strlit("=end");
    reveal_strlit("\"\"\"");
    reveal_strlit("\'\"\'");
    reveal_strlit("{-");
    reveal_strlit("* ");
    reveal_strlit("");
    reveal_strlit("% ");
    reveal_strlit("- ");
    reveal_strlit("= ");
    reveal_strlit(";;;; ");
    reveal_strlit("-- ");
}

/// A file name that resolves to a language whose markers are not the same
/// text gets an opening marker that differs from its closing marker.
pub proof fn lemma_resolved_markers_differ(name: Seq<char>)
    requires
        filetype_of(name) is Some,
        !shares_markers(filetype_of(name)->0),
    ensures
        style_of(filetype_of(name)->0).0 != style_of(filetype_of(name)->0).2,
{
    let ft = filetype_of(name)->0;
    reveal_strlit("# ");
    reveal_strlit("#");
    reveal_strlit("#=");
    reveal_strlit("#>");
    reveal_strlit("%");
    reveal_strlit("(*");
    reveal_strlit("*)");
    reveal_strlit("*/");
    reveal_strlit("--[[");
    reveal_strlit("--]]");
    reveal_strlit("-}");
    reveal_strlit("/*");
    reveal_strlit("///");
    reveal_strlit(";;;;");
    reveal_strlit("<#");
    reveal_strlit("=");
    reveal_strlit("=#");
    reveal_strlit("=begin");
    reveal_strlit("=cut");
    reveal_strlit("=end");
    reveal_strlit("\"\"\"");
    reveal_strlit("\'\"\'");
    reveal_strlit("{-");
    match ft {
        FileType::Lua => assert(style_of(ft).0[2] != style_of(ft).2[2]),
        FileType::Perl | FileType::Ruby => assert(style_of(ft).0.len() != style_of(ft).2.len()),
        _ => assert(style_of(ft).0[0] != style_of(ft).2[0]),
    }
}

} // verus!
