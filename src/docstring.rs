//! The docstring of one target file: the license text it carries, the
//! date the file was created, and the formatted block.

use vstd::prelude::*;

use crate::block::{build, docstring_block, single_line};
use crate::error::{Error, ErrorKind};
use crate::filetype::{style_of, FileType};
use crate::text::{
    chars_of,
    find_line_containing,
    find_line_containing_in,
    lemma_find_line_containing_bounds,
    lemma_line_end,
    line_at,
    line_end_at,
};

verus! {

/// The pattern of a date on a created-date line: a year of one to four
/// digits, a month of one or two digits and a day of one or two digits,
/// joined by `-`. The regex engine takes the first alternative that
/// matches, so the two-digit alternatives come first.
pub const DATE_PATTERN: &'static str = r"\d{1,4}-(1[012]|0?[1-9])-(3[01]|[12][0-9]|0?[1-9])";

/// The label of the line that records when a file was created.
pub const CREATED_LABEL: &'static str = "File created: ";

/// The text of the leftmost-first match of the regular expression `pattern`
/// in `hay`; None when there is none or the pattern does not compile.
pub uninterp spec fn regex_first_match(pattern: Seq<char>, hay: Seq<char>) -> Option<Seq<char>>;

/// Relies on regex::Regex::new and Regex::find (with Match::as_str): the
/// text of the first match of `pattern` in `hay`, which depends on these
/// two strings alone.
#[verifier::external_body]
fn first_match(pattern: &str, hay: &str) -> (r: Option<String>)
    ensures
        match r {
            Some(m) => regex_first_match(pattern@, hay@) == Some(m@),
            None => regex_first_match(pattern@, hay@) is None,
        },
{
    match regex::Regex::new(pattern) {
        Ok(re) => re.find(hay).map(|m| m.as_str().to_owned()),
        Err(_) => None,
    }
}

/// Whether `c` is an ASCII digit.
pub open spec fn is_digit(c: char) -> bool {
    '0' <= c && c <= '9'
}

/// The number written by the two digits `a` and `b`.
pub open spec fn two_digit_value(a: char, b: char) -> int {
    (a as int - '0' as int) * 10 + (b as int - '0' as int)
}

/// Whether `d` is a date rendered with `%Y-%m-%d`: a year of at least four
/// digits, signed when it lies outside 0 to 9999, then `-`, a two-digit
/// month from 01 to 12, `-` and a two-digit day from 01 to 31.
pub open spec fn is_rendered_date(d: Seq<char>) -> bool {
    let n = d.len() as int;
    &&& n >= 10
    &&& (is_digit(d[0]) || ((d[0] == '+' || d[0] == '-') && n >= 11))
    &&& forall|i: int| 0 < i < n - 6 ==> is_digit(#[trigger] d[i])
    &&& d[n - 6] == '-'
    &&& is_digit(d[n - 5]) && is_digit(d[n - 4])
    &&& 1 <= two_digit_value(d[n - 5], d[n - 4]) <= 12
    &&& d[n - 3] == '-'
    &&& is_digit(d[n - 2]) && is_digit(d[n - 1])
    &&& 1 <= two_digit_value(d[n - 2], d[n - 1]) <= 31
}

/// Relies on chrono::Local::now and DateTime::format: today's local date
/// rendered with `%Y-%m-%d`. chrono writes the year zero-padded to four
/// digits (with a sign outside 0 to 9999), and the month (1 to 12) and the
/// day (1 to 31) zero-padded to two digits each.
#[verifier::external_body]
fn local_date(format: &str) -> (r: String)
    requires
        format@ == "%Y-%m-%d"@,
    ensures
        is_rendered_date(r@),
{
    chrono::Local::now().format(format).to_string()
}

/// Today's local date as `YYYY-MM-DD`. It depends on the clock; whatever
/// the clock says, it has the shape of a rendered date, on a single line.
pub fn today() -> (r: String)
    ensures
        is_rendered_date(r@),
        single_line(r@),
{
    let r = local_date("%Y-%m-%d");
    let ghost n = r@.len() as int;
    assert forall|k: int| 0 <= k < n implies r@[k] != '\n' by {
        if 0 < k < n - 6 {
            assert(is_digit(r@[k]));
        }
    }
    r
}

/// The first line of `text` that contains `File created: `, if any.
pub open spec fn created_line_of(text: Seq<char>) -> Option<Seq<char>> {
    match find_line_containing(text, 0, CREATED_LABEL@) {
        Some(k) => Some(line_at(text, k)),
        None => None,
    }
}

/// The created date recorded in `text`: the first date on its first line
/// that contains `File created: `.
pub open spec fn created_date_of(text: Seq<char>) -> Option<Seq<char>> {
    match created_line_of(text) {
        Some(line) => regex_first_match(DATE_PATTERN@, line),
        None => None,
    }
}

/// The first line of `text` that contains `File created: `.
pub fn find_created_line(text: &str) -> (r: Option<String>)
    ensures
        match r {
            Some(line) => created_line_of(text@) == Some(line@),
            None => created_line_of(text@) is None,
        },
{
    let v = chars_of(text);
    let label = chars_of(CREATED_LABEL);
    match find_line_containing_in(&v, 0, &label) {
        Some(k) => {
            proof {
                lemma_find_line_containing_bounds(v@, 0, label@);
                lemma_line_end(v@, k as int);
            }
            let e = line_end_at(&v, k);
            Some(text.substring_char(k, e).to_owned())
        },
        None => None,
    }
}

/// The created date recorded in `text`; `NotFound` when no line holds
/// `File created: ` or that line holds no date.
pub fn find_created_date(text: &str) -> (r: Result<String, Error>)
    ensures
        match r {
            Ok(d) => created_date_of(text@) == Some(d@),
            Err(e) => created_date_of(text@) is None && e.kind == ErrorKind::NotFound,
        },
{
    match find_created_line(text) {
        Some(line) => match first_match(DATE_PATTERN, line.as_str()) {
            Some(d) => Ok(d),
            None => Err(Error::new(ErrorKind::NotFound)),
        },
        None => Err(Error::new(ErrorKind::NotFound)),
    }
}

/// The characters of an optional string.
pub open spec fn opt_view(o: Option<String>) -> Option<Seq<char>> {
    match o {
        Some(s) => Some(s@),
        None => None,
    }
}

/// The recorded created date, or `today` when none was recorded.
pub open spec fn created_or(created: Option<Seq<char>>, today: Seq<char>) -> Seq<char> {
    match created {
        Some(c) => c,
        None => today,
    }
}

/// The docstring of one target file: where the file and the license are, the
/// file's language, the license text once read, the file's created date once
/// found, and the formatted block once built.
pub struct Docstring {
    target_path: String,
    license_path: String,
    file_type: FileType,
    contents: Option<String>,
    formatted_contents: Option<String>,
    file_created: Option<String>,
}

/// The state of a `Docstring`, as characters.
pub struct DocstringView {
    pub target_path: Seq<char>,
    pub license_path: Seq<char>,
    pub file_type: FileType,
    pub contents: Option<Seq<char>>,
    pub formatted_contents: Option<Seq<char>>,
    pub file_created: Option<Seq<char>>,
}

impl View for Docstring {
    type V = DocstringView;

    closed spec fn view(&self) -> DocstringView {
        DocstringView {
            target_path: self.target_path@,
            license_path: self.license_path@,
            file_type: self.file_type,
            contents: opt_view(self.contents),
            formatted_contents: opt_view(self.formatted_contents),
            file_created: opt_view(self.file_created),
        }
    }
}

impl Docstring {
    /// A docstring for the file at `target_path`, with the license at
    /// `license_path`; nothing read or built yet.
    pub fn new(target_path: String, license_path: String, file_type: FileType) -> (r: Self)
        ensures
            r@ == (DocstringView {
                target_path: target_path@,
                license_path: license_path@,
                file_type,
                contents: None,
                formatted_contents: None,
                file_created: None,
            }),
    {
        Self {
            target_path,
            license_path,
            file_type,
            contents: None,
            formatted_contents: None,
            file_created: None,
        }
    }

    /// Where the target file is.
    pub fn target_path(&self) -> (r: &str)
        ensures
            r@ == self@.target_path,
    {
        self.target_path.as_str()
    }

    /// Where the license is.
    pub fn license_path(&self) -> (r: &str)
        ensures
            r@ == self@.license_path,
    {
        self.license_path.as_str()
    }

    /// Records the license text, once read.
    pub fn set_license_text(&mut self, text: String)
        ensures
            final(self)@ == (DocstringView { contents: Some(text@), ..old(self)@ }),
    {
        self.contents = Some(text);
    }

    /// The license text; `InvalidData` when it has not been read yet.
    pub fn try_get_contents(&self) -> (r: Result<String, Error>)
        ensures
            match self@.contents {
                Some(c) => r matches Ok(s) && s@ == c,
                None => r matches Err(e) && e.kind == ErrorKind::InvalidData,
            },
    {
        match &self.contents {
            Some(c) => Ok(c.clone()),
            None => Err(Error::new(ErrorKind::InvalidData)),
        }
    }

    /// Records the created date found in the target file's text; `NotFound`,
    /// with nothing changed, when the text records none.
    pub fn try_find_created_date(&mut self, file_text: &str) -> (r: Result<(), Error>)
        ensures
            match created_date_of(file_text@) {
                Some(d) => r is Ok && final(self)@ == (DocstringView {
                    file_created: Some(d),
                    ..old(self)@
                }),
                None => r matches Err(e) && e.kind == ErrorKind::NotFound && final(self)@ == old(
                    self,
                )@,
            },
    {
        match find_created_date(file_text) {
            Ok(d) => {
                self.file_created = Some(d);
                Ok(())
            },
            Err(e) => Err(e),
        }
    }

    /// Builds the block from the license text with `today` as the date of
    /// this update, and as the created date when none was found;
    /// `InvalidData`, with nothing changed, when the license has not been
    /// read.
    pub fn format_contents_on(&mut self, today: &str) -> (r: Result<(), Error>)
        ensures
            match old(self)@.contents {
                Some(c) => r is Ok && final(self)@ == (DocstringView {
                    formatted_contents: Some(
                        docstring_block(
                            c,
                            style_of(old(self)@.file_type),
                            created_or(old(self)@.file_created, today@),
                            today@,
                        ),
                    ),
                    ..old(self)@
                }),
                None => r matches Err(e) && e.kind == ErrorKind::InvalidData && final(self)@ == old(
                    self,
                )@,
            },
    {
        let contents = match self.try_get_contents() {
            Ok(c) => c,
            Err(e) => return Err(e),
        };
        let style = self.file_type.get_comment_style();
        let formatted = match &self.file_created {
            Some(c) => build(contents.as_str(), &style, c.as_str(), today),
            None => build(contents.as_str(), &style, today, today),
        };
        self.formatted_contents = Some(formatted);
        Ok(())
    }

    /// Builds the block as `format_contents_on` does, dated today by the
    /// local clock.
    pub fn format_contents(&mut self) -> (r: Result<(), Error>)
        ensures
            match old(self)@.contents {
                Some(c) => r is Ok && exists|t: Seq<char>|
                    is_rendered_date(t) && final(self)@ == (DocstringView {
                        formatted_contents: Some(
                            docstring_block(
                                c,
                                style_of(old(self)@.file_type),
                                created_or(old(self)@.file_created, t),
                                t,
                            ),
                        ),
                        ..old(self)@
                    }),
                None => r matches Err(e) && e.kind == ErrorKind::InvalidData && final(self)@ == old(
                    self,
                )@,
            },
    {
        let t = today();
        self.format_contents_on(t.as_str())
    }

    /// The formatted block, once built.
    pub fn get_formatted_contents(self) -> (r: Option<String>)
        ensures
            opt_view(r) == self@.formatted_contents,
    {
        self.formatted_contents
    }
}

} // verus!
