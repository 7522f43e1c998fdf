//! New content for a target file: the docstring block, then what the file
//! held without its old block.

use vstd::prelude::*;
use vstd::utf8::{decode_utf8, valid_utf8};

use crate::block::{
    block_of,
    build,
    created_line,
    docstring_block,
    lemma_one_update_line,
    lemma_strip_block_of,
    only_line_with,
    no_line_contains,
    prefixed_lines,
    single_line,
    strip_block,
    strip_spec,
    well_formed_block,
};
use crate::comment::CommentStyle;
use crate::docstring::{created_date_of, created_or, find_created_date};
use crate::error::{Error, ErrorKind};
use crate::filetype::{lemma_markers_short, lemma_style_well_formed, style_of, FileType};

verus! {

/// Relies on String::from_utf8: a string exactly when the bytes are UTF-8,
/// holding the characters they encode.
#[verifier::external_body]
fn string_from_utf8(bytes: Vec<u8>) -> (r: Option<String>)
    ensures
        match r {
            Some(s) => valid_utf8(bytes@) && s@ == decode_utf8(bytes@),
            None => !valid_utf8(bytes@),
        },
{
    String::from_utf8(bytes).ok()
}

/// The text of `c` without its first docstring block in `cs`;
/// `InvalidData` when `c` is not UTF-8.
pub fn remove_docstring_from_contents(c: Vec<u8>, cs: CommentStyle) -> (r: Result<String, Error>)
    ensures
        match r {
            Ok(s) => valid_utf8(c@) && s@ == strip_spec(decode_utf8(c@), cs@),
            Err(e) => !valid_utf8(c@) && e.kind == ErrorKind::InvalidData,
        },
{
    match string_from_utf8(c) {
        Some(text) => Ok(strip_block(text.as_str(), &cs)),
        None => Err(Error::new(ErrorKind::InvalidData)),
    }
}

/// The new content of an existing file: `block`, then the file's content
/// `existing` without its old block; `InvalidData` when `existing` is not
/// UTF-8.
pub fn updated_contents(block: &str, existing: Vec<u8>, style: CommentStyle) -> (r: Result<
    String,
    Error,
>)
    ensures
        match r {
            Ok(s) => valid_utf8(existing@) && s@ == block@ + strip_spec(
                decode_utf8(existing@),
                style@,
            ),
            Err(e) => !valid_utf8(existing@) && e.kind == ErrorKind::InvalidData,
        },
{
    match remove_docstring_from_contents(existing, style) {
        Ok(rest) => {
            let mut r = block.to_owned();
            r.append(rest.as_str());
            Ok(r)
        },
        Err(e) => Err(e),
    }
}

/// The content of a file stamped in insert mode: a fresh block for
/// `license` in the style of `ft`, keeping the created date the file
/// records (today when it records none), then the file's content without
/// its old block; `InvalidData` when `existing` is not UTF-8.
pub fn insert_contents(existing: Vec<u8>, license: &str, ft: FileType, today: &str) -> (r: Result<
    String,
    Error,
>)
    ensures
        match r {
            Ok(s) => valid_utf8(existing@) && s@ == docstring_block(
                license@,
                style_of(ft),
                created_or(created_date_of(decode_utf8(existing@)), today@),
                today@,
            ) + strip_spec(decode_utf8(existing@), style_of(ft)),
            Err(e) => !valid_utf8(existing@) && e.kind == ErrorKind::InvalidData,
        },
{
    let text = match string_from_utf8(existing) {
        Some(t) => t,
        None => return Err(Error::new(ErrorKind::InvalidData)),
    };
    let style = ft.get_comment_style();
    let mut r = match find_created_date(text.as_str()) {
        Ok(created) => build(license, &style, created.as_str(), today),
        Err(_) => build(license, &style, today, today),
    };
    let rest = strip_block(text.as_str(), &style);
    r.append(rest.as_str());
    Ok(r)
}

/// The text of a file refreshed in update mode: a fresh block for `license`
/// in the style of `ft`, with the created date that `text` records and
/// `today` as the date of the update, then `text` without its old block.
/// None when `text` records no created date.
pub open spec fn refreshed_text(
    text: Seq<char>,
    license: Seq<char>,
    ft: FileType,
    today: Seq<char>,
) -> Option<Seq<char>> {
    match created_date_of(text) {
        Some(c) => Some(docstring_block(license, style_of(ft), c, today) + strip_spec(text, style_of(ft))),
        None => None,
    }
}

/// Refreshing text that begins with a well-formed block in the style of
/// `ft` (any opening, inside and closing lines) replaces that block and
/// keeps what followed it: the result is one fresh block, dated `today` and
/// keeping the created date the text records, then the same body.
pub proof fn lemma_refresh_replaces_block(
    open: Seq<char>,
    inside: Seq<char>,
    close: Seq<char>,
    blank: bool,
    body: Seq<char>,
    license: Seq<char>,
    ft: FileType,
    today: Seq<char>,
)
    requires
        well_formed_block(style_of(ft), open, inside, close, blank, body),
    ensures
        ({
            let text = block_of(open, inside, close, blank) + body;
            match created_date_of(text) {
                Some(c) => refreshed_text(text, license, ft, today) == Some(
                    docstring_block(license, style_of(ft), c, today) + body,
                ),
                None => refreshed_text(text, license, ft, today) is None,
            }
        }),
{
    lemma_strip_block_of(style_of(ft), open, inside, close, blank, body);
}

/// Refreshing text that begins with a well-formed block in the style of
/// `ft` leaves exactly one line that contains `Last updated: `, and that
/// line carries `today`. This holds when `today` is a single line and
/// neither `body` nor the new license and created-date lines hold that
/// label.
pub proof fn lemma_refresh_one_update_line(
    open: Seq<char>,
    inside: Seq<char>,
    close: Seq<char>,
    blank: bool,
    body: Seq<char>,
    license: Seq<char>,
    ft: FileType,
    today: Seq<char>,
)
    requires
        well_formed_block(style_of(ft), open, inside, close, blank, body),
        single_line(today),
        no_line_contains(body, "Last updated: "@),
    ensures
        ({
            let text = block_of(open, inside, close, blank) + body;
            match created_date_of(text) {
                Some(c) => no_line_contains(
                    prefixed_lines(license, style_of(ft).1, 0) + created_line(style_of(ft).1, c),
                    "Last updated: "@,
                ) ==> {
                    let r = docstring_block(license, style_of(ft), c, today) + body;
                    &&& refreshed_text(text, license, ft, today) == Some(r)
                    &&& only_line_with(r, "Last updated: "@, style_of(ft).1 + "Last updated: "@ + today)
                },
                None => refreshed_text(text, license, ft, today) is None,
            }
        }),
{
    let text = block_of(open, inside, close, blank) + body;
    lemma_refresh_replaces_block(open, inside, close, blank, body, license, ft, today);
    lemma_style_well_formed(ft);
    lemma_markers_short(ft);
    if let Some(c) = created_date_of(text) {
        if no_line_contains(
            prefixed_lines(license, style_of(ft).1, 0) + created_line(style_of(ft).1, c),
            "Last updated: "@,
        ) {
            lemma_one_update_line(license, style_of(ft), c, today, body);
        }
    }
}

/// The content of a file refreshed in update mode: a fresh block for
/// `license` in the style of `ft`, with the created date the file records,
/// then the file's content without its old block. `InvalidData` when
/// `existing` is not UTF-8, else `NotFound` when it records no created date.
pub fn refresh_contents(existing: Vec<u8>, license: &str, ft: FileType, today: &str) -> (r: Result<
    String,
    Error,
>)
    ensures
        match r {
            Ok(s) => valid_utf8(existing@) && refreshed_text(
                decode_utf8(existing@),
                license@,
                ft,
                today@,
            ) == Some(s@),
            Err(e) => if valid_utf8(existing@) {
                created_date_of(decode_utf8(existing@)) is None && e.kind == ErrorKind::NotFound
            } else {
                e.kind == ErrorKind::InvalidData
            },
        },
{
    let text = match string_from_utf8(existing) {
        Some(t) => t,
        None => return Err(Error::new(ErrorKind::InvalidData)),
    };
    let created = match find_created_date(text.as_str()) {
        Ok(c) => c,
        Err(e) => return Err(e),
    };
    let style = ft.get_comment_style();
    let mut r = build(license, &style, created.as_str(), today);
    let rest = strip_block(text.as_str(), &style);
    r.append(rest.as_str());
    Ok(r)
}

} // verus!
