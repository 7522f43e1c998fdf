//! The three markers of a language's block comment.

use vstd::prelude::*;

verus! {

/// The delimiters of a block comment: the marker that opens it, the prefix
/// of each line inside it, and the marker that closes it.
#[derive(Debug, Clone, Copy, PartialEq, Eq)]
pub struct CommentStyle<'a> {
    multi_line_start: &'a str,
    normal_comment: &'a str,
    multi_line_end: &'a str,
}

impl<'a> View for CommentStyle<'a> {
    /// (opening marker, line prefix, closing marker)
    type V = (Seq<char>, Seq<char>, Seq<char>);

    closed spec fn view(&self) -> Self::V {
        (self.multi_line_start@, self.normal_comment@, self.multi_line_end@)
    }
}

impl<'a> CommentStyle<'a> {
    pub fn new(start: &'a str, normal: &'a str, end: &'a str) -> (r: Self)
        ensures
            r@ == (start@, normal@, end@),
    {
        CommentStyle { multi_line_start: start, normal_comment: normal, multi_line_end: end }
    }

    pub fn start(&self) -> (r: &'a str)
        ensures
            r@ == self@.0,
    {
        self.multi_line_start
    }

    pub fn normal(&self) -> (r: &'a str)
        ensures
            r@ == self@.1,
    {
        self.normal_comment
    }

    pub fn end(&self) -> (r: &'a str)
        ensures
            r@ == self@.2,
    {
        self.multi_line_end
    }
}

} // verus!
