//! A line split into words.

use vstd::prelude::*;
use crate::comment_type::{is_marked, CommentType};
use crate::line::Line;
use crate::text::{split_on_space, split_words, views};

verus! {

/// A line's words, split on single spaces, with its position.
pub struct TokenizedLine {
    pub line_number: usize,
    pub tokenized_line: Vec<String>,
    pub is_special: bool,
}

/// `t` is the line `l`, split into words.
pub open spec fn tokenizes(t: TokenizedLine, l: Line) -> bool {
    &&& t.line_number == l.number
    &&& views(t.tokenized_line@) == split_on_space(l.content@)
    &&& t.is_special == is_marked(l.content@)
}

impl TokenizedLine {
    /// The words of `line`, split on single spaces.
    pub fn from_code_line(line: String, line_number: usize) -> (r: Self)
        ensures
            r.line_number == line_number,
            views(r.tokenized_line@) == split_on_space(line@),
            r.is_special == is_marked(line@),
    {
        let tokenized_line = split_words(line.as_str());
        Self {
            line_number,
            tokenized_line,
            is_special: CommentType::check_line_special(line.as_str()),
        }
    }
}

} // verus!
