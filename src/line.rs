//! One line of a marked section.

use vstd::prelude::*;
use crate::text::{trim, trimmed};

verus! {

/// A line of source with its 0-based position and whether it is the
/// section's marked line. Its content is trimmed.
pub struct Line {
    pub number: usize,
    pub content: String,
    pub is_special: bool,
}

/// `l` is the line at position `number` whose text was `raw`.
pub open spec fn line_is(l: Line, number: int, raw: Seq<char>, special: bool) -> bool {
    &&& l.number == number
    &&& l.content@ == trimmed(raw)
    &&& l.is_special == special
}

impl Line {
    /// The line at position `number` whose text is `raw_content`, trimmed.
    pub fn new(raw_content: &str, number: usize, is_special: bool) -> (r: Self)
        ensures
            line_is(r, number as int, raw_content@, is_special),
    {
        Self { number, content: trim(raw_content), is_special }
    }
}

} // verus!
