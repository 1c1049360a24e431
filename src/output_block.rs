//! A marked section made ready to render.

use vstd::prelude::*;
use crate::comment_type::CommentType;
use crate::marked_section::MarkedSection;
use crate::tokenized_line::{tokenizes, TokenizedLine};

verus! {

/// A section split into words, with its marked line kept apart from the
/// lines of context around it.
pub struct OutputBlock {
    pub block_type: CommentType,
    pub special_line: TokenizedLine,
    pub context_lines: Vec<TokenizedLine>,
}

/// `b` is the section `m` split into words: the marked line at position
/// `p` of the section apart, the other lines in order.
pub open spec fn is_block_of(b: OutputBlock, m: MarkedSection) -> bool {
    &&& b.block_type == m.comment_type
    &&& forall|p: int|
        0 <= p < m.lines.len() && #[trigger] m.lines@[p].is_special ==> {
            &&& tokenizes(b.special_line, m.lines@[p])
            &&& b.context_lines.len() == m.lines.len() - 1
            &&& forall|c: int|
                0 <= c < b.context_lines.len() ==> tokenizes(
                    #[trigger] b.context_lines@[c],
                    m.lines@[if c < p {
                        c
                    } else {
                        c + 1
                    }],
                )
        }
}

impl OutputBlock {
    /// Splits every line of the section into words, keeping the marked
    /// line apart. The section must hold exactly one marked line, as every
    /// section that [`MarkedSection::unpack_lines`] makes does.
    pub fn from_marked_section(marked_section: MarkedSection) -> (r: Self)
        requires
            marked_section.wf(),
        ensures
            is_block_of(r, marked_section),
    {
        let lines = &marked_section.lines;
        let ghost p = choose|p: int|
            0 <= p < lines.len() && #[trigger] lines@[p].is_special && forall|q: int|
                0 <= q < lines.len() && q != p ==> !lines@[q].is_special;
        let mut special_line: Option<TokenizedLine> = None;
        let mut context_lines: Vec<TokenizedLine> = Vec::new();
        for k in 0..lines.len()
            invariant
                lines@ == marked_section.lines@,
                0 <= p < lines.len(),
                lines@[p].is_special,
                forall|q: int| 0 <= q < lines.len() && q != p ==> !lines@[q].is_special,
                k <= p ==> special_line is None && context_lines.len() == k,
                k > p ==> (special_line matches Some(s) && tokenizes(s, lines@[p])),
                k > p ==> context_lines.len() == k - 1,
                forall|c: int|
                    0 <= c < context_lines.len() ==> tokenizes(
                        #[trigger] context_lines@[c],
                        lines@[if c < p {
                            c
                        } else {
                            c + 1
                        }],
                    ),
        {
            let line = &lines[k];
            let tokens = TokenizedLine::from_code_line(line.content.clone(), line.number);
            if line.is_special {
                special_line = Some(tokens);
            } else {
                context_lines.push(tokens);
            }
        }
        let special_line = special_line.unwrap();
        Self { block_type: marked_section.comment_type, special_line, context_lines }
    }
}

} // verus!
