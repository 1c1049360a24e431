//! Code patches: a lighter form of marked sections.
//!
//! A patch is cut around every line that carries a marker, whether or not
//! the line is a comment, and its lines are numbered with `u32`.

use vstd::prelude::*;
use crate::comment_type::{display_type_of, kind_of, CommentType};
use crate::text::{trim, trimmed, views};

verus! {

/// The kinds of code patch, one per marker, and `Other`.
#[derive(PartialEq, Eq, Structural, Clone, Copy, Debug)]
pub enum CodePatchType {
    Todo,
    Fixme,
    Note,
    XXX,
    Other,
}

/// The patch kind for a marker kind.
pub open spec fn patch_type_of(t: CommentType) -> CodePatchType {
    match t {
        CommentType::Todo => CodePatchType::Todo,
        CommentType::Fixme => CodePatchType::Fixme,
        CommentType::Note => CodePatchType::Note,
        CommentType::XXX => CodePatchType::XXX,
        CommentType::Other => CodePatchType::Other,
    }
}

/// A line that carries a marker, comment or not.
pub open spec fn carries_marker(line: Seq<char>) -> bool {
    kind_of(line) != CommentType::Other
}

/// The positions of the lines that carry a marker once trimmed, in order.
pub open spec fn patch_positions(lines: Seq<Seq<char>>) -> Seq<int>
    decreases lines.len(),
{
    if lines.len() == 0 {
        Seq::empty()
    } else {
        let prev = patch_positions(lines.drop_last());
        if carries_marker(trimmed(lines.last())) {
            prev.push(lines.len() - 1)
        } else {
            prev
        }
    }
}

fn patch_type_for(t: CommentType) -> (r: CodePatchType)
    ensures
        r == patch_type_of(t),
{
    match t {
        CommentType::Todo => CodePatchType::Todo,
        CommentType::Fixme => CodePatchType::Fixme,
        CommentType::Note => CodePatchType::Note,
        CommentType::XXX => CodePatchType::XXX,
        CommentType::Other => CodePatchType::Other,
    }
}

impl CodePatchType {
    /// The kind of the first marker, in the order todo, fixme, note, xxx,
    /// that occurs in the line regardless of case.
    fn get_special_line_type(line_str: &String) -> (r: CodePatchType)
        ensures
            r == patch_type_of(kind_of(line_str@)),
    {
        patch_type_for(CommentType::get_special_line_type(line_str.as_str()))
    }

    /// The kind selected by a filter token; `Other` for any token but
    /// `todo`, `fixme`, `note` and `xxx`.
    pub fn get_display_type(type_opt: &String) -> (r: CodePatchType)
        ensures
            r == patch_type_of(display_type_of(type_opt@)),
    {
        patch_type_for(CommentType::get_display_type(type_opt.as_str()))
    }

    fn check_line_special(line: &String) -> (r: bool)
        ensures
            r == carries_marker(line@),
    {
        CodePatchType::get_special_line_type(line) != CodePatchType::Other
    }
}

/// A line of a patch, trimmed, with its 0-based position.
pub struct CodeLine {
    pub number: u32,
    pub content: String,
    pub is_special: bool,
}

/// `l` is the line at position `number` whose text, before trimming, was `raw`.
pub open spec fn code_line_is(l: CodeLine, number: int, raw: Seq<char>, special: bool) -> bool {
    &&& l.number == number
    &&& l.content@ == trimmed(raw)
    &&& l.is_special == special
}

impl CodeLine {
    pub fn new(content: String, number: u32, is_special: bool) -> (r: CodeLine)
        ensures
            r.number == number,
            r.content == content,
            r.is_special == is_special,
    {
        CodeLine { number, content, is_special }
    }
}

/// The lines around one marked line, with the marker's kind.
pub struct CodePatch {
    pub lines: Vec<CodeLine>,
    pub patch_type: CodePatchType,
}

/// `p` is the patch around position `i` of `lines`: up to `context` lines
/// on each side, clipped to the file.
pub open spec fn is_patch_window(p: CodePatch, lines: Seq<Seq<char>>, context: int, i: int) -> bool {
    let start = if i - context > 0 {
        i - context
    } else {
        0
    };
    let end = if i + context + 1 < lines.len() {
        i + context + 1
    } else {
        lines.len() as int
    };
    &&& p.lines.len() == end - start
    &&& forall|k: int|
        0 <= k < end - start ==> code_line_is(
            #[trigger] p.lines@[k],
            start + k,
            lines[start + k],
            start + k == i,
        )
    &&& p.patch_type == patch_type_of(kind_of(p.lines@[i - start].content@))
}

/// The text of a patch's lines, one after the other.
pub open spec fn patch_text(lines: Seq<CodeLine>) -> Seq<char>
    decreases lines.len(),
{
    if lines.len() == 0 {
        Seq::empty()
    } else {
        patch_text(lines.drop_last()) + lines.last().content@
    }
}

/// The text of the `Todo` patches, one after the other.
pub open spec fn todos(patches: Seq<CodePatch>) -> Seq<char>
    decreases patches.len(),
{
    if patches.len() == 0 {
        Seq::empty()
    } else {
        todos(patches.drop_last()) + if patches.last().patch_type == CodePatchType::Todo {
            patch_text(patches.last().lines@)
        } else {
            Seq::empty()
        }
    }
}

impl CodePatch {
    pub fn new(lines: Vec<CodeLine>, patch_type: CodePatchType) -> (r: CodePatch)
        ensures
            r.lines == lines,
            r.patch_type == patch_type,
    {
        CodePatch { lines, patch_type }
    }

    /// One patch per line that carries a marker, in order, each holding
    /// that line and up to `context` trimmed lines on each side of it.
    /// Positions must fit in a `u32`.
    pub fn unpack_lines(lines: Vec<String>, context: usize) -> (r: Vec<CodePatch>)
        requires
            lines.len() <= u32::MAX + 1,
        ensures
            r.len() == patch_positions(views(lines@)).len(),
            forall|k: int|
                0 <= k < r.len() ==> is_patch_window(
                    #[trigger] r@[k],
                    views(lines@),
                    context as int,
                    patch_positions(views(lines@))[k],
                ),
    {
        let ghost text = views(lines@);
        let mut code_patch_vec: Vec<CodePatch> = Vec::new();
        let lines_len = lines.len();
        let mut i: usize = 0;
        while i < lines_len
            invariant
                text == views(lines@),
                lines_len == lines.len(),
                lines_len <= u32::MAX + 1,
                i <= lines_len,
                code_patch_vec.len() == patch_positions(text.subrange(0, i as int)).len(),
                forall|k: int|
                    0 <= k < code_patch_vec.len() ==> is_patch_window(
                        #[trigger] code_patch_vec@[k],
                        text,
                        context as int,
                        patch_positions(text.subrange(0, i as int))[k],
                    ),
            decreases lines_len - i,
        {
            let ghost prefix = text.subrange(0, i + 1);
            assert(prefix.drop_last() =~= text.subrange(0, i as int));
            assert(prefix.last() == lines@[i as int]@);
            let content = trim(lines[i].as_str());
            if CodePatchType::check_line_special(&content) {
                let patch_type = CodePatchType::get_special_line_type(&content);
                let mut code_lines_vec: Vec<CodeLine> = Vec::new();
                let back_range: usize = if i >= context {
                    i - context
                } else {
                    0
                };
                let front_range: usize = if context < lines_len - i - 1 {
                    i + context + 1
                } else {
                    lines_len
                };
                // context lines before the marked line
                for j in back_range..i
                    invariant
                        text == views(lines@),
                        lines_len == lines.len(),
                        lines_len <= u32::MAX + 1,
                        i < lines_len,
                        code_lines_vec.len() == j - back_range,
                        forall|k: int|
                            0 <= k < code_lines_vec.len() ==> code_line_is(
                                #[trigger] code_lines_vec@[k],
                                back_range + k,
                                text[back_range + k],
                                back_range + k == i,
                            ),
                {
                    assert(text[j as int] == lines@[j as int]@);
                    code_lines_vec.push(CodeLine::new(trim(lines[j].as_str()), j as u32, false));
                }
                // the marked line
                assert(text[i as int] == lines@[i as int]@);
                code_lines_vec.push(CodeLine::new(content, i as u32, true));
                // context lines after the marked line
                for j in i + 1..front_range
                    invariant
                        text == views(lines@),
                        lines_len == lines.len(),
                        lines_len <= u32::MAX + 1,
                        i < lines_len,
                        front_range <= lines_len,
                        code_lines_vec.len() == j - back_range,
                        forall|k: int|
                            0 <= k < code_lines_vec.len() ==> code_line_is(
                                #[trigger] code_lines_vec@[k],
                                back_range + k,
                                text[back_range + k],
                                back_range + k == i,
                            ),
                {
                    assert(text[j as int] == lines@[j as int]@);
                    code_lines_vec.push(CodeLine::new(trim(lines[j].as_str()), j as u32, false));
                }
                code_patch_vec.push(CodePatch::new(code_lines_vec, patch_type));
            }
            i = i + 1;
        }
        assert(text.subrange(0, lines_len as int) =~= text);
        code_patch_vec
    }
}

/// The text of the `Todo` patches: the content of each of their lines,
/// one after the other, with nothing between them.
pub fn todos_text(code_patches: &Vec<CodePatch>) -> (r: String)
    ensures
        r@ == todos(code_patches@),
{
    let mut output_str = String::new();
    for p in 0..code_patches.len()
        invariant
            output_str@ == todos(code_patches@.subrange(0, p as int)),
    {
        assert(code_patches@.subrange(0, p + 1).drop_last() =~= code_patches@.subrange(0, p as int));
        let patch = &code_patches[p];
        if patch.patch_type == CodePatchType::Todo {
            let ghost before = output_str@;
            let lines = &patch.lines;
            for j in 0..lines.len()
                invariant
                    lines@ == code_patches@[p as int].lines@,
                    output_str@ == before + patch_text(lines@.subrange(0, j as int)),
            {
                assert(lines@.subrange(0, j + 1).drop_last() =~= lines@.subrange(0, j as int));
                output_str.append(lines[j].content.as_str());
                assert(output_str@ =~= before + patch_text(lines@.subrange(0, j + 1)));
            }
            assert(lines@.subrange(0, lines.len() as int) =~= lines@);
        } else {
            assert(output_str@ =~= todos(code_patches@.subrange(0, p + 1)));
        }
    }
    assert(code_patches@.subrange(0, code_patches.len() as int) =~= code_patches@);
    output_str
}

} // verus!
