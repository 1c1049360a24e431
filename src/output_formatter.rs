//! Rendering output blocks as a markdown document.
//!
//! Each block becomes a checkbox item headed by its marked line; a block
//! with context lines gets a sub-header naming the marker kind and line,
//! and a fenced code block of its context lines, tagged with the source
//! file's language.

use vstd::prelude::*;
use crate::comment_type::{upper_name_of, CommentType};
use crate::markdown::{
    checkbox_text, header_text, insert_error_reason, is_single_line, newline_text, BuilderError,
    HeaderLevel, MarkdownBuilder,
};
use crate::marked_section::MarkedSection;
use crate::output_block::{is_block_of, OutputBlock};
use crate::text::{
    chars_of, decimal, digit_char, join_words, joined, push_decimal, same_chars, views,
};
use crate::tokenized_line::TokenizedLine;

verus! {

/// A line's words joined back with single spaces.
pub open spec fn words_of(t: TokenizedLine) -> Seq<char> {
    joined(views(t.tokenized_line@))
}

/// The view of an optional file extension.
pub open spec fn extension_view(ext: Option<&str>) -> Option<Seq<char>> {
    match ext {
        Some(e) => Some(e@),
        None => None,
    }
}

/// The fence's language tag for a file extension; empty when the
/// extension is absent or not one of `py`, `rs`, `js`, `ts`, `cs`.
pub open spec fn language_tag(ext: Option<Seq<char>>) -> Seq<char> {
    match ext {
        Some(e) => if e == seq!['p', 'y'] {
            "python"@
        } else if e == seq!['r', 's'] {
            "rust"@
        } else if e == seq!['j', 's'] {
            "javascript"@
        } else if e == seq!['t', 's'] {
            "typescript"@
        } else if e == seq!['c', 's'] {
            "c#"@
        } else {
            Seq::empty()
        },
        None => Seq::empty(),
    }
}

/// The checkbox item for a block, written at indentation `level`: a
/// level-4 header holding the marked line, then a newline one level deeper.
pub open spec fn block_header_text(b: OutputBlock, level: nat) -> Seq<char> {
    checkbox_text() + header_text(4) + words_of(b.special_line) + newline_text(level + 1)
}

/// The title of a block's context: its kind in capitals and its line.
pub open spec fn context_title(b: OutputBlock) -> Seq<char> {
    "Context for `"@ + upper_name_of(b.block_type) + "` in `line #"@ + decimal(
        b.special_line.line_number as nat,
    ) + "`"@
}

/// The blank-line-prefixed level-5 sub-header of a block's context,
/// written at indentation `level`.
pub open spec fn context_header_text(b: OutputBlock, level: nat) -> Seq<char> {
    newline_text(level) + "- "@ + header_text(5) + context_title(b) + newline_text(level)
}

/// The context lines of more than one word, each followed by a newline at
/// indentation `level`.
pub open spec fn code_lines_text(lines: Seq<TokenizedLine>, level: nat) -> Seq<char>
    decreases lines.len(),
{
    if lines.len() == 0 {
        Seq::empty()
    } else {
        code_lines_text(lines.drop_last(), level) + if lines.last().tokenized_line.len() > 1 {
            words_of(lines.last()) + newline_text(level)
        } else {
            Seq::empty()
        }
    }
}

/// The fenced code block of a block's context, opened from indentation
/// `level`: the fence one level deeper, its lines two levels deeper, and
/// two unindented newlines after the closing fence.
pub open spec fn code_block_text(b: OutputBlock, ext: Option<Seq<char>>, level: nat) -> Seq<
    char,
> {
    newline_text(level + 1) + "- ```"@ + language_tag(ext) + newline_text(level + 2)
        + code_lines_text(b.context_lines@, level + 2) + "```"@ + newline_text(0) + newline_text(
        0,
    )
}

/// The markdown for one block, written from a new builder.
pub open spec fn block_markdown(b: OutputBlock, ext: Option<Seq<char>>) -> Seq<char> {
    block_header_text(b, 0) + if b.context_lines.len() == 0 {
        Seq::empty()
    } else {
        context_header_text(b, 1) + code_block_text(b, ext, 1)
    }
}

/// The markdown for a sequence of blocks: each block's, in order.
pub open spec fn document(blocks: Seq<OutputBlock>, ext: Option<Seq<char>>) -> Seq<char>
    decreases blocks.len(),
{
    if blocks.len() == 0 {
        Seq::empty()
    } else {
        document(blocks.drop_last(), ext) + block_markdown(blocks.last(), ext)
    }
}

/// A block whose lines can be written as single markdown lines: the
/// marked line and each context line of more than one word hold no
/// newline and no tab.
pub open spec fn renderable(b: OutputBlock) -> bool {
    &&& is_single_line(words_of(b.special_line))
    &&& forall|c: int|
        0 <= c < b.context_lines.len() && (#[trigger] b.context_lines@[c]).tokenized_line.len()
            > 1 ==> is_single_line(words_of(b.context_lines@[c]))
}

/// The heading of a document section listing blocks of a kind.
pub open spec fn block_type_heading(block_type: CommentType) -> Seq<char> {
    if block_type == CommentType::Other {
        Seq::empty()
    } else {
        "## TODO's\n\n"@
    }
}

proof fn lemma_decimal_single_line(n: nat)
    ensures
        is_single_line(decimal(n)),
    decreases n,
{
    let digits = seq!['0', '1', '2', '3', '4', '5', '6', '7', '8', '9'];
    assert forall|d: nat| d < 10 implies digit_char(d) != '\n' && digit_char(d) != '\t' by {
        assert(digit_char(d) == digits[d as int]);
    }
    if n >= 10 {
        lemma_decimal_single_line(n / 10);
        assert(!decimal(n).contains('\n')) by {
            if decimal(n).contains('\n') {
                let i = choose|i: int| 0 <= i < decimal(n).len() && decimal(n)[i] == '\n';
                if i < decimal(n / 10).len() {
                    assert(decimal(n / 10)[i] == '\n');
                }
            }
        }
        assert(!decimal(n).contains('\t')) by {
            if decimal(n).contains('\t') {
                let i = choose|i: int| 0 <= i < decimal(n).len() && decimal(n)[i] == '\t';
                if i < decimal(n / 10).len() {
                    assert(decimal(n / 10)[i] == '\t');
                }
            }
        }
    }
}

proof fn lemma_concat_single_line(a: Seq<char>, b: Seq<char>)
    requires
        is_single_line(a),
        is_single_line(b),
    ensures
        is_single_line(a + b),
{
    assert(!(a + b).contains('\n')) by {
        if (a + b).contains('\n') {
            let i = choose|i: int| 0 <= i < (a + b).len() && (a + b)[i] == '\n';
            if i < a.len() {
                assert(a[i] == '\n');
            } else {
                assert(b[i - a.len()] == '\n');
            }
        }
    }
    assert(!(a + b).contains('\t')) by {
        if (a + b).contains('\t') {
            let i = choose|i: int| 0 <= i < (a + b).len() && (a + b)[i] == '\t';
            if i < a.len() {
                assert(a[i] == '\t');
            } else {
                assert(b[i - a.len()] == '\t');
            }
        }
    }
}

/// Inserts text that is known to be a single line.
fn insert(b: MarkdownBuilder, text: &str) -> (r: MarkdownBuilder)
    requires
        is_single_line(text@),
    ensures
        r.text() == b.text() + text@,
        r.level() == b.level(),
{
    match b.insert_single_line(text) {
        Ok(r) => r,
        // never taken: single-line text is always accepted
        Err(_) => MarkdownBuilder::new(),
    }
}

/// The heading of a document section listing blocks of the given kind.
pub fn get_header_str_for_block_type(block_type: &CommentType) -> (r: String)
    ensures
        r@ == block_type_heading(*block_type),
{
    match block_type {
        CommentType::Other => String::new(),
        _ => String::from_str("## TODO's\n\n"),
    }
}

/// The fence's language tag for a source file's extension.
pub fn get_code_block_name_from_extension(file_extension: Option<&str>) -> (r: &'static str)
    ensures
        r@ == language_tag(extension_view(file_extension)),
{
    proof {
        reveal_strlit("");
    }
    match file_extension {
        None => "",
        Some(e) => {
            let ext = chars_of(e);
            if same_chars(&ext, &vec!['p', 'y']) {
                "python"
            } else if same_chars(&ext, &vec!['r', 's']) {
                "rust"
            } else if same_chars(&ext, &vec!['j', 's']) {
                "javascript"
            } else if same_chars(&ext, &vec!['t', 's']) {
                "typescript"
            } else if same_chars(&ext, &vec!['c', 's']) {
                "c#"
            } else {
                ""
            }
        },
    }
}

proof fn lemma_literals_single_line()
    ensures
        is_single_line("- "@),
        is_single_line("- ```"@),
        is_single_line("```"@),
        is_single_line("Context for `"@),
        is_single_line("` in `line #"@),
        is_single_line("`"@),
{
    reveal_strlit("- ");
    reveal_strlit("- ```");
    reveal_strlit("```");
    reveal_strlit("Context for `");
    reveal_strlit("` in `line #");
    reveal_strlit("`");
}

proof fn lemma_upper_name_single_line(t: CommentType)
    ensures
        is_single_line(upper_name_of(t)),
{
    reveal_strlit("TODO");
    reveal_strlit("FIXME");
    reveal_strlit("NOTE");
    reveal_strlit("XXX");
    reveal_strlit("OTHER");
}

proof fn lemma_language_tag_single_line(ext: Option<Seq<char>>)
    ensures
        is_single_line(language_tag(ext)),
{
    reveal_strlit("python");
    reveal_strlit("rust");
    reveal_strlit("javascript");
    reveal_strlit("typescript");
    reveal_strlit("c#");
}

/// The checkbox item headed by the block's marked line.
fn header_for_output_block(builder: MarkdownBuilder, block: &OutputBlock) -> (r: MarkdownBuilder)
    requires
        builder.level() < usize::MAX,
        is_single_line(words_of(block.special_line)),
    ensures
        r.text() == builder.text() + block_header_text(*block, builder.level()),
        r.level() == builder.level() + 1,
{
    let words = join_words(&block.special_line.tokenized_line);
    let b = builder.checkbox().header(HeaderLevel::H4);
    let b = insert(b, words.as_str());
    let b = b.increase_indentation_level().newline();
    assert(b.text() =~= builder.text() + block_header_text(*block, builder.level()));
    b
}

/// The sub-header naming the block's kind and line.
fn context_block_header(builder: MarkdownBuilder, block: &OutputBlock) -> (r: MarkdownBuilder)
    ensures
        r.text() == builder.text() + context_header_text(*block, builder.level()),
        r.level() == builder.level(),
{
    let mut title = String::from_str("Context for `");
    title.append(block.block_type.upper_name());
    title.append("` in `line #");
    push_decimal(&mut title, block.special_line.line_number);
    title.append("`");
    proof {
        lemma_literals_single_line();
        lemma_upper_name_single_line(block.block_type);
        lemma_decimal_single_line(block.special_line.line_number as nat);
        let a = "Context for `"@ + upper_name_of(block.block_type);
        lemma_concat_single_line("Context for `"@, upper_name_of(block.block_type));
        lemma_concat_single_line(a, "` in `line #"@);
        lemma_concat_single_line(a + "` in `line #"@, decimal(block.special_line.line_number as nat));
        lemma_concat_single_line(
            a + "` in `line #"@ + decimal(block.special_line.line_number as nat),
            "`"@,
        );
        assert(title@ == context_title(*block));
    }
    let b = builder.newline();
    let b = insert(b, "- ");
    let b = b.header(HeaderLevel::H5);
    let b = insert(b, title.as_str());
    let b = b.newline();
    assert(b.text() =~= builder.text() + context_header_text(*block, builder.level()));
    b
}

/// The fenced code block of the block's context lines of more than one word.
fn context_block_inner_code(
    builder: MarkdownBuilder,
    block: OutputBlock,
    file_extension: Option<&str>,
) -> (r: MarkdownBuilder)
    requires
        builder.level() + 2 <= usize::MAX,
        renderable(block),
    ensures
        r.text() == builder.text() + code_block_text(
            block,
            extension_view(file_extension),
            builder.level(),
        ),
        r.level() == 0,
{
    let ghost ext = extension_view(file_extension);
    let ghost level = builder.level();
    let mut fence = String::from_str("- ```");
    fence.append(get_code_block_name_from_extension(file_extension));
    proof {
        lemma_literals_single_line();
        lemma_language_tag_single_line(ext);
        lemma_concat_single_line("- ```"@, language_tag(ext));
    }
    let b = builder.increase_indentation_level().newline();
    let b = insert(b, fence.as_str());
    let mut b = b.increase_indentation_level().newline();
    let ghost opening = builder.text() + newline_text(level + 1) + "- ```"@ + language_tag(ext)
        + newline_text(level + 2);
    assert(b.text() =~= opening);
    let lines = &block.context_lines;
    for i in 0..lines.len()
        invariant
            lines@ == block.context_lines@,
            renderable(block),
            b.level() == level + 2,
            b.text() == opening + code_lines_text(lines@.subrange(0, i as int), level + 2),
    {
        assert(lines@.subrange(0, i + 1).drop_last() =~= lines@.subrange(0, i as int));
        if lines[i].tokenized_line.len() > 1 {
            let words = join_words(&lines[i].tokenized_line);
            b = insert(b, words.as_str());
            b = b.newline();
            assert(b.text() =~= opening + code_lines_text(lines@.subrange(0, i + 1), level + 2));
        } else {
            assert(b.text() =~= opening + code_lines_text(lines@.subrange(0, i + 1), level + 2));
        }
    }
    assert(lines@.subrange(0, lines.len() as int) =~= lines@);
    let b = insert(b, "```");
    let b = b.reset_indentation().newline().newline();
    assert(b.text() =~= builder.text() + code_block_text(block, ext, level));
    b
}

/// The markdown for one block: its checkbox item and, when it has context
/// lines, their sub-header and fenced code block. The block must be
/// renderable (see [`block_is_renderable`]).
pub fn get_output_str_for_block(block: OutputBlock, file_extension: Option<&str>) -> (r: String)
    requires
        renderable(block),
    ensures
        r@ == block_markdown(block, extension_view(file_extension)),
{
    let mut md_builder = MarkdownBuilder::new();
    md_builder = header_for_output_block(md_builder, &block);
    if block.context_lines.len() == 0 {
        let r = md_builder.to_markdown_string();
        assert(r@ =~= block_markdown(block, extension_view(file_extension)));
        return r;
    }
    md_builder = context_block_header(md_builder, &block);
    let ghost b0 = block;
    md_builder = context_block_inner_code(md_builder, block, file_extension);
    let r = md_builder.to_markdown_string();
    assert(r@ =~= block_markdown(b0, extension_view(file_extension)));
    r
}

/// The markdown for all blocks, in order, joined with nothing between them.
/// Every block must be renderable (see [`block_is_renderable`]).
pub fn get_markdown_output_str(output_blocks: Vec<OutputBlock>, file_extension: Option<&str>) -> (r:
    String)
    requires
        forall|k: int| 0 <= k < output_blocks.len() ==> renderable(#[trigger] output_blocks@[k]),
    ensures
        r@ == document(output_blocks@, extension_view(file_extension)),
{
    let ghost blocks = output_blocks@;
    let mut r = String::new();
    for block in it: output_blocks.into_iter()
        invariant
            it.seq() == blocks,
            forall|k: int| 0 <= k < blocks.len() ==> renderable(#[trigger] blocks[k]),
            r@ == document(blocks.subrange(0, it.index() as int), extension_view(file_extension)),
    {
        let ghost i = it.index();
        assert(blocks.subrange(0, i + 1).drop_last() =~= blocks.subrange(0, i as int));
        assert(block == blocks[i as int]);
        let text = get_output_str_for_block(block, file_extension);
        r.append(text.as_str());
    }
    assert(blocks.subrange(0, blocks.len() as int) =~= blocks);
    r
}

/// The reason that writing a context line gives, for the first of `lines`
/// of more than one word that is not a single line.
pub open spec fn first_context_error(lines: Seq<TokenizedLine>) -> Option<Seq<char>>
    decreases lines.len(),
{
    if lines.len() == 0 {
        None
    } else {
        match first_context_error(lines.drop_last()) {
            Some(reason) => Some(reason),
            None => if lines.last().tokenized_line.len() > 1 && !is_single_line(
                words_of(lines.last()),
            ) {
                Some(insert_error_reason(words_of(lines.last())))
            } else {
                None
            },
        }
    }
}

/// The reason that writing a block gives, if any: its marked line is
/// written first, then its context lines in order.
pub open spec fn block_error(b: OutputBlock) -> Option<Seq<char>> {
    if !is_single_line(words_of(b.special_line)) {
        Some(insert_error_reason(words_of(b.special_line)))
    } else {
        first_context_error(b.context_lines@)
    }
}

/// The reason that writing blocks in order gives, if any: that of the
/// first block that cannot be written.
pub open spec fn blocks_error(blocks: Seq<OutputBlock>) -> Option<Seq<char>>
    decreases blocks.len(),
{
    if blocks.len() == 0 {
        None
    } else {
        match blocks_error(blocks.drop_last()) {
            Some(reason) => Some(reason),
            None => block_error(blocks.last()),
        }
    }
}

proof fn lemma_first_context_error(lines: Seq<TokenizedLine>)
    ensures
        first_context_error(lines) is None <==> forall|c: int|
            0 <= c < lines.len() && (#[trigger] lines[c]).tokenized_line.len() > 1
                ==> is_single_line(words_of(lines[c])),
    decreases lines.len(),
{
    if lines.len() > 0 {
        let prev = lines.drop_last();
        lemma_first_context_error(prev);
        assert forall|c: int| 0 <= c < prev.len() implies prev[c] == lines[c] by {}
    }
}

/// A block can be written exactly when it is renderable.
pub proof fn lemma_block_error(b: OutputBlock)
    ensures
        block_error(b) is None <==> renderable(b),
{
    lemma_first_context_error(b.context_lines@);
}

proof fn lemma_blocks_error(blocks: Seq<OutputBlock>)
    ensures
        blocks_error(blocks) is None <==> forall|k: int|
            0 <= k < blocks.len() ==> renderable(#[trigger] blocks[k]),
    decreases blocks.len(),
{
    if blocks.len() > 0 {
        let prev = blocks.drop_last();
        lemma_blocks_error(prev);
        lemma_block_error(blocks.last());
        assert forall|k: int| 0 <= k < prev.len() implies prev[k] == blocks[k] by {}
    }
}

/// Whether a line's words, joined back, can be written as one line, and
/// if not, why.
fn check_words(t: &TokenizedLine) -> (r: Result<(), BuilderError>)
    ensures
        r is Ok <==> is_single_line(words_of(*t)),
        r matches Err(BuilderError::TextInsertError(reason)) ==> reason@ == insert_error_reason(
            words_of(*t),
        ),
{
    let words = join_words(&t.tokenized_line);
    MarkdownBuilder::check_single_line_text_input_for_forbidden_characters(words.as_str())
}

/// Whether the block can be written, and if not, the error that the first
/// line it cannot write gives.
pub fn check_block(block: &OutputBlock) -> (r: Result<(), BuilderError>)
    ensures
        r is Ok <==> block_error(*block) is None,
        r matches Err(BuilderError::TextInsertError(reason)) ==> block_error(*block) == Some(
            reason@,
        ),
{
    let special = check_words(&block.special_line);
    if special.is_err() {
        return special;
    }
    let lines = &block.context_lines;
    for i in 0..lines.len()
        invariant
            lines@ == block.context_lines@,
            is_single_line(words_of(block.special_line)),
            first_context_error(lines@.subrange(0, i as int)) is None,
    {
        assert(lines@.subrange(0, i + 1).drop_last() =~= lines@.subrange(0, i as int));
        if lines[i].tokenized_line.len() > 1 {
            let line = check_words(&lines[i]);
            if line.is_err() {
                assert(first_context_error(lines@) == first_context_error(
                    lines@.subrange(0, i + 1),
                )) by {
                    lemma_first_error_kept(lines@, i as int);
                }
                return line;
            }
        }
    }
    assert(lines@.subrange(0, lines.len() as int) =~= lines@);
    Ok(())
}

proof fn lemma_first_error_kept(lines: Seq<TokenizedLine>, i: int)
    requires
        0 <= i < lines.len(),
        first_context_error(lines.subrange(0, i + 1)) is Some,
    ensures
        first_context_error(lines) == first_context_error(lines.subrange(0, i + 1)),
    decreases lines.len() - i,
{
    if i + 1 < lines.len() {
        let shorter = lines.drop_last();
        assert(shorter.subrange(0, i + 1) =~= lines.subrange(0, i + 1));
        lemma_first_error_kept(shorter, i);
    } else {
        assert(lines.subrange(0, i + 1) =~= lines);
    }
}

/// Whether every line that the block's markdown holds is a single line.
pub fn block_is_renderable(block: &OutputBlock) -> (r: bool)
    ensures
        r == renderable(*block),
{
    proof {
        lemma_block_error(*block);
    }
    check_block(block).is_ok()
}

/// The markdown document for marked sections, each of which holds exactly
/// one marked line. The sections are split into words, each into its own
/// block, in order. When a line to be written holds a newline or a tab,
/// the error names the character of the first such line.
pub fn marked_sections_to_markdown(
    marked_sections: Vec<MarkedSection>,
    file_extension: Option<&str>,
) -> (r: Result<String, BuilderError>)
    requires
        forall|k: int| 0 <= k < marked_sections.len() ==> (#[trigger] marked_sections@[k]).wf(),
    ensures
        exists|blocks: Seq<OutputBlock>|
            {
                &&& blocks.len() == marked_sections.len()
                &&& forall|k: int|
                    0 <= k < blocks.len() ==> is_block_of(#[trigger] blocks[k], marked_sections@[k])
                &&& (r is Ok <==> blocks_error(blocks) is None)
                &&& (r matches Ok(s) ==> s@ == document(blocks, extension_view(file_extension)))
                &&& (r matches Err(BuilderError::TextInsertError(reason)) ==> blocks_error(blocks)
                    == Some(reason@))
            },
{
    let ghost sections = marked_sections@;
    let mut blocks: Vec<OutputBlock> = Vec::new();
    let mut first_error: Option<BuilderError> = None;
    for section in it: marked_sections.into_iter()
        invariant
            it.seq() == sections,
            blocks.len() == it.index(),
            forall|k: int| 0 <= k < sections.len() ==> (#[trigger] sections[k]).wf(),
            forall|k: int| 0 <= k < blocks.len() ==> is_block_of(#[trigger] blocks@[k], sections[k]),
            first_error is None <==> blocks_error(blocks@) is None,
            first_error matches Some(BuilderError::TextInsertError(reason)) ==> blocks_error(
                blocks@,
            ) == Some(reason@),
    {
        assert(section == sections[it.index() as int]);
        let block = OutputBlock::from_marked_section(section);
        let ghost before = blocks@;
        if first_error.is_none() {
            match check_block(&block) {
                Ok(()) => {},
                Err(error) => {
                    first_error = Some(error);
                },
            }
        }
        blocks.push(block);
        assert(blocks@.drop_last() =~= before);
    }
    let ghost built = blocks@;
    match first_error {
        Some(error) => Err(error),
        None => {
            proof {
                lemma_blocks_error(built);
            }
            Ok(get_markdown_output_str(blocks, file_extension))
        },
    }
}

} // verus!
