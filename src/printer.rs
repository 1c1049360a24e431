//! What the console shows: which sections pass the kind filter, and the
//! text of each line, the marked one painted in a colour.

use vstd::prelude::*;
use ansi_term::Colour;
use crate::comment_type::{display_type_of, fixme_word, note_word, todo_word, xxx_word, CommentType};
use crate::line::Line;
use crate::marked_section::MarkedSection;
use crate::text::{decimal, push_char, push_decimal};

verus! {

#[verifier::external_type_specification]
#[verifier::external_body]
pub struct ExColour(Colour);

/// Relies on ansi_term's `Colour::paint` and the `Display` of the painted
/// string, which writes the colour's escape prefix, the text unchanged,
/// then the style's suffix.
#[verifier::external_body]
fn paint(colour: Colour, text: &str) -> (r: String)
    ensures
        exists|prefix: Seq<char>, suffix: Seq<char>| r@ == prefix + text@ + suffix,
{
    colour.paint(text).to_string()
}

/// Whether a section of kind `section_type` is shown under the filter
/// `display_type`; `Other` as a filter shows every kind.
pub open spec fn shows(display_type: CommentType, section_type: CommentType) -> bool {
    display_type == CommentType::Other || display_type == section_type
}

/// The positions of the sections shown under a filter, in order.
pub open spec fn shown_positions(sections: Seq<MarkedSection>, display_type: CommentType) -> Seq<
    int,
>
    decreases sections.len(),
{
    if sections.len() == 0 {
        Seq::empty()
    } else {
        let prev = shown_positions(sections.drop_last(), display_type);
        if shows(display_type, sections.last().comment_type) {
            prev.push(sections.len() - 1)
        } else {
            prev
        }
    }
}

/// The rule printed between sections: 80 dashes.
pub open spec fn separator_text() -> Seq<char> {
    Seq::new(80, |_i: int| '-')
}

/// A console line: its position, a tab, then its content.
pub open spec fn numbered(number: nat, content: Seq<char>) -> Seq<char> {
    decimal(number) + seq!['\t'] + content
}

/// A filter token other than `todo`, `fixme`, `note` and `xxx`, the
/// absent one included, shows sections of every kind; each of those four
/// shows its own kind only.
pub proof fn lemma_filter_token_shows(token: Seq<char>, section_type: CommentType)
    ensures
        token != todo_word() && token != fixme_word() && token != note_word() && token
            != xxx_word() ==> shows(display_type_of(token), section_type),
        token == todo_word() ==> (shows(display_type_of(token), section_type) <==> section_type
            == CommentType::Todo),
        token == fixme_word() ==> (shows(display_type_of(token), section_type) <==> section_type
            == CommentType::Fixme),
        token == note_word() ==> (shows(display_type_of(token), section_type) <==> section_type
            == CommentType::Note),
        token == xxx_word() ==> (shows(display_type_of(token), section_type) <==> section_type
            == CommentType::XXX),
{
    assert(todo_word() != fixme_word());
    assert(todo_word() != note_word());
    assert(todo_word() != xxx_word());
    assert(fixme_word() != note_word());
    assert(fixme_word() != xxx_word());
    assert(note_word() != xxx_word());
}

/// Whether a section of kind `section_type` is shown under the filter
/// `display_type`.
pub fn is_displayed(display_type: CommentType, section_type: CommentType) -> (r: bool)
    ensures
        r == shows(display_type, section_type),
{
    display_type == CommentType::Other || display_type == section_type
}

/// The positions of the sections that the filter shows, in order.
pub fn displayed_sections(sections: &Vec<MarkedSection>, display_type: CommentType) -> (r: Vec<
    usize,
>)
    ensures
        r.len() == shown_positions(sections@, display_type).len(),
        forall|k: int| 0 <= k < r.len() ==> r@[k] == shown_positions(sections@, display_type)[k],
{
    let mut r: Vec<usize> = Vec::new();
    for i in 0..sections.len()
        invariant
            r.len() == shown_positions(sections@.subrange(0, i as int), display_type).len(),
            forall|k: int|
                0 <= k < r.len() ==> r@[k] == shown_positions(
                    sections@.subrange(0, i as int),
                    display_type,
                )[k],
    {
        assert(sections@.subrange(0, i + 1).drop_last() =~= sections@.subrange(0, i as int));
        if is_displayed(display_type, sections[i].comment_type) {
            r.push(i);
        }
    }
    assert(sections@.subrange(0, sections.len() as int) =~= sections@);
    r
}

/// The rule printed before each shown section and after the last.
pub fn separator() -> (r: String)
    ensures
        r@ == separator_text(),
{
    let mut r = String::new();
    for i in 0..80usize
        invariant
            r@ == Seq::new(i as nat, |_j: int| '-'),
    {
        push_char(&mut r, '-');
        assert(r@ =~= Seq::new((i + 1) as nat, |_j: int| '-'));
    }
    r
}

/// Prints sections to a console, painting marked lines in a colour.
pub struct ConsolePrinter {
    special_colour: Colour,
}

impl ConsolePrinter {
    /// The colour that marked lines are painted in.
    pub closed spec fn colour(&self) -> Colour {
        self.special_colour
    }

    pub fn new(special_colour: Colour) -> (r: Self)
        ensures
            r.colour() == special_colour,
    {
        Self { special_colour }
    }

    /// The console text of a line: its position, a tab, and its content,
    /// which is painted when the line is the marked one.
    pub fn line_text(&self, line: &Line) -> (r: String)
        ensures
            !line.is_special ==> r@ == numbered(line.number as nat, line.content@),
            line.is_special ==> exists|prefix: Seq<char>, suffix: Seq<char>|
                r@ == numbered(line.number as nat, prefix + line.content@ + suffix),
    {
        let mut r = String::new();
        push_decimal(&mut r, line.number);
        push_char(&mut r, '\t');
        if line.is_special {
            let painted = paint(self.special_colour, line.content.as_str());
            r.append(painted.as_str());
            proof {
                let (prefix, suffix) = choose|prefix: Seq<char>, suffix: Seq<char>|
                    painted@ == prefix + line.content@ + suffix;
                assert(r@ =~= numbered(line.number as nat, prefix + line.content@ + suffix));
            }
        } else {
            r.append(line.content.as_str());
            assert(r@ =~= numbered(line.number as nat, line.content@));
        }
        r
    }
}

/// The console lines of the shown sections at positions `shown`, before
/// the closing rule: for each section a rule, then one entry per line.
/// `None` stands for a rule and `Some((s, l))` for line `l` of section `s`.
pub open spec fn console_body(sections: Seq<MarkedSection>, shown: Seq<int>) -> Seq<
    Option<(int, int)>,
>
    decreases shown.len(),
{
    if shown.len() == 0 {
        Seq::empty()
    } else {
        let s = shown.last();
        console_body(sections, shown.drop_last()) + seq![None] + Seq::new(
            sections[s].lines.len() as nat,
            |l: int| Some((s, l)),
        )
    }
}

/// Where each console line comes from: a rule before each shown section,
/// the section's lines, and a closing rule after the last.
pub open spec fn console_layout(sections: Seq<MarkedSection>, display_type: CommentType) -> Seq<
    Option<(int, int)>,
> {
    console_body(sections, shown_positions(sections, display_type)) + seq![None]
}

/// `text` is the console line `entry` of `sections` stands for: the rule,
/// or the line's position and content, painted for the marked line.
pub open spec fn is_console_line(
    text: Seq<char>,
    entry: Option<(int, int)>,
    sections: Seq<MarkedSection>,
) -> bool {
    match entry {
        None => text == separator_text(),
        Some((s, l)) => {
            let line = sections[s].lines@[l];
            &&& !line.is_special ==> text == numbered(line.number as nat, line.content@)
            &&& line.is_special ==> exists|prefix: Seq<char>, suffix: Seq<char>|
                text == numbered(line.number as nat, prefix + line.content@ + suffix)
        },
    }
}

/// Shown positions are positions of the sections.
pub proof fn lemma_shown_positions_in_range(sections: Seq<MarkedSection>, display_type: CommentType)
    ensures
        forall|k: int|
            0 <= k < shown_positions(sections, display_type).len() ==> 0
                <= #[trigger] shown_positions(sections, display_type)[k] < sections.len(),
    decreases sections.len(),
{
    if sections.len() > 0 {
        let prev = sections.drop_last();
        lemma_shown_positions_in_range(prev, display_type);
        assert forall|k: int|
            0 <= k < shown_positions(sections, display_type).len() implies 0
                <= #[trigger] shown_positions(sections, display_type)[k] < sections.len() by {
            if k < shown_positions(prev, display_type).len() {
                assert(shown_positions(sections, display_type)[k] == shown_positions(
                    prev,
                    display_type,
                )[k]);
            }
        }
    }
}

impl ConsolePrinter {
    /// The lines to print for the sections that the filter shows: a rule
    /// before each such section, its lines, and a rule after the last.
    pub fn console_lines(&self, sections: &Vec<MarkedSection>, display_type: CommentType) -> (r:
        Vec<String>)
        ensures
            r.len() == console_layout(sections@, display_type).len(),
            forall|i: int|
                0 <= i < r.len() ==> is_console_line(
                    #[trigger] r@[i]@,
                    console_layout(sections@, display_type)[i],
                    sections@,
                ),
    {
        let ghost pos = shown_positions(sections@, display_type);
        proof {
            lemma_shown_positions_in_range(sections@, display_type);
        }
        let shown = displayed_sections(sections, display_type);
        let mut r: Vec<String> = Vec::new();
        for k in 0..shown.len()
            invariant
                shown.len() == pos.len(),
                forall|j: int| 0 <= j < shown.len() ==> shown@[j] == pos[j],
                forall|j: int| 0 <= j < pos.len() ==> 0 <= #[trigger] pos[j] < sections.len(),
                r.len() == console_body(sections@, pos.subrange(0, k as int)).len(),
                forall|i: int|
                    0 <= i < r.len() ==> is_console_line(
                        #[trigger] r@[i]@,
                        console_body(sections@, pos.subrange(0, k as int))[i],
                        sections@,
                    ),
        {
            let ghost body = console_body(sections@, pos.subrange(0, k as int));
            assert(pos.subrange(0, k + 1).drop_last() =~= pos.subrange(0, k as int));
            let s = shown[k];
            assert(s as int == pos[k as int]);
            let lines = &sections[s].lines;
            let ghost entries = Seq::new(lines.len() as nat, |l: int| Some((s as int, l)));
            assert(console_body(sections@, pos.subrange(0, k + 1)) == body + seq![None] + entries);
            r.push(separator());
            assert(forall|i: int|
                0 <= i < r.len() ==> is_console_line(
                    #[trigger] r@[i]@,
                    (body + seq![None])[i],
                    sections@,
                ));
            for l in 0..lines.len()
                invariant
                    s < sections.len(),
                    lines@ == sections@[s as int].lines@,
                    entries == Seq::new(lines.len() as nat, |l: int| Some((s as int, l))),
                    r.len() == body.len() + 1 + l,
                    forall|i: int|
                        0 <= i < r.len() ==> is_console_line(
                            #[trigger] r@[i]@,
                            (body + seq![None] + entries)[i],
                            sections@,
                        ),
            {
                let text = self.line_text(&lines[l]);
                r.push(text);
                assert(is_console_line(
                    r@[r.len() - 1]@,
                    (body + seq![None] + entries)[r.len() - 1],
                    sections@,
                ));
            }
        }
        assert(pos.subrange(0, pos.len() as int) =~= pos);
        let ghost body = console_body(sections@, pos);
        r.push(separator());
        assert(forall|i: int|
            0 <= i < r.len() ==> is_console_line(
                #[trigger] r@[i]@,
                (body + seq![None])[i],
                sections@,
            ));
        r
    }
}

} // verus!
