//! Cutting a window of context around every marked line.

use vstd::prelude::*;
use crate::comment_type::{is_marked, kind_of, CommentType};
use crate::line::{line_is, Line};
use crate::parsed_data::{ParseData, ParsedDirectory, ParsedFile};
use crate::text::{trim, trimmed, views};

verus! {

/// The window around one marked line: the marked line, up to `context`
/// lines before it and up to `context` lines after it, clipped to the file.
pub struct MarkedSection {
    pub lines: Vec<Line>,
    pub comment_type: CommentType,
    /// The name of the file the section comes from.
    pub title_xxx: String,
}

/// First position of the window around position `i`.
pub open spec fn window_start(i: int, context: int) -> int {
    if i - context > 0 {
        i - context
    } else {
        0
    }
}

/// Position just past the window around position `i`, in a file of `n` lines.
pub open spec fn window_end(n: int, i: int, context: int) -> int {
    if i + context + 1 < n {
        i + context + 1
    } else {
        n
    }
}

/// The positions of the lines that are marked once trimmed, in order.
pub open spec fn marked_positions(lines: Seq<Seq<char>>) -> Seq<int>
    decreases lines.len(),
{
    if lines.len() == 0 {
        Seq::empty()
    } else {
        let prev = marked_positions(lines.drop_last());
        if is_marked(trimmed(lines.last())) {
            prev.push(lines.len() - 1)
        } else {
            prev
        }
    }
}

/// `s` is the section around the marked line at position `i` of `lines`,
/// a file named `filename`.
pub open spec fn is_window(
    s: MarkedSection,
    lines: Seq<Seq<char>>,
    context: int,
    i: int,
    filename: Seq<char>,
) -> bool {
    let start = window_start(i, context);
    let end = window_end(lines.len() as int, i, context);
    &&& s.lines.len() == end - start
    &&& forall|k: int|
        0 <= k < end - start ==> line_is(
            #[trigger] s.lines@[k],
            start + k,
            lines[start + k],
            start + k == i,
        )
    &&& is_marked(s.lines@[i - start].content@)
    &&& s.comment_type == kind_of(s.lines@[i - start].content@)
    &&& s.title_xxx@ == filename
}

/// `r` holds one section per marked line of `file`, in the file's order.
pub open spec fn sections_of_file(r: Seq<MarkedSection>, file: ParsedFile, context: int) -> bool {
    let lines = views(file.lines@);
    let marks = marked_positions(lines);
    &&& r.len() == marks.len()
    &&& forall|k: int|
        0 <= k < r.len() ==> is_window(#[trigger] r[k], lines, context, marks[k], file.filename@)
}

/// The number of sections that the first `f` files give.
pub open spec fn sections_before(files: Seq<ParsedFile>, f: int) -> int
    decreases f,
{
    if f <= 0 {
        0
    } else {
        sections_before(files, f - 1) + marked_positions(views(files[f - 1].lines@)).len()
    }
}

/// `r` holds the sections of each file in turn.
pub open spec fn sections_of_directory(
    r: Seq<MarkedSection>,
    files: Seq<ParsedFile>,
    context: int,
) -> bool {
    &&& r.len() == sections_before(files, files.len() as int)
    &&& forall|f: int|
        0 <= f < files.len() ==> sections_of_file(
            r.subrange(sections_before(files, f), #[trigger] sections_before(files, f + 1)),
            files[f],
            context,
        )
}

/// The sections that a single file or a directory gives.
pub open spec fn sections_of(r: Seq<MarkedSection>, data: ParseData, context: int) -> bool {
    match data {
        ParseData::File(file) => sections_of_file(r, file, context),
        ParseData::Directory(dir) => sections_of_directory(r, dir.files@, context),
    }
}

impl MarkedSection {
    /// The section's lines hold exactly one marked line.
    pub open spec fn wf(&self) -> bool {
        exists|p: int|
            0 <= p < self.lines.len() && #[trigger] self.lines@[p].is_special && forall|q: int|
                0 <= q < self.lines.len() && q != p ==> !self.lines@[q].is_special
    }

    /// Whether the section's lines hold exactly one marked line.
    pub fn has_one_special(&self) -> (r: bool)
        ensures
            r == self.wf(),
    {
        let lines = &self.lines;
        let mut found: Option<usize> = None;
        for k in 0..lines.len()
            invariant
                lines@ == self.lines@,
                found is None ==> forall|q: int| 0 <= q < k ==> !(#[trigger] lines@[q]).is_special,
                found matches Some(p) ==> p < k && lines@[p as int].is_special && forall|q: int|
                    0 <= q < k && q != p ==> !(#[trigger] lines@[q]).is_special,
        {
            if lines[k].is_special {
                if found.is_some() {
                    assert(!self.wf()) by {
                        let p = found.unwrap() as int;
                        if self.wf() {
                            let w = choose|w: int|
                                0 <= w < self.lines.len() && #[trigger] self.lines@[w].is_special
                                    && forall|q: int|
                                    0 <= q < self.lines.len() && q != w
                                        ==> !self.lines@[q].is_special;
                            assert(w == p || w == k);
                        }
                    }
                    return false;
                }
                found = Some(k);
            }
        }
        match found {
            Some(p) => {
                assert(self.lines@[p as int].is_special);
                true
            },
            None => false,
        }
    }

    /// The section's marked line is a marked comment, and the section's
    /// kind is that line's kind.
    pub open spec fn is_classified(&self) -> bool {
        forall|p: int|
            0 <= p < self.lines.len() && #[trigger] self.lines@[p].is_special ==> is_marked(
                self.lines@[p].content@,
            ) && self.comment_type == kind_of(self.lines@[p].content@)
    }

    fn unpack_lines_for_directory(dir_data: &ParsedDirectory, context: usize) -> (r: Vec<Self>)
        ensures
            sections_of_directory(r@, dir_data.files@, context as int),
            forall|k: int| 0 <= k < r.len() ==> (#[trigger] r@[k]).wf() && r@[k].is_classified(),
    {
        let files = &dir_data.files;
        let mut r: Vec<Self> = Vec::new();
        for f in 0..files.len()
            invariant
                files@ == dir_data.files@,
                r.len() == sections_before(files@, f as int),
                forall|k: int| 0 <= k < r.len() ==> (#[trigger] r@[k]).wf() && r@[k].is_classified(),
                forall|g: int|
                    0 <= g < f ==> sections_of_file(
                        r@.subrange(sections_before(files@, g), #[trigger] sections_before(files@, g + 1)),
                        files@[g],
                        context as int,
                    ),
        {
            proof {
                lemma_sections_before_grows(files@, f as int);
            }
            let ghost before = r@;
            let mut sections = Self::unpack_lines_for_file(&files[f], context);
            r.append(&mut sections);
            assert forall|g: int| 0 <= g < f + 1 implies sections_of_file(
                r@.subrange(sections_before(files@, g), #[trigger] sections_before(files@, g + 1)),
                files@[g],
                context as int,
            ) by {
                lemma_sections_before_grows(files@, g);
                lemma_sections_before_monotone(files@, g + 1, f + 1);
                if g < f {
                    lemma_sections_before_monotone(files@, g + 1, f as int);
                    assert(r@.subrange(sections_before(files@, g), sections_before(files@, g + 1))
                        =~= before.subrange(sections_before(files@, g), sections_before(files@, g + 1)));
                } else {
                    assert(r@.subrange(sections_before(files@, g), sections_before(files@, g + 1))
                        =~= r@.subrange(before.len() as int, r@.len() as int));
                }
            }
        }
        r
    }

    /// The section around the marked line at position `i`, whose trimmed
    /// text is `content`.
    fn window(
        lines: &Vec<String>,
        i: usize,
        context: usize,
        content: String,
        comment_type: CommentType,
        filename: &String,
    ) -> (s: Self)
        requires
            i < lines.len(),
            content@ == trimmed(lines@[i as int]@),
            is_marked(content@),
            comment_type == kind_of(content@),
        ensures
            is_window(s, views(lines@), context as int, i as int, filename@),
            s.wf(),
            s.is_classified(),
    {
        let ghost text = views(lines@);
        let lines_len = lines.len();
        let mut current_lines: Vec<Line> = Vec::new();
        let range_start: usize = if i >= context {
            i - context
        } else {
            0
        };
        let range_end: usize = if context < lines_len - i - 1 {
            i + context + 1
        } else {
            lines_len
        };
        let ghost start = window_start(i as int, context as int);
        assert(range_end == window_end(lines_len as int, i as int, context as int));
        // context lines before the marked line
        for j in range_start..i
            invariant
                text == views(lines@),
                lines_len == lines.len(),
                i < lines_len,
                range_start == start,
                current_lines.len() == j - start,
                forall|k: int|
                    0 <= k < current_lines.len() ==> line_is(
                        #[trigger] current_lines@[k],
                        start + k,
                        text[start + k],
                        start + k == i,
                    ),
        {
            assert(text[j as int] == lines@[j as int]@);
            current_lines.push(Line::new(lines[j].as_str(), j, false));
        }
        // the marked line
        assert(text[i as int] == lines@[i as int]@);
        current_lines.push(Line { number: i, content, is_special: true });
        // context lines after the marked line
        for j in i + 1..range_end
            invariant
                text == views(lines@),
                lines_len == lines.len(),
                i < lines_len,
                range_start == start,
                range_end <= lines_len,
                current_lines.len() == j - start,
                forall|k: int|
                    0 <= k < current_lines.len() ==> line_is(
                        #[trigger] current_lines@[k],
                        start + k,
                        text[start + k],
                        start + k == i,
                    ),
        {
            assert(text[j as int] == lines@[j as int]@);
            current_lines.push(Line::new(lines[j].as_str(), j, false));
        }
        let section = Self { lines: current_lines, comment_type, title_xxx: filename.clone() };
        assert(section.lines@[i - start].is_special);
        assert(section.lines@[i - start].content@ == trimmed(text[i as int]));
        section
    }

    fn unpack_lines_for_file(file_data: &ParsedFile, context: usize) -> (r: Vec<Self>)
        ensures
            sections_of_file(r@, *file_data, context as int),
            forall|k: int| 0 <= k < r.len() ==> (#[trigger] r@[k]).wf() && r@[k].is_classified(),
    {
        let lines = &file_data.lines;
        let ghost text = views(lines@);
        let mut marked_sections: Vec<Self> = Vec::new();
        let lines_len = lines.len();
        let mut i: usize = 0;
        while i < lines_len
            invariant
                lines@ == file_data.lines@,
                text == views(lines@),
                lines_len == lines.len(),
                i <= lines_len,
                marked_sections.len() == marked_positions(text.subrange(0, i as int)).len(),
                forall|k: int|
                    0 <= k < marked_sections.len() ==> (#[trigger] marked_sections@[k]).wf()
                        && marked_sections@[k].is_classified(),
                forall|k: int|
                    0 <= k < marked_sections.len() ==> is_window(
                        #[trigger] marked_sections@[k],
                        text,
                        context as int,
                        marked_positions(text.subrange(0, i as int))[k],
                        file_data.filename@,
                    ),
            decreases lines_len - i,
        {
            let ghost prefix = text.subrange(0, i + 1);
            assert(prefix.drop_last() =~= text.subrange(0, i as int));
            assert(prefix.last() == lines@[i as int]@);
            let content = trim(lines[i].as_str());
            if CommentType::check_line_special(content.as_str()) {
                let comment_type = CommentType::get_special_line_type(content.as_str());
                let section = Self::window(
                    lines,
                    i,
                    context,
                    content,
                    comment_type,
                    &file_data.filename,
                );
                marked_sections.push(section);
            }
            i = i + 1;
        }
        assert(text.subrange(0, lines_len as int) =~= text);
        marked_sections
    }

    /// One section per marked line, in source order; for a directory, the
    /// sections of each file in turn. Windows of nearby marked lines may
    /// overlap: each marked line gets its own.
    pub fn unpack_lines(parsed_data: ParseData, context: usize) -> (r: Vec<Self>)
        ensures
            sections_of(r@, parsed_data, context as int),
            forall|k: int| 0 <= k < r.len() ==> (#[trigger] r@[k]).wf() && r@[k].is_classified(),
    {
        match parsed_data {
            ParseData::Directory(dir_data) => Self::unpack_lines_for_directory(&dir_data, context),
            ParseData::File(file_data) => Self::unpack_lines_for_file(&file_data, context),
        }
    }
}

/// Marked positions are positions of the file, and the lines there are marked.
pub proof fn lemma_marked_positions_in_range(lines: Seq<Seq<char>>)
    ensures
        forall|k: int|
            0 <= k < marked_positions(lines).len() ==> 0 <= #[trigger] marked_positions(lines)[k]
                < lines.len() && is_marked(trimmed(lines[marked_positions(lines)[k]])),
    decreases lines.len(),
{
    if lines.len() > 0 {
        let prev = lines.drop_last();
        lemma_marked_positions_in_range(prev);
        assert forall|k: int| 0 <= k < marked_positions(prev).len() implies lines[
            marked_positions(prev)[k]
        ] == prev[marked_positions(prev)[k]] by {}
    }
}

/// Every section is at most `2 * context + 1` lines long, and it is
/// shorter only when its marked line lies within `context` lines of the
/// first or the last line of the file.
pub proof fn lemma_window_length(lines: Seq<Seq<char>>, context: nat, k: int)
    requires
        0 <= k < marked_positions(lines).len(),
    ensures
        ({
            let i = marked_positions(lines)[k];
            let len = window_end(lines.len() as int, i, context as int) - window_start(
                i,
                context as int,
            );
            &&& 1 <= len <= 2 * context + 1
            &&& len < 2 * context + 1 ==> i < context || i + context >= lines.len()
        }),
{
    lemma_marked_positions_in_range(lines);
}

proof fn lemma_sections_before_grows(files: Seq<ParsedFile>, f: int)
    requires
        0 <= f,
    ensures
        sections_before(files, f + 1) == sections_before(files, f) + marked_positions(
            views(files[f].lines@),
        ).len(),
        sections_before(files, f) >= 0,
    decreases f,
{
    if f > 0 {
        lemma_sections_before_grows(files, f - 1);
    }
}

proof fn lemma_sections_before_monotone(files: Seq<ParsedFile>, f: int, g: int)
    requires
        0 <= f <= g,
    ensures
        sections_before(files, f) <= sections_before(files, g),
    decreases g - f,
{
    if f < g {
        lemma_sections_before_monotone(files, f, g - 1);
        lemma_sections_before_grows(files, g - 1);
    }
}

} // verus!
