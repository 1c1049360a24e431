//! An indentation-aware builder of markdown text.
//!
//! Each operation consumes the builder and hands back the updated one, so
//! that a document is written as a chain of operations. Every operation
//! appends to the end of the text or changes only the indentation level,
//! which decides how many tabs follow each newline.

use vstd::prelude::*;
use crate::text::{chars_of, has_char, push_char};

verus! {

/// A run of `n` tab characters.
pub open spec fn tabs(n: nat) -> Seq<char> {
    Seq::new(n, |_i: int| '\t')
}

/// What a newline appends at a given indentation level: the newline
/// character, then one tab per level.
pub open spec fn newline_text(level: nat) -> Seq<char> {
    seq!['\n'] + tabs(level)
}

/// What a header of the given level appends: that many `#`, then a space.
pub open spec fn header_text(level: nat) -> Seq<char> {
    Seq::new(level, |_i: int| '#').push(' ')
}

/// What a checkbox appends: an unchecked markdown checkbox and a space.
pub open spec fn checkbox_text() -> Seq<char> {
    "- [ ] "@
}

/// Text that may be inserted as it is: it holds no newline and no tab.
pub open spec fn is_single_line(t: Seq<char>) -> bool {
    !t.contains('\n') && !t.contains('\t')
}

/// What inserting `t` makes of the text `s`: `s` followed by `t` when `t`
/// is a single line, nothing otherwise.
pub open spec fn inserted(s: Seq<char>, t: Seq<char>) -> Option<Seq<char>> {
    if is_single_line(t) {
        Some(s + t)
    } else {
        None
    }
}

/// The reason given when inserted text holds a newline.
pub open spec fn newline_reason() -> Seq<char> {
    "newline character found in input."@
}

/// The reason given when inserted text holds a tab.
pub open spec fn indentation_reason() -> Seq<char> {
    "indentation character found in input."@
}

/// The error that inserting `t` gives, if any: a newline is reported
/// before a tab.
pub open spec fn insert_error_reason(t: Seq<char>) -> Seq<char> {
    if t.contains('\n') {
        newline_reason()
    } else {
        indentation_reason()
    }
}

/// A markdown document under construction: the text so far, and the
/// number of tabs that each newline is followed by.
#[derive(Debug)]
pub struct MarkdownBuilder {
    pub contents: String,
    pub indentation_level: usize,
}

/// Markdown header levels, `#` to `######`.
#[derive(Debug, Clone, Copy, PartialEq, Eq)]
pub enum HeaderLevel {
    H1,
    H2,
    H3,
    H4,
    H5,
    H6,
}

/// The number of a header level.
pub open spec fn header_number(level: HeaderLevel) -> nat {
    match level {
        HeaderLevel::H1 => 1,
        HeaderLevel::H2 => 2,
        HeaderLevel::H3 => 3,
        HeaderLevel::H4 => 4,
        HeaderLevel::H5 => 5,
        HeaderLevel::H6 => 6,
    }
}

impl HeaderLevel {
    pub fn to_numeric(self) -> (r: usize)
        ensures
            r == header_number(self),
    {
        match self {
            Self::H1 => 1,
            Self::H2 => 2,
            Self::H3 => 3,
            Self::H4 => 4,
            Self::H5 => 5,
            Self::H6 => 6,
        }
    }
}

/// Why a builder operation was refused.
#[derive(Debug, PartialEq, Eq)]
pub enum BuilderError {
    /// Text to insert held a forbidden character; the reason names which.
    TextInsertError(String),
}

impl BuilderError {
    /// The error as a sentence.
    pub fn message(&self) -> (r: String)
        ensures
            r@ == "Text to be inserted contains invalid characters: "@ + match self {
                BuilderError::TextInsertError(reason) => reason@,
            },
    {
        match self {
            BuilderError::TextInsertError(reason) => {
                let mut r = String::from_str("Text to be inserted contains invalid characters: ");
                r.append(reason.as_str());
                r
            },
        }
    }
}

impl MarkdownBuilder {
    /// The text accumulated so far.
    pub open spec fn text(&self) -> Seq<char> {
        self.contents@
    }

    /// The current indentation level.
    pub open spec fn level(&self) -> nat {
        self.indentation_level as nat
    }

    /// An empty document at indentation level zero.
    pub fn new() -> (r: Self)
        ensures
            r.text() == Seq::<char>::empty(),
            r.level() == 0,
    {
        Self { contents: String::new(), indentation_level: 0 }
    }

    /// Appends a header marker of the given level.
    pub fn header(self, level: HeaderLevel) -> (r: Self)
        ensures
            r.text() == self.text() + header_text(header_number(level)),
            r.level() == self.level(),
    {
        let mut b = self;
        let n = level.to_numeric();
        let ghost start = b.contents@;
        for i in 0..n
            invariant
                b.contents@ == start + Seq::new(i as nat, |_j: int| '#'),
                b.level() == self.level(),
                start == self.text(),
        {
            push_char(&mut b.contents, '#');
            assert(b.contents@ =~= start + Seq::new((i + 1) as nat, |_j: int| '#'));
        }
        push_char(&mut b.contents, ' ');
        assert(b.contents@ =~= self.text() + header_text(header_number(level)));
        b
    }

    /// Appends a newline followed by one tab per indentation level.
    pub fn newline(self) -> (r: Self)
        ensures
            r.text() == self.text() + newline_text(self.level()),
            r.level() == self.level(),
    {
        let mut b = self;
        push_char(&mut b.contents, '\n');
        let ghost start = self.text() + seq!['\n'];
        assert(b.contents@ =~= start + tabs(0));
        let n = b.indentation_level;
        for i in 0..n
            invariant
                n == self.level(),
                b.contents@ == start + tabs(i as nat),
                b.level() == self.level(),
                start == self.text() + seq!['\n'],
        {
            push_char(&mut b.contents, '\t');
            assert(b.contents@ =~= start + tabs((i + 1) as nat));
        }
        assert(b.contents@ =~= self.text() + newline_text(self.level()));
        b
    }

    /// Raises the indentation level by one.
    pub fn increase_indentation_level(self) -> (r: Self)
        requires
            self.level() < usize::MAX,
        ensures
            r.text() == self.text(),
            r.level() == self.level() + 1,
    {
        let mut b = self;
        b.indentation_level = b.indentation_level + 1;
        b
    }

    /// Sets the indentation level back to zero.
    pub fn reset_indentation(self) -> (r: Self)
        ensures
            r.text() == self.text(),
            r.level() == 0,
    {
        let mut b = self;
        b.indentation_level = 0;
        b
    }

    /// Appends an unchecked checkbox.
    pub fn checkbox(self) -> (r: Self)
        ensures
            r.text() == self.text() + checkbox_text(),
            r.level() == self.level(),
    {
        let mut b = self;
        b.contents.append("- [ ] ");
        b
    }

    /// Appends `text` as it is. Text that holds a newline or a tab is
    /// refused with a `TextInsertError` naming the character found; line
    /// breaks go through [`newline`](Self::newline).
    pub fn insert_single_line(self, text: &str) -> (r: Result<Self, BuilderError>)
        ensures
            r is Ok <==> inserted(self.text(), text@) is Some,
            r matches Ok(b) ==> Some(b.text()) == inserted(self.text(), text@) && b.level()
                == self.level(),
            r matches Err(BuilderError::TextInsertError(reason)) ==> reason@
                == insert_error_reason(text@),
    {
        match Self::check_single_line_text_input_for_forbidden_characters(text) {
            Err(error) => Err(error),
            Ok(()) => {
                let mut b = self;
                b.contents.append(text);
                Ok(b)
            },
        }
    }

    /// The finished document.
    pub fn to_markdown_string(self) -> (r: String)
        ensures
            r@ == self.text(),
    {
        self.contents
    }

    pub(crate) fn check_single_line_text_input_for_forbidden_characters(text: &str) -> (r: Result<
        (),
        BuilderError,
    >)
        ensures
            r is Ok <==> is_single_line(text@),
            r matches Err(BuilderError::TextInsertError(reason)) ==> reason@
                == insert_error_reason(text@),
    {
        let chars = chars_of(text);
        if has_char(&chars, '\n') {
            Err(BuilderError::TextInsertError(String::from_str("newline character found in input.")))
        } else if has_char(&chars, '\t') {
            Err(
                BuilderError::TextInsertError(
                    String::from_str("indentation character found in input."),
                ),
            )
        } else {
            Ok(())
        }
    }
}

/// Inserting the same text twice: when the first insert succeeds, so does
/// the second, and the document then holds the text twice, unchanged.
pub proof fn lemma_insert_twice(start: Seq<char>, t: Seq<char>)
    ensures
        inserted(start, t) matches Some(once) ==> inserted(once, t) == Some(start + t + t),
        inserted(start, t) is Some ==> (start + t + t).subrange(
            start.len() as int,
            (start.len() + t.len()) as int,
        ) == t && (start + t + t).subrange(
            (start.len() + t.len()) as int,
            (start.len() + 2 * t.len()) as int,
        ) == t,
{
    let n = start.len() as int;
    let m = t.len() as int;
    assert((start + t + t).subrange(n, n + m) =~= t);
    assert((start + t + t).subrange(n + m, n + 2 * m) =~= t);
}

/// Indentation is kept across newlines: from a new builder, one raise of
/// the indentation and three newlines give exactly "\n\t" three times.
pub proof fn lemma_newlines_keep_indentation()
    ensures
        Seq::<char>::empty() + newline_text(0 + 1) + newline_text(0 + 1) + newline_text(0 + 1)
            == seq!['\n', '\t', '\n', '\t', '\n', '\t'],
{
    assert(tabs(1) =~= seq!['\t']);
    assert(Seq::<char>::empty() + newline_text(1) + newline_text(1) + newline_text(1)
        =~= seq!['\n', '\t', '\n', '\t', '\n', '\t']);
}

} // verus!
