//! Breadcrumb markers: classifying a line, and reading a filter token.

use vstd::prelude::*;
use crate::text::{chars_of, contains_infix, has_infix, lower_of, lowercase, same_chars};

verus! {

/// The kinds of breadcrumb comment. `Other` is what a line without a
/// marker classifies as; as a filter selection it stands for "every kind".
#[derive(PartialEq, Eq, Structural, Clone, Copy, Debug)]
pub enum CommentType {
    Todo,
    Fixme,
    Note,
    XXX,
    Other,
}

pub open spec fn todo_word() -> Seq<char> {
    seq!['t', 'o', 'd', 'o']
}

pub open spec fn fixme_word() -> Seq<char> {
    seq!['f', 'i', 'x', 'm', 'e']
}

pub open spec fn note_word() -> Seq<char> {
    seq!['n', 'o', 't', 'e']
}

pub open spec fn xxx_word() -> Seq<char> {
    seq!['x', 'x', 'x']
}

/// The marker kind of an already lower-cased line: the first of todo,
/// fixme, note, xxx that occurs in it anywhere, else `Other`.
pub open spec fn kind_of_lowered(lower: Seq<char>) -> CommentType {
    if contains_infix(lower, todo_word()) {
        CommentType::Todo
    } else if contains_infix(lower, fixme_word()) {
        CommentType::Fixme
    } else if contains_infix(lower, note_word()) {
        CommentType::Note
    } else if contains_infix(lower, xxx_word()) {
        CommentType::XXX
    } else {
        CommentType::Other
    }
}

/// The marker kind of a line, matched without regard to case.
pub open spec fn kind_of(line: Seq<char>) -> CommentType {
    kind_of_lowered(lower_of(line))
}

/// Whether a line holds one of the tokens that open a comment:
/// `//`, `/***`, `#`, a triple quote, `/**`.
pub open spec fn has_comment_token(line: Seq<char>) -> bool {
    ||| contains_infix(line, seq!['/', '/'])
    ||| contains_infix(line, seq!['/', '*', '*', '*'])
    ||| contains_infix(line, seq!['#'])
    ||| contains_infix(line, seq!['"', '"', '"'])
    ||| contains_infix(line, seq!['/', '*', '*'])
}

/// A marked line: a comment that carries a marker.
pub open spec fn is_marked(line: Seq<char>) -> bool {
    kind_of(line) != CommentType::Other && has_comment_token(line)
}

/// The kind that a filter token selects: exactly `todo`, `fixme`, `note`
/// and `xxx` select their kind; every other token selects `Other`, "all".
pub open spec fn display_type_of(token: Seq<char>) -> CommentType {
    if token == todo_word() {
        CommentType::Todo
    } else if token == fixme_word() {
        CommentType::Fixme
    } else if token == note_word() {
        CommentType::Note
    } else if token == xxx_word() {
        CommentType::XXX
    } else {
        CommentType::Other
    }
}

/// The name of a kind, as it is shown.
pub open spec fn name_of(t: CommentType) -> Seq<char> {
    match t {
        CommentType::Todo => "Todo"@,
        CommentType::Fixme => "Fixme"@,
        CommentType::Note => "Note"@,
        CommentType::XXX => "XXX"@,
        CommentType::Other => "Other"@,
    }
}

/// The name of a kind in capitals.
pub open spec fn upper_name_of(t: CommentType) -> Seq<char> {
    match t {
        CommentType::Todo => "TODO"@,
        CommentType::Fixme => "FIXME"@,
        CommentType::Note => "NOTE"@,
        CommentType::XXX => "XXX"@,
        CommentType::Other => "OTHER"@,
    }
}

impl CommentType {
    /// The kind selected by a filter token given by the user.
    pub fn get_display_type(type_opt: &str) -> (r: Self)
        ensures
            r == display_type_of(type_opt@),
    {
        let token = chars_of(type_opt);
        if same_chars(&token, &vec!['t', 'o', 'd', 'o']) {
            Self::Todo
        } else if same_chars(&token, &vec!['f', 'i', 'x', 'm', 'e']) {
            Self::Fixme
        } else if same_chars(&token, &vec!['n', 'o', 't', 'e']) {
            Self::Note
        } else if same_chars(&token, &vec!['x', 'x', 'x']) {
            Self::XXX
        } else {
            Self::Other
        }
    }

    /// The kind of a line that is already in lower case.
    pub fn from_lowercase(lower: &str) -> (r: Self)
        ensures
            r == kind_of_lowered(lower@),
    {
        let l = chars_of(lower);
        if has_infix(&l, &vec!['t', 'o', 'd', 'o']) {
            Self::Todo
        } else if has_infix(&l, &vec!['f', 'i', 'x', 'm', 'e']) {
            Self::Fixme
        } else if has_infix(&l, &vec!['n', 'o', 't', 'e']) {
            Self::Note
        } else if has_infix(&l, &vec!['x', 'x', 'x']) {
            Self::XXX
        } else {
            Self::Other
        }
    }

    /// The kind of a line: the first marker, in the order todo, fixme,
    /// note, xxx, that occurs anywhere in it regardless of case.
    pub fn get_special_line_type(line_str: &str) -> (r: Self)
        ensures
            r == kind_of(line_str@),
    {
        let lower = lowercase(line_str);
        Self::from_lowercase(lower.as_str())
    }

    /// Whether a line is a comment that carries a marker.
    pub fn check_line_special(line: &str) -> (r: bool)
        ensures
            r == is_marked(line@),
    {
        let is_special = Self::get_special_line_type(line) != Self::Other;
        let is_comment = is_comment(line);
        is_special && is_comment
    }

    /// The name of the kind.
    pub fn name(&self) -> (r: &'static str)
        ensures
            r@ == name_of(*self),
    {
        match self {
            Self::Todo => "Todo",
            Self::Fixme => "Fixme",
            Self::Note => "Note",
            Self::XXX => "XXX",
            Self::Other => "Other",
        }
    }

    /// The name of the kind in capitals.
    pub fn upper_name(&self) -> (r: &'static str)
        ensures
            r@ == upper_name_of(*self),
    {
        match self {
            Self::Todo => "TODO",
            Self::Fixme => "FIXME",
            Self::Note => "NOTE",
            Self::XXX => "XXX",
            Self::Other => "OTHER",
        }
    }
}

/// Whether a line holds a token that opens a comment.
pub fn is_comment(line: &str) -> (r: bool)
    ensures
        r == has_comment_token(line@),
{
    let l = chars_of(line);
    let slashes = vec!['/', '/'];
    let doc_block = vec!['/', '*', '*', '*'];
    let hash = vec!['#'];
    let quotes = vec!['"', '"', '"'];
    let block = vec!['/', '*', '*'];
    assert(slashes@ =~= seq!['/', '/']);
    assert(doc_block@ =~= seq!['/', '*', '*', '*']);
    assert(hash@ =~= seq!['#']);
    assert(quotes@ =~= seq!['"', '"', '"']);
    assert(block@ =~= seq!['/', '*', '*']);
    has_infix(&l, &slashes) || has_infix(&l, &doc_block) || has_infix(&l, &hash) || has_infix(
        &l,
        &quotes,
    ) || has_infix(&l, &block)
}

/// Marker priority: a line in which both "todo" and "fixme" occur, in any
/// case, is a `Todo`.
pub proof fn lemma_todo_before_fixme(line: Seq<char>)
    requires
        contains_infix(lower_of(line), todo_word()),
        contains_infix(lower_of(line), fixme_word()),
    ensures
        kind_of(line) == CommentType::Todo,
{
}

/// A filter token selects its own kind when it is one of `todo`, `fixme`,
/// `note`, `xxx`, and "all" (`Other`) when it is anything else.
pub proof fn lemma_display_type_of(token: Seq<char>)
    ensures
        token == todo_word() <==> display_type_of(token) == CommentType::Todo,
        token == fixme_word() <==> display_type_of(token) == CommentType::Fixme,
        token == note_word() <==> display_type_of(token) == CommentType::Note,
        token == xxx_word() <==> display_type_of(token) == CommentType::XXX,
        token != todo_word() && token != fixme_word() && token != note_word() && token
            != xxx_word() <==> display_type_of(token) == CommentType::Other,
{
    assert(todo_word() != fixme_word());
    assert(todo_word() != note_word());
    assert(todo_word() != xxx_word());
    assert(fixme_word() != note_word());
    assert(fixme_word() != xxx_word());
    assert(note_word() != xxx_word());
}

} // verus!
