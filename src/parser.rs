//! The decisions made while reading files: which directories to skip and
//! which lines to keep.

use vstd::prelude::*;
use crate::text::{chars_of, contains_infix, has_infix, views};

verus! {

/// A path to leave out of a directory walk: one that holds `.git`,
/// `target`, `.config` or `~`.
pub open spec fn is_skipped_path(path: Seq<char>) -> bool {
    ||| contains_infix(path, seq!['.', 'g', 'i', 't'])
    ||| contains_infix(path, seq!['t', 'a', 'r', 'g', 'e', 't'])
    ||| contains_infix(path, seq!['.', 'c', 'o', 'n', 'f', 'i', 'g'])
    ||| contains_infix(path, seq!['~'])
}

/// The non-empty lines, in order.
pub open spec fn non_empty(lines: Seq<Seq<char>>) -> Seq<Seq<char>>
    decreases lines.len(),
{
    if lines.len() == 0 {
        Seq::empty()
    } else {
        let prev = non_empty(lines.drop_last());
        if lines.last().len() > 0 {
            prev.push(lines.last())
        } else {
            prev
        }
    }
}

/// Whether a directory walk leaves this path out.
pub fn path_should_be_skipped(path: &str) -> (r: bool)
    ensures
        r == is_skipped_path(path@),
{
    let p = chars_of(path);
    let git = vec!['.', 'g', 'i', 't'];
    let target = vec!['t', 'a', 'r', 'g', 'e', 't'];
    let config = vec!['.', 'c', 'o', 'n', 'f', 'i', 'g'];
    let home = vec!['~'];
    assert(git@ =~= seq!['.', 'g', 'i', 't']);
    assert(target@ =~= seq!['t', 'a', 'r', 'g', 'e', 't']);
    assert(config@ =~= seq!['.', 'c', 'o', 'n', 'f', 'i', 'g']);
    assert(home@ =~= seq!['~']);
    has_infix(&p, &git) || has_infix(&p, &target) || has_infix(&p, &config) || has_infix(
        &p,
        &home,
    )
}

/// The lines of a file that a scan looks at: the non-empty ones, in order.
pub fn non_empty_lines(lines: Vec<String>) -> (r: Vec<String>)
    ensures
        views(r@) == non_empty(views(lines@)),
{
    let ghost all = views(lines@);
    let mut r: Vec<String> = Vec::new();
    for line in it: lines.into_iter()
        invariant
            views(it.seq()) == all,
            views(r@) == non_empty(all.subrange(0, it.index() as int)),
    {
        let ghost i = it.index();
        assert(all.subrange(0, i + 1).drop_last() =~= all.subrange(0, i as int));
        assert(all[i as int] == line@);
        let ghost before = r@;
        if !line.as_str().is_empty() {
            r.push(line);
            assert(views(r@) =~= views(before).push(
                all[i as int],
            ));
        }
    }
    assert(all.subrange(0, all.len() as int) =~= all);
    r
}

} // verus!
