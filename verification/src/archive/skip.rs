//! The list of name parts that keep an entry out of a backup.

use crate::text::{contains, is_substring, lines_of, non_empty, non_empty_lines};
use vstd::prelude::*;

verus! {

/// Some part of `skip` occurs in `name`.
pub open spec fn skipped(name: Seq<char>, skip: Seq<Seq<char>>) -> bool {
    exists|k: int| 0 <= k < skip.len() && is_substring(#[trigger] skip[k], name)
}

/// The parts that a skip list with the text `text` names: its lines, but for
/// the empty ones.
pub open spec fn skip_parts(text: Seq<char>) -> Seq<Seq<char>> {
    non_empty(lines_of(text))
}

/// Reads a skip list: one part per line, empty lines passed over.
pub fn load_skip_list(text: &str) -> (skip: Vec<String>)
    ensures
        skip.deep_view() == skip_parts(text@),
{
    non_empty_lines(text)
}

/// Whether an entry of this name is kept out of a backup.
pub fn is_skipped(name: &str, skip: &Vec<String>) -> (r: bool)
    ensures
        r == skipped(name@, skip.deep_view()),
{
    let mut k: usize = 0;
    while k < skip.len()
        invariant
            k <= skip.len(),
            forall|j: int| 0 <= j < k ==> !is_substring(#[trigger] skip.deep_view()[j], name@),
        decreases skip.len() - k,
    {
        if contains(name, skip[k].as_str()) {
            assert(is_substring(skip.deep_view()[k as int], name@));
            return true;
        }
        k = k + 1;
    }
    false
}

/// No part of a skip list that was read from a text is empty.
pub proof fn lemma_skip_parts_not_empty(text: Seq<char>)
    ensures
        forall|k: int| 0 <= k < skip_parts(text).len() ==> (#[trigger] skip_parts(text)[k]).len() > 0,
{
    lemma_non_empty(lines_of(text));
}

proof fn lemma_non_empty(lines: Seq<Seq<char>>)
    ensures
        forall|k: int| 0 <= k < non_empty(lines).len() ==> (#[trigger] non_empty(lines)[k]).len() > 0,
    decreases lines.len(),
{
    if lines.len() > 0 {
        let front = non_empty(lines.drop_last());
        let out = non_empty(lines);
        lemma_non_empty(lines.drop_last());
        assert forall|k: int| 0 <= k < out.len() implies (#[trigger] out[k]).len() > 0 by {
            if k < front.len() {
                assert(out[k] == front[k]);
            }
        }
    }
}

} // verus!
