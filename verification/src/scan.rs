//! What a corpus scan returns, stated once and shared by both scanning
//! strategies: the lines of the source, in encounter order, filtered by
//! anagram equality against the target.

use vstd::prelude::*;
use crate::anagram::anagram_of;

verus! {

/// The characters of each string of a sequence.
pub open spec fn views_of(lines: Seq<String>) -> Seq<Seq<char>> {
    lines.map_values(|s: String| s@)
}

/// One trailing carriage return removed: line splitting treats a carriage
/// return directly before the line feed as part of the line ending.
pub open spec fn chomp_cr(l: Seq<char>) -> Seq<char> {
    if l.len() > 0 && l.last() == '\r' {
        l.drop_last()
    } else {
        l
    }
}

/// The lines of a text: the pieces between line feeds, each with one
/// trailing carriage return removed, and with no empty piece after a final
/// line ending. This is how rayon's `par_lines` splits a string (it chomps a
/// carriage return from every piece, a final unterminated one included).
pub open spec fn lines_of(text: Seq<char>) -> Seq<Seq<char>> {
    lines_from(text, Seq::empty())
}

/// Helper for [`lines_of`]: the lines of `text` when `cur` has been read of
/// the current line so far.
pub open spec fn lines_from(text: Seq<char>, cur: Seq<char>) -> Seq<Seq<char>>
    decreases text.len(),
{
    if text.len() == 0 {
        if cur.len() == 0 {
            Seq::empty()
        } else {
            seq![chomp_cr(cur)]
        }
    } else if text[0] == '\n' {
        seq![chomp_cr(cur)] + lines_from(text.drop_first(), Seq::empty())
    } else {
        lines_from(text.drop_first(), cur.push(text[0]))
    }
}

/// What a scan returns: exactly the lines that are anagrams of the target,
/// in encounter order.
pub open spec fn spec_scan(lines: Seq<Seq<char>>, target: Seq<char>) -> Seq<Seq<char>>
    decreases lines.len(),
{
    if lines.len() == 0 {
        Seq::empty()
    } else {
        let rest = spec_scan(lines.drop_last(), target);
        if anagram_of(lines.last(), target) {
            rest.push(lines.last())
        } else {
            rest
        }
    }
}

/// Law: the two scanning strategies agree: on the same source text and
/// target word, any result meeting the sequential scanner's contract equals
/// any result meeting the parallel scanner's contract, element for element
/// and in the same order.
pub proof fn lemma_strategies_agree(
    target: Seq<char>,
    text: Seq<char>,
    r_sequential: Seq<Seq<char>>,
    r_parallel: Seq<Seq<char>>,
)
    requires
        r_sequential == spec_scan(lines_of(text), target),
        r_parallel == spec_scan(lines_of(text), target),
    ensures
        r_sequential == r_parallel,
{
}

} // verus!
