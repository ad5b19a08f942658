//! Data-parallel scan over the whole source text.

use vstd::prelude::*;
use rayon::iter::ParallelIterator;
use rayon::str::ParallelString;
use crate::anagram::Fingerprint;
use crate::anagram::is_anagram;
use crate::anagram::precalc_letter_data;
use crate::scan::lines_of;
use crate::scan::spec_scan;
use crate::scan::views_of;

verus! {

/// Relies on rayon's `par_lines`, `filter`, `map` and `collect`: the lines of
/// `contents` (split as `str::lines` splits them) that the predicate accepts,
/// in their original order — rayon's order-stable reduction merges the
/// workers' results back into encounter order regardless of completion order.
#[verifier::external_body]
fn par_scan(contents: &str, fp: &Fingerprint) -> (r: Vec<String>)
    requires
        fp.wf(),
    ensures
        views_of(r@) == spec_scan(lines_of(contents@), fp.word()),
{
    contents
        .par_lines()
        .filter(|candidate| is_anagram(candidate, fp))
        .map(String::from)
        .collect()
}

/// Data-parallel scan: the source text is split lazily into lines, the lines
/// are tested against the target's fingerprint across a work-stealing thread
/// pool — each worker decrementing its own scratch copy of the counts, the
/// fingerprint itself shared read-only — and the matches are merged back in
/// original line order. Reading the text into memory is the caller's
/// business, and a failed read means no call and no partial result.
pub fn find_anagrams_parallel(word: &str, contents: &str) -> (r: Vec<String>)
    ensures
        views_of(r@) == spec_scan(lines_of(contents@), word@),
{
    let fp = precalc_letter_data(word);
    par_scan(contents, &fp)
}

} // verus!
