//! Sequential streaming scan: one line at a time, in encounter order.

use vstd::prelude::*;
use crate::anagram::anagram_of;
use crate::anagram::is_anagram;
use crate::anagram::precalc_letter_data;
use crate::scan::spec_scan;
use crate::scan::views_of;

verus! {

/// Sequential scan: builds the target's fingerprint once, tests each line in
/// order against it, and returns the matches in encounter order. The lines
/// arrive already read, one string each; opening and reading the source is
/// the caller's business, and a failed read means no call and no partial
/// result.
pub fn find_anagrams(word: &str, lines: &Vec<String>) -> (r: Vec<String>)
    ensures
        views_of(r@) == spec_scan(views_of(lines@), word@),
{
    let fp = precalc_letter_data(word);
    let mut results: Vec<String> = Vec::new();
    let mut i: usize = 0;
    while i < lines.len()
        invariant
            fp.wf(),
            fp.word() == word@,
            i <= lines@.len(),
            views_of(results@) == spec_scan(views_of(lines@).take(i as int), word@),
        decreases lines@.len() - i,
    {
        let ghost seen = views_of(lines@).take(i as int);
        let ghost found = results@;
        let candidate = &lines[i];
        if is_anagram(candidate.as_str(), &fp) {
            results.push(candidate.clone());
        }
        proof {
            assert(views_of(lines@).take(i + 1) =~= seen.push(lines@[i as int]@));
            assert(views_of(lines@).take(i + 1).drop_last() =~= seen);
            if anagram_of(lines@[i as int]@, word@) {
                assert(views_of(results@) =~= views_of(found).push(lines@[i as int]@));
            }
        }
        i += 1;
    }
    proof {
        assert(views_of(lines@).take(lines@.len() as int) =~= views_of(lines@));
    }
    results
}

} // verus!
