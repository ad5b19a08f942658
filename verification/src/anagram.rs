//! Letter-frequency fingerprinting and the anagram predicate.
//!
//! A target word is case-folded and summarised once into a [`Fingerprint`]:
//! each distinct folded character gets a slot, in first-occurrence order, and
//! the slot holds that character's occurrence count. [`is_anagram`] then
//! tests a candidate in one pass over its folded characters, decrementing a
//! private scratch copy of the counts.
//!
//! Anagram equality ([`anagram_of`]) is: identical character count, and an
//! identical character multiset after case folding. The predicate enforces
//! the length guard itself, so the scanners need no separate pre-filter.

use vstd::prelude::*;
use crate::storage::CountVec;
use crate::storage::LetterIndexMap;
use crate::storage::count_vec_contents;
use crate::storage::index_map_contents;

verus! {

broadcast use vstd::seq_lib::group_seq_properties;

/// What case folding returns: the characters of `str::to_lowercase` of a
/// string holding `s`. Left uninterpreted: the Unicode mapping is the
/// standard library's business, and nothing here needs more than that equal
/// strings fold equally.
pub uninterp spec fn lower_of(s: Seq<char>) -> Seq<char>;

/// Relies on `str::to_lowercase`: the result depends on the characters alone.
#[verifier::external_body]
fn fold_case(s: &str) -> (r: String)
    ensures
        r@ == lower_of(s@),
{
    s.to_lowercase()
}

/// Relies on `str::chars`: the string's characters, in order.
#[verifier::external_body]
fn chars_of(s: &str) -> (r: Vec<char>)
    ensures
        r@ == s@,
{
    s.chars().collect()
}

/// Anagram equality: the same character count, and the same character
/// multiset after case folding. Spaces and other non-letters count as
/// ordinary characters.
pub open spec fn anagram_of(candidate: Seq<char>, target: Seq<char>) -> bool {
    &&& candidate.len() == target.len()
    &&& lower_of(candidate).to_multiset() == lower_of(target).to_multiset()
}

/// Some character owns slot `j` of the count vector under assignment `m`.
pub open spec fn slot_assigned(m: Map<char, usize>, j: int) -> bool {
    exists|c: char| #[trigger] m.dom().contains(c) && m[c] == j
}

/// A target word's reusable letter-frequency summary: a slot per distinct
/// case-folded character and that character's occurrence count, plus the
/// word's raw and folded character counts. Built once by
/// [`precalc_letter_data`], then shared read-only by every test.
pub struct Fingerprint {
    index_map: LetterIndexMap,
    counts: CountVec,
    word_len: usize,
    folded_len: usize,
    word: Ghost<Seq<char>>,
}

impl Fingerprint {
    /// The target word this fingerprint was built from.
    pub closed spec fn word(self) -> Seq<char> {
        self.word@
    }

    /// Well-formedness: the index map assigns each character of the folded
    /// target a distinct slot of the count vector, every slot belongs to some
    /// character, each slot holds that character's multiplicity in the folded
    /// target, and the two stored lengths are the raw and folded character
    /// counts.
    pub closed spec fn wf(self) -> bool {
        let f = lower_of(self.word@);
        let m = index_map_contents(self.index_map);
        let v = count_vec_contents(self.counts);
        &&& self.word_len == self.word@.len()
        &&& self.folded_len == f.len()
        &&& forall|c: char| #![trigger m.dom().contains(c)] #![trigger f.contains(c)]
                m.dom().contains(c) <==> f.contains(c)
        &&& forall|c: char| #[trigger] m.dom().contains(c) ==> m[c] < v.len()
        &&& forall|c: char| #[trigger] m.dom().contains(c)
                ==> v[m[c] as int] == f.to_multiset().count(c)
        &&& forall|c1: char, c2: char| #![trigger m[c1], m[c2]]
                m.dom().contains(c1) && m.dom().contains(c2) && c1 != c2 ==> m[c1] != m[c2]
        &&& forall|j: int| 0 <= j < v.len() ==> #[trigger] slot_assigned(m, j)
    }
}

/// Builds the reusable fingerprint of a target word: one left-to-right scan
/// of the case-folded word, giving each newly seen character the next unused
/// slot and incrementing the slot's count on every occurrence.
pub fn precalc_letter_data(word: &str) -> (fp: Fingerprint)
    ensures
        fp.wf(),
        fp.word() == word@,
{
    let word_chars = chars_of(word);
    let folded = fold_case(word);
    let fchars = chars_of(folded.as_str());
    let ghost f = lower_of(word@);
    let mut index_map = LetterIndexMap::with_capacity(fchars.len());
    let mut counts = CountVec::new();
    let mut i: usize = 0;
    while i < fchars.len()
        invariant
            fchars@ == f,
            i <= fchars.len(),
            forall|c: char| #![trigger index_map_contents(index_map).dom().contains(c)]
                #![trigger f.take(i as int).contains(c)]
                index_map_contents(index_map).dom().contains(c) <==> f.take(i as int).contains(c),
            forall|c: char| #[trigger] index_map_contents(index_map).dom().contains(c)
                ==> index_map_contents(index_map)[c] < count_vec_contents(counts).len(),
            forall|c: char| #[trigger] index_map_contents(index_map).dom().contains(c)
                ==> count_vec_contents(counts)[index_map_contents(index_map)[c] as int]
                    == f.take(i as int).to_multiset().count(c),
            forall|c: char| #[trigger] index_map_contents(index_map).dom().contains(c)
                ==> count_vec_contents(counts)[index_map_contents(index_map)[c] as int] <= i,
            forall|c1: char, c2: char|
                #![trigger index_map_contents(index_map)[c1], index_map_contents(index_map)[c2]]
                index_map_contents(index_map).dom().contains(c1)
                    && index_map_contents(index_map).dom().contains(c2) && c1 != c2
                    ==> index_map_contents(index_map)[c1] != index_map_contents(index_map)[c2],
            forall|j: int| 0 <= j < count_vec_contents(counts).len()
                ==> #[trigger] slot_assigned(index_map_contents(index_map), j),
        decreases fchars.len() - i,
    {
        let ghost prefix = f.take(i as int);
        let ghost m0 = index_map_contents(index_map);
        let ghost v0 = count_vec_contents(counts);
        let ch = fchars[i];
        proof {
            assert(f.take(i + 1) =~= prefix.push(ch));
            assert(prefix.push(ch).to_multiset() =~= prefix.to_multiset().insert(ch));
        }
        match index_map.get(ch) {
            Some(slot) => {
                let cur = counts.get(slot);
                counts.set(slot, cur + 1);
                proof {
                    let v1 = count_vec_contents(counts);
                    assert forall|c: char| #[trigger] m0.dom().contains(c) implies
                        v1[m0[c] as int] == f.take(i + 1).to_multiset().count(c) by {
                        if c == ch {
                            assert(v1[m0[ch] as int] == cur + 1);
                        } else {
                            assert(m0[c] != m0[ch]);
                        }
                    }
                }
            },
            None => {
                let slot = counts.len();
                index_map.insert(ch, slot);
                counts.push(1);
                proof {
                    let m1 = index_map_contents(index_map);
                    let v1 = count_vec_contents(counts);
                    assert(!prefix.contains(ch));
                    assert(prefix.to_multiset().count(ch) == 0);
                    assert forall|c: char| #[trigger] m1.dom().contains(c) implies
                        m1[c] < v1.len()
                        && v1[m1[c] as int] == f.take(i + 1).to_multiset().count(c)
                        && v1[m1[c] as int] <= i + 1 by {
                        if c == ch {
                            assert(m1[ch] == slot);
                            assert(v1[slot as int] == 1);
                        } else {
                            assert(m0.dom().contains(c));
                            assert(m1[c] == m0[c]);
                            assert(m0[c] < v0.len());
                        }
                    }
                    assert forall|j: int| 0 <= j < v1.len() implies slot_assigned(m1, j) by {
                        if j == slot {
                            assert(m1.dom().contains(ch) && m1[ch] == j);
                        } else {
                            assert(slot_assigned(m0, j));
                            let c = choose|c: char| #[trigger] m0.dom().contains(c) && m0[c] == j;
                            assert(m1.dom().contains(c) && m1[c] == j);
                        }
                    }
                }
            },
        }
        i += 1;
    }
    proof {
        assert(f.take(fchars@.len() as int) =~= f);
    }
    Fingerprint {
        index_map,
        counts,
        word_len: word_chars.len(),
        folded_len: fchars.len(),
        word: Ghost(word@),
    }
}

/// Tests one candidate against a fingerprint: true exactly when the candidate
/// is an anagram of the fingerprint's target word. One pass over the folded
/// candidate decrements a private scratch copy of the counts; an absent
/// character or an exhausted slot rejects at once, and a post-scan check that
/// every slot reached zero completes the equality.
pub fn is_anagram(candidate: &str, fp: &Fingerprint) -> (r: bool)
    requires
        fp.wf(),
    ensures
        r == anagram_of(candidate@, fp.word()),
{
    let ghost f = lower_of(fp.word@);
    let ghost m = index_map_contents(fp.index_map);
    let cand_chars = chars_of(candidate);
    if cand_chars.len() != fp.word_len {
        return false;
    }
    let folded = fold_case(candidate);
    let fchars = chars_of(folded.as_str());
    let ghost c_seq = lower_of(candidate@);
    if fchars.len() != fp.folded_len {
        proof {
            assert(c_seq.to_multiset().len() == c_seq.len());
            assert(f.to_multiset().len() == f.len());
        }
        return false;
    }
    let mut scratch = fp.counts.duplicate();
    let mut i: usize = 0;
    while i < fchars.len()
        invariant
            fp.wf(),
            f == lower_of(fp.word@),
            m == index_map_contents(fp.index_map),
            c_seq == lower_of(candidate@),
            fchars@ == c_seq,
            c_seq.len() == f.len(),
            i <= fchars.len(),
            count_vec_contents(scratch).len() == count_vec_contents(fp.counts).len(),
            forall|c: char| #[trigger] m.dom().contains(c)
                ==> count_vec_contents(scratch)[m[c] as int]
                    + c_seq.take(i as int).to_multiset().count(c)
                    == f.to_multiset().count(c),
            forall|c: char| !m.dom().contains(c)
                ==> #[trigger] c_seq.take(i as int).to_multiset().count(c) == 0,
        decreases fchars.len() - i,
    {
        let ghost prefix = c_seq.take(i as int);
        let ch = fchars[i];
        proof {
            assert(c_seq.take(i + 1) =~= prefix.push(ch));
            assert(prefix.push(ch).to_multiset() =~= prefix.to_multiset().insert(ch));
            assert(c_seq =~= c_seq.take(i + 1) + c_seq.skip(i + 1));
            vstd::seq_lib::lemma_multiset_commutative(c_seq.take(i + 1), c_seq.skip(i + 1));
            assert(c_seq.to_multiset().count(ch) >= c_seq.take(i + 1).to_multiset().count(ch));
        }
        match fp.index_map.get(ch) {
            None => {
                proof {
                    assert(!f.contains(ch));
                    assert(f.to_multiset().count(ch) == 0);
                    assert(c_seq.take(i + 1).to_multiset().count(ch)
                        == prefix.to_multiset().count(ch) + 1);
                    assert(c_seq.to_multiset().count(ch) > 0);
                    assert(c_seq.to_multiset() != f.to_multiset());
                }
                return false;
            },
            Some(slot) => {
                let cur = scratch.get(slot);
                if cur == 0 {
                    proof {
                        assert(prefix.to_multiset().count(ch) == f.to_multiset().count(ch));
                        assert(c_seq.to_multiset().count(ch) > f.to_multiset().count(ch));
                        assert(c_seq.to_multiset() != f.to_multiset());
                    }
                    return false;
                }
                scratch.set(slot, cur - 1);
            },
        }
        i += 1;
    }
    proof {
        assert(c_seq.take(fchars@.len() as int) =~= c_seq);
    }
    let total = scratch.len();
    let mut j: usize = 0;
    while j < total
        invariant
            fp.wf(),
            f == lower_of(fp.word@),
            m == index_map_contents(fp.index_map),
            c_seq == lower_of(candidate@),
            c_seq.len() == f.len(),
            total == count_vec_contents(scratch).len(),
            count_vec_contents(scratch).len() == count_vec_contents(fp.counts).len(),
            j <= total,
            forall|c: char| #[trigger] m.dom().contains(c)
                ==> count_vec_contents(scratch)[m[c] as int] + c_seq.to_multiset().count(c)
                    == f.to_multiset().count(c),
            forall|c: char| !m.dom().contains(c)
                ==> #[trigger] c_seq.to_multiset().count(c) == 0,
            forall|k: int| 0 <= k < j ==> count_vec_contents(scratch)[k] == 0,
        decreases total - j,
    {
        if scratch.get(j) != 0 {
            proof {
                assert(slot_assigned(m, j as int));
                let c = choose|c: char| #[trigger] m.dom().contains(c) && m[c] == j as int;
                assert(m.dom().contains(c) && m[c] == j as int);
                assert(c_seq.to_multiset().count(c) != f.to_multiset().count(c));
            }
            return false;
        }
        j += 1;
    }
    proof {
        assert forall|c: char| c_seq.to_multiset().count(c) == f.to_multiset().count(c) by {
            if m.dom().contains(c) {
                assert(count_vec_contents(scratch)[m[c] as int] == 0);
            } else {
                assert(!f.contains(c));
                assert(f.to_multiset().count(c) == 0);
            }
        }
        assert(c_seq.to_multiset() =~= f.to_multiset());
    }
    true
}

/// Law: every word is an anagram of itself.
pub proof fn lemma_anagram_reflexive(w: Seq<char>)
    ensures
        anagram_of(w, w),
{
}

/// Law: anagram equality is symmetric: a fingerprint of `a` matches `b`
/// exactly when a fingerprint of `b` matches `a`.
pub proof fn lemma_anagram_symmetric(a: Seq<char>, b: Seq<char>)
    ensures
        anagram_of(a, b) == anagram_of(b, a),
{
}

/// Law: permutation invariance: any rearrangement of a word's characters
/// whose case-folded form keeps the same character multiset is an anagram of
/// the word.
pub proof fn lemma_permutation_matches(w: Seq<char>, p: Seq<char>)
    requires
        p.to_multiset() == w.to_multiset(),
        lower_of(p).to_multiset() == lower_of(w).to_multiset(),
    ensures
        anagram_of(p, w),
{
    assert(p.to_multiset().len() == p.len());
    assert(w.to_multiset().len() == w.len());
}

/// Law: a length mismatch always rejects.
pub proof fn lemma_length_mismatch_rejects(c: Seq<char>, w: Seq<char>)
    requires
        c.len() != w.len(),
    ensures
        !anagram_of(c, w),
{
}

/// Law: a candidate using a character the target never had is rejected.
pub proof fn lemma_unknown_char_rejects(c: Seq<char>, w: Seq<char>, ch: char)
    requires
        lower_of(c).contains(ch),
        !lower_of(w).contains(ch),
    ensures
        !anagram_of(c, w),
{
    assert(lower_of(c).to_multiset().count(ch) > 0);
    assert(lower_of(w).to_multiset().count(ch) == 0);
}

} // verus!
