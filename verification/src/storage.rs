//! Trusted views of the two outside containers the fingerprint is made of:
//! hashbrown's hash map (character -> slot) and smallvec's vector (slot ->
//! count). Verus sees each container only through an uninterpreted contents
//! function and the operations below.

use vstd::prelude::*;

verus! {

/// Slot assignment for each distinct case-folded character of the target.
/// The map itself is hashbrown's; its contents are visible to proofs only
/// through [`index_map_contents`].
#[verifier::external_body]
pub struct LetterIndexMap {
    map: hashbrown::HashMap<char, usize>,
}

/// What a [`LetterIndexMap`] holds: its key-value pairs as a mathematical map.
pub uninterp spec fn index_map_contents(m: LetterIndexMap) -> Map<char, usize>;

impl LetterIndexMap {
    /// Relies on hashbrown's `HashMap::with_capacity`: a fresh map holds nothing.
    #[verifier::external_body]
    pub fn with_capacity(cap: usize) -> (r: LetterIndexMap)
        ensures
            index_map_contents(r) =~= Map::empty(),
    {
        LetterIndexMap { map: hashbrown::HashMap::with_capacity(cap) }
    }

    /// Relies on hashbrown's `HashMap::insert`: afterwards the key maps to
    /// the value and every other key is as before.
    #[verifier::external_body]
    pub fn insert(&mut self, key: char, value: usize)
        ensures
            index_map_contents(*final(self)) == index_map_contents(*old(self)).insert(key, value),
    {
        self.map.insert(key, value);
    }

    /// Relies on hashbrown's `HashMap::get`: the value stored under the key,
    /// or `None` where the key is absent.
    #[verifier::external_body]
    pub fn get(&self, key: char) -> (r: Option<usize>)
        ensures
            r is Some <==> index_map_contents(*self).dom().contains(key),
            r is Some ==> r == Some(index_map_contents(*self)[key]),
    {
        self.map.get(&key).copied()
    }
}

/// Occurrence count per slot. The vector itself is smallvec's (inline up to
/// 32 slots); its contents are visible to proofs only through
/// [`count_vec_contents`].
#[verifier::external_body]
pub struct CountVec {
    counts: smallvec::SmallVec<[usize; 32]>,
}

/// What a [`CountVec`] holds: its entries, in slot order.
pub uninterp spec fn count_vec_contents(v: CountVec) -> Seq<usize>;

impl CountVec {
    /// Relies on smallvec's `SmallVec::new`: a fresh vector holds nothing.
    #[verifier::external_body]
    pub fn new() -> (r: CountVec)
        ensures
            count_vec_contents(r) =~= Seq::empty(),
    {
        CountVec { counts: smallvec::SmallVec::new() }
    }

    /// Relies on smallvec's `SmallVec::push`: the entry is appended.
    #[verifier::external_body]
    pub fn push(&mut self, value: usize)
        ensures
            count_vec_contents(*final(self)) == count_vec_contents(*old(self)).push(value),
    {
        self.counts.push(value);
    }

    /// Relies on smallvec's `SmallVec::len`.
    #[verifier::external_body]
    pub fn len(&self) -> (r: usize)
        ensures
            r == count_vec_contents(*self).len(),
    {
        self.counts.len()
    }

    /// Relies on smallvec's `Index` impl: the entry at the slot.
    #[verifier::external_body]
    pub fn get(&self, slot: usize) -> (r: usize)
        requires
            slot < count_vec_contents(*self).len(),
        ensures
            r == count_vec_contents(*self)[slot as int],
    {
        self.counts[slot]
    }

    /// Relies on smallvec's `IndexMut` impl: the entry at the slot is
    /// replaced and every other entry is as before.
    #[verifier::external_body]
    pub fn set(&mut self, slot: usize, value: usize)
        requires
            slot < count_vec_contents(*old(self)).len(),
        ensures
            count_vec_contents(*final(self))
                == count_vec_contents(*old(self)).update(slot as int, value),
    {
        self.counts[slot] = value;
    }

    /// Relies on smallvec's `Clone` impl: the copy holds the same entries.
    #[verifier::external_body]
    pub fn duplicate(&self) -> (r: CountVec)
        ensures
            count_vec_contents(r) == count_vec_contents(*self),
    {
        CountVec { counts: self.counts.clone() }
    }
}

} // verus!
