//! Case-insensitive anagram search over a line-oriented word list.
//!
//! A target word is summarised once into a letter-frequency fingerprint: a
//! slot per distinct case-folded character, holding that character's
//! occurrence count. Each candidate line is then tested against the
//! fingerprint in time linear in its length. Two scanners apply the test
//! across a corpus and return the matches in encounter order: a sequential
//! one over lines already read, and a data-parallel one over the whole
//! corpus text.

pub(crate) mod storage;
pub mod anagram;
pub mod scan;
pub mod naive_finder;
pub mod parallel_finder;
pub mod args;
