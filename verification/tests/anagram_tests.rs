use anagrams::anagram::is_anagram;
use anagrams::anagram::precalc_letter_data;

// The scanners keep one fingerprint across many candidates; this helper
// rebuilds it per pair to keep the cases below short.
fn check(word: &str, candidate: &str) -> bool {
    let fp = precalc_letter_data(word);
    is_anagram(candidate, &fp)
}

#[test]
fn it_validates_simple_anagrams() {
    assert_eq!(check("foo", "bar"), false);
    assert_eq!(check("foo", "foo"), true);
    assert_eq!(check("foo", "fo1"), false);
    assert_eq!(check("foo", "ofo"), true);
}

#[test]
fn it_works_with_spaces() {
    assert_eq!(check("foo", " ofo"), false);
    assert_eq!(check("foo ", " ofo"), true);
    assert_eq!(check("  ssdiaiisMneiga", "Mida iganes siis"), true);
    assert_eq!(check("aGu isAEEtall", "Augeiase tall"), true);
}

#[test]
fn it_is_case_insensitive() {
    assert_eq!(check("fOO", "oOF"), true);
}

#[test]
fn folds_case_before_comparing() {
    let fp = precalc_letter_data("Foo");
    assert!(is_anagram("oOF", &fp));
}

#[test]
fn every_word_matches_itself() {
    for word in ["", "a", "foo", "Augeiase tall", "šžõäöü", "12 34"] {
        let fp = precalc_letter_data(word);
        assert!(is_anagram(word, &fp));
    }
}

#[test]
fn permutations_match() {
    let fp = precalc_letter_data("listen");
    for candidate in ["silent", "enlist", "tinsel", "LISTEN", "nEtsil"] {
        assert!(is_anagram(candidate, &fp));
    }
}

#[test]
fn matching_is_symmetric() {
    let pairs = [
        ("Foo", "oOF"),
        ("listen", "silent"),
        ("foo", "bar"),
        ("foo", "fo1"),
        ("foo ", " ofo"),
        ("ab", "aab"),
    ];
    for (a, b) in pairs {
        assert_eq!(check(a, b), check(b, a));
    }
}

#[test]
fn length_mismatch_rejects() {
    assert_eq!(check("foo", "fo"), false);
    assert_eq!(check("foo", "fooo"), false);
    assert_eq!(check("", "a"), false);
    assert_eq!(check("a", ""), false);
}

#[test]
fn unknown_character_rejects() {
    assert_eq!(check("foo", "fo1"), false);
    assert_eq!(check("foo", "foz"), false);
    assert_eq!(check("abc", "xyz"), false);
}

#[test]
fn overused_character_rejects() {
    assert_eq!(check("fool", "foll"), false);
    assert_eq!(check("ab", "aa"), false);
}

#[test]
fn empty_word_matches_only_empty() {
    let fp = precalc_letter_data("");
    assert!(is_anagram("", &fp));
    assert!(!is_anagram("a", &fp));
    assert!(!is_anagram(" ", &fp));
}
