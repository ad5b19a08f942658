use anagrams::args::parse_args;
use anagrams::naive_finder::find_anagrams;
use anagrams::parallel_finder::find_anagrams_parallel;

fn to_lines(text: &str) -> Vec<String> {
    text.lines().map(String::from).collect()
}

// The dictionary the original project scanned is not part of this crate, so
// a small in-memory word list stands in for it in the two tests below.
#[test]
fn naive_finder_it_works_on_actual_dictionary() {
    let dictionary = to_lines("Augeiase\ntall\nAugeiase tall\naias\nsaia");
    assert_eq!(find_anagrams("aGu isAEEtall", &dictionary), ["Augeiase tall"]);
}

#[test]
fn naive_finder_it_finds_multiple() {
    let dictionary = to_lines("ais\nasi\nisa\nsai\nother");
    assert_eq!(find_anagrams("aSi", &dictionary), ["ais", "asi", "isa", "sai"]);
}

#[test]
fn parallel_finder_it_works_on_actual_dictionary() {
    let contents = "Augeiase\ntall\nAugeiase tall\naias\nsaia";
    let result = find_anagrams_parallel("aGu isAEEtall", contents);
    assert_eq!(result, ["Augeiase tall"]);
}

#[test]
fn parallel_finder_it_finds_multiple() {
    let contents = "ais\nasi\nisa\nsai\nother";
    let result = find_anagrams_parallel("aSi", contents);
    assert_eq!(result, ["ais", "asi", "isa", "sai"]);
}

#[test]
fn scenario_foo_lines() {
    let lines = to_lines("bar\nfoo\nfo1\nofo");
    assert_eq!(find_anagrams("foo", &lines), ["foo", "ofo"]);
    assert_eq!(find_anagrams_parallel("foo", "bar\nfoo\nfo1\nofo"), ["foo", "ofo"]);
}

#[test]
fn scenario_mixed_case_order_preserved() {
    let lines = to_lines("ais\nasi\nisa\nsai\nother");
    assert_eq!(find_anagrams("aSi", &lines), ["ais", "asi", "isa", "sai"]);
}

#[test]
fn scenario_spaces_count() {
    let fp_with_space = anagrams::anagram::precalc_letter_data("foo ");
    assert!(anagrams::anagram::is_anagram(" ofo", &fp_with_space));
    let fp_plain = anagrams::anagram::precalc_letter_data("foo");
    assert!(!anagrams::anagram::is_anagram(" ofo", &fp_plain));
}

#[test]
fn strategies_agree() {
    let texts = [
        "",
        "foo",
        "bar\nfoo\nfo1\nofo",
        "ais\nasi\nisa\nsai\nother\n",
        "OFO\r\nfoo\r\nbar\r\n",
        "a\n\nofo\nfo o\n foo",
    ];
    for contents in texts {
        let sequential = find_anagrams("foo", &to_lines(contents));
        let parallel = find_anagrams_parallel("foo", contents);
        assert_eq!(sequential, parallel);
    }
}

#[test]
fn crlf_lines_are_chomped() {
    assert_eq!(find_anagrams_parallel("foo", "ofo\r\nbar\r\noof"), ["ofo", "oof"]);
}

#[test]
fn no_matches_yields_empty() {
    assert_eq!(find_anagrams("zzz", &to_lines("a\nb\nc")), Vec::<String>::new());
    assert_eq!(find_anagrams_parallel("zzz", "a\nb\nc"), Vec::<String>::new());
}

#[test]
fn parse_args_picks_word_path_and_flag() {
    let args: Vec<String> = vec![
        "prog".to_string(),
        "dict.txt".to_string(),
        "word".to_string(),
    ];
    let (word, path, buffered) = parse_args(&args);
    assert_eq!(word, "word");
    assert_eq!(path, "dict.txt");
    assert!(!buffered);

    let args_b: Vec<String> = vec![
        "prog".to_string(),
        "dict.txt".to_string(),
        "word".to_string(),
        "-b".to_string(),
    ];
    let (_, _, buffered_b) = parse_args(&args_b);
    assert!(buffered_b);

    let args_x: Vec<String> = vec![
        "prog".to_string(),
        "dict.txt".to_string(),
        "word".to_string(),
        "-x".to_string(),
    ];
    let (_, _, buffered_x) = parse_args(&args_x);
    assert!(!buffered_x);
}
