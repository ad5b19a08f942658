//! Command-line argument splitting.

use vstd::prelude::*;

verus! {

/// Splits the command line into (word, path, buffered): the word whose
/// anagrams are sought (second argument), the dictionary path (first
/// argument), and whether the buffered sequential scanner was asked for
/// (third argument equal to "-b"). The caller checks beforehand that both
/// arguments are present and non-empty, and aborts otherwise.
pub fn parse_args(args: &Vec<String>) -> (r: (String, String, bool))
    requires
        args@.len() > 2,
        args@[1]@.len() > 0,
        args@[2]@.len() > 0,
    ensures
        r.0@ == args@[2]@,
        r.1@ == args@[1]@,
        r.2 == (args@.len() > 3 && args@[3]@ == "-b"@),
{
    let path = args[1].clone();
    let word = args[2].clone();
    let flag = "-b".to_owned();
    let buffered = args.len() > 3 && args[3].eq(&flag);
    (word, path, buffered)
}

} // verus!
