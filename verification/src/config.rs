//! What a search is asked to do, as the command line and the environment say it.

use crate::search::{lines, lines_of, lines_with, select, texts};
use vstd::prelude::*;
use vstd::string::StringExecFns;

verus! {

/// A search: the string to look for, the name of the file to look in, and
/// whether letter case counts.
pub struct Config {
    pub search: String,
    pub filename: String,
    pub case_sensitive: bool,
}

/// Whether one of `names` is `CASE_INSENSITIVE`.
pub open spec fn asks_to_fold_case(names: Seq<String>) -> bool {
    exists|i: int| 0 <= i < names.len() && (#[trigger] names[i])@ == "CASE_INSENSITIVE"@
}

/// Whether one of `names` is `CASE_INSENSITIVE`.
fn names_ask_to_fold_case(names: &Vec<String>) -> (asked: bool)
    ensures
        asked == asks_to_fold_case(names@),
{
    let key = String::from_str("CASE_INSENSITIVE");
    let mut i: usize = 0;
    while i < names.len()
        invariant
            i <= names.len(),
            key@ == "CASE_INSENSITIVE"@,
            forall|j: int| 0 <= j < i ==> (#[trigger] names[j])@ != key@,
        decreases names.len() - i,
    {
        if names[i] == key {
            return true;
        }
        i = i + 1;
    }
    false
}

impl Config {
    /// Reads a search off the program's arguments `args`, the program's own
    /// name first, then the search string, then the file name; what follows
    /// is ignored. `names` are the names of the variables that the
    /// environment holds: letter case counts unless one of them is
    /// `CASE_INSENSITIVE`, whatever its value.
    pub fn new(args: &Vec<String>, names: &Vec<String>) -> (parsed: Result<Config, &'static str>)
        ensures
            args.len() < 2 ==> parsed == Err::<Config, &'static str>("Didn't get search string"),
            args.len() == 2 ==> parsed == Err::<Config, &'static str>("Didn't get filename"),
            args.len() > 2 ==> parsed == Ok::<Config, &'static str>(
                Config {
                    search: args[1],
                    filename: args[2],
                    case_sensitive: !asks_to_fold_case(names@),
                },
            ),
    {
        if args.len() < 2 {
            return Err("Didn't get search string");
        }
        if args.len() < 3 {
            return Err("Didn't get filename");
        }
        let case_sensitive = !names_ask_to_fold_case(names);
        Ok(Config { search: args[1].clone(), filename: args[2].clone(), case_sensitive })
    }
}

/// The lines of `contents` that the search `config` finds, in their order:
/// those in which its string occurs, letter case counting or not as it says.
pub fn run<'a>(config: &Config, contents: &'a str) -> (found: Vec<&'a str>)
    ensures
        texts(found@) == lines_with(lines_of(contents@), config.search@, !config.case_sensitive),
{
    let all = lines(contents);
    select(&all, config.search.as_str(), !config.case_sensitive)
}

} // verus!
