use lists::search::{contains, grep, grep_case_insensitive, lines, select};

const TEXTS: [&str; 16] = [
    "",
    "\n",
    "a",
    "a\n",
    "a\r\n",
    "a\r",
    "\r",
    "\r\n\r\n",
    "a\n\nb",
    "a\r\r\nb",
    "\n\n\n",
    "one\ntwo\r\nthree",
    "one\ntwo\r\nthree\n",
    "h\u{e9}llo w\u{f6}rld\n\u{1f600} smile\r\nlast",
    "tab\there\rnot a break\nnext",
    "Rust:\nsafe, fast, productive.\nPick three.\nTrust me.",
];

#[test]
fn one_result() {
    let search = "duct";
    let contents = "Rust:\nsafe, fast, productive.\nPick three.\nTrust me.";
    assert_eq!(vec!["safe, fast, productive."], grep(search, contents));
}

#[test]
fn case_insensitive() {
    let search = "rust";
    let contents = "Rust:\nsafe, fast, productive.\nPick three.\nTrust me.";

    assert_eq!(vec!["Rust:", "Trust me."], grep_case_insensitive(search, contents));
}

#[test]
fn lines_are_cut_at_line_feeds() {
    assert_eq!(lines(""), Vec::<&str>::new());
    assert_eq!(lines("\n"), vec![""]);
    assert_eq!(lines("a"), vec!["a"]);
    assert_eq!(lines("a\n"), vec!["a"]);
    assert_eq!(lines("a\nb"), vec!["a", "b"]);
    assert_eq!(lines("a\n\nb\n"), vec!["a", "", "b"]);
}

#[test]
fn lines_lose_one_carriage_return_before_a_line_feed() {
    assert_eq!(lines("a\r\nb"), vec!["a", "b"]);
    assert_eq!(lines("a\r\r\nb"), vec!["a\r", "b"]);
    assert_eq!(lines("a\rb\n"), vec!["a\rb"]);
    assert_eq!(lines("\r\n"), vec![""]);
    // No line feed, no line ending.
    assert_eq!(lines("a\r"), vec!["a\r"]);
    assert_eq!(lines("a\nb\r"), vec!["a", "b\r"]);
}

#[test]
fn lines_are_those_of_the_standard_library() {
    for text in TEXTS {
        let expected: Vec<&str> = text.lines().collect();
        assert_eq!(lines(text), expected, "lines of {:?}", text);
    }
}

#[test]
fn lines_are_slices_of_the_text() {
    let text = String::from("first\nsecond\r\nthird");
    let found = lines(&text);
    let start = text.as_ptr() as usize;
    let offsets: Vec<usize> = found.iter().map(|line| line.as_ptr() as usize - start).collect();
    assert_eq!(offsets, vec![0, 6, 14]);
}

#[test]
fn contains_finds_a_string_wherever_it_stands() {
    assert!(contains("hello", "hello"));
    assert!(contains("hello", "he"));
    assert!(contains("hello", "ell"));
    assert!(contains("hello", "lo"));
    assert!(contains("hello", "o"));
    assert!(contains("aaab", "aab"));
    assert!(contains("h\u{e9}llo", "\u{e9}l"));
}

#[test]
fn contains_finds_the_empty_string_everywhere() {
    assert!(contains("hello", ""));
    assert!(contains("", ""));
}

#[test]
fn contains_misses_what_is_not_there() {
    assert!(!contains("hello", "hello!"));
    assert!(!contains("hello", "hlo"));
    assert!(!contains("hello", "Hello"));
    assert!(!contains("", "a"));
    assert!(!contains("ab", "ba"));
    assert!(!contains("aaa", "aaaa"));
    assert!(!contains("hello", "\u{e9}"));
}

#[test]
fn contains_agrees_with_the_standard_library() {
    let needles = ["", "a", "\n", "\r", "e", "th", "three", "Rust", "rust", "t.", "\u{f6}r", "  "];
    for text in TEXTS {
        for needle in needles {
            assert_eq!(contains(text, needle), text.contains(needle), "{:?} in {:?}", needle, text);
        }
    }
}

#[test]
fn grep_keeps_the_order_of_the_lines() {
    let contents = "b1\na\nb2\r\nb1\nc b3";
    assert_eq!(grep("b", contents), vec!["b1", "b2", "b1", "c b3"]);
    assert_eq!(grep("b1", contents), vec!["b1", "b1"]);
    assert_eq!(grep("z", contents), Vec::<&str>::new());
}

#[test]
fn grep_for_the_empty_string_gives_every_line() {
    for text in TEXTS {
        let expected: Vec<&str> = text.lines().collect();
        assert_eq!(grep("", text), expected);
        assert_eq!(grep_case_insensitive("", text), expected);
    }
}

#[test]
fn grep_minds_letter_case() {
    let contents = "Rust:\nsafe, fast, productive.\nPick three.\nTrust me.";
    assert_eq!(grep("rust", contents), vec!["Trust me."]);
    assert_eq!(grep("Rust", contents), vec!["Rust:"]);
    assert_eq!(grep("RUST", contents), Vec::<&str>::new());
}

#[test]
fn grep_does_not_look_across_lines() {
    assert_eq!(grep("a\nb", "a\nb"), Vec::<&str>::new());
    assert_eq!(grep("ab", "a\nb"), Vec::<&str>::new());
    assert_eq!(grep("\r", "a\r\nb\rc"), vec!["b\rc"]);
}

#[test]
fn grep_agrees_with_a_filter_over_the_standard_lines() {
    let needles = ["", "a", "e", "th", "three", "Rust", "rust", "t.", "\u{f6}r", "o"];
    for text in TEXTS {
        for needle in needles {
            let expected: Vec<&str> = text.lines().filter(|line| line.contains(needle)).collect();
            assert_eq!(grep(needle, text), expected);
        }
    }
}

#[test]
fn case_insensitive_search_lowers_both_sides() {
    let contents = "Rust:\nsafe, fast, productive.\nPick three.\nTrust me.";
    assert_eq!(grep_case_insensitive("RUST", contents), vec!["Rust:", "Trust me."]);
    assert_eq!(grep_case_insensitive("rUsT", contents), vec!["Rust:", "Trust me."]);
    assert_eq!(grep_case_insensitive("PICK", contents), vec!["Pick three."]);
    assert_eq!(grep_case_insensitive("none", contents), Vec::<&str>::new());
}

#[test]
fn case_insensitive_search_gives_the_lines_as_they_were_written() {
    let contents = "\u{c4}RGER\nKein \u{e4}rger\nother";
    assert_eq!(grep_case_insensitive("\u{c4}rger", contents), vec!["\u{c4}RGER", "Kein \u{e4}rger"]);
    assert_eq!(grep("\u{c4}rger", contents), Vec::<&str>::new());
}

#[test]
fn case_insensitive_search_agrees_with_the_standard_library() {
    let needles = ["", "A", "E", "TH", "Three", "RUST", "rust", "T.", "\u{d6}R", "\u{130}"];
    let texts = ["\u{130}stanbul\nistanbul\nI\u{307}", "STRASSE\nstra\u{df}e\n\u{3a3}\u{3a3}"];
    for text in TEXTS.iter().chain(texts.iter()) {
        for needle in needles {
            let lowered = needle.to_lowercase();
            let expected: Vec<&str> =
                text.lines().filter(|line| line.to_lowercase().contains(&lowered)).collect();
            assert_eq!(grep_case_insensitive(needle, text), expected);
        }
    }
}

#[test]
fn select_picks_from_the_strings_it_is_given() {
    let given = vec!["Alpha", "beta\nALPHA", "", "alphabet"];
    assert_eq!(select(&given, "alpha", false), vec!["alphabet"]);
    assert_eq!(select(&given, "alpha", true), vec!["Alpha", "beta\nALPHA", "alphabet"]);
    assert_eq!(select(&given, "", false), given);
    assert_eq!(select(&Vec::new(), "", true), Vec::<&str>::new());
}
