//! Searching a text for the lines that contain a string.
//!
//! A text is viewed as its sequence of characters. Its lines are the pieces
//! between line feeds; a line that a line feed ends loses one carriage return
//! before that line feed, if there is one, and the last line needs no line
//! feed to end it. A string occurs in a line if the line holds the string's
//! characters side by side and in order, so the empty string occurs in every
//! line.

use vstd::prelude::*;

verus! {

/// The position of the first line feed of `text` at or after `from`, or the
/// length of `text` if none follows.
pub open spec fn line_end(text: Seq<char>, from: int) -> int
    decreases text.len() - from,
{
    if from < 0 || from >= text.len() {
        text.len() as int
    } else if text[from] == '\n' {
        from
    } else {
        line_end(text, from + 1)
    }
}

/// A line ends at or after the position where it starts, and within the text.
pub proof fn lemma_line_end_bounds(text: Seq<char>, from: int)
    requires
        0 <= from <= text.len(),
    ensures
        from <= line_end(text, from) <= text.len(),
        line_end(text, from) < text.len() ==> text[line_end(text, from)] == '\n',
        forall|i: int| from <= i < line_end(text, from) ==> text[i] != '\n',
    decreases text.len() - from,
{
    if from < text.len() && text[from] != '\n' {
        lemma_line_end_bounds(text, from + 1);
    }
}

/// `line` without the carriage return at its end, if it ends in one.
pub open spec fn without_cr(line: Seq<char>) -> Seq<char> {
    if line.len() > 0 && line.last() == '\r' {
        line.drop_last()
    } else {
        line
    }
}

/// The lines of `text` that start at or after the position `from`, which is
/// the start of a line.
pub open spec fn lines_from(text: Seq<char>, from: int) -> Seq<Seq<char>>
    decreases text.len() - from,
{
    if from < 0 || from >= text.len() {
        Seq::empty()
    } else {
        let end = line_end(text, from);
        if end < text.len() {
            proof {
                lemma_line_end_bounds(text, from);
            }
            seq![without_cr(text.subrange(from, end))] + lines_from(text, end + 1)
        } else {
            seq![text.subrange(from, end)]
        }
    }
}

/// The lines of `text`, in order, without their line endings.
pub open spec fn lines_of(text: Seq<char>) -> Seq<Seq<char>> {
    lines_from(text, 0)
}

/// Whether `needle` stands in `hay` at the position `at`.
pub open spec fn occurs_at(needle: Seq<char>, hay: Seq<char>, at: int) -> bool {
    &&& 0 <= at
    &&& at + needle.len() <= hay.len()
    &&& hay.subrange(at, at + needle.len()) == needle
}

/// Whether `needle` stands somewhere in `hay`.
pub open spec fn occurs_in(needle: Seq<char>, hay: Seq<char>) -> bool {
    exists|at: int| occurs_at(needle, hay, at)
}

/// The characters of each of the strings `found`.
pub open spec fn texts(found: Seq<&str>) -> Seq<Seq<char>> {
    found.map_values(|s: &str| s@)
}

/// What `str::to_lowercase` makes of `text`: its lowercase form, as Unicode
/// defines it, which may be longer or shorter than `text`.
pub uninterp spec fn lowercase_of(text: Seq<char>) -> Seq<char>;

/// Whether `line` is a match for `needle`: whether `needle` occurs in
/// `line`, both taken as they are or, with `fold_case`, both in lowercase.
pub open spec fn is_match(needle: Seq<char>, line: Seq<char>, fold_case: bool) -> bool {
    if fold_case {
        occurs_in(lowercase_of(needle), lowercase_of(line))
    } else {
        occurs_in(needle, line)
    }
}

/// The lines among `lines` that are a match for `needle`, in their order.
pub open spec fn lines_with(lines: Seq<Seq<char>>, needle: Seq<char>, fold_case: bool) -> Seq<
    Seq<char>,
> {
    lines.filter(|line: Seq<char>| is_match(needle, line, fold_case))
}

/// The characters of `s`, in order.
fn chars_of(s: &str) -> (chars: Vec<char>)
    ensures
        chars@ == s@,
{
    let mut chars: Vec<char> = Vec::new();
    for c in it: s.chars()
        invariant
            it.seq() == s@,
            chars@ == s@.subrange(0, it.index() as int),
    {
        chars.push(c);
        proof {
            assert(chars@ =~= s@.subrange(0, it.index() + 1));
        }
    }
    proof {
        assert(chars@ =~= s@);
    }
    chars
}

/// The end of the line of `text` that starts at `from`.
fn find_line_end(text: &Vec<char>, from: usize) -> (end: usize)
    requires
        from <= text.len(),
    ensures
        end == line_end(text@, from as int),
        from <= end <= text.len(),
{
    let mut end: usize = from;
    while end < text.len() && text[end] != '\n'
        invariant
            from <= end <= text.len(),
            line_end(text@, from as int) == line_end(text@, end as int),
        decreases text.len() - end,
    {
        end = end + 1;
    }
    end
}

/// The part of `s` from the character at `from` up to the character at `to`,
/// cut out in one step where `plain` says that every character of `s` takes
/// one byte, and by counting characters from the start of `s` otherwise.
fn slice<'a>(s: &'a str, plain: bool, from: usize, to: usize) -> (part: &'a str)
    requires
        plain ==> s.is_ascii(),
        from <= to <= s@.len(),
    ensures
        part@ == s@.subrange(from as int, to as int),
{
    if plain {
        s.substring_ascii(from, to)
    } else {
        s.substring_char(from, to)
    }
}

/// The lines of `contents`, in order, each without its line ending.
pub fn lines<'a>(contents: &'a str) -> (found: Vec<&'a str>)
    ensures
        texts(found@) == lines_of(contents@),
{
    let text = chars_of(contents);
    let plain = contents.is_ascii();
    let mut found: Vec<&'a str> = Vec::new();
    let mut from: usize = 0;
    proof {
        assert(texts(found@) =~= Seq::empty());
        assert(texts(found@) + lines_from(text@, 0) =~= lines_of(text@));
    }
    while from < text.len()
        invariant
            text@ == contents@,
            plain ==> contents.is_ascii(),
            from <= text.len(),
            texts(found@) + lines_from(text@, from as int) == lines_of(text@),
        decreases text.len() - from,
    {
        let ghost before = found@;
        let end = find_line_end(&text, from);
        let stop = if end < text.len() && end > from && text[end - 1] == '\r' {
            end - 1
        } else {
            end
        };
        let next = if end < text.len() {
            end + 1
        } else {
            end
        };
        let line = slice(contents, plain, from, stop);
        found.push(line);
        proof {
            assert(texts(found@) =~= texts(before) + seq![line@]);
            if end < text.len() {
                if end > from {
                    assert(text@.subrange(from as int, end as int).drop_last() =~= text@.subrange(
                        from as int,
                        end - 1,
                    ));
                }
                assert(line@ == without_cr(text@.subrange(from as int, end as int)));
            } else {
                assert(lines_from(text@, next as int) =~= Seq::empty());
            }
            assert(lines_from(text@, from as int) =~= seq![line@] + lines_from(
                text@,
                next as int,
            ));
            assert(texts(found@) + lines_from(text@, next as int) =~= texts(before) + lines_from(
                text@,
                from as int,
            ));
        }
        from = next;
    }
    proof {
        assert(texts(found@) + Seq::<Seq<char>>::empty() =~= texts(found@));
    }
    found
}

/// Whether `needle` stands in `hay` at the position `at`.
fn stands_at(needle: &Vec<char>, hay: &Vec<char>, at: usize) -> (found: bool)
    requires
        at + needle.len() <= hay.len(),
    ensures
        found == occurs_at(needle@, hay@, at as int),
{
    let mut k: usize = 0;
    while k < needle.len()
        invariant
            k <= needle.len(),
            at + needle.len() <= hay.len(),
            forall|j: int| 0 <= j < k ==> hay@[at + j] == needle@[j],
        decreases needle.len() - k,
    {
        if hay[at + k] != needle[k] {
            proof {
                assert(hay@.subrange(at as int, at + needle.len())[k as int] != needle@[k as int]);
            }
            return false;
        }
        k = k + 1;
    }
    proof {
        assert(hay@.subrange(at as int, at + needle.len()) =~= needle@);
    }
    true
}

/// Whether `needle` stands somewhere in `hay`.
fn stands_in(needle: &Vec<char>, hay: &Vec<char>) -> (found: bool)
    ensures
        found == occurs_in(needle@, hay@),
{
    if needle.len() == 0 {
        proof {
            assert(hay@.subrange(0, 0) =~= needle@);
            assert(occurs_at(needle@, hay@, 0));
        }
        return true;
    }
    if needle.len() > hay.len() {
        return false;
    }
    let last: usize = hay.len() - needle.len();
    let mut at: usize = 0;
    while at <= last
        invariant
            0 < needle.len() <= hay.len(),
            last == hay.len() - needle.len(),
            at <= last + 1,
            forall|i: int| 0 <= i < at ==> !occurs_at(needle@, hay@, i),
        decreases last + 1 - at,
    {
        if stands_at(needle, hay, at) {
            return true;
        }
        at = at + 1;
    }
    false
}

/// Whether `needle` occurs in `haystack`.
pub fn contains(haystack: &str, needle: &str) -> (found: bool)
    ensures
        found == occurs_in(needle@, haystack@),
{
    let hay = chars_of(haystack);
    let needle = chars_of(needle);
    stands_in(&needle, &hay)
}

/// `str::to_lowercase`: the lowercase form of `s` as a new string. The
/// contract gives that form a name and claims no more of it than that the
/// same characters always give the same form.
#[verifier::external_body]
fn lowercase(s: &str) -> (lowered: String)
    ensures
        lowered@ == lowercase_of(s@),
{
    s.to_lowercase()
}

/// The characters that a search compares: those of `s`, in lowercase if
/// `fold_case` is set.
fn compared(s: &str, fold_case: bool) -> (chars: Vec<char>)
    ensures
        chars@ == if fold_case {
            lowercase_of(s@)
        } else {
            s@
        },
{
    if fold_case {
        let lowered = lowercase(s);
        chars_of(lowered.as_str())
    } else {
        chars_of(s)
    }
}

/// The strings among `lines` that are a match for `search`, in their order.
pub fn select<'a>(lines: &Vec<&'a str>, search: &str, fold_case: bool) -> (found: Vec<&'a str>)
    ensures
        texts(found@) == lines_with(texts(lines@), search@, fold_case),
{
    let needle = compared(search, fold_case);
    let mut found: Vec<&'a str> = Vec::new();
    let mut i: usize = 0;
    proof {
        assert(texts(lines@).take(0) =~= Seq::empty());
        assert(texts(found@) =~= Seq::empty());
        reveal_with_fuel(Seq::filter, 1);
    }
    while i < lines.len()
        invariant
            i <= lines.len(),
            needle@ == if fold_case {
                lowercase_of(search@)
            } else {
                search@
            },
            texts(found@) == lines_with(texts(lines@).take(i as int), search@, fold_case),
        decreases lines.len() - i,
    {
        let ghost before = found@;
        let line: &'a str = lines[i];
        let hay = compared(line, fold_case);
        let keep = stands_in(&needle, &hay);
        if keep {
            found.push(line);
        }
        proof {
            let upto = texts(lines@).take(i + 1);
            assert(upto.drop_last() =~= texts(lines@).take(i as int));
            assert(upto.last() == line@);
            if keep {
                assert(texts(found@) =~= texts(before).push(line@));
            }
            reveal_with_fuel(Seq::filter, 2);
        }
        i = i + 1;
    }
    proof {
        assert(texts(lines@).take(lines.len() as int) =~= texts(lines@));
    }
    found
}

/// The lines of `contents` in which `search` occurs, in their order.
pub fn grep<'a>(search: &str, contents: &'a str) -> (found: Vec<&'a str>)
    ensures
        texts(found@) == lines_with(lines_of(contents@), search@, false),
{
    let all = lines(contents);
    select(&all, search, false)
}

/// The lines of `contents` in which `search` occurs when letter case is set
/// aside, in their order: those whose lowercase form holds the lowercase
/// form of `search`.
pub fn grep_case_insensitive<'a>(search: &str, contents: &'a str) -> (found: Vec<&'a str>)
    ensures
        texts(found@) == lines_with(lines_of(contents@), search@, true),
{
    let all = lines(contents);
    select(&all, search, true)
}

} // verus!
