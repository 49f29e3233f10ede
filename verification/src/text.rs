//! Text as a sequence of characters: white space, trimming, splitting, searching.
use std::borrow::Cow;
use vstd::prelude::*;
use vstd::slice::slice_subrange;

verus! {

/// Appending a character with [`String::push`] adds it behind the characters
/// that the string already holds and changes none of those.
pub assume_specification[ String::push ](string: &mut String, ch: char)
    ensures
        final(string)@ == old(string)@.push(ch),
;

/// The characters with the Unicode property `White_Space`.
pub open spec fn is_white_space(c: char) -> bool {
    ||| '\u{9}' <= c <= '\u{d}'
    ||| c == ' '
    ||| c == '\u{85}'
    ||| c == '\u{a0}'
    ||| c == '\u{1680}'
    ||| '\u{2000}' <= c <= '\u{200a}'
    ||| c == '\u{2028}'
    ||| c == '\u{2029}'
    ||| c == '\u{202f}'
    ||| c == '\u{205f}'
    ||| c == '\u{3000}'
}

/// Whether `c` is white space.
pub fn white_space(c: char) -> (res: bool)
    ensures
        res == is_white_space(c),
{
    ('\u{9}' <= c && c <= '\u{d}') || c == ' ' || c == '\u{85}' || c == '\u{a0}' || c == '\u{1680}'
        || ('\u{2000}' <= c && c <= '\u{200a}') || c == '\u{2028}' || c == '\u{2029}' || c
        == '\u{202f}' || c == '\u{205f}' || c == '\u{3000}'
}

/// `s` without the white space it starts with.
pub open spec fn trimmed_start(s: Seq<char>) -> Seq<char>
    decreases s.len(),
{
    if s.len() > 0 && is_white_space(s.first()) {
        trimmed_start(s.drop_first())
    } else {
        s
    }
}

/// `s` without the white space it ends with.
pub open spec fn trimmed_end(s: Seq<char>) -> Seq<char>
    decreases s.len(),
{
    if s.len() > 0 && is_white_space(s.last()) {
        trimmed_end(s.drop_last())
    } else {
        s
    }
}

/// `s` without the white space around it.
pub open spec fn trimmed(s: Seq<char>) -> Seq<char> {
    trimmed_end(trimmed_start(s))
}

/// Whether `s` is white space throughout.
pub open spec fn is_blank(s: Seq<char>) -> bool {
    forall|i: int| 0 <= i < s.len() ==> is_white_space(#[trigger] s[i])
}

/// `s` without the copies of `c` that it ends with.
pub open spec fn without_trailing(s: Seq<char>, c: char) -> Seq<char>
    decreases s.len(),
{
    if s.len() > 0 && s.last() == c {
        without_trailing(s.drop_last(), c)
    } else {
        s
    }
}

/// Whether `s` starts with `prefix`.
pub open spec fn starts_with(s: Seq<char>, prefix: Seq<char>) -> bool {
    prefix.len() <= s.len() && s.take(prefix.len() as int) == prefix
}

/// Whether `s` ends with `suffix`.
pub open spec fn ends_with(s: Seq<char>, suffix: Seq<char>) -> bool {
    suffix.len() <= s.len() && s.skip(s.len() - suffix.len()) == suffix
}

/// The pieces of `s` between the separators, every character of `separators`
/// being one. There is always one piece more than there are separators in `s`.
pub open spec fn pieces(s: Seq<char>, separators: Seq<char>) -> Seq<Seq<char>>
    decreases s.len(),
{
    if s.len() == 0 {
        seq![Seq::empty()]
    } else {
        let before = pieces(s.drop_last(), separators);
        if separators.contains(s.last()) {
            before.push(Seq::empty())
        } else {
            before.drop_last().push(before.last().push(s.last()))
        }
    }
}

/// What each of the pieces holds.
pub open spec fn contents(pieces: Seq<Vec<char>>) -> Seq<Seq<char>> {
    pieces.map_values(|piece: Vec<char>| piece@)
}

/// What each of the strings holds.
pub open spec fn texts(strings: Seq<String>) -> Seq<Seq<char>> {
    strings.map_values(|string: String| string@)
}

/// The characters of a string.
pub fn chars_of(s: &str) -> (res: Vec<char>)
    ensures
        res@ == s@,
{
    let mut res: Vec<char> = Vec::new();
    for c in it: s.chars()
        invariant
            it.seq() == s@,
            res@ == s@.take(it.index()),
    {
        res.push(c);
    }
    res
}

/// The string that holds the given characters.
pub fn string_of(chars: &[char]) -> (res: String)
    ensures
        res@ == chars@,
{
    let mut res = String::new();
    let mut i: usize = 0;
    while i < chars.len()
        invariant
            i <= chars.len(),
            res@ == chars@.take(i as int),
        decreases chars.len() - i,
    {
        res.push(chars[i]);
        i += 1;
    }
    res
}

/// Whether two strings hold the same characters.
pub fn same_text(a: &str, b: &str) -> (res: bool)
    ensures
        res == (a@ == b@),
{
    a.to_owned() == b.to_owned()
}

/// The text itself, copied where it is borrowed.
pub fn owned(text: Cow<'_, str>) -> (res: String)
    ensures
        res@ == text@,
{
    match text {
        Cow::Borrowed(text) => text.to_owned(),
        Cow::Owned(text) => text,
    }
}

/// Drops leading white space.
pub fn trim_start(chars: &[char]) -> (res: &[char])
    ensures
        res@ == trimmed_start(chars@),
{
    let mut i: usize = 0;
    assert(chars@.skip(0) == chars@);
    while i < chars.len() && white_space(chars[i])
        invariant
            i <= chars.len(),
            trimmed_start(chars@) == trimmed_start(chars@.skip(i as int)),
        decreases chars.len() - i,
    {
        assert(chars@.skip(i as int).drop_first() == chars@.skip(i + 1));
        i += 1;
    }
    assert(trimmed_start(chars@.skip(i as int)) == chars@.skip(i as int));
    slice_subrange(chars, i, chars.len())
}

/// Drops trailing white space.
pub fn trim_end(chars: &[char]) -> (res: &[char])
    ensures
        res@ == trimmed_end(chars@),
{
    let mut n: usize = chars.len();
    assert(chars@.take(n as int) == chars@);
    while n > 0 && white_space(chars[n - 1])
        invariant
            n <= chars.len(),
            trimmed_end(chars@) == trimmed_end(chars@.take(n as int)),
        decreases n,
    {
        assert(chars@.take(n as int).drop_last() == chars@.take(n - 1));
        n -= 1;
    }
    slice_subrange(chars, 0, n)
}

/// Drops the white space at both ends.
pub fn trim(chars: &[char]) -> (res: &[char])
    ensures
        res@ == trimmed(chars@),
{
    trim_end(trim_start(chars))
}

/// Drops every trailing copy of `c`.
pub fn trim_end_char(chars: &[char], c: char) -> (res: &[char])
    ensures
        res@ == without_trailing(chars@, c),
{
    let mut n: usize = chars.len();
    assert(chars@.take(n as int) == chars@);
    while n > 0 && chars[n - 1] == c
        invariant
            n <= chars.len(),
            without_trailing(chars@, c) == without_trailing(chars@.take(n as int), c),
        decreases n,
    {
        assert(chars@.take(n as int).drop_last() == chars@.take(n - 1));
        n -= 1;
    }
    slice_subrange(chars, 0, n)
}

/// Whether the characters of `a` from `at` on start with those of `b`.
pub fn matches_at(a: &[char], at: usize, b: &[char]) -> (res: bool)
    requires
        at <= a.len(),
    ensures
        res == starts_with(a@.skip(at as int), b@),
{
    if a.len() - at < b.len() {
        return false;
    }
    let mut i: usize = 0;
    while i < b.len()
        invariant
            at + b.len() <= a.len(),
            i <= b.len(),
            a@.skip(at as int).take(i as int) == b@.take(i as int),
        decreases b.len() - i,
    {
        if a[at + i] != b[i] {
            assert(a@.skip(at as int).take(b.len() as int)[i as int] != b@[i as int]);
            return false;
        }
        i += 1;
    }
    assert(b@.take(b.len() as int) == b@);
    true
}

/// Splits at every character that is one of `separators`.
pub fn split(chars: &[char], separators: &[char]) -> (res: Vec<Vec<char>>)
    ensures
        contents(res@) == pieces(chars@, separators@),
{
    let mut done: Vec<Vec<char>> = Vec::new();
    let mut current: Vec<char> = Vec::new();
    let mut i: usize = 0;
    proof {
        assert(contents(done@).push(current@) == pieces(chars@.take(0), separators@));
    }
    while i < chars.len()
        invariant
            i <= chars.len(),
            contents(done@).push(current@) == pieces(chars@.take(i as int), separators@),
        decreases chars.len() - i,
    {
        let ghost before = pieces(chars@.take(i as int), separators@);
        let ghost done_before = contents(done@);
        let ghost current_before = current@;
        proof {
            assert(chars@.take(i + 1).drop_last() == chars@.take(i as int));
            assert(before.drop_last() == done_before);
            assert(before.last() == current_before);
        }
        if member(separators, chars[i]) {
            done.push(current);
            current = Vec::new();
            assert(contents(done@) == done_before.push(current_before));
        } else {
            current.push(chars[i]);
        }
        i += 1;
    }
    let ghost done_before = contents(done@);
    let ghost last = current@;
    done.push(current);
    assert(contents(done@) == done_before.push(last));
    assert(chars@.take(i as int) == chars@);
    done
}

/// Whether `c` is among `chars`.
pub fn member(chars: &[char], c: char) -> (res: bool)
    ensures
        res == chars@.contains(c),
{
    let mut i: usize = 0;
    while i < chars.len()
        invariant
            i <= chars.len(),
            forall|j: int| 0 <= j < i ==> chars@[j] != c,
        decreases chars.len() - i,
    {
        if chars[i] == c {
            return true;
        }
        i += 1;
    }
    false
}

/// Where `pattern` stands first in `s` at or behind `from`, if it does.
pub open spec fn found_from(s: Seq<char>, pattern: Seq<char>, from: int) -> Option<int>
    decreases s.len() - from + 1,
{
    if from > s.len() {
        None
    } else if starts_with(s.skip(from), pattern) {
        Some(from)
    } else {
        found_from(s, pattern, from + 1)
    }
}

/// What stands before the first `pattern` in `s` and what stands behind it, if
/// `s` holds it.
pub open spec fn cut(s: Seq<char>, pattern: Seq<char>) -> Option<(Seq<char>, Seq<char>)> {
    match found_from(s, pattern, 0) {
        Some(at) => Some((s.take(at), s.skip(at + pattern.len()))),
        None => None,
    }
}

/// The first line of `s`, without its line feed or carriage return and line
/// feed, if `s` has a line.
pub open spec fn first_line(s: Seq<char>) -> Option<Seq<char>> {
    if s.len() == 0 {
        None
    } else {
        match cut(s, seq!['\n']) {
            Some((line, _)) => if line.len() > 0 && line.last() == '\r' {
                Some(line.drop_last())
            } else {
                Some(line)
            },
            None => Some(s),
        }
    }
}

/// Where a pattern stands first.
pub fn find(chars: &[char], pattern: &[char]) -> (res: Option<usize>)
    ensures
        res is Some <==> found_from(chars@, pattern@, 0) is Some,
        res matches Some(at) ==> {
            &&& found_from(chars@, pattern@, 0) == Some(at as int)
            &&& at + pattern.len() <= chars.len()
        },
{
    let mut i: usize = 0;
    while i < chars.len()
        invariant
            i <= chars.len(),
            found_from(chars@, pattern@, 0) == found_from(chars@, pattern@, i as int),
        decreases chars.len() - i,
    {
        if matches_at(chars, i, pattern) {
            return Some(i);
        }
        i += 1;
    }
    if matches_at(chars, i, pattern) {
        return Some(i);
    }
    assert(found_from(chars@, pattern@, chars.len() + 1) is None);
    None
}

/// Cuts at the first occurrence of a pattern.
pub fn cut_at<'a>(chars: &'a [char], pattern: &[char]) -> (res: Option<(&'a [char], &'a [char])>)
    ensures
        res is Some <==> cut(chars@, pattern@) is Some,
        res matches Some((before, behind)) ==> cut(chars@, pattern@) == Some((before@, behind@)),
{
    match find(chars, pattern) {
        Some(at) => Some(
            (
                slice_subrange(chars, 0, at),
                slice_subrange(chars, at + pattern.len(), chars.len()),
            ),
        ),
        None => None,
    }
}

/// The first line, if there is one.
pub fn first_line_of(chars: &[char]) -> (res: Option<&[char]>)
    ensures
        res is Some <==> first_line(chars@) is Some,
        res matches Some(line) ==> first_line(chars@) == Some(line@),
{
    if chars.len() == 0 {
        return None;
    }
    proof {
        assert(['\n']@ == seq!['\n']);
    }
    match cut_at(chars, &['\n']) {
        Some((line, _)) => if line.len() > 0 && line[line.len() - 1] == '\r' {
            Some(slice_subrange(line, 0, line.len() - 1))
        } else {
            Some(line)
        },
        None => Some(chars),
    }
}

/// What is left when trailing copies of `c` are dropped is a start of `s` that
/// does not end in `c`.
pub proof fn lemma_without_trailing(s: Seq<char>, c: char)
    ensures
        without_trailing(s, c).len() <= s.len(),
        without_trailing(s, c) == s.take(without_trailing(s, c).len() as int),
        without_trailing(s, c).len() > 0 ==> without_trailing(s, c).last() != c,
    decreases s.len(),
{
    if s.len() > 0 && s.last() == c {
        lemma_without_trailing(s.drop_last(), c);
        assert(s.take(without_trailing(s, c).len() as int) == s.drop_last().take(
            without_trailing(s, c).len() as int,
        ));
    } else {
        assert(s.take(s.len() as int) == s);
    }
}

} // verus!
