//! What cutting and trimming text comes to, whatever the text.
use crate::number;
use crate::text;
use vstd::prelude::*;

verus! {

/// These twenty-five characters are white space, and no others.
pub proof fn law_white_space_is_these_characters(c: char)
    ensures
        text::is_white_space(c) <==> match c {
            '\t' | '\n' | '\u{b}' | '\u{c}' | '\r' | ' ' => true,
            '\u{85}' | '\u{a0}' | '\u{1680}' => true,
            '\u{2000}' | '\u{2001}' | '\u{2002}' | '\u{2003}' | '\u{2004}' | '\u{2005}' => true,
            '\u{2006}' | '\u{2007}' | '\u{2008}' | '\u{2009}' | '\u{200a}' => true,
            '\u{2028}' | '\u{2029}' | '\u{202f}' | '\u{205f}' | '\u{3000}' => true,
            _ => false,
        },
{
}

/// Splitting a text that is joined of two with a separator between gives the
/// pieces of the one and behind them the pieces of the other.
pub proof fn law_pieces_of_joined_texts(
    head: Seq<char>,
    separator: char,
    tail: Seq<char>,
    separators: Seq<char>,
)
    requires
        separators.contains(separator),
    ensures
        text::pieces(head.push(separator) + tail, separators) == text::pieces(head, separators)
            + text::pieces(tail, separators),
    decreases tail.len(),
{
    let whole = head.push(separator) + tail;
    if tail.len() == 0 {
        assert(whole == head.push(separator));
        assert(whole.drop_last() == head);
        assert(text::pieces(tail, separators) == seq![Seq::<char>::empty()]);
        assert(text::pieces(whole, separators) == text::pieces(head, separators)
            + seq![Seq::<char>::empty()]);
    } else {
        law_pieces_of_joined_texts(head, separator, tail.drop_last(), separators);
        lemma_pieces_nonempty(tail.drop_last(), separators);
        assert(whole.drop_last() == head.push(separator) + tail.drop_last());
        assert(whole.last() == tail.last());
        let first = text::pieces(head, separators);
        let before = text::pieces(tail.drop_last(), separators);
        assert((first + before).last() == before.last());
        assert((first + before).drop_last() == first + before.drop_last());
        assert(text::pieces(whole, separators) == first + text::pieces(tail, separators));
    }
}

pub(crate) proof fn lemma_pieces_nonempty(s: Seq<char>, separators: Seq<char>)
    ensures
        text::pieces(s, separators).len() > 0,
    decreases s.len(),
{
    if s.len() > 0 {
        lemma_pieces_nonempty(s.drop_last(), separators);
    }
}

/// A text that holds no separator is its own single piece.
pub proof fn law_text_without_separator_is_one_piece(s: Seq<char>, separators: Seq<char>)
    requires
        forall|i: int| 0 <= i < s.len() ==> !separators.contains(#[trigger] s[i]),
    ensures
        text::pieces(s, separators) == seq![s],
    decreases s.len(),
{
    if s.len() > 0 {
        assert forall|i: int| 0 <= i < s.drop_last().len() implies !separators.contains(
            #[trigger] s.drop_last()[i],
        ) by {
            assert(s.drop_last()[i] == s[i]);
        }
        law_text_without_separator_is_one_piece(s.drop_last(), separators);
        assert(s.drop_last().push(s.last()) == s);
        assert(!separators.contains(s[s.len() - 1]));
    } else {
        assert(s == Seq::<char>::empty());
    }
}

proof fn lemma_trimmed_start_push(s: Seq<char>, c: char)
    ensures
        text::trimmed_start(s).len() > 0 ==> text::trimmed_start(s.push(c)) == text::trimmed_start(
            s,
        ).push(c),
        text::trimmed_start(s).len() == 0 && text::is_white_space(c) ==> text::trimmed_start(
            s.push(c),
        ).len() == 0,
        text::trimmed_start(s).len() == 0 && !text::is_white_space(c) ==> text::trimmed_start(
            s.push(c),
        ) == seq![c],
    decreases s.len(),
{
    if s.len() == 0 {
        assert(s.push(c).first() == c);
        assert(s.push(c).drop_first() == Seq::<char>::empty());
        assert(text::trimmed_start(Seq::<char>::empty()) == Seq::<char>::empty());
        assert(s.push(c) == seq![c]);
    } else {
        assert(s.push(c).first() == s.first());
        assert(s.push(c).drop_first() == s.drop_first().push(c));
        if text::is_white_space(s.first()) {
            lemma_trimmed_start_push(s.drop_first(), c);
        }
    }
}

/// White space before or behind a text is trimmed away.
pub proof fn law_outer_white_space_is_trimmed(s: Seq<char>, c: char)
    requires
        text::is_white_space(c),
    ensures
        text::trimmed(seq![c] + s) == text::trimmed(s),
        text::trimmed(s.push(c)) == text::trimmed(s),
        text::trimmed_start(seq![c] + s) == text::trimmed_start(s),
        text::trimmed_end(s.push(c)) == text::trimmed_end(s),
{
    assert((seq![c] + s).first() == c);
    assert((seq![c] + s).drop_first() == s);
    assert(s.push(c).drop_last() == s);
    lemma_trimmed_start_push(s, c);
    let start = text::trimmed_start(s);
    if start.len() > 0 {
        assert(start.push(c).drop_last() == start);
    } else {
        assert(text::trimmed_start(s.push(c)) == start);
    }
}

/// Nothing is trimmed off a text that starts and ends with other characters.
pub proof fn law_inner_text_is_not_trimmed(s: Seq<char>)
    requires
        s.len() > 0 ==> !text::is_white_space(s.first()) && !text::is_white_space(s.last()),
    ensures
        text::trimmed(s) == s,
        text::trimmed_start(s) == s,
        text::trimmed_end(s) == s,
{
}

/// Trailing copies of a character are dropped, however many there are, and
/// nothing else is.
pub proof fn law_trailing_copies_are_dropped(s: Seq<char>, c: char, n: nat)
    requires
        s.len() > 0 ==> s.last() != c,
    ensures
        text::without_trailing(s + Seq::new(n, |i: int| c), c) == s,
    decreases n,
{
    let whole = s + Seq::new(n, |i: int| c);
    if n > 0 {
        law_trailing_copies_are_dropped(s, c, (n - 1) as nat);
        assert(whole.last() == c);
        assert(whole.drop_last() == s + Seq::new((n - 1) as nat, |i: int| c));
    } else {
        assert(whole == s);
    }
}

proof fn lemma_found_from(s: Seq<char>, pattern: Seq<char>, from: int)
    requires
        0 <= from,
    ensures
        match text::found_from(s, pattern, from) {
            Some(at) => {
                &&& from <= at
                &&& at + pattern.len() <= s.len()
                &&& s.subrange(at, at + pattern.len()) == pattern
                &&& forall|i: int|
                    from <= i < at && i + pattern.len() <= s.len() ==> #[trigger] s.subrange(
                        i,
                        i + pattern.len(),
                    ) != pattern
            },
            None => forall|i: int|
                from <= i && i + pattern.len() <= s.len() ==> #[trigger] s.subrange(
                    i,
                    i + pattern.len(),
                ) != pattern,
        },
    decreases s.len() - from + 1,
{
    if from <= s.len() {
        if from + pattern.len() <= s.len() {
            assert(s.skip(from).take(pattern.len() as int) == s.subrange(
                from,
                from + pattern.len(),
            ));
        }
        if !text::starts_with(s.skip(from), pattern) {
            lemma_found_from(s, pattern, from + 1);
        }
    }
}

/// A text is cut around the first place where the pattern stands, and only if
/// there is one: the parts and the pattern between them make up the text.
pub proof fn law_text_is_cut_at_the_first_pattern(s: Seq<char>, pattern: Seq<char>)
    ensures
        match text::cut(s, pattern) {
            Some((before, behind)) => {
                &&& s == before + pattern + behind
                &&& forall|i: int|
                    0 <= i < before.len() ==> #[trigger] s.subrange(i, i + pattern.len()) != pattern
            },
            None => forall|i: int|
                0 <= i && i + pattern.len() <= s.len() ==> #[trigger] s.subrange(
                    i,
                    i + pattern.len(),
                ) != pattern,
        },
{
    lemma_found_from(s, pattern, 0);
    match text::cut(s, pattern) {
        Some((before, behind)) => {
            let at = before.len() as int;
            assert(s == s.take(at) + s.subrange(at, at + pattern.len()) + s.skip(
                at + pattern.len(),
            ));
        },
        None => {},
    }
}

/// A text that holds the pattern nowhere before its end is cut at that end.
pub proof fn law_cut_gives_what_was_joined(before: Seq<char>, pattern: Seq<char>, behind: Seq<char>)
    requires
        forall|i: int|
            0 <= i < before.len() ==> #[trigger] (before + pattern + behind).subrange(
                i,
                i + pattern.len(),
            ) != pattern,
    ensures
        text::cut(before + pattern + behind, pattern) == Some((before, behind)),
{
    let s = before + pattern + behind;
    let n = before.len() as int;
    lemma_found_from(s, pattern, 0);
    assert(s.subrange(n, n + pattern.len()) == pattern);
    let at = text::found_from(s, pattern, 0)->0;
    if at < n {
        assert(s.subrange(at, at + pattern.len()) != pattern);
    }
    assert(s.take(n) == before);
    assert(s.skip(n + pattern.len()) == behind);
}

/// The first line ends at the first line feed, of which a carriage return before
/// it is part.
pub proof fn law_first_line_ends_at_line_feed(line: Seq<char>, rest: Seq<char>)
    requires
        forall|i: int| 0 <= i < line.len() ==> #[trigger] line[i] != '\n',
    ensures
        line.len() > 0 ==> text::first_line(line) == Some(line),
        line.len() == 0 || line.last() != '\r' ==> text::first_line(line.push('\n') + rest) == Some(
            line,
        ),
        text::first_line(line.push('\r').push('\n') + rest) == Some(line),
        text::first_line(Seq::empty()) is None,
{
    let feed = seq!['\n'];
    if line.len() > 0 {
        lemma_found_from(line, feed, 0);
        if let Some(at) = text::found_from(line, feed, 0) {
            assert(line.subrange(at, at + 1)[0] == line[at]);
        }
    }
    let plain = line.push('\n') + rest;
    assert(plain == line + feed + rest);
    assert forall|i: int| 0 <= i < line.len() implies #[trigger] (line + feed + rest).subrange(
        i,
        i + feed.len(),
    ) != feed by {
        assert((line + feed + rest).subrange(i, i + 1)[0] == line[i]);
    }
    law_cut_gives_what_was_joined(line, feed, rest);
    let returned = line.push('\r');
    let whole = line.push('\r').push('\n') + rest;
    assert(whole == returned + feed + rest);
    assert forall|i: int| 0 <= i < returned.len() implies #[trigger] (returned + feed
        + rest).subrange(i, i + feed.len()) != feed by {
        assert((returned + feed + rest).subrange(i, i + 1)[0] == returned[i]);
    }
    law_cut_gives_what_was_joined(returned, feed, rest);
    assert(returned.drop_last() == line);
}

// Numbers

/// The decimal notation of a number is that of its tens followed by the digit of
/// its ones.
pub proof fn law_decimal_is_written_digit_by_digit(n: nat, d: nat)
    requires
        d < 10,
    ensures
        number::decimal(d) == seq!["0123456789"@[d as int]],
        n > 0 ==> number::decimal(n * 10 + d) == number::decimal(n).push("0123456789"@[d as int]),
{
    reveal_strlit("0123456789");
    assert(number::digit(d as int) == "0123456789"@[d as int]);
    if n > 0 {
        assert((n * 10 + d) / 10 == n);
        assert((n * 10 + d) % 10 == d);
    }
}

/// A run of digits with one more digit behind it stands for ten times the number
/// and that digit, as long as that is not too large.
pub proof fn law_number_is_read_digit_by_digit(s: Seq<char>, d: nat, max: nat)
    requires
        d < 10,
    ensures
        number::parsed(seq!["0123456789"@[d as int]], max) == (if d <= max {
            Some(d)
        } else {
            None
        }),
        number::parsed(s, max) matches Some(n) ==> number::parsed(
            s.push("0123456789"@[d as int]),
            max,
        ) == (if n * 10 + d <= max {
            Some(n * 10 + d)
        } else {
            None::<nat>
        }),
{
    reveal_strlit("0123456789");
    let c = "0123456789"@[d as int];
    assert(c as nat == 48 + d);
    assert(number::is_digit(c));
    assert(seq![c].drop_last() == Seq::<char>::empty());
    assert(number::digits_value(Seq::<char>::empty()) == 0);
    assert(number::digits_value(seq![c]) == d);
    assert(number::without_sign(seq![c]) == seq![c]);
    if number::parsed(s, max) is Some {
        let digits = number::without_sign(s);
        assert(s.push(c).first() == s.first());
        if s.first() == '+' {
            assert(s.push(c).drop_first() == s.drop_first().push(c));
        }
        assert(number::without_sign(s.push(c)) == digits.push(c));
        assert(digits.push(c).drop_last() == digits);
        assert forall|i: int| 0 <= i < digits.push(c).len() implies number::is_digit(
            #[trigger] digits.push(c)[i],
        ) by {
            if i < digits.len() {
                assert(digits.push(c)[i] == digits[i]);
            }
        }
    }
}

/// What is no run of digits with at most one plus sign before it is no number.
pub proof fn law_other_text_is_no_number(s: Seq<char>, max: nat)
    requires
        s.len() == 0 || s == seq!['+'] || exists|i: int|
            0 <= i < s.len() && !('0' <= #[trigger] s[i] <= '9') && (i > 0 || s[i] != '+'),
    ensures
        number::parsed(s, max) is None,
{
    if s.len() > 0 && s != seq!['+'] {
        let i = choose|i: int|
            0 <= i < s.len() && !('0' <= #[trigger] s[i] <= '9') && (i > 0 || s[i] != '+');
        if s.first() == '+' {
            assert(s.drop_first()[i - 1] == s[i]);
            assert(!number::is_digit(s.drop_first()[i - 1]));
        } else {
            assert(!number::is_digit(s[i]));
        }
    } else if s.len() > 0 {
        assert(s.drop_first().len() == 0);
    }
}

/// A plus sign before a run of digits changes nothing.
pub proof fn law_plus_sign_changes_nothing(s: Seq<char>, max: nat)
    requires
        s.len() > 0,
        s.first() != '+',
    ensures
        number::parsed(seq!['+'] + s, max) == number::parsed(s, max),
{
    assert((seq!['+'] + s).first() == '+');
    assert((seq!['+'] + s).drop_first() == s);
}

/// What cannot be read as a number, or is too large, does not become one by what
/// stands behind it.
pub proof fn law_unreadable_number_stays_unreadable(s: Seq<char>, c: char, max: nat)
    requires
        s.len() > 0,
        s != seq!['+'],
        number::parsed(s, max) is None,
    ensures
        number::parsed(s.push(c), max) is None,
{
    let digits = number::without_sign(s);
    assert(s.push(c).first() == s.first());
    if s.first() == '+' {
        assert(s.push(c).drop_first() == s.drop_first().push(c));
        if s.len() == 1 {
            assert(s == seq!['+']);
        }
    }
    assert(number::without_sign(s.push(c)) == digits.push(c));
    assert(digits.push(c).drop_last() == digits);
    if number::is_digits(digits.push(c)) {
        assert forall|i: int| 0 <= i < digits.len() implies number::is_digit(
            #[trigger] digits[i],
        ) by {
            assert(digits[i] == digits.push(c)[i]);
        }
    }
}

} // verus!
