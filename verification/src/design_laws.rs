//! What becomes of instructions and of the text they come with, whatever they
//! are.
use crate::text;
use crate::text_laws;
use crate::voice_design;
use vstd::prelude::*;

verus! {

/// Whether `c` is neither white space nor a parenthesis nor a comma.
pub open spec fn is_solid(c: char) -> bool {
    !text::is_white_space(c) && c != '(' && c != ')' && c != ','
}

/// The characters of `s` that are neither white space nor a parenthesis nor a
/// comma.
pub open spec fn solids(s: Seq<char>) -> Seq<char> {
    s.filter(|c: char| !text::is_white_space(c) && c != '(' && c != ')' && c != ',')
}

spec fn start() -> (Seq<char>, bool) {
    (Seq::empty(), false)
}

proof fn lemma_solids_push(s: Seq<char>, c: char)
    ensures
        solids(s.push(c)) == if is_solid(c) {
            solids(s).push(c)
        } else {
            solids(s)
        },
{
    reveal(Seq::filter);
    assert(s.push(c).drop_last() == s);
}

proof fn lemma_solids_taken(s: Seq<char>)
    ensures
        solids(voice_design::taken_all(start(), s).0) == solids(s),
    decreases s.len(),
{
    reveal(Seq::filter);
    if s.len() > 0 {
        let head = s.drop_last();
        let c = s.last();
        lemma_solids_taken(head);
        assert(head.push(c) == s);
        lemma_solids_push(head, c);
        let out = voice_design::taken_all(start(), head).0;
        lemma_solids_push(out, ',');
        lemma_solids_push(out, ' ');
        lemma_solids_push(out, c);
        lemma_solids_push(out.push(' '), c);
    }
}

proof fn lemma_solids_without_trailing(s: Seq<char>)
    ensures
        solids(text::without_trailing(s, ',')) == solids(s),
    decreases s.len(),
{
    if s.len() > 0 && s.last() == ',' {
        lemma_solids_without_trailing(s.drop_last());
        assert(s.drop_last().push(',') == s);
        lemma_solids_push(s.drop_last(), ',');
    }
}

/// Nothing of the instructions is lost or reordered: white space, parentheses
/// and commas aside, the clause holds what they hold.
pub proof fn law_nothing_is_lost(instructions: Seq<char>)
    ensures
        voice_design::flattened(instructions).filter(
            |c: char| !text::is_white_space(c) && c != '(' && c != ')' && c != ',',
        ) == instructions.filter(
            |c: char| !text::is_white_space(c) && c != '(' && c != ')' && c != ',',
        ),
{
    voice_design::lemma_taken_all_is_flattened(instructions);
    lemma_solids_taken(instructions);
    lemma_solids_without_trailing(voice_design::taken_all(start(), instructions).0);
}

proof fn lemma_taken_all_concat(so_far: (Seq<char>, bool), a: Seq<char>, b: Seq<char>)
    ensures
        voice_design::taken_all(so_far, a + b) == voice_design::taken_all(
            voice_design::taken_all(so_far, a),
            b,
        ),
    decreases b.len(),
{
    if b.len() == 0 {
        assert(a + b == a);
    } else {
        lemma_taken_all_concat(so_far, a, b.drop_last());
        assert((a + b).drop_last() == a + b.drop_last());
        assert((a + b).last() == b.last());
    }
}

proof fn lemma_taken_all_push(so_far: (Seq<char>, bool), a: Seq<char>, c: char)
    ensures
        voice_design::taken_all(so_far, a.push(c)) == voice_design::taken(
            voice_design::taken_all(so_far, a),
            c,
        ),
{
    assert(a.push(c).drop_last() == a);
}

/// Taking in goes on behind a text as it does without it, once something is
/// there.
proof fn lemma_taken_behind(before: Seq<char>, so_far: (Seq<char>, bool), s: Seq<char>)
    requires
        so_far.0.len() > 0,
    ensures
        ({
            let alone = voice_design::taken_all(so_far, s);
            &&& alone.0.len() > 0
            &&& voice_design::taken_all((before + so_far.0, so_far.1), s) == (
                before + alone.0,
                alone.1,
            )
        }),
    decreases s.len(),
{
    if s.len() > 0 {
        let c = s.last();
        lemma_taken_behind(before, so_far, s.drop_last());
        let alone = voice_design::taken_all(so_far, s.drop_last());
        assert((before + alone.0).last() == alone.0.last());
        assert((before + alone.0).push(',') == before + alone.0.push(','));
        assert((before + alone.0).push(c) == before + alone.0.push(c));
        assert((before + alone.0).push(' ').push(c) == before + alone.0.push(' ').push(c));
    }
}

/// A text that ends in a solid character leaves a clause that ends in it, and
/// nothing is owed.
proof fn lemma_taken_solid_end(so_far: (Seq<char>, bool), s: Seq<char>)
    requires
        s.len() > 0,
        is_solid(s.last()),
    ensures
        ({
            let done = voice_design::taken_all(so_far, s);
            &&& done.0.len() > 0
            &&& done.0.last() == s.last()
            &&& !done.1
            &&& text::without_trailing(done.0, ',') == done.0
        }),
{
}

proof fn lemma_taken_first(so_far: (Seq<char>, bool), s: Seq<char>)
    requires
        s.len() > 0,
    ensures
        voice_design::taken_all(so_far, s) == voice_design::taken_all(
            voice_design::taken(so_far, s.first()),
            s.drop_first(),
        ),
{
    assert(seq![s.first()] + s.drop_first() == s);
    lemma_taken_all_concat(so_far, seq![s.first()], s.drop_first());
    assert(seq![s.first()] == Seq::<char>::empty().push(s.first()));
    lemma_taken_all_push(so_far, Seq::empty(), s.first());
}

/// What a text adds to a clause, `joint` standing between where the text starts
/// with a word.
proof fn lemma_taken_joined(out: Seq<char>, owed: bool, tail: Seq<char>, joint: Seq<char>)
    requires
        tail.len() > 0,
        !text::is_white_space(tail.first()),
        !voice_design::is_parenthesis(tail.first()),
        joint == if owed {
            seq![' ']
        } else {
            Seq::empty()
        },
    ensures
        voice_design::taken_all((out, owed), tail).0 == out + joint + voice_design::taken_all(
            start(),
            tail,
        ).0,
{
    let c = tail.first();
    let rest = tail.drop_first();
    lemma_taken_first((out, owed), tail);
    lemma_taken_first(start(), tail);
    assert(Seq::<char>::empty().push(c) == seq![c]);
    lemma_taken_behind(out + joint, (seq![c], false), rest);
    assert(out.push(' ').push(c) == out + seq![' '] + seq![c]);
    assert(out.push(c) == out + Seq::<char>::empty() + seq![c]);
}

proof fn lemma_taken_flattens(s: Seq<char>)
    requires
        s.len() > 0,
        is_solid(s.last()),
    ensures
        voice_design::flattened(s) == voice_design::taken_all(start(), s).0,
{
    voice_design::lemma_taken_all_is_flattened(s);
    lemma_taken_solid_end(start(), s);
}

/// Lines become a comma list: where a line ends between two parts of the
/// instructions, a comma and a space stand between what becomes of them.
pub proof fn law_lines_become_a_comma_list(head: Seq<char>, line_break: char, tail: Seq<char>)
    requires
        line_break == '\n' || line_break == '\r',
        head.len() > 0,
        is_solid(head.last()),
        tail.len() > 0,
        is_solid(tail.first()) || tail.first() == ',',
        is_solid(tail.last()),
    ensures
        voice_design::flattened(head.push(line_break) + tail) == voice_design::flattened(head)
            + seq![',', ' '] + voice_design::flattened(tail),
{
    let whole = head.push(line_break) + tail;
    assert(whole.last() == tail.last());
    lemma_taken_flattens(head);
    lemma_taken_flattens(tail);
    lemma_taken_flattens(whole);
    let out = voice_design::taken_all(start(), head).0;
    lemma_taken_solid_end(start(), head);
    lemma_taken_all_concat(start(), head.push(line_break), tail);
    lemma_taken_all_push(start(), head, line_break);
    assert(voice_design::line_breaks()[0] == '\n' && voice_design::line_breaks()[1] == '\r');
    assert(voice_design::taken_all(start(), head.push(line_break)) == (out.push(','), true));
    lemma_taken_joined(out.push(','), true, tail, seq![' ']);
    assert(out.push(',') + seq![' '] == out + seq![',', ' ']);
}

/// Words stay apart: where white space other than the end of a line stands
/// between two parts of the instructions, a space stands between what becomes of
/// them.
pub proof fn law_words_stay_apart(head: Seq<char>, white: char, tail: Seq<char>)
    requires
        text::is_white_space(white),
        white != '\n' && white != '\r',
        head.len() > 0,
        is_solid(head.last()),
        tail.len() > 0,
        is_solid(tail.first()) || tail.first() == ',',
        is_solid(tail.last()),
    ensures
        voice_design::flattened(head.push(white) + tail) == voice_design::flattened(head).push(' ')
            + voice_design::flattened(tail),
{
    let whole = head.push(white) + tail;
    assert(whole.last() == tail.last());
    lemma_taken_flattens(head);
    lemma_taken_flattens(tail);
    lemma_taken_flattens(whole);
    let out = voice_design::taken_all(start(), head).0;
    lemma_taken_solid_end(start(), head);
    lemma_taken_all_concat(start(), head.push(white), tail);
    lemma_taken_all_push(start(), head, white);
    lemma_taken_joined(out, true, tail, seq![' ']);
    assert(out + seq![' '] == out.push(' '));
}

/// Words stay together: where nothing stands between two parts of the
/// instructions, nothing stands between what becomes of them.
pub proof fn law_words_stay_together(head: Seq<char>, tail: Seq<char>)
    requires
        head.len() > 0,
        is_solid(head.last()),
        tail.len() > 0,
        is_solid(tail.first()) || tail.first() == ',',
        is_solid(tail.last()),
    ensures
        voice_design::flattened(head + tail) == voice_design::flattened(head)
            + voice_design::flattened(tail),
{
    let whole = head + tail;
    assert(whole.last() == tail.last());
    lemma_taken_flattens(head);
    lemma_taken_flattens(tail);
    lemma_taken_flattens(whole);
    let out = voice_design::taken_all(start(), head).0;
    lemma_taken_solid_end(start(), head);
    lemma_taken_all_concat(start(), head, tail);
    lemma_taken_joined(out, false, tail, Seq::empty());
    assert(out + Seq::<char>::empty() == out);
}

/// Whether `s` is a clause as it should be: no parenthesis, of white space only
/// single spaces between words, and no comma at the end.
pub open spec fn is_clean(s: Seq<char>) -> bool {
    &&& s.len() > 0
    &&& s.first() != ' '
    &&& s.last() != ' '
    &&& s.last() != ','
    &&& forall|i: int| 0 <= i < s.len() ==> #[trigger] s[i] != '(' && s[i] != ')'
    &&& forall|i: int| 0 <= i < s.len() && text::is_white_space(#[trigger] s[i]) ==> s[i] == ' '
    &&& forall|i: int| 0 < i < s.len() && #[trigger] s[i] == ' ' ==> s[i - 1] != ' '
}

proof fn lemma_clean_taken(s: Seq<char>, n: int)
    requires
        is_clean(s),
        0 < n <= s.len(),
    ensures
        voice_design::taken_all(start(), s.take(n)) == if s[n - 1] == ' ' {
            (s.take(n - 1), true)
        } else {
            (s.take(n), false)
        },
    decreases n,
{
    let c = s[n - 1];
    assert(s.take(n).drop_last() == s.take(n - 1));
    assert(s.take(n).last() == c);
    assert(text::is_white_space(' '));
    assert(s.take(n) == s.take(n - 1).push(c));
    assert(voice_design::line_breaks()[0] == '\n' && voice_design::line_breaks()[1] == '\r');
    assert(!voice_design::line_breaks().contains(' '));
    if n > 1 {
        lemma_clean_taken(s, n - 1);
        if s[n - 2] == ' ' {
            assert(s.take(n - 1) == s.take(n - 2).push(' '));
        }
    } else {
        assert(s.take(0) == Seq::<char>::empty());
        assert(voice_design::taken_all(start(), s.take(0)) == start());
        assert(s.first() == s[0]);
    }
}

/// A clause that is as it should be is left as it is, whatever its length, and so
/// it is with any number of commas behind it.
pub proof fn law_clean_clause_is_kept(clause: Seq<char>, commas: nat)
    requires
        is_clean(clause),
    ensures
        voice_design::flattened(clause + Seq::new(commas, |i: int| ',')) == clause,
{
    lemma_clean_taken(clause, clause.len() as int);
    assert(clause.take(clause.len() as int) == clause);
    let tail = Seq::new(commas, |i: int| ',');
    voice_design::lemma_taken_all_is_flattened(clause + tail);
    lemma_taken_all_concat(start(), clause, tail);
    lemma_commas_taken(clause, commas);
    text_laws::law_trailing_copies_are_dropped(clause, ',', commas);
}

proof fn lemma_commas_taken(out: Seq<char>, commas: nat)
    ensures
        voice_design::taken_all((out, false), Seq::new(commas, |i: int| ',')) == (
            out + Seq::new(commas, |i: int| ','),
            false,
        ),
    decreases commas,
{
    let tail = Seq::new(commas, |i: int| ',');
    if commas > 0 {
        let fewer = Seq::new((commas - 1) as nat, |i: int| ',');
        lemma_commas_taken(out, (commas - 1) as nat);
        assert(tail.drop_last() == fewer);
        assert((out + fewer).push(',') == out + tail);
    } else {
        assert(out + tail == out);
    }
}

/// White space and parentheses around the instructions make no difference.
pub proof fn law_outer_white_space_makes_no_difference(instructions: Seq<char>, c: char)
    requires
        text::is_white_space(c) || c == '(' || c == ')',
    ensures
        voice_design::flattened(seq![c] + instructions) == voice_design::flattened(instructions),
        voice_design::flattened(instructions.push(c)) == voice_design::flattened(instructions),
{
    let before = seq![c] + instructions;
    voice_design::lemma_taken_all_is_flattened(instructions);
    voice_design::lemma_taken_all_is_flattened(before);
    voice_design::lemma_taken_all_is_flattened(instructions.push(c));
    lemma_taken_first(start(), before);
    assert(before.drop_first() == instructions);
    lemma_taken_all_push(start(), instructions, c);
    let out = voice_design::taken_all(start(), instructions).0;
    assert(out.push(',').drop_last() == out);
}

/// White space within a line counts once, of whatever kind it is and however
/// much of it there is.
pub proof fn law_white_space_counts_once(
    head: Seq<char>,
    first: char,
    second: char,
    tail: Seq<char>,
)
    requires
        text::is_white_space(first),
        first != '\n' && first != '\r',
        text::is_white_space(second),
        second != '\n' && second != '\r',
    ensures
        voice_design::flattened(head.push(first) + tail) == voice_design::flattened(
            head.push(' ') + tail,
        ),
        voice_design::flattened(head.push(first).push(second) + tail) == voice_design::flattened(
            head.push(' ') + tail,
        ),
{
    lemma_taken_all_push(start(), head, first);
    lemma_taken_all_push(start(), head, ' ');
    lemma_taken_all_push(start(), head.push(first), second);
    lemma_taken_all_concat(start(), head.push(first), tail);
    lemma_taken_all_concat(start(), head.push(' '), tail);
    lemma_taken_all_concat(start(), head.push(first).push(second), tail);
    voice_design::lemma_taken_all_is_flattened(head.push(first) + tail);
    voice_design::lemma_taken_all_is_flattened(head.push(' ') + tail);
    voice_design::lemma_taken_all_is_flattened(head.push(first).push(second) + tail);
}

/// The end of a line counts once, of either kind and however much white space
/// stands around it.
pub proof fn law_line_end_counts_once(
    head: Seq<char>,
    line_break: char,
    white: char,
    tail: Seq<char>,
)
    requires
        line_break == '\n' || line_break == '\r',
        text::is_white_space(white),
    ensures
        voice_design::flattened(head.push(line_break) + tail) == voice_design::flattened(
            head.push('\n') + tail,
        ),
        voice_design::flattened(head.push(line_break).push(white) + tail)
            == voice_design::flattened(head.push('\n') + tail),
        voice_design::flattened(head.push(white).push(line_break) + tail)
            == voice_design::flattened(head.push('\n') + tail),
{
    assert(voice_design::line_breaks()[0] == '\n' && voice_design::line_breaks()[1] == '\r');
    lemma_taken_all_push(start(), head, line_break);
    lemma_taken_all_push(start(), head, '\n');
    lemma_taken_all_push(start(), head, white);
    lemma_taken_all_push(start(), head.push(line_break), white);
    lemma_taken_all_push(start(), head.push(white), line_break);
    lemma_taken_all_concat(start(), head.push(line_break), tail);
    lemma_taken_all_concat(start(), head.push('\n'), tail);
    lemma_taken_all_concat(start(), head.push(line_break).push(white), tail);
    lemma_taken_all_concat(start(), head.push(white).push(line_break), tail);
    voice_design::lemma_taken_all_is_flattened(head.push(line_break) + tail);
    voice_design::lemma_taken_all_is_flattened(head.push('\n') + tail);
    voice_design::lemma_taken_all_is_flattened(head.push(line_break).push(white) + tail);
    voice_design::lemma_taken_all_is_flattened(head.push(white).push(line_break) + tail);
}

/// A comma at the end of a line is the one that the line ends with in the list.
pub proof fn law_comma_at_line_end_counts_once(head: Seq<char>, line_break: char, tail: Seq<char>)
    requires
        line_break == '\n' || line_break == '\r',
        head.len() > 0,
        is_solid(head.last()),
    ensures
        voice_design::flattened(head.push(',').push(line_break) + tail)
            == voice_design::flattened(head.push(line_break) + tail),
{
    assert(voice_design::line_breaks()[0] == '\n' && voice_design::line_breaks()[1] == '\r');
    lemma_taken_solid_end(start(), head);
    lemma_taken_all_push(start(), head, ',');
    lemma_taken_all_push(start(), head, line_break);
    lemma_taken_all_push(start(), head.push(','), line_break);
    lemma_taken_all_concat(start(), head.push(',').push(line_break), tail);
    lemma_taken_all_concat(start(), head.push(line_break), tail);
    voice_design::lemma_taken_all_is_flattened(head.push(',').push(line_break) + tail);
    voice_design::lemma_taken_all_is_flattened(head.push(line_break) + tail);
}

/// A parenthesis makes no difference, wherever it stands.
pub proof fn law_parentheses_make_no_difference(head: Seq<char>, c: char, tail: Seq<char>)
    requires
        c == '(' || c == ')',
    ensures
        voice_design::flattened(head.push(c) + tail) == voice_design::flattened(head + tail),
{
    lemma_taken_all_push(start(), head, c);
    lemma_taken_all_concat(start(), head.push(c), tail);
    lemma_taken_all_concat(start(), head, tail);
    voice_design::lemma_taken_all_is_flattened(head.push(c) + tail);
    voice_design::lemma_taken_all_is_flattened(head + tail);
}

// The text that instructions come with

proof fn lemma_starts_behind_white_space(s: Seq<char>, k: int)
    requires
        0 <= k < s.len(),
        !text::is_white_space(s[k]),
        forall|j: int| 0 <= j < k ==> text::is_white_space(#[trigger] s[j]),
    ensures
        text::trimmed_start(s) == s.skip(k),
    decreases k,
{
    if k > 0 {
        assert(text::is_white_space(s[0]));
        let rest = s.drop_first();
        assert forall|j: int| 0 <= j < k - 1 implies text::is_white_space(#[trigger] rest[j]) by {
            assert(rest[j] == s[j + 1]);
        }
        lemma_starts_behind_white_space(rest, k - 1);
        assert(rest.skip(k - 1) == s.skip(k));
    } else {
        assert(s.skip(0) == s);
    }
}

proof fn lemma_blank_start(s: Seq<char>)
    requires
        forall|j: int| 0 <= j < s.len() ==> text::is_white_space(#[trigger] s[j]),
    ensures
        text::trimmed_start(s).len() == 0,
    decreases s.len(),
{
    if s.len() > 0 {
        let rest = s.drop_first();
        assert forall|j: int| 0 <= j < rest.len() implies text::is_white_space(
            #[trigger] rest[j],
        ) by {
            assert(rest[j] == s[j + 1]);
        }
        lemma_blank_start(rest);
    }
}

proof fn lemma_first_of_text(s: Seq<char>) -> (k: int)
    ensures
        0 <= k <= s.len(),
        forall|j: int| 0 <= j < k ==> text::is_white_space(#[trigger] s[j]),
        k < s.len() ==> !text::is_white_space(s[k]),
    decreases s.len(),
{
    if s.len() > 0 && text::is_white_space(s[0]) {
        let rest = s.drop_first();
        let k = lemma_first_of_text(rest);
        assert forall|j: int| 0 <= j < k + 1 implies text::is_white_space(#[trigger] s[j]) by {
            if j > 0 {
                assert(s[j] == rest[j - 1]);
            }
        }
        assert(k < rest.len() ==> s[k + 1] == rest[k]);
        k + 1
    } else {
        0
    }
}

/// Whether the first character of `s` that is no white space opens a parenthesis.
pub open spec fn opens_parenthesis(s: Seq<char>) -> bool {
    exists|k: int|
        0 <= k < s.len() && #[trigger] s[k] == '(' && forall|j: int|
            0 <= j < k ==> text::is_white_space(#[trigger] s[j])
}

proof fn lemma_has_design(s: Seq<char>)
    ensures
        voice_design::has_design(s) <==> opens_parenthesis(s),
{
    let k = lemma_first_of_text(s);
    assert(!text::is_white_space('('));
    if k < s.len() {
        lemma_starts_behind_white_space(s, k);
        assert(s.skip(k).take(1)[0] == s[k]);
        if s[k] == '(' {
            assert(s.skip(k).take(1) == seq!['(']);
        } else if opens_parenthesis(s) {
            let other = choose|k: int|
                0 <= k < s.len() && #[trigger] s[k] == '(' && forall|j: int|
                    0 <= j < k ==> text::is_white_space(#[trigger] s[j]);
            if other > k {
                assert(text::is_white_space(s[k]));
            } else if other < k {
                assert(text::is_white_space(s[other]));
            }
        }
    } else {
        lemma_blank_start(s);
        if opens_parenthesis(s) {
            let other = choose|k: int|
                0 <= k < s.len() && #[trigger] s[k] == '(' && forall|j: int|
                    0 <= j < k ==> text::is_white_space(#[trigger] s[j]);
            assert(text::is_white_space(s[other]));
        }
    }
}

proof fn lemma_solids_of_solid(s: Seq<char>, i: int)
    requires
        0 <= i < s.len(),
        is_solid(s[i]),
    ensures
        solids(s).len() > 0,
    decreases s.len(),
{
    assert(s.drop_last().push(s.last()) == s);
    lemma_solids_push(s.drop_last(), s.last());
    if i < s.len() - 1 {
        assert(s.drop_last()[i] == s[i]);
        lemma_solids_of_solid(s.drop_last(), i);
    }
}

/// Instructions that say something are applied to every text that does not
/// already open with a parenthesis: the clause stands before it in parentheses.
pub proof fn law_design_is_applied(text: Seq<char>, instructions: Seq<char>)
    requires
        !opens_parenthesis(text),
        exists|i: int| 0 <= i < instructions.len() && is_solid(#[trigger] instructions[i]),
    ensures
        voice_design::flattened(instructions).len() > 0,
        voice_design::designed(text, Some(instructions), true) == seq!['(']
            + voice_design::flattened(instructions) + seq![')'] + text,
{
    let i = choose|i: int| 0 <= i < instructions.len() && is_solid(#[trigger] instructions[i]);
    lemma_has_design(text);
    lemma_solids_of_solid(instructions, i);
    law_nothing_is_lost(instructions);
    if voice_design::flattened(instructions).len() == 0 {
        reveal(Seq::filter);
        assert(solids(voice_design::flattened(instructions)).len() == 0);
    }
}

/// A text that opens with a parenthesis is left as it is, and so is every text
/// where voice design is off or there are no instructions.
pub proof fn law_design_is_not_applied(text: Seq<char>, instructions: Option<Seq<char>>)
    ensures
        opens_parenthesis(text) ==> voice_design::designed(text, instructions, true) == text,
        voice_design::designed(text, instructions, false) == text,
        voice_design::designed(text, None, true) == text,
{
    lemma_has_design(text);
}

/// A clause that is not empty goes before every text that does not open with a
/// parenthesis.
pub proof fn law_every_clause_is_applied(text: Seq<char>, instructions: Seq<char>)
    requires
        !opens_parenthesis(text),
        voice_design::flattened(instructions).len() > 0,
    ensures
        voice_design::designed(text, Some(instructions), true) == seq!['(']
            + voice_design::flattened(instructions) + seq![')'] + text,
{
    lemma_has_design(text);
}

/// Instructions that hold nothing but white space and parentheses leave the text
/// as it is, and so do those that hold nothing but commas.
pub proof fn law_empty_design_is_not_applied(
    text: Seq<char>,
    instructions: Seq<char>,
    commas: nat,
    enabled: bool,
)
    requires
        forall|i: int|
            0 <= i < instructions.len() ==> text::is_white_space(#[trigger] instructions[i])
                || instructions[i] == '(' || instructions[i] == ')',
    ensures
        voice_design::designed(text, Some(instructions), enabled) == text,
        voice_design::designed(text, Some(Seq::new(commas, |i: int| ',')), enabled) == text,
{
    lemma_empty_design(instructions);
    let tail = Seq::new(commas, |i: int| ',');
    let none = Seq::<char>::empty();
    voice_design::lemma_taken_all_is_flattened(tail);
    lemma_commas_taken(none, commas);
    text_laws::law_trailing_copies_are_dropped(none, ',', commas);
}

proof fn lemma_empty_design(instructions: Seq<char>)
    requires
        forall|i: int|
            0 <= i < instructions.len() ==> text::is_white_space(#[trigger] instructions[i])
                || instructions[i] == '(' || instructions[i] == ')',
    ensures
        voice_design::flattened(instructions).len() == 0,
    decreases instructions.len(),
{
    if instructions.len() == 0 {
        voice_design::lemma_taken_all_is_flattened(instructions);
    } else {
        let before = instructions.drop_last();
        lemma_empty_design(before);
        law_outer_white_space_makes_no_difference(before, instructions.last());
        assert(before.push(instructions.last()) == instructions);
    }
}

// Field labels

proof fn lemma_line_block_concat(a: Seq<Seq<char>>, b: Seq<Seq<char>>)
    requires
        a.len() > 0,
        b.len() > 0,
    ensures
        voice_design::line_block(a + b) == voice_design::line_block(a).push('\n')
            + voice_design::line_block(b),
    decreases b.len(),
{
    let whole = a + b;
    assert(whole.drop_last() == a + b.drop_last());
    assert(whole.last() == b.last());
    let head = voice_design::line_block(a).push('\n');
    if b.len() == 1 {
        assert(a + b.drop_last() == a);
        assert(b.last() == b[0]);
    } else {
        lemma_line_block_concat(a, b.drop_last());
        let inner = voice_design::line_block(b.drop_last());
        assert((head + inner).push('\n') + b.last() == head + (inner.push('\n') + b.last()));
    }
}

/// Labels are stripped line by line: what becomes of a line does not depend on
/// the others, and no line is lost.
pub proof fn law_labels_are_stripped_line_by_line(
    head: Seq<char>,
    line_break: char,
    tail: Seq<char>,
)
    requires
        line_break == '\n' || line_break == '\r',
    ensures
        voice_design::unlabelled(head.push(line_break) + tail) == voice_design::unlabelled(head).push(
            '\n',
        ) + voice_design::unlabelled(tail),
{
    let breaks = voice_design::line_breaks();
    assert(breaks[0] == '\n' && breaks[1] == '\r');
    text_laws::law_pieces_of_joined_texts(head, line_break, tail, breaks);
    text_laws::lemma_pieces_nonempty(head, breaks);
    text_laws::lemma_pieces_nonempty(tail, breaks);
    let first = text::pieces(head, breaks).map_values(
        |line: Seq<char>| voice_design::direction(line),
    );
    let second = text::pieces(tail, breaks).map_values(
        |line: Seq<char>| voice_design::direction(line),
    );
    let whole = text::pieces(head.push(line_break) + tail, breaks).map_values(
        |line: Seq<char>| voice_design::direction(line),
    );
    assert(whole == first + second);
    lemma_line_block_concat(first, second);
}

proof fn lemma_unlabelled_line(line: Seq<char>)
    requires
        forall|i: int| 0 <= i < line.len() ==> #[trigger] line[i] != '\n' && line[i] != '\r',
    ensures
        voice_design::unlabelled(line) == voice_design::direction(line),
{
    let breaks = voice_design::line_breaks();
    assert forall|i: int| 0 <= i < line.len() implies !breaks.contains(#[trigger] line[i]) by {
        assert(breaks.len() == 2 && breaks[0] == '\n' && breaks[1] == '\r');
    }
    text_laws::law_text_without_separator_is_one_piece(line, breaks);
    let said = seq![line].map_values(|line: Seq<char>| voice_design::direction(line));
    assert(said.len() == 1 && said[0] == voice_design::direction(line));
}

proof fn lemma_key_length_at_colon(key: Seq<char>, rest: Seq<char>)
    requires
        forall|i: int|
            0 <= i < key.len() ==> #[trigger] key[i] != ':' && !text::is_white_space(key[i]),
        rest.len() > 0,
        rest.first() == ':' || text::is_white_space(rest.first()),
    ensures
        voice_design::key_length(key + rest) == key.len(),
    decreases key.len(),
{
    let line = key + rest;
    if key.len() > 0 {
        assert(line.first() == key.first());
        let less = key.drop_first();
        assert forall|i: int| 0 <= i < less.len() implies #[trigger] less[i] != ':'
            && !text::is_white_space(less[i]) by {
            assert(less[i] == key[i + 1]);
        }
        lemma_key_length_at_colon(less, rest);
        assert(line.drop_first() == less + rest);
    } else {
        assert(line == rest);
    }
}

/// Of a labelled line the value is left, whatever the label and the white space
/// behind it, and nothing where the label is that of the persona's name.
pub proof fn law_label_gives_way_to_value(key: Seq<char>, white: char, value: Seq<char>)
    requires
        key.len() > 0,
        forall|i: int|
            0 <= i < key.len() ==> #[trigger] key[i] != ':' && !text::is_white_space(key[i]),
        text::is_white_space(white),
        white != '\n' && white != '\r',
        forall|i: int| 0 <= i < value.len() ==> #[trigger] value[i] != '\n' && value[i] != '\r',
        value.len() > 0 ==> !text::is_white_space(value.first()),
    ensures
        voice_design::unlabelled(key + seq![':', white] + value) == (if key == "Persona"@ {
            Seq::<char>::empty()
        } else {
            value
        }),
        voice_design::unlabelled(key.push(':')) == Seq::<char>::empty(),
{
    let n = key.len() as int;
    lemma_labelled_line(key, white, value);
    assert(text::trimmed_start(value) == value);
    let bare = key.push(':');
    assert forall|i: int| 0 <= i < bare.len() implies #[trigger] bare[i] != '\n' && bare[i]
        != '\r' by {
        if i < n {
            assert(bare[i] == key[i]);
        }
    }
    lemma_unlabelled_line(bare);
    assert(bare == key + seq![':']);
    lemma_key_length_at_colon(key, seq![':']);
    assert(bare.first() == key[0]);
    assert(text::trimmed_start(bare) == bare);
    assert(bare.take(n) == key);
    assert(bare.skip(n + 1) == Seq::<char>::empty());
    assert(text::trimmed_start(Seq::<char>::empty()) == Seq::<char>::empty());
}

proof fn lemma_key_length_bounds(line: Seq<char>)
    ensures
        voice_design::key_length(line) <= line.len(),
        forall|i: int|
            0 <= i < voice_design::key_length(line) ==> #[trigger] line[i] != ':'
                && !text::is_white_space(line[i]),
    decreases line.len(),
{
    if line.len() > 0 && line.first() != ':' && !text::is_white_space(line.first()) {
        let rest = line.drop_first();
        lemma_key_length_bounds(rest);
        assert forall|i: int| 0 <= i < voice_design::key_length(line) implies #[trigger] line[i] != ':'
            && !text::is_white_space(line[i]) by {
            if i > 0 {
                assert(line[i] == rest[i - 1]);
            }
        }
    }
}

/// White space behind a label counts once, however much of it there is.
pub proof fn law_white_space_behind_label_counts_once(
    key: Seq<char>,
    white: char,
    more: char,
    value: Seq<char>,
)
    requires
        key.len() > 0,
        forall|i: int|
            0 <= i < key.len() ==> #[trigger] key[i] != ':' && !text::is_white_space(key[i]),
        text::is_white_space(white),
        white != '\n' && white != '\r',
        text::is_white_space(more),
        more != '\n' && more != '\r',
        forall|i: int| 0 <= i < value.len() ==> #[trigger] value[i] != '\n' && value[i] != '\r',
    ensures
        voice_design::unlabelled(key + seq![':', white, more] + value) == voice_design::unlabelled(
            key + seq![':', white] + value,
        ),
{
    let wide = seq![more] + value;
    assert forall|i: int| 0 <= i < wide.len() implies #[trigger] wide[i] != '\n' && wide[i]
        != '\r' by {
        if i > 0 {
            assert(wide[i] == value[i - 1]);
        }
    }
    assert(key + seq![':', white, more] + value == key + seq![':', white] + wide);
    lemma_labelled_line(key, white, value);
    lemma_labelled_line(key, white, wide);
    text_laws::law_outer_white_space_is_trimmed(value, more);
}

proof fn lemma_labelled_line(key: Seq<char>, white: char, value: Seq<char>)
    requires
        key.len() > 0,
        forall|i: int|
            0 <= i < key.len() ==> #[trigger] key[i] != ':' && !text::is_white_space(key[i]),
        text::is_white_space(white),
        white != '\n' && white != '\r',
        forall|i: int| 0 <= i < value.len() ==> #[trigger] value[i] != '\n' && value[i] != '\r',
    ensures
        voice_design::unlabelled(key + seq![':', white] + value) == (if key == "Persona"@ {
            Seq::<char>::empty()
        } else {
            text::trimmed_start(value)
        }),
{
    let n = key.len() as int;
    let line = key + seq![':', white] + value;
    assert forall|i: int| 0 <= i < line.len() implies #[trigger] line[i] != '\n' && line[i]
        != '\r' by {
        if i < n {
            assert(line[i] == key[i]);
        } else if i >= n + 2 {
            assert(line[i] == value[i - n - 2]);
        }
    }
    lemma_unlabelled_line(line);
    assert(line == key + (seq![':', white] + value));
    lemma_key_length_at_colon(key, seq![':', white] + value);
    assert(line.first() == key[0]);
    assert(text::trimmed_start(line) == line);
    assert(line[n] == ':' && line[n + 1] == white);
    assert(line.take(n) == key);
    assert(line.skip(n + 1) == seq![white] + value);
    text_laws::law_outer_white_space_is_trimmed(value, white);
}

/// The first colon of a line decides: where something other than white space
/// stands right behind it, or nothing else before it, the line has no label and is
/// left as it is.
pub proof fn law_first_colon_decides(line: Seq<char>, i: int)
    requires
        forall|k: int| 0 <= k < line.len() ==> #[trigger] line[k] != '\n' && line[k] != '\r',
        0 <= i < line.len(),
        line[i] == ':',
        forall|k: int| 0 <= k < i ==> #[trigger] line[k] != ':',
        ({
            ||| i + 1 < line.len() && !text::is_white_space(line[i + 1])
            ||| forall|k: int| 0 <= k < i ==> text::is_white_space(#[trigger] line[k])
        }),
    ensures
        voice_design::unlabelled(line) == line,
{
    lemma_unlabelled_line(line);
    let at = lemma_first_of_text(line);
    assert(!text::is_white_space(':'));
    if at < line.len() {
        lemma_starts_behind_white_space(line, at);
        let field = line.skip(at);
        let n = voice_design::key_length(field) as int;
        lemma_key_length_bounds(field);
        if voice_design::is_labelled(field) {
            assert(field[n] == line[at + n]);
            if at + n > i {
                if at <= i {
                    assert(field[i - at] == line[i]);
                } else {
                    assert(text::is_white_space(line[i]));
                }
            }
            assert(at + n == i);
            if n + 1 < field.len() {
                assert(field[n + 1] == line[i + 1]);
            }
            assert(!text::is_white_space(line[at]));
        }
    } else {
        assert(text::is_white_space(line[i]));
    }
}

/// A line without a label is left as it is: one without a colon, one in which
/// every colon has something right behind it, and one whose first word ends
/// before its first colon.
pub proof fn law_line_without_label_is_kept(line: Seq<char>)
    requires
        forall|i: int| 0 <= i < line.len() ==> #[trigger] line[i] != '\n' && line[i] != '\r',
        ({
            ||| forall|i: int|
                0 <= i < line.len() && #[trigger] line[i] == ':' ==> i + 1 < line.len()
                    && !text::is_white_space(line[i + 1])
            ||| exists|i: int, j: int|
                0 <= i < j < line.len() && !text::is_white_space(#[trigger] line[i])
                    && text::is_white_space(#[trigger] line[j]) && forall|k: int|
                    0 <= k < j ==> #[trigger] line[k] != ':'
        }),
    ensures
        voice_design::unlabelled(line) == line,
{
    lemma_unlabelled_line(line);
    let at = lemma_first_of_text(line);
    if at < line.len() {
        lemma_starts_behind_white_space(line, at);
        let field = line.skip(at);
        let n = voice_design::key_length(field) as int;
        lemma_key_length_bounds(field);
        if voice_design::is_labelled(field) {
            assert(field[n] == line[at + n]);
            assert(line[at + n] == ':');
            if forall|i: int|
                0 <= i < line.len() && #[trigger] line[i] == ':' ==> i + 1 < line.len()
                    && !text::is_white_space(line[i + 1]) {
                assert(field[n + 1] == line[at + n + 1]);
            } else {
                let (i, j) = choose|i: int, j: int|
                    0 <= i < j < line.len() && !text::is_white_space(#[trigger] line[i])
                        && text::is_white_space(#[trigger] line[j]) && forall|k: int|
                        0 <= k < j ==> #[trigger] line[k] != ':';
                if i < at {
                    assert(text::is_white_space(line[i]));
                }
                if j < at + n {
                    assert(field[j - at] == line[j]);
                } else if j > at + n {
                    assert(line[at + n] != ':');
                }
            }
        }
    } else {
        lemma_blank_start(line);
    }
}

/// White space before a label makes no difference to the value.
pub proof fn law_label_may_be_indented(white: char, line: Seq<char>)
    requires
        text::is_white_space(white),
        white != '\n' && white != '\r',
        forall|i: int| 0 <= i < line.len() ==> #[trigger] line[i] != '\n' && line[i] != '\r',
    ensures
        voice_design::unlabelled(line) != line ==> voice_design::unlabelled(seq![white] + line)
            == voice_design::unlabelled(line),
{
    let indented = seq![white] + line;
    assert forall|i: int| 0 <= i < indented.len() implies #[trigger] indented[i] != '\n'
        && indented[i] != '\r' by {
        if i > 0 {
            assert(indented[i] == line[i - 1]);
        }
    }
    lemma_unlabelled_line(line);
    lemma_unlabelled_line(indented);
    text_laws::law_outer_white_space_is_trimmed(line, white);
}

} // verus!
