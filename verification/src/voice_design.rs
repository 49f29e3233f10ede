//! Voice design: a description of the voice, put before the text to speak.
//!
//! VoxCPM reads the description of a voice from a `(...)` prefix on the text.
//! A persona arrives as newline-separated `Key: value` lines, which are turned
//! into one clause that can stand between such parentheses.
use crate::text;
use std::borrow::Cow;
use vstd::prelude::*;
use vstd::slice::slice_subrange;

verus! {

/// Whether `c` is one of the characters that delimit a voice design.
pub open spec fn is_parenthesis(c: char) -> bool {
    c == '(' || c == ')'
}

/// The characters that end a line.
pub open spec fn line_breaks() -> Seq<char> {
    seq!['\n', '\r']
}

/// `s` without its parentheses.
pub open spec fn without_parentheses(s: Seq<char>) -> Seq<char> {
    s.filter(|c: char| !is_parenthesis(c))
}

/// `line` with one space for every run of white space between its words and
/// none around them.
pub open spec fn collapsed(line: Seq<char>) -> Seq<char>
    decreases line.len(),
{
    if line.len() == 0 {
        line
    } else {
        let before = collapsed(line.drop_last());
        if text::is_white_space(line.last()) {
            before
        } else if before.len() > 0 && text::is_white_space(line[line.len() - 2]) {
            before.push(' ').push(line.last())
        } else {
            before.push(line.last())
        }
    }
}

/// `s` with a comma at its end, which is added where there is none.
pub open spec fn with_comma(s: Seq<char>) -> Seq<char> {
    if s.len() > 0 && s.last() == ',' {
        s
    } else {
        s.push(',')
    }
}

/// `clause` continued by `field`: as a comma list where neither is empty.
pub open spec fn continued(clause: Seq<char>, field: Seq<char>) -> Seq<char> {
    if field.len() == 0 {
        clause
    } else if clause.len() == 0 {
        field
    } else {
        with_comma(clause).push(' ') + field
    }
}

/// The lines as a comma list, each with its white space collapsed, the blank
/// ones left out.
pub open spec fn comma_list(lines: Seq<Seq<char>>) -> Seq<char>
    decreases lines.len(),
{
    if lines.len() == 0 {
        Seq::empty()
    } else {
        continued(comma_list(lines.drop_last()), collapsed(lines.last()))
    }
}

/// `instructions` as a single clause: without parentheses, its lines as a comma
/// list, and no comma at the end.
pub open spec fn flattened(instructions: Seq<char>) -> Seq<char> {
    text::without_trailing(comma_list(text::pieces(without_parentheses(instructions), line_breaks())), ',')
}

/// The clause as far as it is known within a line: `clause` holds the lines
/// before, `field` what the line has brought so far.
spec fn under_way(clause: Seq<char>, field: Seq<char>) -> Seq<char> {
    if clause.len() > 0 && field.len() == 0 {
        with_comma(clause)
    } else {
        continued(clause, field)
    }
}

/// Whether a space is owed before the next character of a word.
spec fn owes_space(clause: Seq<char>, line: Seq<char>) -> bool {
    if collapsed(line).len() == 0 {
        clause.len() > 0
    } else {
        text::is_white_space(line.last())
    }
}

/// Flattens an instruction block into a single clause.
///
/// The block is collapsed onto one line, its lines becoming a comma list, and
/// its own parentheses are dropped to keep the delimiter unambiguous.
pub fn flatten_voice_design(instructions: &str) -> (res: String)
    ensures
        res@ == flattened(instructions@),
{
    let chars = text::chars_of(instructions);
    let mut out: Vec<char> = Vec::new();
    let mut pending_space = false;
    let mut i: usize = 0;
    let ghost mut kept: Seq<char> = Seq::empty();
    let ghost mut lines: Seq<Seq<char>> = seq![Seq::empty()];
    proof {
        assert(chars@.take(0) == Seq::<char>::empty());
        reveal(Seq::filter);
        assert(lines.drop_last() == Seq::<Seq<char>>::empty());
    }
    while i < chars.len()
        invariant
            i <= chars.len(),
            kept == without_parentheses(chars@.take(i as int)),
            lines == text::pieces(kept, line_breaks()),
            lines.len() > 0,
            out@ == under_way(comma_list(lines.drop_last()), collapsed(lines.last())),
            pending_space == owes_space(comma_list(lines.drop_last()), lines.last()),
        decreases chars.len() - i,
    {
        let c = chars[i];
        let ghost clause = comma_list(lines.drop_last());
        let ghost line = lines.last();
        proof {
            reveal(Seq::filter);
            assert(chars@.take(i + 1).drop_last() == chars@.take(i as int));
            assert(kept.push(c).drop_last() == kept);
        }
        if c == '(' || c == ')' {
        } else if c == '\n' || c == '\r' {
            proof {
                assert(line_breaks()[0] == '\n' && line_breaks()[1] == '\r');
                kept = kept.push(c);
                assert(lines.push(Seq::empty()).drop_last() == lines);
                lines = lines.push(Seq::empty());
            }
            if out.len() > 0 {
                if out[out.len() - 1] != ',' {
                    out.push(',');
                }
                pending_space = true;
            }
        } else if text::white_space(c) {
            proof {
                kept = kept.push(c);
                assert(lines.drop_last().push(line.push(c)).drop_last() == lines.drop_last());
                lines = lines.drop_last().push(line.push(c));
                assert(line.push(c).drop_last() == line);
            }
            if out.len() > 0 {
                pending_space = true;
            }
        } else {
            proof {
                kept = kept.push(c);
                assert(lines.drop_last().push(line.push(c)).drop_last() == lines.drop_last());
                lines = lines.drop_last().push(line.push(c));
                assert(line.push(c).drop_last() == line);
            }
            if pending_space {
                out.push(' ');
                pending_space = false;
            }
            out.push(c);
        }
        i += 1;
    }
    proof {
        assert(chars@.take(i as int) == chars@);
        let clause = comma_list(lines.drop_last());
        assert(clause.push(',').drop_last() == clause);
    }
    let clause = text::trim_end_char(out.as_slice(), ',');
    text::string_of(clause)
}

/// The label of the field that carries the internal name of a persona.
pub const PERSONA_LABEL: &'static str = "Persona";

/// How many characters the first word of `line` has, a colon ending it too.
pub open spec fn key_length(line: Seq<char>) -> nat
    decreases line.len(),
{
    if line.len() == 0 || line.first() == ':' || text::is_white_space(line.first()) {
        0
    } else {
        1 + key_length(line.drop_first())
    }
}

/// Whether `line` starts with a field label: a word, a colon, and behind it
/// white space or the end of the line.
pub open spec fn is_labelled(line: Seq<char>) -> bool {
    let n = key_length(line) as int;
    &&& 0 < n < line.len()
    &&& line[n] == ':'
    &&& n + 1 < line.len() ==> text::is_white_space(line[n + 1])
}

/// What `line` says of the voice: the value where it is a labelled field,
/// nothing where that field names the persona, else the line as it is.
pub open spec fn direction(line: Seq<char>) -> Seq<char> {
    let field = text::trimmed_start(line);
    let n = key_length(field) as int;
    if !is_labelled(field) {
        line
    } else if field.take(n) == PERSONA_LABEL@ {
        Seq::empty()
    } else {
        text::trimmed_start(field.skip(n + 1))
    }
}

/// The lines with a line feed between each and the next.
pub open spec fn line_block(lines: Seq<Seq<char>>) -> Seq<char>
    decreases lines.len(),
{
    if lines.len() == 0 {
        Seq::empty()
    } else if lines.len() == 1 {
        lines[0]
    } else {
        line_block(lines.drop_last()).push('\n') + lines.last()
    }
}

/// `instructions` with every line reduced to what it says of the voice.
pub open spec fn unlabelled(instructions: Seq<char>) -> Seq<char> {
    line_block(
        text::pieces(instructions, line_breaks()).map_values(|line: Seq<char>| direction(line)),
    )
}

fn key_len(line: &[char]) -> (res: usize)
    ensures
        res == key_length(line@),
        res <= line.len(),
{
    let mut n: usize = 0;
    assert(line@.skip(0) == line@);
    while n < line.len() && line[n] != ':' && !text::white_space(line[n])
        invariant
            n <= line.len(),
            key_length(line@) == n + key_length(line@.skip(n as int)),
        decreases line.len() - n,
    {
        assert(line@.skip(n as int).drop_first() == line@.skip(n + 1));
        n += 1;
    }
    n
}

fn direction_of(line: &[char]) -> (res: &[char])
    ensures
        res@ == direction(line@),
{
    let field = text::trim_start(line);
    let n: usize = key_len(field);
    if n == 0 || n == field.len() || field[n] != ':' || (n + 1 < field.len()
        && !text::white_space(field[n + 1])) {
        return line;
    }
    let label = text::string_of(slice_subrange(field, 0, n));
    if text::same_text(label.as_str(), PERSONA_LABEL) {
        return slice_subrange(field, 0, 0);
    }
    text::trim_start(slice_subrange(field, n + 1, field.len()))
}

/// Strips the field labels from an instruction block.
///
/// A `Key:` label that survives into a voice design undoes its effect, and the
/// `Persona` field carries an internal name in place of voice direction, so
/// labels are dropped and that field with them.
pub fn strip_field_labels(instructions: &str) -> (res: String)
    ensures
        res@ == unlabelled(instructions@),
{
    let chars = text::chars_of(instructions);
    let lines = text::split(chars.as_slice(), &['\n', '\r']);
    let ghost all = text::pieces(instructions@, line_breaks());
    let ghost voiced = all.map_values(|line: Seq<char>| direction(line));
    let mut out: Vec<char> = Vec::new();
    let mut i: usize = 0;
    proof {
        assert(['\n', '\r']@ == line_breaks());
        assert(voiced.take(0).len() == 0);
    }
    while i < lines.len()
        invariant
            i <= lines.len(),
            text::contents(lines@) == all,
            voiced == all.map_values(|line: Seq<char>| direction(line)),
            out@ == line_block(voiced.take(i as int)),
        decreases lines.len() - i,
    {
        let said = direction_of(lines[i].as_slice());
        proof {
            assert(lines@[i as int]@ == text::contents(lines@)[i as int]);
            assert(voiced.take(i + 1).drop_last() == voiced.take(i as int));
            assert(voiced.take(i + 1).last() == said@);
        }
        if i > 0 {
            out.push('\n');
        }
        out.extend_from_slice(said);
        i += 1;
    }
    proof {
        assert(voiced.take(i as int) == voiced);
    }
    text::string_of(out.as_slice())
}

/// Whether `text` already carries a voice design of its own.
pub open spec fn has_design(text: Seq<char>) -> bool {
    text::starts_with(text::trimmed_start(text), seq!['('])
}

/// Whether a voice design goes before `text`.
pub open spec fn is_designed(text: Seq<char>, instructions: Option<Seq<char>>, enabled: bool) -> bool {
    &&& enabled
    &&& instructions is Some
    &&& !has_design(text)
    &&& flattened(instructions->0).len() > 0
}

/// `text` with the clause made of `instructions` before it, or as it is where
/// no voice design applies.
pub open spec fn designed(text: Seq<char>, instructions: Option<Seq<char>>, enabled: bool) -> Seq<
    char,
> {
    if is_designed(text, instructions, enabled) {
        seq!['('] + flattened(instructions->0) + seq![')'] + text
    } else {
        text
    }
}

/// Prefixes `text` with a voice-design clause built from `instructions`.
///
/// Returns the text unchanged when voice design is disabled, when there are no
/// instructions, or when the text already carries its own `(...)` prefix.
pub fn apply_voice_design<'a>(text: &'a str, instructions: Option<&str>, enabled: bool) -> (res: Cow<
    'a,
    str,
>)
    ensures
        res@ == designed(text@, instructions.deep_view(), enabled),
        res is Owned <==> is_designed(text@, instructions.deep_view(), enabled),
{
    if !enabled {
        return Cow::Borrowed(text);
    }
    let instructions = match instructions {
        Some(instructions) => instructions,
        None => {
            return Cow::Borrowed(text);
        },
    };
    let chars = text::chars_of(text);
    if text::matches_at(text::trim_start(chars.as_slice()), 0, &['(']) {
        proof {
            assert(['(']@ == seq!['(']);
            let start = text::trimmed_start(text@);
            assert(start.skip(0) == start);
        }
        return Cow::Borrowed(text);
    }
    proof {
        assert(['(']@ == seq!['(']);
        let start = text::trimmed_start(text@);
        assert(start.skip(0) == start);
    }
    let design = flatten_voice_design(instructions);
    if design.as_str().is_empty() {
        return Cow::Borrowed(text);
    }
    let mut out = String::new();
    out.push('(');
    out.append(design.as_str());
    out.push(')');
    out.append(text);
    proof {
        assert(out@ == seq!['('] + design@ + seq![')'] + text@);
    }
    Cow::Owned(out)
}

/// Whether `c` may stand in a clause: no parenthesis, and of all white space
/// only the space.
pub open spec fn is_clause_char(c: char) -> bool {
    !is_parenthesis(c) && (text::is_white_space(c) ==> c == ' ')
}

/// Whether `s` holds clause characters only, never two spaces in a row, and
/// starts with no space.
pub open spec fn is_single_clause(s: Seq<char>) -> bool {
    &&& forall|i: int| 0 <= i < s.len() ==> is_clause_char(#[trigger] s[i])
    &&& forall|i: int| 0 < i < s.len() && #[trigger] s[i] == ' ' ==> s[i - 1] != ' '
    &&& s.len() > 0 ==> s.first() != ' '
}

spec fn has_no_parentheses(s: Seq<char>) -> bool {
    forall|i: int| 0 <= i < s.len() ==> !is_parenthesis(#[trigger] s[i])
}

proof fn lemma_without_parentheses(s: Seq<char>)
    ensures
        has_no_parentheses(without_parentheses(s)),
    decreases s.len(),
{
    reveal(Seq::filter);
    if s.len() > 0 {
        lemma_without_parentheses(s.drop_last());
    }
}

proof fn lemma_pieces_keep(s: Seq<char>, separators: Seq<char>)
    ensures
        text::pieces(s, separators).len() > 0,
        has_no_parentheses(s) ==> forall|k: int|
            0 <= k < text::pieces(s, separators).len() ==> has_no_parentheses(
                #[trigger] text::pieces(s, separators)[k],
            ),
    decreases s.len(),
{
    if s.len() > 0 {
        lemma_pieces_keep(s.drop_last(), separators);
    }
}

proof fn lemma_collapsed_single_clause(line: Seq<char>)
    requires
        has_no_parentheses(line),
    ensures
        is_single_clause(collapsed(line)),
        collapsed(line).len() > 0 ==> collapsed(line).last() != ' ',
    decreases line.len(),
{
    if line.len() > 0 {
        lemma_collapsed_single_clause(line.drop_last());
    }
}

proof fn lemma_comma_list_single_clause(lines: Seq<Seq<char>>)
    requires
        forall|k: int| 0 <= k < lines.len() ==> has_no_parentheses(#[trigger] lines[k]),
    ensures
        is_single_clause(comma_list(lines)),
        comma_list(lines).len() > 0 ==> comma_list(lines).last() != ' ',
    decreases lines.len(),
{
    if lines.len() > 0 {
        let before = comma_list(lines.drop_last());
        let field = collapsed(lines.last());
        lemma_comma_list_single_clause(lines.drop_last());
        lemma_collapsed_single_clause(lines.last());
        if before.len() > 0 && field.len() > 0 {
            let head = with_comma(before).push(' ');
            assert(is_single_clause(head));
            let whole = head + field;
            assert forall|i: int| 0 <= i < whole.len() implies is_clause_char(#[trigger] whole[i]) by {
                if i >= head.len() {
                    assert(whole[i] == field[i - head.len()]);
                } else {
                    assert(whole[i] == head[i]);
                }
            }
            assert forall|i: int| 0 < i < whole.len() && #[trigger] whole[i] == ' ' implies whole[i - 1]
                != ' ' by {
                if i > head.len() {
                    assert(whole[i] == field[i - head.len()]);
                    assert(whole[i - 1] == field[i - 1 - head.len()]);
                } else if i < head.len() {
                    assert(whole[i] == head[i]);
                    assert(whole[i - 1] == head[i - 1]);
                }
            }
        }
    }
}

/// Whatever the instructions are, the clause made of them stands on one line
/// with single spaces between its words, holds no parenthesis, and does not end
/// in a comma.
pub proof fn law_flattened_is_single_clause(instructions: Seq<char>)
    ensures
        is_single_clause(flattened(instructions)),
        flattened(instructions).len() > 0 ==> flattened(instructions).last() != ',',
{
    let kept = without_parentheses(instructions);
    lemma_without_parentheses(instructions);
    lemma_pieces_keep(kept, line_breaks());
    lemma_comma_list_single_clause(text::pieces(kept, line_breaks()));
    text::lemma_without_trailing(comma_list(text::pieces(kept, line_breaks())), ',');
}

/// The delimiter of a voice design is unambiguous: where a design was put
/// before a text, the first closing parenthesis of the result ends it, the
/// clause is what stands before and the text is what stands behind.
pub proof fn law_design_delimiter_is_unambiguous(
    text: Seq<char>,
    instructions: Option<Seq<char>>,
    enabled: bool,
)
    requires
        is_designed(text, instructions, enabled),
    ensures
        ({
            let spoken = designed(text, instructions, enabled);
            let end = 1 + flattened(instructions->0).len() as int;
            &&& spoken[0] == '('
            &&& spoken[end] == ')'
            &&& forall|i: int| 0 < i < end ==> !is_parenthesis(#[trigger] spoken[i])
            &&& spoken.subrange(1, end) == flattened(instructions->0)
            &&& spoken.skip(end + 1) == text
        }),
{
    law_flattened_is_single_clause(instructions->0);
    let clause = flattened(instructions->0);
    let spoken = designed(text, instructions, enabled);
    assert forall|i: int| 0 < i < 1 + clause.len() implies !is_parenthesis(#[trigger] spoken[i]) by {
        assert(spoken[i] == clause[i - 1]);
    }
}

/// A text that was given a voice design, or came with one, is not wrapped
/// again, whatever the instructions of the second time.
pub proof fn law_design_is_not_wrapped_twice(
    text: Seq<char>,
    instructions: Option<Seq<char>>,
    enabled: bool,
    again: Option<Seq<char>>,
    enabled_again: bool,
)
    requires
        has_design(text) || is_designed(text, instructions, enabled),
    ensures
        designed(designed(text, instructions, enabled), again, enabled_again) == designed(
            text,
            instructions,
            enabled,
        ),
{
    let spoken = designed(text, instructions, enabled);
    if is_designed(text, instructions, enabled) {
        assert(spoken.first() == '(');
        assert(text::trimmed_start(spoken) == spoken);
        assert(spoken.take(1) == seq!['(']);
    }
}

/// Applying the same voice design twice is applying it once.
pub proof fn law_design_is_idempotent(
    text: Seq<char>,
    instructions: Option<Seq<char>>,
    enabled: bool,
)
    ensures
        designed(designed(text, instructions, enabled), instructions, enabled) == designed(
            text,
            instructions,
            enabled,
        ),
{
    if is_designed(text, instructions, enabled) {
        law_design_is_not_wrapped_twice(text, instructions, enabled, instructions, enabled);
    }
}

/// The text to speak always stands unchanged at the end of what is sent.
pub proof fn law_text_is_kept(text: Seq<char>, instructions: Option<Seq<char>>, enabled: bool)
    ensures
        text::ends_with(designed(text, instructions, enabled), text),
{
    let spoken = designed(text, instructions, enabled);
    assert(spoken.skip(spoken.len() - text.len()) == text);
}

/// Whether `s` holds nothing to say: only white space and parentheses.
pub open spec fn is_blank_design(s: Seq<char>) -> bool {
    forall|i: int| 0 <= i < s.len() ==> text::is_white_space(#[trigger] s[i]) || is_parenthesis(s[i])
}

proof fn lemma_blank_without_parentheses(s: Seq<char>)
    requires
        is_blank_design(s),
    ensures
        text::is_blank(without_parentheses(s)),
    decreases s.len(),
{
    reveal(Seq::filter);
    if s.len() > 0 {
        lemma_blank_without_parentheses(s.drop_last());
    }
}

proof fn lemma_white_pieces(s: Seq<char>, separators: Seq<char>)
    requires
        text::is_blank(s),
    ensures
        text::pieces(s, separators).len() > 0,
        forall|k: int|
            0 <= k < text::pieces(s, separators).len() ==> text::is_blank(
                #[trigger] text::pieces(s, separators)[k],
            ),
    decreases s.len(),
{
    if s.len() > 0 {
        lemma_white_pieces(s.drop_last(), separators);
    }
}

proof fn lemma_white_collapses(line: Seq<char>)
    requires
        text::is_blank(line),
    ensures
        collapsed(line).len() == 0,
    decreases line.len(),
{
    if line.len() > 0 {
        lemma_white_collapses(line.drop_last());
    }
}

proof fn lemma_white_comma_list(lines: Seq<Seq<char>>)
    requires
        forall|k: int| 0 <= k < lines.len() ==> text::is_blank(#[trigger] lines[k]),
    ensures
        comma_list(lines).len() == 0,
    decreases lines.len(),
{
    if lines.len() > 0 {
        lemma_white_comma_list(lines.drop_last());
        lemma_white_collapses(lines.last());
    }
}

/// Blank instructions leave the text as it is.
pub proof fn law_blank_instructions_leave_text(text: Seq<char>, instructions: Seq<char>, enabled: bool)
    requires
        is_blank_design(instructions),
    ensures
        designed(text, Some(instructions), enabled) == text,
{
    lemma_blank_without_parentheses(instructions);
    lemma_white_pieces(without_parentheses(instructions), line_breaks());
    lemma_white_comma_list(text::pieces(without_parentheses(instructions), line_breaks()));
}

/// Whether `key` can be a field label: a word without a colon.
pub open spec fn is_key(key: Seq<char>) -> bool {
    &&& key.len() > 0
    &&& forall|i: int|
        0 <= i < key.len() ==> #[trigger] key[i] != ':' && !text::is_white_space(key[i])
}

/// Whether `line` stands on one line.
pub open spec fn is_one_line(line: Seq<char>) -> bool {
    forall|i: int| 0 <= i < line.len() ==> !line_breaks().contains(#[trigger] line[i])
}

/// The `Key: value` line of a field.
pub open spec fn field_line(field: (Seq<char>, Seq<char>)) -> Seq<char> {
    field.0 + seq![':', ' '] + field.1
}

/// The block of `Key: value` lines that a persona is rendered as.
pub open spec fn persona_block(fields: Seq<(Seq<char>, Seq<char>)>) -> Seq<char> {
    line_block(fields.map_values(|field: (Seq<char>, Seq<char>)| field_line(field)))
}

/// What is left of a field when labels are stripped.
pub open spec fn field_direction(field: (Seq<char>, Seq<char>)) -> Seq<char> {
    if field.0 == PERSONA_LABEL@ {
        Seq::empty()
    } else {
        text::trimmed_start(field.1)
    }
}

proof fn lemma_key_length(key: Seq<char>, rest: Seq<char>)
    requires
        forall|i: int|
            0 <= i < key.len() ==> #[trigger] key[i] != ':' && !text::is_white_space(key[i]),
    ensures
        key_length(key + seq![':', ' '] + rest) == key.len(),
    decreases key.len(),
{
    let line = key + seq![':', ' '] + rest;
    if key.len() > 0 {
        assert(line.first() == key.first());
        lemma_key_length(key.drop_first(), rest);
        assert(line.drop_first() == key.drop_first() + seq![':', ' '] + rest);
    } else {
        assert(line.first() == ':');
    }
}

proof fn lemma_field_direction(field: (Seq<char>, Seq<char>))
    requires
        is_key(field.0),
    ensures
        direction(field_line(field)) == field_direction(field),
{
    let line = field_line(field);
    lemma_key_length(field.0, field.1);
    assert(line.first() == field.0.first());
    assert(text::trimmed_start(line) == line);
    let n = field.0.len() as int;
    assert(line.take(n) == field.0);
    assert(line[n] == ':' && line[n + 1] == ' ');
    let behind = line.skip(n + 1);
    assert(behind.first() == ' ');
    assert(behind.drop_first() == field.1);
}

proof fn lemma_pieces_extend(head: Seq<char>, tail: Seq<char>)
    requires
        is_one_line(tail),
    ensures
        text::pieces(head, line_breaks()).len() > 0,
        text::pieces(head + tail, line_breaks()) == text::pieces(head, line_breaks()).drop_last().push(
            text::pieces(head, line_breaks()).last() + tail,
        ),
    decreases tail.len(),
{
    lemma_pieces_keep(head, line_breaks());
    if tail.len() == 0 {
        assert(head + tail == head);
        assert(text::pieces(head, line_breaks()).last() + tail == text::pieces(
            head,
            line_breaks(),
        ).last());
    } else {
        lemma_pieces_extend(head, tail.drop_last());
        assert((head + tail).drop_last() == head + tail.drop_last());
        assert((head + tail).last() == tail.last());
        let before = text::pieces(head + tail.drop_last(), line_breaks());
        assert(before.drop_last() == text::pieces(head, line_breaks()).drop_last());
        assert((text::pieces(head, line_breaks()).last() + tail.drop_last()).push(tail.last())
            == text::pieces(head, line_breaks()).last() + tail);
    }
}

proof fn lemma_pieces_of_block(lines: Seq<Seq<char>>)
    requires
        lines.len() > 0,
        forall|k: int| 0 <= k < lines.len() ==> is_one_line(#[trigger] lines[k]),
    ensures
        text::pieces(line_block(lines), line_breaks()) == lines,
    decreases lines.len(),
{
    if lines.len() == 1 {
        lemma_pieces_extend(Seq::empty(), lines[0]);
        assert(Seq::<char>::empty() + lines[0] == lines[0]);
        assert(lines == seq![lines[0]]);
    } else {
        let before = lines.drop_last();
        lemma_pieces_of_block(before);
        let head = line_block(before).push('\n');
        assert(head.drop_last() == line_block(before));
        assert(line_breaks()[0] == '\n');
        lemma_pieces_extend(head, lines.last());
        assert(text::pieces(head, line_breaks()) == before.push(Seq::empty()));
        assert(Seq::<char>::empty() + lines.last() == lines.last());
        assert(before.push(lines.last()) == lines);
    }
}

/// Of a persona rendered as `Key: value` lines, no label is left: what stays is
/// the value of every field but the one that names the persona.
pub proof fn law_field_labels_are_stripped(fields: Seq<(Seq<char>, Seq<char>)>)
    requires
        forall|k: int|
            0 <= k < fields.len() ==> is_key((#[trigger] fields[k]).0) && is_one_line(fields[k].1),
    ensures
        unlabelled(persona_block(fields)) == line_block(
            fields.map_values(|field: (Seq<char>, Seq<char>)| field_direction(field)),
        ),
{
    let lines = fields.map_values(|field: (Seq<char>, Seq<char>)| field_line(field));
    assert forall|k: int| 0 <= k < lines.len() implies is_one_line(#[trigger] lines[k]) by {
        let field = fields[k];
        assert forall|i: int| 0 <= i < lines[k].len() implies !line_breaks().contains(
            #[trigger] lines[k][i],
        ) by {
            let n = field.0.len() as int;
            if i < n {
                assert(lines[k][i] == field.0[i]);
            } else if i >= n + 2 {
                assert(lines[k][i] == field.1[i - n - 2]);
            }
        }
    }
    if lines.len() == 0 {
        let blank = seq![Seq::<char>::empty()];
        assert(text::pieces(persona_block(fields), line_breaks()) == blank);
        assert(blank.map_values(|line: Seq<char>| direction(line)) == blank);
    } else {
        lemma_pieces_of_block(lines);
        let said = lines.map_values(|line: Seq<char>| direction(line));
        let kept = fields.map_values(|field: (Seq<char>, Seq<char>)| field_direction(field));
        assert forall|k: int| 0 <= k < lines.len() implies said[k] == kept[k] by {
            assert(is_key(fields[k].0));
            lemma_field_direction(fields[k]);
        }
        assert(said == kept);
    }
}

proof fn lemma_pieces_are_one_line(s: Seq<char>)
    ensures
        text::pieces(s, line_breaks()).len() > 0,
        forall|k: int|
            0 <= k < text::pieces(s, line_breaks()).len() ==> is_one_line(
                #[trigger] text::pieces(s, line_breaks())[k],
            ),
    decreases s.len(),
{
    if s.len() > 0 {
        lemma_pieces_are_one_line(s.drop_last());
    }
}

proof fn lemma_pieces_without_parentheses(s: Seq<char>)
    ensures
        text::pieces(without_parentheses(s), line_breaks()) == text::pieces(
            s,
            line_breaks(),
        ).map_values(|line: Seq<char>| without_parentheses(line)),
    decreases s.len(),
{
    reveal(Seq::filter);
    let lines = text::pieces(s, line_breaks());
    let cleaned = lines.map_values(|line: Seq<char>| without_parentheses(line));
    let empty = Seq::<char>::empty();
    assert(without_parentheses(empty) == empty);
    if s.len() == 0 {
        assert(without_parentheses(s) == empty);
        assert(cleaned == seq![empty]);
    } else {
        let head = s.drop_last();
        let c = s.last();
        let before = text::pieces(head, line_breaks());
        let cleaned_before = before.map_values(|line: Seq<char>| without_parentheses(line));
        lemma_pieces_keep(head, line_breaks());
        lemma_pieces_without_parentheses(head);
        assert(line_breaks()[0] == '\n' && line_breaks()[1] == '\r');
        if line_breaks().contains(c) {
            assert(without_parentheses(s) == without_parentheses(head).push(c));
            assert(without_parentheses(s).drop_last() == without_parentheses(head));
            assert(cleaned == cleaned_before.push(empty));
        } else {
            let line = before.last().push(c);
            assert(line.drop_last() == before.last());
            if is_parenthesis(c) {
                assert(without_parentheses(s) == without_parentheses(head));
                assert(without_parentheses(line) == without_parentheses(before.last()));
                assert(cleaned == cleaned_before);
            } else {
                assert(without_parentheses(s) == without_parentheses(head).push(c));
                assert(without_parentheses(s).drop_last() == without_parentheses(head));
                assert(without_parentheses(line) == without_parentheses(before.last()).push(c));
                assert(cleaned == cleaned_before.drop_last().push(cleaned_before.last().push(c)));
            }
        }
    }
}

/// Stripping labels changes nothing else: instructions of which no line is
/// labelled give the same clause as before.
pub proof fn law_unlabelled_instructions_are_kept(instructions: Seq<char>)
    requires
        forall|k: int|
            0 <= k < text::pieces(instructions, line_breaks()).len() ==> !is_labelled(
                text::trimmed_start(#[trigger] text::pieces(instructions, line_breaks())[k]),
            ),
    ensures
        flattened(unlabelled(instructions)) == flattened(instructions),
{
    let lines = text::pieces(instructions, line_breaks());
    assert(lines.map_values(|line: Seq<char>| direction(line)) == lines);
    lemma_pieces_are_one_line(instructions);
    lemma_pieces_of_block(lines);
    lemma_pieces_without_parentheses(instructions);
    lemma_pieces_without_parentheses(unlabelled(instructions));
}

/// Where voice design is disabled, or there are no instructions, the text is
/// spoken as it is.
pub proof fn law_text_is_unchanged_without_design(
    text: Seq<char>,
    instructions: Option<Seq<char>>,
    enabled: bool,
)
    requires
        !enabled || instructions is None || has_design(text),
    ensures
        designed(text, instructions, enabled) == text,
{
}

/// A clause in the making, and whether a space is owed before its next word,
/// when one more character has been taken in.
pub open spec fn taken(so_far: (Seq<char>, bool), c: char) -> (Seq<char>, bool) {
    if is_parenthesis(c) {
        so_far
    } else if text::is_white_space(c) {
        if so_far.0.len() == 0 {
            so_far
        } else if line_breaks().contains(c) {
            (with_comma(so_far.0), true)
        } else {
            (so_far.0, true)
        }
    } else if so_far.1 {
        (so_far.0.push(' ').push(c), false)
    } else {
        (so_far.0.push(c), false)
    }
}

/// A clause in the making when a text has been taken in, character by character.
pub open spec fn taken_all(so_far: (Seq<char>, bool), s: Seq<char>) -> (Seq<char>, bool)
    decreases s.len(),
{
    if s.len() == 0 {
        so_far
    } else {
        taken(taken_all(so_far, s.drop_last()), s.last())
    }
}

/// Taking the instructions in, character by character, and dropping the commas
/// at the end gives the clause.
pub proof fn lemma_taken_all_is_flattened(s: Seq<char>)
    ensures
        flattened(s) == text::without_trailing(taken_all((Seq::empty(), false), s).0, ','),
{
    lemma_taken_all(s);
    let lines = text::pieces(without_parentheses(s), line_breaks());
    let clause = comma_list(lines.drop_last());
    assert(clause.push(',').drop_last() == clause);
}

proof fn lemma_taken_all(s: Seq<char>)
    ensures
        ({
            let lines = text::pieces(without_parentheses(s), line_breaks());
            let clause = comma_list(lines.drop_last());
            &&& lines.len() > 0
            &&& taken_all((Seq::empty(), false), s).0 == under_way(clause, collapsed(lines.last()))
            &&& taken_all((Seq::empty(), false), s).1 == owes_space(clause, lines.last())
        }),
    decreases s.len(),
{
    reveal(Seq::filter);
    if s.len() == 0 {
        let lines = seq![Seq::<char>::empty()];
        assert(without_parentheses(s) == Seq::<char>::empty());
        assert(text::pieces(without_parentheses(s), line_breaks()) == lines);
        assert(lines.drop_last() == Seq::<Seq<char>>::empty());
    } else {
        let head = s.drop_last();
        let c = s.last();
        lemma_taken_all(head);
        let kept = without_parentheses(head);
        let lines = text::pieces(kept, line_breaks());
        let line = lines.last();
        assert(line_breaks()[0] == '\n' && line_breaks()[1] == '\r');
        if !is_parenthesis(c) {
            assert(without_parentheses(s) == kept.push(c));
            assert(kept.push(c).drop_last() == kept);
            if line_breaks().contains(c) {
                assert(lines.push(Seq::empty()).drop_last() == lines);
            } else {
                assert(lines.drop_last().push(line.push(c)).drop_last() == lines.drop_last());
                assert(line.push(c).drop_last() == line);
            }
        }
    }
}

} // verus!
