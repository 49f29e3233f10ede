//! What the checks of a host come to, whatever its tools say.
use crate::detect;
use crate::detect::{CommandOutput, PythonAction, PythonReport};
use crate::number;
use crate::text;
use crate::text_laws;
use vstd::prelude::*;

verus! {

// Commands

/// What a command printed counts only if the command succeeded, and then it is
/// read as the text it is.
pub proof fn law_output_counts_only_with_success(output: CommandOutput, printed: Seq<char>)
    ensures
        detect::printed(None) is None,
        !output.success ==> detect::printed(Some(output)) is None,
        output.success && output.stdout@ == vstd::utf8::encode_utf8(printed) ==> detect::printed(
            Some(output),
        ) == Some(printed),
{
    vstd::utf8::encode_utf8_valid_utf8(printed);
    vstd::utf8::encode_utf8_decode_utf8(printed);
}

// Python

/// A version is judged by its first two parts: it is sufficient exactly if both
/// are numbers and they are at least 3.10. One without a dot is not.
pub proof fn law_version_is_judged_by_two_parts(major: Seq<char>, minor: Seq<char>, rest: Seq<char>)
    requires
        forall|i: int| 0 <= i < major.len() ==> #[trigger] major[i] != '.',
        forall|i: int| 0 <= i < minor.len() ==> #[trigger] minor[i] != '.',
        rest.len() == 0 || rest.first() == '.',
    ensures
        !detect::is_sufficient_python(major),
        detect::is_sufficient_python(major.push('.') + minor + rest) <==> (match (
            number::parsed(major, 0xffff_ffff),
            number::parsed(minor, 0xffff_ffff),
        ) {
            (Some(x), Some(y)) => x > 3 || (x == 3 && y >= 10),
            _ => false,
        }),
{
    let dots = seq!['.'];
    assert(dots[0] == '.');
    assert forall|i: int| 0 <= i < major.len() implies !dots.contains(#[trigger] major[i]) by {}
    assert forall|i: int| 0 <= i < minor.len() implies !dots.contains(#[trigger] minor[i]) by {}
    text_laws::law_text_without_separator_is_one_piece(major, dots);
    text_laws::law_text_without_separator_is_one_piece(minor, dots);
    let tail = minor + rest;
    assert(major.push('.') + minor + rest == major.push('.') + tail);
    text_laws::law_pieces_of_joined_texts(major, '.', tail, dots);
    if rest.len() == 0 {
        assert(tail == minor);
    } else {
        let behind = rest.drop_first();
        assert(tail == minor.push('.') + behind);
        text_laws::law_pieces_of_joined_texts(minor, '.', behind, dots);
    }
    let parts = text::pieces(major.push('.') + tail, dots);
    assert(parts[0] == major);
    assert(parts[1] == minor);
}

proof fn lemma_decimal(n: nat)
    ensures
        number::decimal(n).len() > 0,
        forall|i: int| 0 <= i < number::decimal(n).len() ==> '0' <= #[trigger] number::decimal(n)[i] <= '9',
        forall|max: nat| #[trigger]
            number::parsed(number::decimal(n), max) == if n <= max {
                Some(n)
            } else {
                None
            },
{
    number::law_decimal_is_read_back(n, n);
    let digits = number::without_sign(number::decimal(n));
    assert(number::is_digits(digits));
    assert(number::digits_value(digits) == n);
    lemma_decimal_digits(n);
    assert(number::decimal(n)[0] != '+');
}

proof fn lemma_decimal_digits(n: nat)
    ensures
        number::decimal(n).len() > 0,
        forall|i: int| 0 <= i < number::decimal(n).len() ==> '0' <= #[trigger] number::decimal(n)[i] <= '9',
    decreases n,
{
    let last = number::digit((n % 10) as int);
    assert('0' <= last <= '9');
    if n >= 10 {
        lemma_decimal_digits(n / 10);
        let head = number::decimal(n / 10);
        assert forall|i: int| 0 <= i < number::decimal(n).len() implies '0' <= #[trigger] number::decimal(n)[i] <= '9' by {
            if i < head.len() {
                assert(number::decimal(n)[i] == head[i]);
            }
        }
    }
}

/// A version that is written in numbers is sufficient exactly if the first two
/// are at least 3.10, in the order of the first before the second.
pub proof fn law_version_is_compared_by_numbers(major: nat, minor: nat, rest: Seq<char>)
    requires
        rest.len() == 0 || rest.first() == '.',
    ensures
        major <= 0xffff_ffff && minor <= 0xffff_ffff ==> (detect::is_sufficient_python(
            number::decimal(major).push('.') + number::decimal(minor) + rest,
        ) <==> major > 3 || (major == 3 && minor >= 10)),
        major > 0xffff_ffff || minor > 0xffff_ffff ==> !detect::is_sufficient_python(
            number::decimal(major).push('.') + number::decimal(minor) + rest,
        ),
{
    lemma_decimal(major);
    lemma_decimal(minor);
    law_version_is_judged_by_two_parts(number::decimal(major), number::decimal(minor), rest);
}

/// A later minor version of what is sufficient is sufficient.
pub proof fn law_later_version_is_sufficient(
    major: nat,
    minor: nat,
    later: nat,
    rest: Seq<char>,
    later_rest: Seq<char>,
)
    requires
        minor <= later <= 0xffff_ffff,
        rest.len() == 0 || rest.first() == '.',
        later_rest.len() == 0 || later_rest.first() == '.',
        detect::is_sufficient_python(
            number::decimal(major).push('.') + number::decimal(minor) + rest,
        ),
    ensures
        detect::is_sufficient_python(
            number::decimal(major).push('.') + number::decimal(later) + later_rest,
        ),
{
    law_version_is_compared_by_numbers(major, minor, rest);
    law_version_is_compared_by_numbers(major, later, later_rest);
}

/// Whether a text begins as the answer of a Python interpreter does.
pub open spec fn is_python_answer(answer: Seq<char>) -> bool {
    exists|version: Seq<char>| answer == #[trigger] ("Python "@ + version)
}

proof fn lemma_python_answer(answer: Seq<char>)
    ensures
        text::starts_with(answer, "Python "@) <==> is_python_answer(answer),
{
    let n = "Python "@.len() as int;
    if text::starts_with(answer, "Python "@) {
        assert(answer == "Python "@ + answer.skip(n));
    }
    if is_python_answer(answer) {
        let version = choose|version: Seq<char>| answer == #[trigger] ("Python "@ + version);
        assert(answer.take(n) == "Python "@);
    }
}

/// The answer of a Python interpreter tells its version, whatever white space
/// stands around it, and how sufficient it is is told by that version. Any other
/// answer tells nothing.
pub proof fn law_python_answer_tells_version(version: Seq<char>, c: char, other: Seq<char>)
    requires
        text::is_white_space(c),
    ensures
        version.len() == 0 || (!text::is_white_space(version.first()) && !text::is_white_space(
            version.last(),
        )) ==> detect::python_report("Python "@ + version) == Some(
            (PythonReport {
                available: true,
                version: Some(version),
                sufficient: detect::is_sufficient_python(version),
            }),
        ),
        detect::python_report("Python "@ + version.push(c)) == detect::python_report(
            "Python "@ + version,
        ),
        detect::python_report("Python "@ + (seq![c] + version)) == detect::python_report(
            "Python "@ + version,
        ),
        !is_python_answer(other) ==> detect::python_report(other) is None,
{
    lemma_python_answer(other);
    lemma_python_behind(version);
    lemma_python_behind(version.push(c));
    lemma_python_behind(seq![c] + version);
    text_laws::law_outer_white_space_is_trimmed(version, c);
    if version.len() == 0 || (!text::is_white_space(version.first()) && !text::is_white_space(
        version.last(),
    )) {
        text_laws::law_inner_text_is_not_trimmed(version);
    }
}

proof fn lemma_python_behind(version: Seq<char>)
    ensures
        text::starts_with("Python "@ + version, "Python "@),
        ("Python "@ + version).skip("Python "@.len() as int) == version,
{
    let answer = "Python "@ + version;
    assert(answer.take("Python "@.len() as int) == "Python "@);
    assert(answer.skip("Python "@.len() as int) == version);
}

/// Whether a command answered as a Python interpreter does.
pub open spec fn answered(output: Option<CommandOutput>) -> bool {
    detect::printed(output) matches Some(answer) && is_python_answer(answer)
}

proof fn lemma_first_python(outputs: Seq<Option<CommandOutput>>, k: int)
    requires
        0 <= k <= outputs.len(),
        forall|j: int| 0 <= j < k ==> !answered(#[trigger] outputs[j]),
        k < outputs.len() ==> answered(outputs[k]),
    ensures
        detect::first_python(outputs) == if k < outputs.len() {
            detect::python_report(detect::printed(outputs[k])->0)
        } else {
            None
        },
    decreases k,
{
    if outputs.len() > 0 {
        if detect::printed(outputs[0]) is Some {
            lemma_python_answer(detect::printed(outputs[0])->0);
        }
        if k > 0 {
            assert(!answered(outputs[0]));
            let rest = outputs.drop_first();
            assert forall|j: int| 0 <= j < k - 1 implies !answered(#[trigger] rest[j]) by {
                assert(rest[j] == outputs[j + 1]);
            }
            assert(k < outputs.len() ==> rest[k - 1] == outputs[k]);
            lemma_first_python(rest, k - 1);
        }
    }
}

/// The first command that answers is believed, whatever stands behind it.
pub proof fn law_first_answer_is_believed(outputs: Seq<Option<CommandOutput>>, k: int)
    requires
        0 <= k < outputs.len(),
        answered(outputs[k]),
        forall|j: int| 0 <= j < k ==> !answered(#[trigger] outputs[j]),
    ensures
        match detect::python_step(outputs) {
            PythonAction::Report(report) => Some(report) == detect::python_report(
                detect::printed(outputs[k])->0,
            ),
            _ => false,
        },
{
    lemma_python_answer(detect::printed(outputs[k])->0);
    lemma_first_python(outputs, k);
}

/// While no command has answered, `python3` is tried and `python` behind it, and
/// when neither has, there is no Python.
pub proof fn law_commands_are_tried_until_one_answers(outputs: Seq<Option<CommandOutput>>)
    requires
        forall|j: int| 0 <= j < outputs.len() ==> !answered(#[trigger] outputs[j]),
    ensures
        outputs.len() == 0 ==> (detect::python_step(outputs) matches PythonAction::Run(command)
            && command == "python3"@),
        outputs.len() == 1 ==> (detect::python_step(outputs) matches PythonAction::Run(command)
            && command == "python"@),
        outputs.len() >= 2 ==> (detect::python_step(outputs) matches PythonAction::Report(report)
            && !report.available && report.version is None && !report.sufficient),
{
    lemma_first_python(outputs, outputs.len() as int);
}

/// A Python that is installed is reported with its version as soon as its
/// command has printed it, and is sufficient exactly if its first two numbers are
/// at least 3.10.
pub proof fn law_installed_python_is_reported(
    output: CommandOutput,
    later: Seq<Option<CommandOutput>>,
    major: nat,
    minor: nat,
    rest: Seq<char>,
)
    requires
        output.success,
        major <= 0xffff_ffff,
        minor <= 0xffff_ffff,
        rest.len() == 0 || (rest.first() == '.' && !text::is_white_space(rest.last())),
        output.stdout@ == vstd::utf8::encode_utf8(
            "Python "@ + (number::decimal(major).push('.') + number::decimal(minor) + rest).push(
                '\n',
            ),
        ),
    ensures
        match detect::python_step(seq![Some(output)] + later) {
            PythonAction::Report(report) => {
                &&& report.available
                &&& report.version == Some(
                    number::decimal(major).push('.') + number::decimal(minor) + rest,
                )
                &&& report.sufficient <==> major > 3 || (major == 3 && minor >= 10)
            },
            _ => false,
        },
{
    let version = number::decimal(major).push('.') + number::decimal(minor) + rest;
    let answer = "Python "@ + version.push('\n');
    law_output_counts_only_with_success(output, answer);
    assert(is_python_answer(answer));
    let outputs = seq![Some(output)] + later;
    assert(outputs[0] == Some(output));
    law_first_answer_is_believed(outputs, 0);
    law_python_answer_tells_version(version, '\n', version);
    law_version_is_compared_by_numbers(major, minor, rest);
    lemma_decimal(major);
    lemma_decimal(minor);
    assert(version.first() == number::decimal(major)[0]);
    assert('0' <= version.first() <= '9');
    if rest.len() > 0 {
        assert(version.last() == rest.last());
    } else {
        let digits = number::decimal(minor);
        assert(version.last() == digits[digits.len() - 1]);
    }
}

// CUDA

/// White space around the listing of the GPUs makes no difference.
pub proof fn law_white_space_around_listing_is_ignored(listing: Seq<char>, c: char)
    requires
        text::is_white_space(c),
    ensures
        detect::cuda_report(Some(seq![c] + listing)) == detect::cuda_report(Some(listing)),
        detect::cuda_report(Some(listing.push(c))) == detect::cuda_report(Some(listing)),
{
    text_laws::law_outer_white_space_is_trimmed(listing, c);
}

/// Only the first line of the listing counts, however lines end.
pub proof fn law_only_first_gpu_counts(line: Seq<char>, rest: Seq<char>)
    requires
        line.len() > 0,
        !text::is_white_space(line.first()),
        !text::is_white_space(line.last()),
        forall|i: int| 0 <= i < line.len() ==> #[trigger] line[i] != '\n',
        rest.len() > 0,
        !text::is_white_space(rest.last()),
    ensures
        detect::cuda_report(Some(line.push('\n') + rest)) == detect::cuda_report(Some(line)),
        detect::cuda_report(Some(line.push('\r').push('\n') + rest)) == detect::cuda_report(
            Some(line),
        ),
{
    let plain = line.push('\n') + rest;
    let returned = line.push('\r').push('\n') + rest;
    assert(plain.first() == line.first() && plain.last() == rest.last());
    assert(returned.first() == line.first() && returned.last() == rest.last());
    text_laws::law_inner_text_is_not_trimmed(line);
    text_laws::law_inner_text_is_not_trimmed(plain);
    text_laws::law_inner_text_is_not_trimmed(returned);
    text_laws::law_first_line_ends_at_line_feed(line, rest);
    assert(text::is_white_space('\r'));
}

/// Whether a comma and a space stand side by side in `s`.
pub open spec fn has_separator(s: Seq<char>) -> bool {
    exists|i: int| 0 <= i && i + 1 < s.len() && #[trigger] s[i] == ',' && s[i + 1] == ' '
}

proof fn lemma_separator()
    ensures
        ", "@ == seq![',', ' '],
{
    reveal_strlit(", ");
    assert(", "@ == seq![',', ' ']);
}

proof fn lemma_cut_at_separator(before: Seq<char>, behind: Seq<char>)
    requires
        !has_separator(before),
    ensures
        text::cut(before + ", "@ + behind, ", "@) == Some((before, behind)),
{
    lemma_separator();
    let whole = before + ", "@ + behind;
    assert forall|i: int| 0 <= i < before.len() implies #[trigger] whole.subrange(
        i,
        i + ", "@.len(),
    ) != ", "@ by {
        let part = whole.subrange(i, i + 2);
        assert(part[0] == before[i]);
        if i + 1 < before.len() {
            assert(part[1] == before[i + 1]);
        } else {
            assert(part[1] == ',');
        }
        assert(", "@[0] == ',' && ", "@[1] == ' ');
    }
    text_laws::law_cut_gives_what_was_joined(before, ", "@, behind);
}

proof fn lemma_no_cut(s: Seq<char>)
    requires
        !has_separator(s),
    ensures
        text::cut(s, ", "@) is None,
{
    lemma_separator();
    text_laws::law_text_is_cut_at_the_first_pattern(s, ", "@);
    if let Some((before, behind)) = text::cut(s, ", "@) {
        let n = before.len() as int;
        assert(s[n] == ',' && s[n + 1] == ' ');
    }
}

proof fn lemma_report_of_line(line: Seq<char>)
    requires
        line.len() > 0,
        !text::is_white_space(line.first()),
        !text::is_white_space(line.last()),
        forall|i: int| 0 <= i < line.len() ==> #[trigger] line[i] != '\n',
    ensures
        text::first_line(text::trimmed(line)) == Some(line),
{
    text_laws::law_inner_text_is_not_trimmed(line);
    text_laws::law_first_line_ends_at_line_feed(line, Seq::empty());
}

/// Whether `s` can be the name of a GPU or what stands behind one in its line:
/// not empty, on one line, and without white space around it.
pub open spec fn is_entry(s: Seq<char>) -> bool {
    &&& s.len() > 0
    &&& !text::is_white_space(s.first())
    &&& !text::is_white_space(s.last())
    &&& forall|i: int| 0 <= i < s.len() ==> #[trigger] s[i] != '\n'
}

/// A GPU is reported with its name and its memory, whatever else stands in its
/// line, and is sufficient exactly from ten thousand megabytes on. Memory that
/// is no number counts as none.
pub proof fn law_gpu_is_reported(name: Seq<char>, field: Seq<char>, more: Seq<char>, memory: u64)
    requires
        is_entry(name),
        is_entry(field),
        is_entry(more),
        !has_separator(name),
        !has_separator(field),
        memory == (match number::parsed(field, 0xffff_ffff_ffff_ffff) {
            Some(memory) => memory,
            None => 0,
        }),
    ensures
        ({
            let alone = detect::cuda_report(Some(name + ", "@ + field));
            &&& alone.available
            &&& alone.gpu_name == Some(name)
            &&& alone.memory_mb == Some(memory)
            &&& alone.sufficient <==> memory >= 10000
            &&& detect::cuda_report(Some(name + ", "@ + field + ", "@ + more)) == alone
        }),
{
    lemma_separator();
    let line = name + ", "@ + field;
    let wide = name + ", "@ + field + ", "@ + more;
    let n = name.len() as int;
    let m = line.len() as int;
    assert forall|i: int| 0 <= i < line.len() implies #[trigger] line[i] != '\n' by {
        if i < n {
            assert(line[i] == name[i]);
        } else if i >= n + 2 {
            assert(line[i] == field[i - n - 2]);
        }
    }
    assert(line.first() == name.first() && line.last() == field.last());
    assert forall|i: int| 0 <= i < wide.len() implies #[trigger] wide[i] != '\n' by {
        if i < m {
            assert(wide[i] == line[i]);
        } else if i >= m + 2 {
            assert(wide[i] == more[i - m - 2]);
        }
    }
    assert(wide.first() == name.first() && wide.last() == more.last());
    lemma_report_of_line(line);
    lemma_report_of_line(wide);
    lemma_cut_at_separator(name, field);
    lemma_no_cut(field);
    assert(wide == name + ", "@ + (field + ", "@ + more));
    lemma_cut_at_separator(name, field + ", "@ + more);
    lemma_cut_at_separator(field, more);
    text_laws::law_inner_text_is_not_trimmed(name);
    text_laws::law_inner_text_is_not_trimmed(field);
}

proof fn lemma_gpu_line(name: Seq<char>, field: Seq<char>)
    requires
        name.len() > 0,
        field.len() > 0,
        !text::is_white_space(name.first()),
        !text::is_white_space(field.last()),
        forall|i: int| 0 <= i < name.len() ==> #[trigger] name[i] != '\n',
        forall|i: int| 0 <= i < field.len() ==> #[trigger] field[i] != '\n',
        !has_separator(name),
        !has_separator(field),
    ensures
        Some(detect::cuda_report(Some(name + ", "@ + field))) == detect::gpu_report(
            name + ", "@ + field,
        ),
        text::cut(name + ", "@ + field, ", "@) == Some((name, field)),
        text::cut(field, ", "@) is None,
{
    lemma_separator();
    let line = name + ", "@ + field;
    let n = name.len() as int;
    assert forall|i: int| 0 <= i < line.len() implies #[trigger] line[i] != '\n' by {
        if i < n {
            assert(line[i] == name[i]);
        } else if i >= n + 2 {
            assert(line[i] == field[i - n - 2]);
        }
    }
    assert(line.first() == name.first() && line.last() == field.last());
    lemma_report_of_line(line);
    lemma_cut_at_separator(name, field);
    lemma_no_cut(field);
}

/// White space on either side of the separator makes no difference to what is
/// reported.
pub proof fn law_white_space_around_gpu_fields_is_ignored(
    name: Seq<char>,
    field: Seq<char>,
    c: char,
)
    requires
        name.len() > 0,
        field.len() > 0,
        !text::is_white_space(name.first()),
        !text::is_white_space(field.last()),
        forall|i: int| 0 <= i < name.len() ==> #[trigger] name[i] != '\n',
        forall|i: int| 0 <= i < field.len() ==> #[trigger] field[i] != '\n',
        !has_separator(name),
        !has_separator(name.push(c)),
        !has_separator(field),
        text::is_white_space(c),
        c != '\n',
    ensures
        detect::cuda_report(Some(name.push(c) + ", "@ + field)) == detect::cuda_report(
            Some(name + ", "@ + field),
        ),
        detect::cuda_report(Some(name + ", "@ + (seq![c] + field))) == detect::cuda_report(
            Some(name + ", "@ + field),
        ),
{
    let wide = seq![c] + field;
    assert forall|i: int| 0 <= i < wide.len() implies #[trigger] wide[i] != '\n' by {
        if i > 0 {
            assert(wide[i] == field[i - 1]);
        }
    }
    if has_separator(wide) {
        let i = choose|i: int|
            0 <= i && i + 1 < wide.len() && #[trigger] wide[i] == ',' && wide[i + 1] == ' ';
        assert(!text::is_white_space(','));
        assert(field[i - 1] == ',' && field[i] == ' ');
    }
    assert(wide.last() == field.last());
    assert(name.push(c).first() == name.first());
    assert forall|i: int| 0 <= i < name.push(c).len() implies #[trigger] name.push(c)[i]
        != '\n' by {
        if i < name.len() {
            assert(name.push(c)[i] == name[i]);
        }
    }
    lemma_gpu_line(name, field);
    lemma_gpu_line(name.push(c), field);
    lemma_gpu_line(name, wide);
    text_laws::law_outer_white_space_is_trimmed(name, c);
    text_laws::law_outer_white_space_is_trimmed(field, c);
}

/// The memory that is listed is the memory that is reported.
pub proof fn law_listed_memory_is_reported(name: Seq<char>, memory: u64)
    requires
        is_entry(name),
        !has_separator(name),
    ensures
        ({
            let report = detect::cuda_report(Some(name + ", "@ + number::decimal(memory as nat)));
            &&& report.available
            &&& report.gpu_name == Some(name)
            &&& report.memory_mb == Some(memory)
            &&& report.sufficient <==> memory >= 10000
        }),
{
    let field = number::decimal(memory as nat);
    lemma_decimal(memory as nat);
    assert(number::parsed(field, 0xffff_ffff_ffff_ffff) == Some(memory as nat));
    assert('0' <= field[0] <= '9' && '0' <= field[field.len() - 1] <= '9');
    assert forall|i: int| 0 <= i < field.len() implies #[trigger] field[i] != '\n' by {
        assert('0' <= field[i] <= '9');
    }
    if has_separator(field) {
        let i = choose|i: int|
            0 <= i && i + 1 < field.len() && #[trigger] field[i] == ',' && field[i + 1] == ' ';
        assert('0' <= field[i] <= '9');
    }
    law_gpu_is_reported(name, field, name, memory);
}

/// A listing whose first line names no memory says only that there is a GPU, and
/// so does a blank one; without a listing there is none.
pub proof fn law_unreadable_listing_is_no_report(line: Seq<char>)
    requires
        is_entry(line),
        !has_separator(line),
    ensures
        ({
            let report = detect::cuda_report(Some(line));
            report.available && report.gpu_name is None && report.memory_mb is None
                && !report.sufficient
        }),
        ({
            let report = detect::cuda_report(Some(Seq::empty()));
            report.available && report.gpu_name is None && report.memory_mb is None
                && !report.sufficient
        }),
        ({
            let report = detect::cuda_report(None);
            !report.available && report.gpu_name is None && report.memory_mb is None
                && !report.sufficient
        }),
{
    lemma_report_of_line(line);
    lemma_no_cut(line);
    text_laws::law_inner_text_is_not_trimmed(Seq::empty());
}

// Binaries

/// The path of a binary is what was printed, without the white space around it;
/// where nothing else was printed there is none.
pub proof fn law_printed_path_is_found(path: Seq<char>, c: char)
    requires
        text::is_white_space(c),
    ensures
        path.len() > 0 && !text::is_white_space(path.first()) && !text::is_white_space(path.last())
            ==> detect::found_path(path) == Some(path),
        detect::found_path(path.push(c)) == detect::found_path(path),
        detect::found_path(seq![c] + path) == detect::found_path(path),
        detect::found_path(Seq::empty()) is None,
{
    text_laws::law_outer_white_space_is_trimmed(path, c);
    if path.len() > 0 && !text::is_white_space(path.first()) && !text::is_white_space(path.last()) {
        text_laws::law_inner_text_is_not_trimmed(path);
    }
    text_laws::law_inner_text_is_not_trimmed(Seq::empty());
}

} // verus!
