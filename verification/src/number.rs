//! Unsigned decimal numbers as text.
use vstd::prelude::*;
use vstd::slice::slice_subrange;

verus! {

/// The decimal digit that stands for `d`.
pub open spec fn digit(d: int) -> char {
    ((48 + d) as u8) as char
}

/// `n` in decimal notation, without leading zeros.
pub open spec fn decimal(n: nat) -> Seq<char>
    decreases n,
{
    if n < 10 {
        seq![digit(n as int)]
    } else {
        decimal(n / 10).push(digit((n % 10) as int))
    }
}

/// Whether `c` is a decimal digit.
pub open spec fn is_digit(c: char) -> bool {
    '0' <= c <= '9'
}

/// Whether `s` is made of decimal digits, at least one.
pub open spec fn is_digits(s: Seq<char>) -> bool {
    s.len() > 0 && forall|i: int| 0 <= i < s.len() ==> is_digit(#[trigger] s[i])
}

/// The number that a run of digits stands for.
pub open spec fn digits_value(s: Seq<char>) -> nat
    decreases s.len(),
{
    if s.len() == 0 {
        0
    } else {
        digits_value(s.drop_last()) * 10 + (s.last() as nat - 48) as nat
    }
}

/// `s` without the plus sign that may stand before a number.
pub open spec fn without_sign(s: Seq<char>) -> Seq<char> {
    if s.len() > 0 && s.first() == '+' {
        s.drop_first()
    } else {
        s
    }
}

/// The number that `s` stands for, an optional plus sign followed by digits
/// only, if there is one and it is no larger than `max`.
pub open spec fn parsed(s: Seq<char>, max: nat) -> Option<nat> {
    let digits = without_sign(s);
    if is_digits(digits) && digits_value(digits) <= max {
        Some(digits_value(digits))
    } else {
        None
    }
}

proof fn lemma_digits_value_grows(s: Seq<char>, n: int)
    requires
        0 <= n <= s.len(),
    ensures
        digits_value(s.take(n)) <= digits_value(s),
    decreases s.len() - n,
{
    if n < s.len() {
        lemma_digits_value_grows(s, n + 1);
        assert(s.take(n + 1).drop_last() == s.take(n));
    } else {
        assert(s.take(n) == s);
    }
}

/// Writes a number in decimal notation.
pub fn to_decimal(n: u64) -> (res: String)
    ensures
        res@ == decimal(n as nat),
    decreases n,
{
    let last = (48u8 + (n % 10) as u8) as char;
    let mut res = if n < 10 {
        String::new()
    } else {
        to_decimal(n / 10)
    };
    res.push(last);
    proof {
        assert(last == digit((n % 10) as int));
        assert(n < 10 ==> res@ == seq![digit(n as int)]);
    }
    res
}

/// Reads an unsigned number no larger than `max`.
pub fn parse(chars: &[char], max: u64) -> (res: Option<u64>)
    ensures
        res is Some <==> parsed(chars@, max as nat) is Some,
        res matches Some(n) ==> parsed(chars@, max as nat) == Some(n as nat),
{
    let digits = if chars.len() > 0 && chars[0] == '+' {
        assert(chars@.subrange(1, chars@.len() as int) == chars@.drop_first());
        slice_subrange(chars, 1, chars.len())
    } else {
        chars
    };
    if digits.len() == 0 {
        return None;
    }
    let mut value: u64 = 0;
    let mut i: usize = 0;
    while i < digits.len()
        invariant
            digits@ == without_sign(chars@),
            i <= digits.len(),
            forall|j: int| 0 <= j < i ==> is_digit(#[trigger] digits@[j]),
            value == digits_value(digits@.take(i as int)),
            value <= max,
        decreases digits.len() - i,
    {
        let c = digits[i];
        if !('0' <= c && c <= '9') {
            assert(!is_digit(digits@[i as int]));
            return None;
        }
        let d: u64 = c as u64 - 48;
        proof {
            assert(digits@.take(i + 1).drop_last() == digits@.take(i as int));
            lemma_digits_value_grows(digits@, i + 1);
        }
        if d > max || value > (max - d) / 10 {
            proof {
                assert(value * 10 + d > max);
            }
            return None;
        }
        value = value * 10 + d;
        i += 1;
    }
    proof {
        assert(digits@.take(i as int) == digits@);
    }
    Some(value)
}

proof fn lemma_decimal_digits(n: nat)
    ensures
        is_digits(decimal(n)),
        digits_value(decimal(n)) == n,
    decreases n,
{
    let last = digit((n % 10) as int);
    assert(is_digit(last) && last as nat == 48 + n % 10);
    if n < 10 {
        assert(decimal(n).drop_last() == Seq::<char>::empty());
        assert(digits_value(Seq::<char>::empty()) == 0);
    } else {
        lemma_decimal_digits(n / 10);
        assert(decimal(n).drop_last() == decimal(n / 10));
    }
}

/// A number is read back from its decimal notation.
pub proof fn law_decimal_is_read_back(n: nat, max: nat)
    requires
        n <= max,
    ensures
        parsed(decimal(n), max) == Some(n),
{
    lemma_decimal_digits(n);
    assert(is_digit(decimal(n)[0]));
}

} // verus!
