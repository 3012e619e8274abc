//! Decimal numbers as text: writing them and reading them.

use vstd::prelude::*;

verus! {

/// The character for the digit `d`, for `d` from 0 to 9.
pub open spec fn digit_char(d: int) -> char {
    ('0' as int + d) as char
}

/// The decimal digits of `n`, most significant first, without leading
/// zeros; `0` is written `0`.
pub open spec fn decimal(n: nat) -> Seq<char>
    decreases n,
{
    if n < 10 {
        seq![digit_char(n as int)]
    } else {
        decimal(n / 10).push(digit_char((n % 10) as int))
    }
}

/// The decimal form of an integer: a minus sign before the digits of a
/// negative number, no sign otherwise.
pub open spec fn signed_decimal(v: int) -> Seq<char> {
    if v < 0 {
        seq!['-'] + decimal((-v) as nat)
    } else {
        decimal(v as nat)
    }
}

/// Whether `c` is one of the digits `0` to `9`.
pub open spec fn is_digit(c: char) -> bool {
    '0' <= c && c <= '9'
}

/// The number that the digit `c` stands for.
pub open spec fn digit_value(c: char) -> nat {
    (c as int - '0' as int) as nat
}

/// Whether every character of `s` is a digit.
pub open spec fn all_digits(s: Seq<char>) -> bool {
    forall|i: int| 0 <= i < s.len() ==> is_digit(#[trigger] s[i])
}

/// The number that a sequence of digits stands for; `0` for none.
pub open spec fn digits_value(s: Seq<char>) -> nat
    decreases s.len(),
{
    if s.len() == 0 {
        0
    } else {
        10 * digits_value(s.drop_last()) + digit_value(s.last())
    }
}

/// `s` without its plus sign, where it starts with one.
pub open spec fn unsigned_part(s: Seq<char>) -> Seq<char> {
    if s.len() > 0 && s[0] == '+' {
        s.drop_first()
    } else {
        s
    }
}

/// The number that `s` stands for: an optional `+`, then one digit or more
/// and nothing else. Spaces, a minus sign, an empty text or a lone `+` give
/// `None`.
pub open spec fn parsed_number(s: Seq<char>) -> Option<nat> {
    let digits = unsigned_part(s);
    if digits.len() > 0 && all_digits(digits) {
        Some(digits_value(digits))
    } else {
        None
    }
}

/// The number that `s` stands for, where it is one that fits in `usize`.
pub open spec fn parsed_usize(s: Seq<char>) -> Option<usize> {
    match parsed_number(s) {
        Some(number) => if number <= usize::MAX {
            Some(number as usize)
        } else {
            None
        },
        None => None,
    }
}

/// The texts of a sequence of strings.
pub open spec fn texts_of(strings: Seq<String>) -> Seq<Seq<char>> {
    Seq::new(strings.len(), |i: int| strings[i]@)
}

/// The value of a sequence of digits is at least the value of each of its
/// prefixes.
pub proof fn lemma_digits_value_prefix(s: Seq<char>, k: int)
    requires
        0 <= k <= s.len(),
    ensures
        digits_value(s.take(k)) <= digits_value(s),
    decreases s.len(),
{
    if k == s.len() {
        assert(s.take(k) =~= s);
    } else {
        lemma_digits_value_prefix(s.drop_last(), k);
        assert(s.drop_last().take(k) =~= s.take(k));
    }
}

/// The decimal form of a number is made of digits, at least one, and stands
/// for that number.
pub proof fn lemma_decimal_digits(n: nat)
    ensures
        decimal(n).len() >= 1,
        all_digits(decimal(n)),
        digits_value(decimal(n)) == n,
    decreases n,
{
    let text = decimal(n);
    if n < 10 {
        assert(text.drop_last() =~= Seq::<char>::empty());
        assert(digits_value(text.drop_last()) == 0);
    } else {
        lemma_decimal_digits(n / 10);
        assert(text.drop_last() =~= decimal(n / 10));
    }
}

/// Writing a number and reading it back gives the number.
pub proof fn law_decimal_reads_back(n: nat)
    ensures
        parsed_number(decimal(n)) == Some(n),
{
    lemma_decimal_digits(n);
    assert(is_digit(decimal(n)[0]));
}

/// The one-character text of the digit `d`.
fn digit_text(d: u64) -> (text: &'static str)
    requires
        d < 10,
    ensures
        text@ == seq![digit_char(d as int)],
{
    proof {
        reveal_strlit("0");
        reveal_strlit("1");
        reveal_strlit("2");
        reveal_strlit("3");
        reveal_strlit("4");
        reveal_strlit("5");
        reveal_strlit("6");
        reveal_strlit("7");
        reveal_strlit("8");
        reveal_strlit("9");
    }
    let text = if d == 0 {
        "0"
    } else if d == 1 {
        "1"
    } else if d == 2 {
        "2"
    } else if d == 3 {
        "3"
    } else if d == 4 {
        "4"
    } else if d == 5 {
        "5"
    } else if d == 6 {
        "6"
    } else if d == 7 {
        "7"
    } else if d == 8 {
        "8"
    } else {
        "9"
    };
    assert(text@ =~= seq![digit_char(d as int)]);
    text
}

/// Appends the decimal digits of `value` to `text`.
pub fn append_decimal(text: &mut String, value: u64)
    ensures
        final(text)@ == old(text)@ + decimal(value as nat),
    decreases value,
{
    if value >= 10 {
        append_decimal(text, value / 10);
    }
    text.append(digit_text(value % 10));
    assert(text@ =~= old(text)@ + decimal(value as nat));
}

/// Appends the decimal form of `value` to `text`, with a minus sign where it
/// is negative.
pub fn append_signed_decimal(text: &mut String, value: i64)
    ensures
        final(text)@ == old(text)@ + signed_decimal(value as int),
{
    if value < 0 {
        proof {
            reveal_strlit("-");
        }
        text.append("-");
        let magnitude: u64 = if value == i64::MIN {
            0x8000_0000_0000_0000u64
        } else {
            (-value) as u64
        };
        append_decimal(text, magnitude);
        assert(text@ =~= old(text)@ + signed_decimal(value as int));
    } else {
        append_decimal(text, value as u64);
    }
}

/// Whether two texts hold the same characters.
pub fn same_text(a: &str, b: &str) -> (same: bool)
    ensures
        same == (a@ == b@),
{
    let left = String::from_str(a);
    let right = String::from_str(b);
    left == right
}

/// Reads a decimal number: an optional `+`, then digits only. `None` where
/// the text is no such number or the number does not fit in `usize`.
pub fn parse_usize(text: &str) -> (value: Option<usize>)
    ensures
        value == parsed_usize(text@),
{
    broadcast use vstd::string::group_string_axioms;

    let ghost sign: int = if text@.len() > 0 && text@[0] == '+' {
        1
    } else {
        0
    };
    let ghost digits = unsigned_part(text@);
    let mut value: usize = 0;
    let mut first = true;
    let mut seen_digit = false;
    for c in it: text.chars()
        invariant
            it.seq() == text@,
            digits == unsigned_part(text@),
            digits.len() == text@.len() - sign,
            sign == (if text@.len() > 0 && text@[0] == '+' {
                1int
            } else {
                0int
            }),
            first == (it.index() == 0),
            seen_digit == (it.index() > sign),
            it.index() >= sign ==> all_digits(digits.take(it.index() - sign)),
            it.index() >= sign ==> value == digits_value(digits.take(it.index() - sign)),
            it.index() < sign ==> value == 0,
    {
        let ghost k = it.index() - sign;
        if first && c == '+' {
            first = false;
            assert(digits.take(0) =~= Seq::<char>::empty());
        } else {
            first = false;
            assert(digits[k] == c);
            if !(c >= '0' && c <= '9') {
                return None;
            }
            let digit = (c as u32 - '0' as u32) as usize;
            proof {
                assert(digits.take(k + 1).drop_last() =~= digits.take(k));
                assert(digits.take(k + 1).last() == c);
                lemma_digits_value_prefix(digits, k + 1);
            }
            match value.checked_mul(10) {
                None => {
                    return None;
                },
                Some(shifted) => match shifted.checked_add(digit) {
                    None => {
                        return None;
                    },
                    Some(next) => {
                        value = next;
                    },
                },
            }
            seen_digit = true;
        }
    }
    assert(digits.take(digits.len() as int) =~= digits);
    if seen_digit {
        Some(value)
    } else {
        None
    }
}

} // verus!
