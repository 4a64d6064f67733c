//! Parsing the timezone offset: a signed whole number of hours written in
//! decimal, an optional `+` or `-` followed by at least one digit, whose
//! value must fit an `i32`.

use vstd::prelude::*;
use vstd::string::StrSliceExecFns;
use crate::display::spec_is_digit;

verus! {

/// The value of a single digit character; meaningful only on digits.
pub open spec fn spec_digit_value(c: char) -> int {
    if c == '1' {
        1
    } else if c == '2' {
        2
    } else if c == '3' {
        3
    } else if c == '4' {
        4
    } else if c == '5' {
        5
    } else if c == '6' {
        6
    } else if c == '7' {
        7
    } else if c == '8' {
        8
    } else if c == '9' {
        9
    } else {
        0
    }
}

/// Whether every character of the sequence is a decimal digit.
pub open spec fn spec_all_digits(s: Seq<char>) -> bool {
    forall|i: int| 0 <= i < s.len() ==> spec_is_digit(#[trigger] s[i])
}

/// The non-negative value of a sequence of digit characters, read in base 10
/// with the most significant digit first.
pub open spec fn spec_digits_value(s: Seq<char>) -> int
    decreases s.len(),
{
    if s.len() == 0 {
        0
    } else {
        spec_digits_value(s.drop_last()) * 10 + spec_digit_value(s.last())
    }
}

/// The mathematical value written by the sequence: an optional sign, then at
/// least one digit. `None` when the sequence is not of that form.
pub open spec fn spec_int_literal(s: Seq<char>) -> Option<int> {
    if s.len() == 0 {
        None
    } else {
        let digits = if s[0] == '-' || s[0] == '+' {
            s.subrange(1, s.len() as int)
        } else {
            s
        };
        if digits.len() == 0 || !spec_all_digits(digits) {
            None
        } else if s[0] == '-' {
            Some(-spec_digits_value(digits))
        } else {
            Some(spec_digits_value(digits))
        }
    }
}

/// What parsing the sequence as an `i32` yields: the written value when the
/// sequence is a signed decimal number that fits, `None` otherwise.
pub open spec fn spec_parse_i32(s: Seq<char>) -> Option<i32> {
    match spec_int_literal(s) {
        None => None,
        Some(v) => if i32::MIN <= v <= i32::MAX {
            Some(v as i32)
        } else {
            None
        },
    }
}

/// A sequence of digits has a non-negative value.
proof fn lemma_digits_value_nonneg(s: Seq<char>)
    requires
        spec_all_digits(s),
    ensures
        spec_digits_value(s) >= 0,
    decreases s.len(),
{
    if s.len() > 0 {
        assert(spec_all_digits(s.drop_last()));
        lemma_digits_value_nonneg(s.drop_last());
    }
}

/// Reading more digits can only increase the value: the value of a prefix is
/// a lower bound for the value of the whole sequence.
proof fn lemma_digits_value_prefix(s: Seq<char>, k: int)
    requires
        0 <= k <= s.len(),
        spec_all_digits(s),
    ensures
        spec_digits_value(s.subrange(0, k)) <= spec_digits_value(s),
    decreases s.len() - k,
{
    if k == s.len() {
        assert(s.subrange(0, k) =~= s);
    } else {
        let shorter = s.subrange(0, k);
        let longer = s.subrange(0, k + 1);
        assert(longer.drop_last() =~= shorter);
        assert(spec_all_digits(shorter));
        lemma_digits_value_nonneg(shorter);
        lemma_digits_value_prefix(s, k + 1);
    }
}

/// The value of a digit character, `None` for any other character.
fn char_digit_value(c: char) -> (r: Option<u32>)
    ensures
        r is Some <==> spec_is_digit(c),
        r matches Some(d) ==> d == spec_digit_value(c),
{
    if c == '0' {
        Some(0)
    } else if c == '1' {
        Some(1)
    } else if c == '2' {
        Some(2)
    } else if c == '3' {
        Some(3)
    } else if c == '4' {
        Some(4)
    } else if c == '5' {
        Some(5)
    } else if c == '6' {
        Some(6)
    } else if c == '7' {
        Some(7)
    } else if c == '8' {
        Some(8)
    } else if c == '9' {
        Some(9)
    } else {
        None
    }
}

/// Parses a timezone offset in whole hours: an optional `+` or `-` followed
/// by at least one decimal digit, with a value that fits an `i32`. `None`
/// for anything else.
#[verifier::loop_isolation(false)]
pub fn parse_timezone(s: &str) -> (r: Option<i32>)
    ensures
        r == spec_parse_i32(s@),
{
    let n = s.unicode_len();
    if n == 0 {
        return None;
    }
    let first = s.get_char(0);
    let negative = first == '-';
    let has_sign = first == '-' || first == '+';
    let start: usize = if has_sign {
        1
    } else {
        0
    };
    if start == n {
        return None;
    }
    let ghost digits: Seq<char> = s@.subrange(start as int, n as int);
    proof {
        if has_sign {
            assert(digits =~= s@.subrange(1, s@.len() as int));
        } else {
            assert(digits =~= s@);
        }
    }
    let mut i: usize = start;
    let mut acc: u64 = 0;
    while i < n
        invariant
            start <= i <= n,
            n == s@.len(),
            digits == s@.subrange(start as int, n as int),
            spec_all_digits(s@.subrange(start as int, i as int)),
            acc == spec_digits_value(s@.subrange(start as int, i as int)),
            acc <= 2_147_483_648,
        decreases n - i,
    {
        let c = s.get_char(i);
        match char_digit_value(c) {
            None => {
                proof {
                    assert(digits[i - start] == s@[i as int]);
                    assert(!spec_all_digits(digits));
                }
                return None;
            },
            Some(d) => {
                acc = acc * 10 + (d as u64);
                proof {
                    let grown = s@.subrange(start as int, i + 1);
                    assert(grown.drop_last() =~= s@.subrange(start as int, i as int));
                    assert(grown.last() == s@[i as int]);
                }
                if acc > 2_147_483_648 {
                    proof {
                        if spec_all_digits(digits) {
                            assert(digits.subrange(0, i + 1 - start) =~= s@.subrange(
                                start as int,
                                i + 1,
                            ));
                            lemma_digits_value_prefix(digits, i + 1 - start);
                        }
                    }
                    return None;
                }
                i = i + 1;
            },
        }
    }
    proof {
        assert(s@.subrange(start as int, i as int) =~= digits);
    }
    if negative {
        let wide: i64 = -(acc as i64);
        Some(wide as i32)
    } else {
        if acc > 2_147_483_647 {
            return None;
        }
        Some(acc as i32)
    }
}

} // verus!
