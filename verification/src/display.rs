//! Rendering a decimal time as the eight characters `HH:MM:SS`, each field
//! two digits wide and zero-padded.

use vstd::prelude::*;
use crate::time::DecimalTime;

verus! {

/// The character for a single decimal digit.
pub open spec fn spec_digit_char(d: int) -> char {
    if d == 0 {
        '0'
    } else if d == 1 {
        '1'
    } else if d == 2 {
        '2'
    } else if d == 3 {
        '3'
    } else if d == 4 {
        '4'
    } else if d == 5 {
        '5'
    } else if d == 6 {
        '6'
    } else if d == 7 {
        '7'
    } else if d == 8 {
        '8'
    } else {
        '9'
    }
}

/// Whether a character is a decimal digit.
pub open spec fn spec_is_digit(c: char) -> bool {
    c == '0' || c == '1' || c == '2' || c == '3' || c == '4' || c == '5' || c == '6' || c == '7'
        || c == '8' || c == '9'
}

/// The eight characters that display a valid decimal time: the hour padded
/// to two digits, then the minute and the second, colon-separated.
pub open spec fn spec_formatted(t: DecimalTime) -> Seq<char> {
    seq![
        '0',
        spec_digit_char(t.dec_hour as int),
        ':',
        spec_digit_char(t.dec_min as int / 10),
        spec_digit_char(t.dec_min as int % 10),
        ':',
        spec_digit_char(t.dec_sec as int / 10),
        spec_digit_char(t.dec_sec as int % 10),
    ]
}

/// Relies on String::push: appends the one character to the end of the
/// string and changes nothing else.
#[verifier::external_body]
fn push_char(s: &mut String, c: char)
    ensures
        final(s)@ == old(s)@.push(c),
{
    s.push(c)
}

/// The character for a digit in 0..=9.
fn digit_to_char(d: u32) -> (c: char)
    requires
        d <= 9,
    ensures
        c == spec_digit_char(d as int),
{
    if d == 0 {
        '0'
    } else if d == 1 {
        '1'
    } else if d == 2 {
        '2'
    } else if d == 3 {
        '3'
    } else if d == 4 {
        '4'
    } else if d == 5 {
        '5'
    } else if d == 6 {
        '6'
    } else if d == 7 {
        '7'
    } else if d == 8 {
        '8'
    } else {
        '9'
    }
}

impl DecimalTime {
    /// Renders this time as `HH:MM:SS` with decimal-time fields, each two
    /// characters wide and zero-padded.
    pub fn to_string(&self) -> (s: String)
        requires
            self.wf(),
        ensures
            s@ == spec_formatted(*self),
            s@.len() == 8,
    {
        let mut s = String::new();
        push_char(&mut s, '0');
        push_char(&mut s, digit_to_char(self.dec_hour));
        push_char(&mut s, ':');
        push_char(&mut s, digit_to_char(self.dec_min / 10));
        push_char(&mut s, digit_to_char(self.dec_min % 10));
        push_char(&mut s, ':');
        push_char(&mut s, digit_to_char(self.dec_sec / 10));
        push_char(&mut s, digit_to_char(self.dec_sec % 10));
        proof {
            assert(s@ =~= spec_formatted(*self));
        }
        s
    }
}

/// The display of a valid decimal time is always exactly eight characters,
/// a digit pair, a colon, a digit pair, a colon and a digit pair.
pub proof fn lemma_formatted_shape(t: DecimalTime)
    requires
        t.wf(),
    ensures
        spec_formatted(t).len() == 8,
        spec_formatted(t)[2] == ':',
        spec_formatted(t)[5] == ':',
        forall|i: int|
            0 <= i < 8 && i != 2 && i != 5 ==> spec_is_digit(#[trigger] spec_formatted(t)[i]),
{
}

} // verus!
