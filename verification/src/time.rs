//! Parsing of `HH:MM:SS[.fraction]` clock strings into milliseconds, the form
//! in which the conversion script reports durations and positions.
//!
//! The value is seconds-of-day times 1000 plus the milliseconds that the
//! fraction denotes (its first three digits, padded with zeros on the right).
use vstd::prelude::*;
use vstd::string::StrSliceExecFns;

use crate::chars::{digit_char, is_digit};

verus! {

/// Numeric value of an ASCII digit.
pub open spec fn digit_val(c: char) -> int
    recommends
        is_digit(c),
{
    c as u32 - '0' as u32
}

/// The string has the exact shape `HH:MM:SS` or `HH:MM:SS.d+`, with two-digit
/// fields in range (hours below 24, minutes and seconds below 60) and at least
/// one fraction digit after the dot.
pub open spec fn valid_hms(s: Seq<char>) -> bool {
    &&& s.len() >= 8
    &&& is_digit(s[0]) && is_digit(s[1]) && s[2] == ':'
    &&& is_digit(s[3]) && is_digit(s[4]) && s[5] == ':'
    &&& is_digit(s[6]) && is_digit(s[7])
    &&& 10 * digit_val(s[0]) + digit_val(s[1]) <= 23
    &&& 10 * digit_val(s[3]) + digit_val(s[4]) <= 59
    &&& 10 * digit_val(s[6]) + digit_val(s[7]) <= 59
    &&& (s.len() == 8 || (s.len() >= 10 && s[8] == '.' && forall|j: int|
        9 <= j < s.len() ==> is_digit(#[trigger] s[j])))
}

/// Seconds of day denoted by the `HH:MM:SS` part.
pub open spec fn hms_seconds(s: Seq<char>) -> int
    recommends
        valid_hms(s),
{
    (10 * digit_val(s[0]) + digit_val(s[1])) * 3600
    + (10 * digit_val(s[3]) + digit_val(s[4])) * 60
    + 10 * digit_val(s[6]) + digit_val(s[7])
}

/// Milliseconds denoted by the fraction: its first three digits, padded with
/// zeros when fewer are present; further digits are ignored.
pub open spec fn frac_ms(s: Seq<char>) -> int
    recommends
        valid_hms(s),
{
    if s.len() == 8 {
        0
    } else if s.len() == 10 {
        100 * digit_val(s[9])
    } else if s.len() == 11 {
        100 * digit_val(s[9]) + 10 * digit_val(s[10])
    } else {
        100 * digit_val(s[9]) + 10 * digit_val(s[10]) + digit_val(s[11])
    }
}

/// Milliseconds denoted by a well-formed clock string, `None` on any other
/// string.
pub open spec fn time_ms_spec(s: Seq<char>) -> Option<u64> {
    if valid_hms(s) {
        Some((hms_seconds(s) * 1000 + frac_ms(s)) as u64)
    } else {
        None
    }
}

/// Numeric value of an ASCII digit character.
fn digit_value(c: char) -> (r: u64)
    requires
        is_digit(c),
    ensures
        r == digit_val(c),
        r <= 9,
{
    (c as u32 - 48) as u64
}

/// Parses a `HH:MM:SS[.fraction]` clock string into milliseconds.
///
/// Returns `None` when the string does not have that exact shape or a field
/// is out of range; a well-formed string always parses.
pub fn time_str_to_milliseconds(time_str: &str) -> (r: Option<u64>)
    ensures
        r == time_ms_spec(time_str@),
{
    let n = time_str.unicode_len();
    if n < 8 {
        return None;
    }
    let c0 = time_str.get_char(0);
    let c1 = time_str.get_char(1);
    let c3 = time_str.get_char(3);
    let c4 = time_str.get_char(4);
    let c6 = time_str.get_char(6);
    let c7 = time_str.get_char(7);
    if !(digit_char(c0) && digit_char(c1) && time_str.get_char(2) == ':' && digit_char(c3)
        && digit_char(c4) && time_str.get_char(5) == ':' && digit_char(c6) && digit_char(c7)) {
        return None;
    }
    let hours = 10 * digit_value(c0) + digit_value(c1);
    let minutes = 10 * digit_value(c3) + digit_value(c4);
    let seconds = 10 * digit_value(c6) + digit_value(c7);
    if hours > 23 || minutes > 59 || seconds > 59 {
        return None;
    }
    let mut frac: u64 = 0;
    if n > 8 {
        if n == 9 || time_str.get_char(8) != '.' {
            return None;
        }
        let mut j: usize = 9;
        while j < n
            invariant
                9 <= j <= n,
                n == time_str@.len(),
                forall|k: int| 9 <= k < j ==> is_digit(#[trigger] time_str@[k]),
            decreases n - j,
        {
            if !digit_char(time_str.get_char(j)) {
                return None;
            }
            j += 1;
        }
        frac = 100 * digit_value(time_str.get_char(9));
        if n >= 11 {
            frac = frac + 10 * digit_value(time_str.get_char(10));
        }
        if n >= 12 {
            frac = frac + digit_value(time_str.get_char(11));
        }
    }
    Some((hours * 3600 + minutes * 60 + seconds) * 1000 + frac)
}

} // verus!
