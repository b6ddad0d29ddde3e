//! The numeric settings of a run (rate, pool size, timeout, scheduler
//! threads): each read from text, with a default whenever the text is no
//! positive whole number.

use vstd::prelude::*;

verus! {

pub open spec fn is_digit(c: char) -> bool {
    '0' <= c <= '9'
}

/// The value of a string of decimal digits.
pub open spec fn digits_value(s: Seq<char>) -> int
    decreases s.len(),
{
    if s.len() == 0 {
        0
    } else {
        digits_value(s.drop_last()) * 10 + (s.last() as int - '0' as int)
    }
}

/// The digits of an unsigned decimal: the text without one leading `+`.
pub open spec fn unsigned_digits(s: Seq<char>) -> Seq<char> {
    if s.len() > 0 && s[0] == '+' {
        s.skip(1)
    } else {
        s
    }
}

/// The unsigned decimal that a text spells, as `u64::from_str` reads it: an
/// optional `+`, then one or more digits and nothing else; none otherwise,
/// and none when the value does not fit in 64 bits.
pub open spec fn decimal_u64(s: Seq<char>) -> Option<u64> {
    let d = unsigned_digits(s);
    if d.len() > 0 && (forall|i: int| 0 <= i < d.len() ==> is_digit(#[trigger] d[i])) && digits_value(
        d,
    ) <= u64::MAX {
        Some(digits_value(d) as u64)
    } else {
        None
    }
}

/// Reads an unsigned decimal.
pub fn parse_u64(text: &str) -> (r: Option<u64>)
    ensures
        r == decimal_u64(text@),
{
    let n = text.unicode_len();
    let start: usize = if n > 0 && text.get_char(0) == '+' {
        1
    } else {
        0
    };
    let ghost d = unsigned_digits(text@);
    assert(d =~= text@.subrange(start as int, n as int));
    if start == n {
        return None;
    }
    let mut acc: u64 = 0;
    let mut over = false;
    let mut i: usize = start;
    while i < n
        invariant
            n == text@.len(),
            start <= i <= n,
            d == text@.subrange(start as int, n as int),
            d == unsigned_digits(text@),
            forall|k: int| 0 <= k < i - start ==> is_digit(#[trigger] d[k]),
            over ==> digits_value(d.take(i - start)) > u64::MAX,
            !over ==> acc == digits_value(d.take(i - start)),
        decreases n - i,
    {
        let c = text.get_char(i);
        if !('0' <= c && c <= '9') {
            assert(d[i - start] == c);
            assert(!is_digit(d[i - start]));
            return None;
        }
        let ghost prev = d.take(i - start);
        assert(d.take(i - start + 1).drop_last() =~= prev);
        assert(d.take(i - start + 1).last() == c);
        let dig = (c as u32 - '0' as u32) as u64;
        if !over {
            match acc.checked_mul(10) {
                Some(m) => match m.checked_add(dig) {
                    Some(v) => {
                        acc = v;
                    },
                    None => {
                        over = true;
                    },
                },
                None => {
                    over = true;
                },
            }
        }
        i = i + 1;
    }
    assert(d.take(n - start) =~= d);
    if over {
        None
    } else {
        Some(acc)
    }
}

/// A setting as read: its value, and whether the default stood in for it.
#[derive(PartialEq, Eq, Structural, Clone, Copy, Debug)]
pub struct Setting {
    pub value: u64,
    pub defaulted: bool,
}

/// The value that a text sets: the number it spells when that is positive,
/// else the default.
pub open spec fn setting_value(text: Seq<char>, default: u64) -> u64 {
    match decimal_u64(text) {
        Some(v) => if v > 0 {
            v
        } else {
            default
        },
        None => default,
    }
}

/// Reads a positive setting; text that is no positive number gives the
/// default, marked so that the caller can warn.
pub fn read_setting(text: &str, default: u64) -> (r: Setting)
    ensures
        r.value == setting_value(text@, default),
        r.defaulted == !(decimal_u64(text@) matches Some(v) && v > 0),
{
    match parse_u64(text) {
        Some(v) => if v > 0 {
            Setting { value: v, defaulted: false }
        } else {
            Setting { value: default, defaulted: true }
        },
        None => Setting { value: default, defaulted: true },
    }
}

} // verus!
