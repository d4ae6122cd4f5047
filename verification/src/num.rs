//! Decimal formatting and parsing of integers (`Display` for `u64`/`i64`,
//! `str::parse::<u64>` / `str::parse::<i64>`).

use vstd::prelude::*;

use crate::text::{chars_of, push_char, string_of};

verus! {

/// The ASCII digit for `d` (0..=9).
pub open spec fn digit_char(d: nat) -> char {
    if d == 0 {
        '0'
    } else if d == 1 {
        '1'
    } else if d == 2 {
        '2'
    } else if d == 3 {
        '3'
    } else if d == 4 {
        '4'
    } else if d == 5 {
        '5'
    } else if d == 6 {
        '6'
    } else if d == 7 {
        '7'
    } else if d == 8 {
        '8'
    } else {
        '9'
    }
}

/// Whether `c` is an ASCII digit.
pub open spec fn is_digit(c: char) -> bool {
    '0' <= c && c <= '9'
}

/// The value of the ASCII digit `c`.
pub open spec fn digit_value(c: char) -> nat {
    ((c as u32) - ('0' as u32)) as nat
}

/// Decimal representation of `n`, without leading zeros.
pub open spec fn dec(n: nat) -> Seq<char>
    decreases n,
{
    if n < 10 {
        seq![digit_char(n)]
    } else {
        dec(n / 10).push(digit_char(n % 10))
    }
}

/// Decimal representation of a signed integer.
pub open spec fn dec_int(n: int) -> Seq<char> {
    if n < 0 {
        seq!['-'] + dec((-n) as nat)
    } else {
        dec(n as nat)
    }
}

fn digit(d: u64) -> (c: char)
    requires
        d < 10,
    ensures
        c == digit_char(d as nat),
{
    if d == 0 {
        '0'
    } else if d == 1 {
        '1'
    } else if d == 2 {
        '2'
    } else if d == 3 {
        '3'
    } else if d == 4 {
        '4'
    } else if d == 5 {
        '5'
    } else if d == 6 {
        '6'
    } else if d == 7 {
        '7'
    } else if d == 8 {
        '8'
    } else {
        '9'
    }
}

/// Appends the decimal representation of `n` to `s`.
pub fn push_u64(s: &mut String, n: u64)
    ensures
        final(s)@ == old(s)@ + dec(n as nat),
    decreases n,
{
    if n < 10 {
        push_char(s, digit(n));
        assert(old(s)@.push(digit_char(n as nat)) =~= old(s)@ + dec(n as nat));
    } else {
        push_u64(s, n / 10);
        push_char(s, digit(n % 10));
        assert((old(s)@ + dec((n / 10) as nat)).push(digit_char((n % 10) as nat)) =~= old(s)@
            + dec(n as nat));
    }
}

/// `n.to_string()` for `u64`.
pub fn u64_to_string(n: u64) -> (s: String)
    ensures
        s@ == dec(n as nat),
{
    let mut s = String::new();
    push_u64(&mut s, n);
    assert(Seq::<char>::empty() + dec(n as nat) =~= dec(n as nat));
    s
}

/// Appends the decimal representation of a signed `n` to `s`.
pub fn push_i64(s: &mut String, n: i64)
    ensures
        final(s)@ == old(s)@ + dec_int(n as int),
{
    if n < 0 {
        push_char(s, '-');
        let m: u64 = (0i128 - n as i128) as u64;
        push_u64(s, m);
        assert(old(s)@.push('-') + dec(m as nat) =~= old(s)@ + dec_int(n as int));
    } else {
        push_u64(s, n as u64);
    }
}

/// `n.to_string()` for `i64`.
pub fn i64_to_string(n: i64) -> (s: String)
    ensures
        s@ == dec_int(n as int),
{
    let mut s = String::new();
    push_i64(&mut s, n);
    assert(Seq::<char>::empty() + dec_int(n as int) =~= dec_int(n as int));
    s
}

/// Whether every character of `ds` is an ASCII digit.
pub open spec fn all_digits(ds: Seq<char>) -> bool {
    forall|k: int| 0 <= k < ds.len() ==> is_digit(#[trigger] ds[k])
}

/// The value of a digit string, most significant digit first.
pub open spec fn digits_value(ds: Seq<char>) -> nat
    decreases ds.len(),
{
    if ds.len() == 0 {
        0
    } else {
        digits_value(ds.drop_last()) * 10 + digit_value(ds.last())
    }
}

/// The digits after an optional leading `+`.
pub open spec fn unsigned_body(s: Seq<char>) -> Seq<char> {
    if s.len() > 0 && s[0] == '+' {
        s.drop_first()
    } else {
        s
    }
}

/// `str::parse::<u64>`: an optional `+`, at least one digit, only digits,
/// and a value that fits.
pub open spec fn parse_u64_spec(s: Seq<char>) -> Option<u64> {
    let body = unsigned_body(s);
    if body.len() > 0 && all_digits(body) && digits_value(body) <= u64::MAX {
        Some(digits_value(body) as u64)
    } else {
        None
    }
}

/// `str::parse::<i64>`: an optional sign, at least one digit, only digits,
/// and a value that fits.
pub open spec fn parse_i64_spec(s: Seq<char>) -> Option<i64> {
    if s.len() > 0 && s[0] == '-' {
        let body = s.drop_first();
        if body.len() > 0 && all_digits(body) && digits_value(body) <= 0x8000_0000_0000_0000 {
            Some((0 - digits_value(body)) as i64)
        } else {
            None
        }
    } else {
        let body = unsigned_body(s);
        if body.len() > 0 && all_digits(body) && digits_value(body) <= i64::MAX {
            Some(digits_value(body) as i64)
        } else {
            None
        }
    }
}

/// Reads a run of digits, reporting its value when it is at most `limit`.
fn digits_up_to(ds: &[char], limit: u64) -> (r: Option<u64>)
    ensures
        r matches Some(v) ==> all_digits(ds@) && ds@.len() > 0 && v == digits_value(ds@)
            && v <= limit,
        r is None ==> !(all_digits(ds@) && ds@.len() > 0 && digits_value(ds@) <= limit),
{
    if ds.len() == 0 {
        return None;
    }
    let mut acc: u128 = 0;
    let mut over = false;
    let mut i: usize = 0;
    while i < ds.len()
        invariant
            i <= ds@.len(),
            all_digits(ds@.take(i as int)),
            !over ==> acc == digits_value(ds@.take(i as int)) && acc <= limit,
            over ==> digits_value(ds@.take(i as int)) > limit,
        decreases ds@.len() - i,
    {
        let c = ds[i];
        if !('0' <= c && c <= '9') {
            assert(!all_digits(ds@)) by {
                assert(ds@[i as int] == c);
            }
            return None;
        }
        let d = (c as u32 - '0' as u32) as u128;
        assert(ds@.take(i + 1).drop_last() =~= ds@.take(i as int));
        assert(ds@.take(i + 1).last() == c);
        assert(all_digits(ds@.take(i + 1))) by {
            assert forall|k: int| 0 <= k < i + 1 implies is_digit(#[trigger] ds@.take(i + 1)[k]) by {
                if k < i {
                    assert(ds@.take(i + 1)[k] == ds@.take(i as int)[k]);
                }
            }
        }
        if !over {
            acc = acc * 10 + d;
            if acc > limit as u128 {
                over = true;
            }
        } else {
            assert(digits_value(ds@.take(i + 1)) >= digits_value(ds@.take(i as int)) * 10);
        }
        i = i + 1;
    }
    assert(ds@.take(ds@.len() as int) =~= ds@);
    if over {
        None
    } else {
        Some(acc as u64)
    }
}

/// `s.parse::<u64>().ok()`.
pub fn parse_u64(s: &str) -> (r: Option<u64>)
    ensures
        r == parse_u64_spec(s@),
{
    let cs = chars_of(s);
    let n = cs.len();
    let start: usize = if n > 0 && cs[0] == '+' {
        1
    } else {
        0
    };
    let body = crate::text::slice_chars(cs.as_slice(), start, n);
    assert(body@ =~= unsigned_body(s@));
    digits_up_to(body.as_slice(), u64::MAX)
}

/// `s.parse::<i64>().ok()`.
pub fn parse_i64(s: &str) -> (r: Option<i64>)
    ensures
        r == parse_i64_spec(s@),
{
    let cs = chars_of(s);
    let n = cs.len();
    if n > 0 && cs[0] == '-' {
        let body = crate::text::slice_chars(cs.as_slice(), 1, n);
        assert(body@ =~= s@.drop_first());
        match digits_up_to(body.as_slice(), 0x8000_0000_0000_0000u64) {
            None => None,
            Some(v) => {
                if v == 0x8000_0000_0000_0000u64 {
                    Some(i64::MIN)
                } else {
                    Some(0 - (v as i64))
                }
            },
        }
    } else {
        let start: usize = if n > 0 && cs[0] == '+' {
            1
        } else {
            0
        };
        let body = crate::text::slice_chars(cs.as_slice(), start, n);
        assert(body@ =~= unsigned_body(s@));
        match digits_up_to(body.as_slice(), i64::MAX as u64) {
            None => None,
            Some(v) => Some(v as i64),
        }
    }
}

} // verus!
