//! The grammar of week arguments typed by the user: a week number,
//! optionally followed by `A` or `B` to address one half of a week that
//! straddles a month boundary ("46", "1A", "52b").

use crate::week::WeekPart;
use vstd::prelude::*;
use vstd::string::StringSliceAdditionalSpecFns;

verus! {

#[derive(Clone, Copy, Debug, PartialEq, Eq, Structural)]
pub struct WeekAndPart {
    pub number: Option<u8>,
    pub part: Option<WeekPart>,
}

#[derive(Clone, Copy, Debug, PartialEq, Eq, Structural)]
pub enum WeekParseError {
    /// The input is empty.
    Empty,
    /// The trailing letter is neither `A`/`a` nor `B`/`b`.
    InvalidPart,
    /// The number is not made of digits, or does not fit in a week
    /// number's width.
    InvalidNumber,
}

pub open spec fn is_digit(c: u8) -> bool {
    '0' as u8 <= c <= '9' as u8
}

pub open spec fn all_digits(t: Seq<u8>) -> bool {
    forall|i: int| 0 <= i < t.len() ==> is_digit(#[trigger] t[i])
}

/// The numeric value of a digit string, most significant first.
pub open spec fn digits_value(t: Seq<u8>) -> int
    decreases t.len(),
{
    if t.len() == 0 {
        0
    } else {
        digits_value(t.subrange(0, t.len() - 1)) * 10 + (t[t.len() - 1] - '0' as u8)
    }
}

/// A decimal number parses when it is a nonempty digit string whose
/// value fits the width.
pub open spec fn parse_u8_spec(t: Seq<u8>) -> Option<u8> {
    if t.len() > 0 && all_digits(t) && digits_value(t) <= 255 {
        Some(digits_value(t) as u8)
    } else {
        None
    }
}

/// Parses `b[start..end]` as a decimal number.
pub(crate) fn parse_u8_range(b: &[u8], start: usize, end: usize) -> (r: Option<u8>)
    requires
        start <= end <= b@.len(),
    ensures
        r == parse_u8_spec(b@.subrange(start as int, end as int)),
{
    let ghost t = b@.subrange(start as int, end as int);
    if start == end {
        return None;
    }
    let mut acc: u32 = 0;
    let mut i: usize = start;
    while i < end
        invariant
            start <= i <= end <= b@.len(),
            t == b@.subrange(start as int, end as int),
            all_digits(t.subrange(0, i - start)),
            acc == digits_value(t.subrange(0, i - start)),
            acc <= 255,
        decreases end - i,
    {
        let c = b[i];
        proof {
            assert(t[i - start] == b@[i as int]);
        }
        if c < ('0' as u8) || c > ('9' as u8) {
            proof {
                assert(t.subrange(0, t.len() as int) =~= t);
                assert(!all_digits(t));
            }
            return None;
        }
        let v: u32 = acc * 10 + ((c - ('0' as u8)) as u32);
        proof {
            assert(t.subrange(0, i - start + 1).subrange(0, i - start) =~= t.subrange(
                0,
                i - start,
            ));
        }
        if v > 255 {
            proof {
                let p = t.subrange(0, i - start + 1);
                assert(all_digits(p)) by {
                    assert forall|j: int| 0 <= j < p.len() implies is_digit(#[trigger] p[j]) by {
                        if j < i - start {
                            assert(p[j] == t.subrange(0, i - start)[j]);
                        } else {
                            assert(p[j] == t[i - start]);
                        }
                    }
                }
                assert(digits_value(p) == v);
                lemma_digits_value_grows(t, i - start + 1);
                assert(t.subrange(0, t.len() as int) =~= t);
            }
            return None;
        }
        acc = v;
        i = i + 1;
    }
    proof {
        assert(t.subrange(0, t.len() as int) =~= t);
    }
    Some(acc as u8)
}

/// A digit string's value only grows as digits are appended.
proof fn lemma_digits_value_grows(t: Seq<u8>, k: int)
    requires
        0 <= k <= t.len(),
        all_digits(t.subrange(0, k)),
    ensures
        digits_value(t.subrange(0, k)) <= digits_value(t.subrange(0, t.len() as int)) || !all_digits(
            t,
        ),
    decreases t.len() - k,
{
    if k < t.len() {
        if all_digits(t) {
            let a = t.subrange(0, k);
            let b = t.subrange(0, k + 1);
            assert(b.subrange(0, k) =~= a);
            assert(all_digits(b)) by {
                assert forall|i: int| 0 <= i < b.len() implies is_digit(#[trigger] b[i]) by {
                    assert(b[i] == t[i]);
                }
            }
            assert(digits_value(b) == digits_value(a) * 10 + (b[k] - '0' as u8));
            assert(digits_value(a) >= 0) by {
                lemma_digits_value_nonneg(a);
            }
            lemma_digits_value_grows(t, k + 1);
        }
    } else {
        assert(t.subrange(0, t.len() as int) =~= t.subrange(0, k));
    }
}

proof fn lemma_digits_value_nonneg(t: Seq<u8>)
    requires
        all_digits(t),
    ensures
        digits_value(t) >= 0,
    decreases t.len(),
{
    if t.len() > 0 {
        let a = t.subrange(0, t.len() - 1);
        assert(all_digits(a)) by {
            assert forall|i: int| 0 <= i < a.len() implies is_digit(#[trigger] a[i]) by {
                assert(a[i] == t[i]);
            }
        }
        lemma_digits_value_nonneg(a);
    }
}

/// The meaning of a week argument: digits alone name a whole week;
/// digits followed by `A`/`B` name that half of the week.
pub open spec fn parse_week_and_part_spec(t: Seq<u8>) -> Result<WeekAndPart, WeekParseError> {
    if t.len() == 0 {
        Err(WeekParseError::Empty)
    } else if is_digit(t[t.len() - 1]) {
        match parse_u8_spec(t) {
            Some(v) => Ok(
                WeekAndPart { number: Some(v), part: Some(WeekPart::Whole) },
            ),
            None => Err(WeekParseError::InvalidNumber),
        }
    } else {
        let c = t[t.len() - 1];
        if c == 'A' as u8 || c == 'a' as u8 || c == 'B' as u8 || c == 'b' as u8 {
            let part = if c == 'A' as u8 || c == 'a' as u8 {
                WeekPart::A
            } else {
                WeekPart::B
            };
            match parse_u8_spec(t.subrange(0, t.len() - 1)) {
                Some(v) => Ok(WeekAndPart { number: Some(v), part: Some(part) }),
                None => Err(WeekParseError::InvalidNumber),
            }
        } else {
            Err(WeekParseError::InvalidPart)
        }
    }
}

/// Parses a week argument such as "46", "1A" or "52b".
pub fn parse_week_and_part(input: &str) -> (r: Result<WeekAndPart, WeekParseError>)
    ensures
        r == parse_week_and_part_spec(input.spec_bytes()),
{
    let b = input.as_bytes();
    let n = b.len();
    proof {
        assert(b@.subrange(0, n as int) =~= b@);
    }
    if n == 0 {
        return Err(WeekParseError::Empty);
    }
    let c = b[n - 1];
    if ('0' as u8) <= c && c <= ('9' as u8) {
        match parse_u8_range(b, 0, n) {
            Some(v) => Ok(WeekAndPart { number: Some(v), part: Some(WeekPart::Whole) }),
            None => Err(WeekParseError::InvalidNumber),
        }
    } else if c == ('A' as u8) || c == ('a' as u8) || c == ('B' as u8) || c == ('b' as u8) {
        let part = if c == ('A' as u8) || c == ('a' as u8) {
            WeekPart::A
        } else {
            WeekPart::B
        };
        match parse_u8_range(b, 0, n - 1) {
            Some(v) => Ok(WeekAndPart { number: Some(v), part: Some(part) }),
            None => Err(WeekParseError::InvalidNumber),
        }
    } else {
        Err(WeekParseError::InvalidPart)
    }
}

} // verus!
