//! Decimal numerals.
use vstd::prelude::*;

verus! {

/// Largest magnitude that the scan keeps exactly: every supported width lies within it.
pub const MAGNITUDE_LIMIT: u64 = 0x1_0000_0000;

/// Whether `c` is one of the ten ASCII digits.
pub open spec fn is_digit(c: char) -> bool {
    '0' <= c <= '9'
}

/// The digit that `c` stands for.
pub open spec fn digit_of(c: char) -> nat {
    (c as u32 - '0' as u32) as nat
}

/// Whether `s` holds ASCII digits only.
pub open spec fn all_digits(s: Seq<char>) -> bool {
    forall|i: int| 0 <= i < s.len() ==> is_digit(#[trigger] s[i])
}

/// The number that the digits of `s` write in base ten, the first digit weighing most.
pub open spec fn digits_number(s: Seq<char>) -> nat
    decreases s.len(),
{
    if s.len() == 0 {
        0
    } else {
        digits_number(s.drop_last()) * 10 + digit_of(s.last())
    }
}

/// Where the digits of a numeral start: behind a `+`, or behind a `-` where the
/// target is signed.
pub open spec fn numeral_start(s: Seq<char>, signed: bool) -> int {
    if s.len() > 0 && (s[0] == '+' || (signed && s[0] == '-')) {
        1
    } else {
        0
    }
}

/// The integer that `s` writes: an optional sign and at least one digit,
/// nothing else. A `-` is a sign only for a signed target.
pub open spec fn decimal(s: Seq<char>, signed: bool) -> Option<int> {
    let start = numeral_start(s, signed);
    let body = s.subrange(start, s.len() as int);
    if body.len() > 0 && all_digits(body) {
        if start == 1 && s[0] == '-' {
            Some(-(digits_number(body) as int))
        } else {
            Some(digits_number(body) as int)
        }
    } else {
        None
    }
}

/// `decimal`, kept only where it lies within `lo..=hi`.
pub open spec fn decimal_within(s: Seq<char>, signed: bool, lo: int, hi: int) -> Option<int> {
    match decimal(s, signed) {
        Some(n) => if lo <= n <= hi {
            Some(n)
        } else {
            None
        },
        None => None,
    }
}

/// Reads `text` as a decimal numeral and returns its value where that lies
/// within `lo..=hi`.
pub fn parse_decimal(text: &str, signed: bool, lo: i64, hi: i64) -> (r: Option<i64>)
    requires
        -(MAGNITUDE_LIMIT as int) <= lo <= hi <= MAGNITUDE_LIMIT as int,
    ensures
        r matches Some(n) ==> decimal_within(text@, signed, lo as int, hi as int) == Some(n as int),
        r is None ==> decimal_within(text@, signed, lo as int, hi as int) is None,
{
    let mut negative = false;
    let mut start: usize = 0;
    let mut first = true;
    let mut any = false;
    let mut magnitude: u64 = 0;
    let mut over = false;
    let chars = text.chars();
    for c in it: chars
        invariant
            it.seq() == text@,
            start as int == if it.index() == 0 { 0 } else { numeral_start(text@, signed) },
            start <= 1,
            negative == (start == 1 && text@[0] == '-'),
            first == (it.index() == 0),
            any == (it.index() - start > 0),
            all_digits(text@.subrange(start as int, it.index() as int)),
            !over ==> magnitude as nat == digits_number(
                text@.subrange(start as int, it.index() as int),
            ),
            !over ==> magnitude <= MAGNITUDE_LIMIT,
            over ==> digits_number(text@.subrange(start as int, it.index() as int))
                > MAGNITUDE_LIMIT,
    {
        let ghost idx = it.index() as int;
        if first && (c == '+' || (signed && c == '-')) {
            negative = c == '-';
            start = 1;
            assert(text@.subrange(1, 1) =~= Seq::<char>::empty());
        } else if '0' <= c && c <= '9' {
            let digit: u64 = (c as u32 - '0' as u32) as u64;
            proof {
                let grown = text@.subrange(start as int, idx + 1);
                assert(grown.drop_last() =~= text@.subrange(start as int, idx));
                assert(grown.last() == c);
                if idx == 0 {
                    assert(numeral_start(text@, signed) == 0);
                }
            }
            if !over {
                magnitude = magnitude * 10 + digit;
                if magnitude > MAGNITUDE_LIMIT {
                    over = true;
                }
            }
            any = true;
        } else {
            proof {
                let from = numeral_start(text@, signed);
                let body = text@.subrange(from, text@.len() as int);
                assert(from == start || idx == 0);
                assert(body[idx - from] == c);
                assert(!is_digit(body[idx - from]));
            }
            return None;
        }
        first = false;
    }
    proof {
        if text@.len() == 0 {
            assert(numeral_start(text@, signed) == 0);
        }
    }
    if !any || over {
        return None;
    }
    let value: i64 = if negative {
        -(magnitude as i64)
    } else {
        magnitude as i64
    };
    if lo <= value && value <= hi {
        Some(value)
    } else {
        None
    }
}

} // verus!
