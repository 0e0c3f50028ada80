//! Base-10 signed integer parsing of raw wire fields.
//!
//! A field holds the text form of an integer: an optional `+` or `-` sign
//! followed by one or more decimal digits.  The spec functions here say
//! which byte sequences are such texts and what integer they denote; the
//! executable parsers are proved to return exactly that integer, and to
//! fail exactly on malformed or out-of-range texts.
use vstd::prelude::*;

verus! {

/// ASCII decimal digit.
pub open spec fn is_digit(b: u8) -> bool {
    48 <= b && b <= 57
}

pub open spec fn all_digits(s: Seq<u8>) -> bool {
    forall|i: int| 0 <= i < s.len() ==> is_digit(s[i])
}

/// The non-negative value of a run of decimal digits.
pub open spec fn digits_value(s: Seq<u8>) -> int
    decreases s.len(),
{
    if s.len() == 0 {
        0
    } else {
        digits_value(s.drop_last()) * 10 + (s.last() - 48)
    }
}

/// Whether `s` is the text form of a signed base-10 integer:
/// an optional sign byte, then at least one digit.
pub open spec fn is_int_text(s: Seq<u8>) -> bool {
    if s.len() == 0 {
        false
    } else if s[0] == 43 || s[0] == 45 {
        s.len() > 1 && all_digits(s.skip(1))
    } else {
        all_digits(s)
    }
}

/// The integer a well-formed text denotes.
pub open spec fn int_text_value(s: Seq<u8>) -> int {
    if s.len() > 0 && s[0] == 45 {
        -digits_value(s.skip(1))
    } else if s.len() > 0 && s[0] == 43 {
        digits_value(s.skip(1))
    } else {
        digits_value(s)
    }
}

pub proof fn lemma_digits_value_nonneg(s: Seq<u8>)
    requires
        all_digits(s),
    ensures
        digits_value(s) >= 0,
    decreases s.len(),
{
    if s.len() > 0 {
        assert(all_digits(s.drop_last()));
        lemma_digits_value_nonneg(s.drop_last());
    }
}

/// Appending digits never decreases the value of a digit run.
pub proof fn lemma_digits_value_prefix_le(s: Seq<u8>, i: int)
    requires
        all_digits(s),
        0 <= i <= s.len(),
    ensures
        digits_value(s.take(i)) <= digits_value(s),
    decreases s.len() - i,
{
    if i < s.len() {
        let t = s.take(i + 1);
        assert(t.drop_last() =~= s.take(i));
        assert(all_digits(s.take(i)));
        lemma_digits_value_nonneg(s.take(i));
        assert(digits_value(t) == digits_value(s.take(i)) * 10 + (s[i] - 48));
        assert(digits_value(s.take(i)) * 10 >= digits_value(s.take(i))) by (nonlinear_arith)
            requires digits_value(s.take(i)) >= 0;
        lemma_digits_value_prefix_le(s, i + 1);
    } else {
        assert(s.take(i) =~= s);
    }
}

/// Parses an i64 magnitude capped by `limit`; helper shared by the signed
/// parsers.  Returns the value of the digit run `s[start..]`, or `None`
/// exactly when that run is empty, holds a non-digit, or exceeds `limit`.
fn parse_magnitude(s: &[u8], start: usize, limit: u64) -> (r: Option<u64>)
    requires
        start <= s@.len(),
        limit >= 9,
    ensures
        match r {
            Some(m) => {
                &&& all_digits(s@.skip(start as int))
                &&& s@.len() > start
                &&& m == digits_value(s@.skip(start as int))
                &&& m <= limit
            },
            None => {
                ||| s@.len() == start
                ||| !all_digits(s@.skip(start as int))
                ||| digits_value(s@.skip(start as int)) > limit
            },
        },
{
    let ghost digits = s@.skip(start as int);
    if s.len() == start {
        return None;
    }
    let mut mag: u64 = 0;
    let mut i: usize = start;
    while i < s.len()
        invariant
            start <= i <= s@.len(),
            s@.len() > start,
            limit >= 9,
            digits == s@.skip(start as int),
            all_digits(digits.take(i - start)),
            mag == digits_value(digits.take(i - start)),
            mag <= limit,
        decreases s@.len() - i,
    {
        let b = s[i];
        if b < 48 || b > 57 {
            assert(digits[i - start] == s@[i as int]);
            assert(!all_digits(digits));
            return None;
        }
        let d: u64 = (b - 48) as u64;
        assert(digits.take(i + 1 - start).drop_last() =~= digits.take(i - start));
        assert(digits.take(i + 1 - start).last() == s@[i as int]);
        if mag > (limit - d) / 10 {
            // The prefix alone already exceeds the cap, so the whole run does.
            proof {
                let cap = (limit - d) as int;
                assert(mag * 10 >= cap - 9 + 10) by (nonlinear_arith)
                    requires mag > cap / 10, cap >= 0, mag >= 0;
                assert(digits_value(digits.take(i + 1 - start)) > limit);
                if all_digits(digits) {
                    lemma_digits_value_prefix_le(digits, i + 1 - start);
                }
            }
            return None;
        }
        assert(mag * 10 + d <= limit) by (nonlinear_arith)
            requires mag <= (limit - d) / 10, d <= limit, mag >= 0, d >= 0;
        mag = mag * 10 + d;
        i = i + 1;
    }
    assert(digits.take(i - start) =~= digits);
    Some(mag)
}

/// Base-10 signed parse into `i64`, as the wire protocol's integer and
/// long fields use it.  Succeeds exactly on well-formed texts whose value
/// fits in `i64`, and then returns that value.
pub fn parse_i64(s: &[u8]) -> (r: Option<i64>)
    ensures
        r is Some <==> is_int_text(s@) && i64::MIN <= int_text_value(s@) <= i64::MAX,
        r is Some ==> r->0 == int_text_value(s@),
{
    if s.len() == 0 {
        return None;
    }
    let b0 = s[0];
    if b0 == 45 {
        let m = parse_magnitude(s, 1, 9223372036854775808u64);
        match m {
            Some(mag) => {
                proof { lemma_digits_value_nonneg(s@.skip(1)); }
                if mag == 9223372036854775808u64 {
                    Some(i64::MIN)
                } else {
                    Some(-(mag as i64))
                }
            },
            None => None,
        }
    } else if b0 == 43 {
        let m = parse_magnitude(s, 1, 9223372036854775807u64);
        match m {
            Some(mag) => Some(mag as i64),
            None => {
                proof {
                    if s@.len() > 1 && all_digits(s@.skip(1)) {
                        lemma_digits_value_nonneg(s@.skip(1));
                    }
                }
                None
            },
        }
    } else {
        let m = parse_magnitude(s, 0, 9223372036854775807u64);
        match m {
            Some(mag) => {
                assert(s@.skip(0) =~= s@);
                Some(mag as i64)
            },
            None => {
                proof {
                    assert(s@.skip(0) =~= s@);
                    if all_digits(s@) {
                        lemma_digits_value_nonneg(s@);
                    }
                }
                None
            },
        }
    }
}

/// Base-10 signed parse into `i32`: the type code, version and identifier
/// fields of the protocol.  Succeeds exactly on well-formed texts whose
/// value fits in `i32`.
pub fn parse_i32(s: &[u8]) -> (r: Option<i32>)
    ensures
        r is Some <==> is_int_text(s@) && i32::MIN <= int_text_value(s@) <= i32::MAX,
        r is Some ==> r->0 == int_text_value(s@),
{
    match parse_i64(s) {
        Some(v) => {
            if v >= i32::MIN as i64 && v <= i32::MAX as i64 {
                Some(v as i32)
            } else {
                None
            }
        },
        None => None,
    }
}

} // verus!
