//! Verified decimal integer parsing, mirroring `str::parse` for the
//! unsigned and signed integer widths the transforms need: an optional
//! sign, then one or more ASCII digits, rejected on overflow.

use vstd::prelude::*;
use vstd::string::StrSliceExecFns;

verus! {

pub open spec fn is_digit(c: char) -> bool {
    '0' <= c && c <= '9'
}

pub open spec fn digit_val(c: char) -> int {
    (c as u32) - 48
}

pub open spec fn all_digits(s: Seq<char>) -> bool {
    forall|i: int| 0 <= i < s.len() ==> is_digit(s[i])
}

/// The number a digit string denotes, most significant digit first.
pub open spec fn digits_val(s: Seq<char>) -> int
    decreases s.len(),
{
    if s.len() == 0 {
        0
    } else {
        digits_val(s.drop_last()) * 10 + digit_val(s.last())
    }
}

/// The sign and the digit part of a signed decimal string.
pub open spec fn sign_mag(s: Seq<char>) -> (bool, Seq<char>) {
    if s.len() > 0 && s[0] == '-' {
        (true, s.drop_first())
    } else if s.len() > 0 && s[0] == '+' {
        (false, s.drop_first())
    } else {
        (false, s)
    }
}

pub open spec fn valid_signed_str(s: Seq<char>) -> bool {
    sign_mag(s).1.len() > 0 && all_digits(sign_mag(s).1)
}

pub open spec fn signed_val(s: Seq<char>) -> int {
    if sign_mag(s).0 {
        -digits_val(sign_mag(s).1)
    } else {
        digits_val(sign_mag(s).1)
    }
}

/// The digit part of an unsigned decimal string; only `+` is a legal sign.
pub open spec fn unsigned_digits(s: Seq<char>) -> Seq<char> {
    if s.len() > 0 && s[0] == '+' {
        s.drop_first()
    } else {
        s
    }
}

pub open spec fn valid_u32_str(s: Seq<char>) -> bool {
    &&& unsigned_digits(s).len() > 0
    &&& all_digits(unsigned_digits(s))
    &&& digits_val(unsigned_digits(s)) <= u32::MAX
}

/// What `str::parse::<u32>` returns, as success or failure plus the value.
pub open spec fn spec_parse_u32(s: Seq<char>) -> Option<u32> {
    if valid_u32_str(s) {
        Some(digits_val(unsigned_digits(s)) as u32)
    } else {
        None
    }
}

/// What `str::parse::<i32>` returns.
pub open spec fn spec_parse_i32(s: Seq<char>) -> Option<i32> {
    if valid_signed_str(s) && i32::MIN <= signed_val(s) <= i32::MAX {
        Some(signed_val(s) as i32)
    } else {
        None
    }
}

/// What `str::parse::<i8>` returns.
pub open spec fn spec_parse_i8(s: Seq<char>) -> Option<i8> {
    if valid_signed_str(s) && i8::MIN <= signed_val(s) <= i8::MAX {
        Some(signed_val(s) as i8)
    } else {
        None
    }
}

pub proof fn lemma_digits_val_nonneg(s: Seq<char>)
    requires
        all_digits(s),
    ensures
        digits_val(s) >= 0,
    decreases s.len(),
{
    if s.len() > 0 {
        assert(all_digits(s.drop_last()));
        lemma_digits_val_nonneg(s.drop_last());
    }
}

/// A digit string is worth at least any of its prefixes.
pub proof fn lemma_digits_val_prefix(s: Seq<char>, k: int)
    requires
        all_digits(s),
        0 <= k <= s.len(),
    ensures
        digits_val(s) >= digits_val(s.take(k)),
    decreases s.len() - k,
{
    if k == s.len() {
        assert(s.take(k) =~= s);
    } else {
        lemma_digits_val_prefix(s, k + 1);
        assert(s.take(k + 1).drop_last() =~= s.take(k));
        assert(all_digits(s.take(k)));
        lemma_digits_val_nonneg(s.take(k));
        assert(digits_val(s.take(k + 1)) == digits_val(s.take(k)) * 10 + digit_val(s[k]));
    }
}

/// Parse the digits of `s` from position `from` on into a `u64`, failing
/// on a non-digit, an empty digit part, or a value above `u32::MAX`.
fn parse_digits_u64(s: &str, from: usize) -> (r: Option<u64>)
    requires
        from <= s@.len(),
    ensures
        match r {
            Some(v) => {
                let d = s@.skip(from as int);
                &&& d.len() > 0
                &&& all_digits(d)
                &&& digits_val(d) == v
                &&& v <= u32::MAX
            },
            None => {
                let d = s@.skip(from as int);
                d.len() == 0 || !all_digits(d) || digits_val(d) > u32::MAX
            },
        },
{
    let n = s.unicode_len();
    if from == n {
        return None;
    }
    let mut acc: u64 = 0;
    let mut i: usize = from;
    while i < n
        invariant
            from <= i <= n,
            n == s@.len(),
            all_digits(s@.subrange(from as int, i as int)),
            acc == digits_val(s@.subrange(from as int, i as int)),
            acc <= u32::MAX,
        decreases n - i,
    {
        let c = s.get_char(i);
        if c < '0' || c > '9' {
            proof {
                assert(s@.skip(from as int)[i - from] == s@[i as int]);
                assert(!all_digits(s@.skip(from as int)));
            }
            return None;
        }
        let d: u64 = (c as u8 - 48) as u64;
        proof {
            assert(s@.subrange(from as int, i + 1).drop_last() =~= s@.subrange(
                from as int,
                i as int,
            ));
            assert(d == digit_val(s@[i as int]));
        }
        acc = acc * 10 + d;
        i += 1;
        if acc > 0xffff_ffff {
            proof {
                let whole = s@.skip(from as int);
                if all_digits(whole) {
                    lemma_digits_val_prefix(whole, i - from);
                    assert(whole.take(i - from) =~= s@.subrange(from as int, i as int));
                }
            }
            return None;
        }
    }
    proof {
        assert(s@.subrange(from as int, n as int) =~= s@.skip(from as int));
    }
    Some(acc)
}

/// Parse an unsigned decimal string as `str::parse::<u32>` does.
pub fn parse_u32_str(s: &str) -> (r: Option<u32>)
    ensures
        r == spec_parse_u32(s@),
{
    let n = s.unicode_len();
    let from: usize = if n > 0 && s.get_char(0) == '+' {
        1
    } else {
        0
    };
    proof {
        assert(s@.skip(from as int) =~= unsigned_digits(s@));
    }
    match parse_digits_u64(s, from) {
        Some(v) => Some(v as u32),
        None => None,
    }
}

/// Parse a signed decimal string as `str::parse::<i32>` does.
pub fn parse_i32_str(s: &str) -> (r: Option<i32>)
    ensures
        r == spec_parse_i32(s@),
{
    let n = s.unicode_len();
    let mut neg: bool = false;
    let mut from: usize = 0;
    if n > 0 && s.get_char(0) == '-' {
        neg = true;
        from = 1;
    } else if n > 0 && s.get_char(0) == '+' {
        from = 1;
    }
    proof {
        assert(s@.skip(from as int) =~= sign_mag(s@).1);
        assert(neg == sign_mag(s@).0);
    }
    match parse_digits_u64(s, from) {
        Some(v) => {
            if neg {
                if v <= 2147483648u64 {
                    if v == 2147483648u64 {
                        Some(i32::MIN)
                    } else {
                        Some(-(v as i32))
                    }
                } else {
                    None
                }
            } else {
                if v <= 2147483647u64 {
                    Some(v as i32)
                } else {
                    None
                }
            }
        },
        None => None,
    }
}

/// Parse a signed decimal string as `str::parse::<i8>` does.
pub fn parse_i8_str(s: &str) -> (r: Option<i8>)
    ensures
        r == spec_parse_i8(s@),
{
    let n = s.unicode_len();
    let mut neg: bool = false;
    let mut from: usize = 0;
    if n > 0 && s.get_char(0) == '-' {
        neg = true;
        from = 1;
    } else if n > 0 && s.get_char(0) == '+' {
        from = 1;
    }
    proof {
        assert(s@.skip(from as int) =~= sign_mag(s@).1);
        assert(neg == sign_mag(s@).0);
    }
    match parse_digits_u64(s, from) {
        Some(v) => {
            if neg {
                if v <= 128u64 {
                    if v == 128u64 {
                        Some(i8::MIN)
                    } else {
                        Some(-(v as i8))
                    }
                } else {
                    None
                }
            } else {
                if v <= 127u64 {
                    Some(v as i8)
                } else {
                    None
                }
            }
        },
        None => None,
    }
}

} // verus!
