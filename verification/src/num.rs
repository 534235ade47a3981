//! Decimal parsing of quote-marker identifiers: exactly what
//! `str::parse::<i32>` accepts — an optional sign and one or more decimal
//! digits within the `i32` range.

use vstd::prelude::*;

verus! {

/// A decimal digit character.
pub open spec fn is_digit(c: char) -> bool {
    0x30 <= (c as u32) && (c as u32) <= 0x39
}

/// The value of a decimal digit character.
pub open spec fn digit_val(c: char) -> int {
    (c as u32) - 0x30
}

/// Every character of `s` is a decimal digit.
pub open spec fn all_digits(s: Seq<char>) -> bool {
    forall|k: int| 0 <= k < s.len() ==> is_digit(s[k])
}

/// The non-negative integer that the digit string `s` denotes.
pub open spec fn digits_val(s: Seq<char>) -> int
    decreases s.len(),
{
    if s.len() == 0 {
        0
    } else {
        digits_val(s.drop_last()) * 10 + digit_val(s.last())
    }
}

/// What parsing `s` as an `i32` yields: an optional `+` or `-` sign followed
/// by one or more decimal digits, in range; anything else fails.
pub open spec fn spec_parse_i32(s: Seq<char>) -> Option<i32> {
    let neg = s.len() > 0 && s[0] == '-';
    let ds = if s.len() > 0 && (s[0] == '-' || s[0] == '+') {
        s.drop_first()
    } else {
        s
    };
    if ds.len() == 0 || !all_digits(ds) {
        None
    } else {
        let v = digits_val(ds);
        if neg {
            if v <= 0x8000_0000 {
                Some((-v) as i32)
            } else {
                None
            }
        } else {
            if v <= 0x7FFF_FFFF {
                Some(v as i32)
            } else {
                None
            }
        }
    }
}

/// A digit string denotes a non-negative value.
pub proof fn lemma_digits_val_nonneg(s: Seq<char>)
    requires
        all_digits(s),
    ensures
        digits_val(s) >= 0,
    decreases s.len(),
{
    if s.len() > 0 {
        assert(all_digits(s.drop_last())) by {
            assert(forall|k: int| 0 <= k < s.len() - 1 ==> s.drop_last()[k] == s[k]);
        }
        lemma_digits_val_nonneg(s.drop_last());
    }
}

/// Extending a digit string with more digits never shrinks its value.
pub proof fn lemma_digits_val_mono(s: Seq<char>, m: int)
    requires
        0 <= m <= s.len(),
        all_digits(s),
    ensures
        digits_val(s) >= digits_val(s.subrange(0, m)),
    decreases s.len() - m,
{
    if m == s.len() {
        assert(s.subrange(0, m) =~= s);
    } else {
        lemma_digits_val_mono(s, m + 1);
        assert(s.subrange(0, m + 1).drop_last() =~= s.subrange(0, m));
        assert(s.subrange(0, m + 1).last() == s[m]);
        assert(all_digits(s.subrange(0, m))) by {
            assert(forall|k: int| 0 <= k < m ==> s.subrange(0, m)[k] == s[k]);
        }
        lemma_digits_val_nonneg(s.subrange(0, m));
    }
}

/// Parses `s` as `str::parse::<i32>` does, exactly as `spec_parse_i32`
/// states it.
pub fn parse_i32(s: &str) -> (r: Option<i32>)
    ensures
        r == spec_parse_i32(s@),
{
    let n = s.unicode_len();
    if n == 0 {
        return None;
    }
    let first = s.get_char(0);
    let neg = first == '-';
    let start: usize = if first == '-' || first == '+' {
        1
    } else {
        0
    };
    let ghost ds = s@.subrange(start as int, n as int);
    proof {
        if start == 1 {
            assert(ds =~= s@.drop_first());
        } else {
            assert(ds =~= s@);
        }
    }
    if n == start {
        return None;
    }
    let mut acc: u64 = 0;
    let mut too_big = false;
    let mut idx: usize = start;
    while idx < n
        invariant
            n == s@.len(),
            n > 0,
            start <= idx <= n,
            start < n,
            neg == (s@[0] == '-'),
            (start == 1) == (s@[0] == '-' || s@[0] == '+'),
            ds == s@.subrange(start as int, n as int),
            ds == (if s@[0] == '-' || s@[0] == '+' {
                s@.drop_first()
            } else {
                s@
            }),
            all_digits(s@.subrange(start as int, idx as int)),
            !too_big ==> acc == digits_val(s@.subrange(start as int, idx as int)) && acc
                <= 0x8000_0000,
            too_big ==> digits_val(s@.subrange(start as int, idx as int)) > 0x8000_0000,
        decreases n - idx,
    {
        let c = s.get_char(idx);
        let u = c as u32;
        if u < 0x30 || u > 0x39 {
            proof {
                assert(ds[idx - start] == s@[idx as int]);
                assert(!all_digits(ds));
            }
            return None;
        }
        proof {
            let pre = s@.subrange(start as int, idx as int);
            let ext = s@.subrange(start as int, idx + 1);
            assert(ext.drop_last() =~= pre);
            assert(ext.last() == s@[idx as int]);
            assert(all_digits(ext)) by {
                assert(forall|k: int| 0 <= k < pre.len() ==> ext[k] == pre[k]);
            }
            if too_big {
                lemma_digits_val_nonneg(ext);
                assert(digits_val(ext) == digits_val(pre) * 10 + digit_val(s@[idx as int]));
                assert(digits_val(pre) > 0x8000_0000);
                assert(digits_val(ext) > 0x8000_0000);
            }
        }
        if !too_big {
            acc = acc * 10 + ((u - 0x30) as u64);
            if acc > 0x8000_0000 {
                too_big = true;
            }
        }
        idx = idx + 1;
    }
    proof {
        assert(s@.subrange(start as int, n as int) == ds);
        if too_big {
            assert(digits_val(ds) > 0x8000_0000);
        }
    }
    if too_big {
        return None;
    }
    if neg {
        if acc == 0x8000_0000 {
            let min: i32 = -2147483648;
            Some(min)
        } else {
            Some(-(acc as i32))
        }
    } else {
        if acc <= 0x7FFF_FFFF {
            Some(acc as i32)
        } else {
            None
        }
    }
}

} // verus!
