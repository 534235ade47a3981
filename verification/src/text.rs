//! Character-level helpers: the whitespace predicate and trimming,
//! shared by the command matcher and the URL extractor.

use vstd::prelude::*;

verus! {

/// A Unicode whitespace character: the `White_Space` set that `str::trim`
/// strips from both ends of a string.
pub open spec fn is_space(c: char) -> bool {
    (c as u32) == 0x09 || (c as u32) == 0x0A || (c as u32) == 0x0B || (c as u32) == 0x0C
        || (c as u32) == 0x0D || (c as u32) == 0x20 || (c as u32) == 0x85 || (c as u32) == 0xA0
        || (c as u32) == 0x1680 || (0x2000 <= (c as u32) && (c as u32) <= 0x200A)
        || (c as u32) == 0x2028 || (c as u32) == 0x2029 || (c as u32) == 0x202F
        || (c as u32) == 0x205F || (c as u32) == 0x3000
}

/// Decides `is_space` executably.
pub fn is_space_char(c: char) -> (b: bool)
    ensures
        b == is_space(c),
{
    let u = c as u32;
    u == 0x09 || u == 0x0A || u == 0x0B || u == 0x0C || u == 0x0D || u == 0x20 || u == 0x85
        || u == 0xA0 || u == 0x1680 || (0x2000 <= u && u <= 0x200A) || u == 0x2028 || u == 0x2029
        || u == 0x202F || u == 0x205F || u == 0x3000
}

/// Number of leading whitespace characters of `s`.
pub open spec fn ws_prefix_len(s: Seq<char>) -> nat
    decreases s.len(),
{
    if s.len() > 0 && is_space(s[0]) {
        (1 + ws_prefix_len(s.drop_first())) as nat
    } else {
        0
    }
}

/// Number of trailing whitespace characters of `s`.
pub open spec fn ws_suffix_len(s: Seq<char>) -> nat
    decreases s.len(),
{
    if s.len() > 0 && is_space(s.last()) {
        (1 + ws_suffix_len(s.drop_last())) as nat
    } else {
        0
    }
}

/// `s` with leading and trailing whitespace removed, as `str::trim` leaves it.
pub open spec fn spec_trim(s: Seq<char>) -> Seq<char> {
    let f = s.subrange(ws_prefix_len(s) as int, s.len() as int);
    f.subrange(0, f.len() - ws_suffix_len(f))
}

/// `ws_prefix_len` counts exactly the maximal run of whitespace at the front.
pub proof fn lemma_ws_prefix_chars(s: Seq<char>)
    ensures
        ws_prefix_len(s) <= s.len(),
        forall|k: int| 0 <= k < ws_prefix_len(s) ==> is_space(s[k]),
        ws_prefix_len(s) < s.len() ==> !is_space(s[ws_prefix_len(s) as int]),
    decreases s.len(),
{
    if s.len() > 0 && is_space(s[0]) {
        lemma_ws_prefix_chars(s.drop_first());
        assert forall|k: int| 0 <= k < ws_prefix_len(s) implies is_space(s[k]) by {
            if k > 0 {
                assert(s.drop_first()[k - 1] == s[k]);
            }
        }
        if ws_prefix_len(s) < s.len() {
            assert(s.drop_first()[ws_prefix_len(s.drop_first()) as int]
                == s[ws_prefix_len(s) as int]);
        }
    }
}

/// `ws_suffix_len` counts exactly the maximal run of whitespace at the back.
pub proof fn lemma_ws_suffix_chars(s: Seq<char>)
    ensures
        ws_suffix_len(s) <= s.len(),
        forall|k: int| s.len() - ws_suffix_len(s) <= k < s.len() ==> is_space(s[k]),
        ws_suffix_len(s) < s.len() ==> !is_space(s[s.len() - ws_suffix_len(s) - 1]),
    decreases s.len(),
{
    if s.len() > 0 && is_space(s.last()) {
        lemma_ws_suffix_chars(s.drop_last());
        assert forall|k: int| s.len() - ws_suffix_len(s) <= k < s.len() implies is_space(s[k]) by {
            if k < s.len() - 1 {
                assert(s.drop_last()[k] == s[k]);
            }
        }
        if ws_suffix_len(s) < s.len() {
            assert(s.drop_last()[s.len() - 1 - ws_suffix_len(s.drop_last()) - 1]
                == s[s.len() - ws_suffix_len(s) - 1]);
        }
    }
}

/// Removes leading and trailing whitespace, as `str::trim` does.
pub fn trim_str<'a>(s: &'a str) -> (r: &'a str)
    ensures
        r@ == spec_trim(s@),
{
    let n = s.unicode_len();
    let mut i: usize = 0;
    while i < n && is_space_char(s.get_char(i))
        invariant
            n == s@.len(),
            i <= n,
            forall|k: int| 0 <= k < i ==> is_space(s@[k]),
        decreases n - i,
    {
        i = i + 1;
    }
    proof {
        lemma_ws_prefix_chars(s@);
        assert(i == ws_prefix_len(s@));
    }
    let mut j: usize = n;
    while j > i && is_space_char(s.get_char(j - 1))
        invariant
            n == s@.len(),
            i <= j <= n,
            forall|k: int| j <= k < n ==> is_space(s@[k]),
        decreases j,
    {
        j = j - 1;
    }
    proof {
        let f = s@.subrange(i as int, n as int);
        lemma_ws_suffix_chars(f);
        assert forall|k: int| j - i <= k < f.len() implies is_space(f[k]) by {
            assert(f[k] == s@[i + k]);
        }
        if j > i {
            assert(f[j - i - 1] == s@[j - 1]);
        }
        assert(ws_suffix_len(f) == n - j) by {
            if ws_suffix_len(f) > n - j {
                assert(j > i);
                assert(is_space(f[j - i - 1]));
            }
            if ws_suffix_len(f) < n - j {
                assert(is_space(f[f.len() - ws_suffix_len(f) - 1]));
            }
        }
        assert(f.subrange(0, j - i) =~= s@.subrange(i as int, j as int));
    }
    s.substring_char(i, j)
}

} // verus!
