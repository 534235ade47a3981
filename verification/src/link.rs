//! URL extraction from free text: the first run of the shape `http://` or
//! `https://` followed by one or more characters that are neither whitespace
//! nor CJK ideographs (URLs in chat are routinely followed directly by
//! Chinese text with no separating space).

use vstd::prelude::*;
use crate::text::{is_space, is_space_char};

verus! {

/// A character that may stand inside an extracted URL: not whitespace and not
/// a CJK Unified Ideograph.
pub open spec fn is_url_char(c: char) -> bool {
    !is_space(c) && !(0x4E00 <= (c as u32) && (c as u32) <= 0x9FA5)
}

/// Decides `is_url_char` executably.
pub fn is_url_char_exec(c: char) -> (b: bool)
    ensures
        b == is_url_char(c),
{
    let u = c as u32;
    !is_space_char(c) && !(0x4E00 <= u && u <= 0x9FA5)
}

/// `http://` is written at position `i` of `s`.
pub open spec fn http_at(s: Seq<char>, i: int) -> bool {
    &&& 0 <= i
    &&& i + 7 <= s.len()
    &&& s[i] == 'h'
    &&& s[i + 1] == 't'
    &&& s[i + 2] == 't'
    &&& s[i + 3] == 'p'
    &&& s[i + 4] == ':'
    &&& s[i + 5] == '/'
    &&& s[i + 6] == '/'
}

/// `https://` is written at position `i` of `s`.
pub open spec fn https_at(s: Seq<char>, i: int) -> bool {
    &&& 0 <= i
    &&& i + 8 <= s.len()
    &&& s[i] == 'h'
    &&& s[i + 1] == 't'
    &&& s[i + 2] == 't'
    &&& s[i + 3] == 'p'
    &&& s[i + 4] == 's'
    &&& s[i + 5] == ':'
    &&& s[i + 6] == '/'
    &&& s[i + 7] == '/'
}

/// Length of the URL scheme written at position `i` of `s`, or nothing.
pub open spec fn scheme_len_at(s: Seq<char>, i: int) -> Option<int> {
    if https_at(s, i) {
        Some(8)
    } else if http_at(s, i) {
        Some(7)
    } else {
        None
    }
}

/// A URL match begins at position `i`: a scheme followed by at least one URL
/// character.
pub open spec fn url_starts_at(s: Seq<char>, i: int) -> bool {
    match scheme_len_at(s, i) {
        Some(k) => i + k < s.len() && is_url_char(s[i + k]),
        None => false,
    }
}

/// The first position at or after `j` whose character cannot stand in a URL,
/// or the end of `s`.
pub open spec fn url_run_end(s: Seq<char>, j: int) -> int
    decreases s.len() - j,
{
    if 0 <= j < s.len() && is_url_char(s[j]) {
        url_run_end(s, j + 1)
    } else {
        j
    }
}

/// The first position at or after `i` where a URL match begins, or nothing.
pub open spec fn first_url_start(s: Seq<char>, i: int) -> Option<int>
    decreases s.len() - i,
{
    if i >= s.len() || i < 0 {
        None
    } else if url_starts_at(s, i) {
        Some(i)
    } else {
        first_url_start(s, i + 1)
    }
}

/// The first URL in `s`, verbatim: its scheme plus the maximal run of URL
/// characters that follows, or nothing when no URL occurs in `s`.
pub open spec fn spec_extract_url(s: Seq<char>) -> Option<Seq<char>> {
    match first_url_start(s, 0) {
        Some(i) => match scheme_len_at(s, i) {
            Some(k) => Some(s.subrange(i, url_run_end(s, i + k))),
            None => None,
        },
        None => None,
    }
}

/// Length of the URL scheme written at position `i` of `text`, with 0 standing
/// for no scheme.
fn scheme_len_at_exec(text: &str, i: usize, n: usize) -> (r: usize)
    requires
        n == text@.len(),
        i <= n,
    ensures
        r != 0 ==> scheme_len_at(text@, i as int) == Some(r as int) && i + r <= n,
        r == 0 ==> scheme_len_at(text@, i as int) is None,
{
    if n - i >= 7 && text.get_char(i) == 'h' && text.get_char(i + 1) == 't' && text.get_char(i + 2)
        == 't' && text.get_char(i + 3) == 'p' {
        if n - i >= 8 && text.get_char(i + 4) == 's' && text.get_char(i + 5) == ':'
            && text.get_char(i + 6) == '/' && text.get_char(i + 7) == '/' {
            8
        } else if text.get_char(i + 4) == ':' && text.get_char(i + 5) == '/' && text.get_char(
            i + 6,
        ) == '/' {
            7
        } else {
            0
        }
    } else {
        0
    }
}

/// Returns the first URL in `text` exactly as `spec_extract_url` states it,
/// or nothing when `text` holds none.
pub fn extract_url(text: &str) -> (r: Option<String>)
    ensures
        match r {
            Some(u) => spec_extract_url(text@) == Some(u@),
            None => spec_extract_url(text@) is None,
        },
{
    let n = text.unicode_len();
    let mut i: usize = 0;
    while i < n
        invariant
            n == text@.len(),
            i <= n,
            first_url_start(text@, 0) == first_url_start(text@, i as int),
        decreases n - i,
    {
        let k = scheme_len_at_exec(text, i, n);
        if k != 0 && i + k < n && is_url_char_exec(text.get_char(i + k)) {
            assert(url_starts_at(text@, i as int));
            assert(first_url_start(text@, 0) == Some(i as int));
            let body = i + k;
            let mut j: usize = body;
            while j < n && is_url_char_exec(text.get_char(j))
                invariant
                    n == text@.len(),
                    body <= j <= n,
                    url_run_end(text@, body as int) == url_run_end(text@, j as int),
                decreases n - j,
            {
                j = j + 1;
            }
            assert(url_run_end(text@, j as int) == j as int);
            let sub = text.substring_char(i, j);
            return Some(String::from_str(sub));
        }
        assert(!url_starts_at(text@, i as int));
        i = i + 1;
    }
    None
}

} // verus!
