//! Command recognition over configurable vocabularies: an optional prefix is
//! stripped first, then the longest matching command literal wins, with ties
//! broken by configured order.

use vstd::prelude::*;
use crate::text::{spec_trim, trim_str};

verus! {

/// `b` holds exactly when `p` is a prefix of `t`.
pub fn str_starts_with(t: &str, p: &str) -> (b: bool)
    ensures
        b == p@.is_prefix_of(t@),
{
    let tn = t.unicode_len();
    let pn = p.unicode_len();
    if pn > tn {
        return false;
    }
    let mut k: usize = 0;
    while k < pn
        invariant
            tn == t@.len(),
            pn == p@.len(),
            pn <= tn,
            k <= pn,
            forall|m: int| 0 <= m < k ==> p@[m] == t@[m],
        decreases pn - k,
    {
        if t.get_char(k) != p.get_char(k) {
            proof {
                assert(!(p@ =~= t@.subrange(0, pn as int)));
            }
            return false;
        }
        k = k + 1;
    }
    proof {
        assert(p@ =~= t@.subrange(0, pn as int));
    }
    true
}

/// The candidate that a stable longest-first scan of `cands` picks against
/// `t`: among the candidates that are prefixes of `t` (and non-empty, unless
/// `allow_empty`), the longest one, and the earliest of equally long ones.
pub open spec fn best_pick(t: Seq<char>, cands: Seq<Seq<char>>, allow_empty: bool) -> Option<
    Seq<char>,
>
    decreases cands.len(),
{
    if cands.len() == 0 {
        None
    } else {
        let prev = best_pick(t, cands.drop_last(), allow_empty);
        let c = cands.last();
        if c.is_prefix_of(t) && (allow_empty || c.len() > 0) {
            match prev {
                None => Some(c),
                Some(p) => if c.len() > p.len() {
                    Some(c)
                } else {
                    Some(p)
                },
            }
        } else {
            prev
        }
    }
}

/// What `best_pick` returns is a longest matching candidate; when it returns
/// nothing, no candidate matches.
pub proof fn lemma_best_pick_props(t: Seq<char>, cands: Seq<Seq<char>>, allow_empty: bool)
    ensures
        match best_pick(t, cands, allow_empty) {
            Some(c) => cands.contains(c) && c.is_prefix_of(t) && (allow_empty || c.len() > 0)
                && forall|k: int|
                0 <= k < cands.len() && cands[k].is_prefix_of(t) && (allow_empty
                    || cands[k].len() > 0) ==> c.len() >= cands[k].len(),
            None => forall|k: int|
                0 <= k < cands.len() ==> !(cands[k].is_prefix_of(t) && (allow_empty
                    || cands[k].len() > 0)),
        },
    decreases cands.len(),
{
    if cands.len() > 0 {
        lemma_best_pick_props(t, cands.drop_last(), allow_empty);
        assert(forall|k: int| 0 <= k < cands.len() - 1 ==> cands.drop_last()[k] == cands[k]);
        match best_pick(t, cands, allow_empty) {
            Some(c) => {
                if c == cands.last() {
                    assert(cands[cands.len() - 1] == c);
                } else {
                    let k = choose|k: int|
                        0 <= k < cands.drop_last().len() && cands.drop_last()[k] == c;
                    assert(cands[k] == c);
                }
            },
            None => {},
        }
    }
}

/// Picks the index of the best candidate in `cands` against `t`, as
/// `best_pick` describes it.
fn best_pick_exec(t: &str, cands: &Vec<String>, allow_empty: bool) -> (r: Option<usize>)
    ensures
        match r {
            Some(i) => i < cands.len() && best_pick(t@, cands.deep_view(), allow_empty) == Some(
                cands.deep_view()[i as int],
            ),
            None => best_pick(t@, cands.deep_view(), allow_empty) is None,
        },
{
    let ghost cs = cands.deep_view();
    proof {
        assert(cs.len() == cands@.len());
    }
    let mut best: Option<usize> = None;
    let mut best_len: usize = 0;
    let mut i: usize = 0;
    while i < cands.len()
        invariant
            cs == cands.deep_view(),
            cs.len() == cands@.len(),
            i <= cands.len(),
            match best {
                Some(bi) => bi < i && best_pick(t@, cs.subrange(0, i as int), allow_empty) == Some(
                    cs[bi as int],
                ) && best_len == cs[bi as int].len(),
                None => best_pick(t@, cs.subrange(0, i as int), allow_empty) is None,
            },
        decreases cands.len() - i,
    {
        proof {
            assert(cs.subrange(0, i + 1).drop_last() =~= cs.subrange(0, i as int));
            assert(cs.subrange(0, i + 1).last() == cs[i as int]);
            assert(cs[i as int] == cands@[i as int]@);
        }
        let c = &cands[i];
        let c_len = c.as_str().unicode_len();
        if str_starts_with(t, c.as_str()) && (allow_empty || c_len > 0) {
            match best {
                Some(_) => {
                    if c_len > best_len {
                        best = Some(i);
                        best_len = c_len;
                    }
                },
                None => {
                    best = Some(i);
                    best_len = c_len;
                },
            }
        }
        i = i + 1;
    }
    proof {
        assert(cs.subrange(0, cands@.len() as int) =~= cs);
    }
    best
}

/// The text commands are matched against: the trimmed input, with the picked
/// configured prefix stripped and the rest trimmed again; nothing when a
/// prefix is required and none starts the text.
pub open spec fn working_text(text: Seq<char>, prefixes: Seq<Seq<char>>) -> Option<Seq<char>> {
    let t1 = spec_trim(text);
    if prefixes.len() == 0 {
        Some(t1)
    } else {
        match best_pick(t1, prefixes, true) {
            Some(p) => Some(spec_trim(t1.skip(p.len() as int))),
            None => None,
        }
    }
}

/// What `parse_command` returns: whether a command matched, the trimmed text
/// after the command, and the matched command literal itself.
pub open spec fn spec_parse_command(
    text: Seq<char>,
    prefixes: Seq<Seq<char>>,
    commands: Seq<Seq<char>>,
) -> (bool, Seq<char>, Seq<char>) {
    match working_text(text, prefixes) {
        Some(t2) => match best_pick(t2, commands, false) {
            Some(c) => (true, spec_trim(t2.skip(c.len() as int)), c),
            None => (false, Seq::<char>::empty(), Seq::<char>::empty()),
        },
        None => (false, Seq::<char>::empty(), Seq::<char>::empty()),
    }
}

/// Decides whether `text` invokes one of `commands`, after the optional
/// prefix step over `prefixes`: returns `(matched, remaining args, matched
/// command)` exactly as `spec_parse_command` states it.
pub fn parse_command(text: &str, prefixes: &Vec<String>, commands: &Vec<String>) -> (r: (
    bool,
    String,
    String,
))
    ensures
        r.0 == spec_parse_command(text@, prefixes.deep_view(), commands.deep_view()).0,
        r.1@ == spec_parse_command(text@, prefixes.deep_view(), commands.deep_view()).1,
        r.2@ == spec_parse_command(text@, prefixes.deep_view(), commands.deep_view()).2,
{
    let t1 = trim_str(text);
    let t1_len = t1.unicode_len();
    let t2: &str = if prefixes.len() > 0 {
        match best_pick_exec(t1, prefixes, true) {
            Some(i) => {
                proof {
                    lemma_best_pick_props(t1@, prefixes.deep_view(), true);
                    assert(prefixes.deep_view()[i as int] == prefixes@[i as int]@);
                }
                let p_len = prefixes[i].as_str().unicode_len();
                let stripped = t1.substring_char(p_len, t1_len);
                proof {
                    assert(stripped@ =~= t1@.skip(p_len as int));
                }
                trim_str(stripped)
            },
            None => {
                return (false, String::new(), String::new());
            },
        }
    } else {
        t1
    };
    let t2_len = t2.unicode_len();
    match best_pick_exec(t2, commands, false) {
        Some(j) => {
            proof {
                lemma_best_pick_props(t2@, commands.deep_view(), false);
                assert(commands.deep_view()[j as int] == commands@[j as int]@);
            }
            let c_len = commands[j].as_str().unicode_len();
            let rest = t2.substring_char(c_len, t2_len);
            proof {
                assert(rest@ =~= t2@.skip(c_len as int));
            }
            let args = String::from_str(trim_str(rest));
            (true, args, commands[j].clone())
        },
        None => (false, String::new(), String::new()),
    }
}

/// When one command literal `b` starts the working text, the matcher reports
/// a match at least as long as `b`; in particular it never reports a strictly
/// shorter literal `a`, even when `a` is a prefix of `b`.
pub proof fn lemma_longer_command_wins(
    text: Seq<char>,
    prefixes: Seq<Seq<char>>,
    commands: Seq<Seq<char>>,
    a: Seq<char>,
    b: Seq<char>,
    t2: Seq<char>,
)
    requires
        working_text(text, prefixes) == Some(t2),
        commands.contains(a),
        commands.contains(b),
        a.is_prefix_of(b),
        b.len() > a.len(),
        b.is_prefix_of(t2),
    ensures
        spec_parse_command(text, prefixes, commands).0,
        spec_parse_command(text, prefixes, commands).2.len() >= b.len(),
        spec_parse_command(text, prefixes, commands).2 != a,
{
    lemma_best_pick_props(t2, commands, false);
    let kb = choose|k: int| 0 <= k < commands.len() && commands[k] == b;
    match best_pick(t2, commands, false) {
        Some(c) => {
            assert(c.len() >= b.len());
        },
        None => {
            assert(!(commands[kb].is_prefix_of(t2) && commands[kb].len() > 0));
        },
    }
}

/// With a non-empty prefix set, text that starts with no configured prefix
/// never matches, whatever the command vocabulary holds.
pub proof fn lemma_missing_prefix_never_matches(
    text: Seq<char>,
    prefixes: Seq<Seq<char>>,
    commands: Seq<Seq<char>>,
)
    requires
        prefixes.len() > 0,
        forall|k: int| 0 <= k < prefixes.len() ==> !prefixes[k].is_prefix_of(spec_trim(text)),
    ensures
        spec_parse_command(text, prefixes, commands) == (
            false,
            Seq::<char>::empty(),
            Seq::<char>::empty(),
        ),
{
    lemma_best_pick_props(spec_trim(text), prefixes, true);
    match best_pick(spec_trim(text), prefixes, true) {
        Some(p) => {
            let k = choose|k: int| 0 <= k < prefixes.len() && prefixes[k] == p;
            assert(!prefixes[k].is_prefix_of(spec_trim(text)));
            assert(false);
        },
        None => {},
    }
}

/// The matcher is a pure function of its inputs: two runs on the same text,
/// prefixes and commands give the same result.
pub proof fn lemma_parse_command_idempotent(
    r1: (bool, Seq<char>, Seq<char>),
    r2: (bool, Seq<char>, Seq<char>),
    text: Seq<char>,
    prefixes: Seq<Seq<char>>,
    commands: Seq<Seq<char>>,
)
    requires
        r1 == spec_parse_command(text, prefixes, commands),
        r2 == spec_parse_command(text, prefixes, commands),
    ensures
        r1 == r2,
{
}

} // verus!
