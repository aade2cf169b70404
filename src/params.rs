//! Filtering of query and fragment parameters, and their serialization.
use vstd::prelude::*;
use vstd::string::StrSliceExecFns;
use crate::pattern::{regex_find, Pattern};
use crate::weburl::{form_serialize, form_serialize_pairs, pairs_view, Pairs};

verus! {

/// The models of a list of patterns.
pub open spec fn pattern_views(v: Seq<Pattern>) -> Seq<(Seq<char>, bool)> {
    v.map_values(|p: Pattern| p@)
}

/// Whether the first match of `p` in `key` spans the whole key.
pub open spec fn full_match(p: (Seq<char>, bool), key: Seq<char>) -> bool {
    match regex_find(p.0, p.1, key) {
        Some(m) => m.len() == key.len(),
        None => false,
    }
}

/// Whether some pattern of `rules` fully matches `key`.
pub open spec fn dropped_by(rules: Seq<(Seq<char>, bool)>, key: Seq<char>) -> bool {
    exists|i: int| 0 <= i < rules.len() && #[trigger] full_match(rules[i], key)
}

/// The pairs of `pairs` whose key no pattern of `rules` fully matches, in order.
pub open spec fn survivors(pairs: Pairs, rules: Seq<(Seq<char>, bool)>) -> Pairs
    decreases pairs.len(),
{
    if pairs.len() == 0 {
        pairs
    } else {
        let rest = survivors(pairs.drop_last(), rules);
        if dropped_by(rules, pairs.last().0) {
            rest
        } else {
            rest.push(pairs.last())
        }
    }
}

/// The text of a surviving parameter list: none when empty, the bare key for a
/// single pair with an empty value, otherwise the form encoding.
pub open spec fn serialized(pairs: Pairs) -> Option<Seq<char>> {
    if pairs.len() == 0 {
        None
    } else if pairs.len() == 1 && pairs[0].1.len() == 0 {
        if pairs[0].0.len() == 0 {
            None
        } else {
            Some(pairs[0].0)
        }
    } else {
        Some(form_serialize(pairs))
    }
}

proof fn lemma_dropped_by_concat(a: Seq<(Seq<char>, bool)>, b: Seq<(Seq<char>, bool)>, key: Seq<char>)
    ensures
        dropped_by(a + b, key) == (dropped_by(a, key) || dropped_by(b, key)),
{
    if dropped_by(a + b, key) {
        let i = choose|i: int| 0 <= i < (a + b).len() && #[trigger] full_match((a + b)[i], key);
        if i < a.len() {
            assert(full_match(a[i], key));
        } else {
            assert(full_match(b[i - a.len()], key));
        }
    }
    if dropped_by(a, key) {
        let i = choose|i: int| 0 <= i < a.len() && #[trigger] full_match(a[i], key);
        assert(full_match((a + b)[i], key));
    }
    if dropped_by(b, key) {
        let i = choose|i: int| 0 <= i < b.len() && #[trigger] full_match(b[i], key);
        assert(full_match((a + b)[i + a.len()], key));
    }
}

/// Tells whether the first match of `p` in `key` spans the whole key.
pub fn is_full_match(p: &Pattern, key: &str) -> (r: bool)
    ensures
        r == full_match(p@, key@),
{
    match p.find(key) {
        Some(m) => m.unicode_len() == key.unicode_len(),
        None => false,
    }
}

/// Tells whether some pattern of `rules` fully matches `key`.
fn fully_matched_by_any(rules: &Vec<Pattern>, key: &str) -> (r: bool)
    ensures
        r == dropped_by(pattern_views(rules@), key@),
{
    let mut i: usize = 0;
    while i < rules.len()
        invariant
            i <= rules@.len(),
            forall|j: int| 0 <= j < i ==> !full_match(#[trigger] pattern_views(rules@)[j], key@),
        decreases rules@.len() - i,
    {
        if is_full_match(&rules[i], key) {
            assert(full_match(pattern_views(rules@)[i as int], key@));
            return true;
        }
        i += 1;
    }
    false
}

/// The active rules: `rules`, followed by `extra` when `use_extra` holds.
pub open spec fn active_rules(rules: Seq<Pattern>, extra: Seq<Pattern>, use_extra: bool) -> Seq<
    (Seq<char>, bool),
> {
    if use_extra {
        pattern_views(rules) + pattern_views(extra)
    } else {
        pattern_views(rules)
    }
}

/// Keeps, in order, the pairs whose key no active rule fully matches.
pub fn retain_unmatched(
    pairs: &Vec<(String, String)>,
    rules: &Vec<Pattern>,
    extra: &Vec<Pattern>,
    use_extra: bool,
) -> (r: Vec<(String, String)>)
    ensures
        pairs_view(r@) == survivors(pairs_view(pairs@), active_rules(rules@, extra@, use_extra)),
{
    let ghost active = active_rules(rules@, extra@, use_extra);
    let mut out: Vec<(String, String)> = Vec::new();
    let mut i: usize = 0;
    while i < pairs.len()
        invariant
            i <= pairs@.len(),
            active == active_rules(rules@, extra@, use_extra),
            pairs_view(out@) == survivors(pairs_view(pairs@).subrange(0, i as int), active),
        decreases pairs@.len() - i,
    {
        let key = pairs[i].0.as_str();
        let mut dropped = fully_matched_by_any(rules, key);
        if !dropped && use_extra {
            dropped = fully_matched_by_any(extra, key);
        }
        proof {
            lemma_dropped_by_concat(pattern_views(rules@), pattern_views(extra@), key@);
            let pre = pairs_view(pairs@).subrange(0, i as int + 1);
            assert(pre.drop_last() =~= pairs_view(pairs@).subrange(0, i as int));
            assert(pre.last() == (pairs@[i as int].0@, pairs@[i as int].1@));
        }
        if !dropped {
            let item = (pairs[i].0.clone(), pairs[i].1.clone());
            out.push(item);
            proof {
                assert(pairs_view(out@) =~= pairs_view(out@.drop_last()).push(
                    (item.0@, item.1@),
                ));
            }
        }
        i += 1;
    }
    proof {
        assert(pairs_view(pairs@).subrange(0, pairs@.len() as int) =~= pairs_view(pairs@));
    }
    out
}

/// The text of a surviving parameter list; see [`serialized`].
pub fn serialize_params(pairs: &Vec<(String, String)>) -> (r: Option<String>)
    ensures
        opt_string(r) == serialized(pairs_view(pairs@)),
        r matches Some(t) ==> t@.len() > 0,
{
    let n: usize = pairs.len();
    if n == 0 {
        return None;
    }
    if n == 1 && pairs[0].1.as_str().unicode_len() == 0 {
        let key = pairs[0].0.clone();
        if key.as_str().unicode_len() == 0 {
            return None;
        }
        return Some(key);
    }
    let s = form_serialize_pairs(pairs);
    Some(s)
}

pub open spec fn opt_string(o: Option<String>) -> Option<Seq<char>> {
    match o {
        Some(s) => Some(s@),
        None => None,
    }
}

} // verus!
