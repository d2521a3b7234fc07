//! Character-level text primitives: conversion between strings and
//! character buffers, literal matching, and substring search.

use vstd::prelude::*;
use vstd::string::StrSliceExecFns;

verus! {

/// Relies on `String::push` from std: appends the given `char` to the end
/// of the string.
pub assume_specification[ String::push ](s: &mut String, ch: char)
    ensures
        final(s)@ == old(s)@.push(ch),
;

/// The characters of `s`, in order.
pub fn str_to_chars(s: &str) -> (r: Vec<char>)
    ensures
        r@ == s@,
{
    let n = s.unicode_len();
    let mut r: Vec<char> = Vec::new();
    let mut i: usize = 0;
    while i < n
        invariant
            n == s@.len(),
            i <= n,
            r@ == s@.subrange(0, i as int),
        decreases n - i,
    {
        r.push(s.get_char(i));
        proof {
            assert(r@ =~= s@.subrange(0, i as int + 1));
        }
        i += 1;
    }
    proof {
        assert(r@ =~= s@);
    }
    r
}

/// The string spelling exactly the characters of `v`, in order.
pub fn chars_to_string(v: &Vec<char>) -> (r: String)
    ensures
        r@ == v@,
{
    let mut r = String::new();
    let mut i: usize = 0;
    while i < v.len()
        invariant
            i <= v@.len(),
            r@ == v@.subrange(0, i as int),
        decreases v@.len() - i,
    {
        r.push(v[i]);
        proof {
            assert(r@ =~= v@.subrange(0, i as int + 1));
        }
        i += 1;
    }
    proof {
        assert(r@ =~= v@);
    }
    r
}

/// The pattern `p` occurs in `s` starting exactly at position `i`.
pub open spec fn lit_at(s: Seq<char>, i: int, p: Seq<char>) -> bool {
    &&& 0 <= i
    &&& i + p.len() <= s.len()
    &&& forall|j: int| 0 <= j < p.len() ==> s[i + j] == p[j]
}

/// Decides `lit_at`.  On success the match is known to lie inside the
/// text, whose length fits a `usize`.
pub fn match_at(s: &Vec<char>, i: usize, p: &Vec<char>) -> (r: bool)
    ensures
        r == lit_at(s@, i as int, p@),
        r ==> i + p@.len() <= s@.len() <= usize::MAX,
{
    let n: usize = s.len();
    if p.len() > n || i > n - p.len() {
        return false;
    }
    let mut j: usize = 0;
    while j < p.len()
        invariant
            i + p@.len() <= s@.len(),
            s@.len() <= usize::MAX,
            j <= p@.len(),
            forall|k: int| 0 <= k < j ==> s@[i + k] == p@[k],
        decreases p@.len() - j,
    {
        if s[i + j] != p[j] {
            proof {
                assert(s@[i + j] != p@[j as int]);
            }
            return false;
        }
        j += 1;
    }
    true
}

/// The first position at or after `i` where `p` occurs in `s`.
pub open spec fn find_from(s: Seq<char>, p: Seq<char>, i: int) -> Option<int>
    decreases s.len() - i,
{
    if i + p.len() > s.len() {
        None
    } else if lit_at(s, i, p) {
        Some(i)
    } else {
        find_from(s, p, i + 1)
    }
}

/// The last position at or before `i` where `p` occurs in `s`.
pub open spec fn rfind_from(s: Seq<char>, p: Seq<char>, i: int) -> Option<int>
    decreases i + 1,
{
    if i < 0 {
        None
    } else if lit_at(s, i, p) {
        Some(i)
    } else {
        rfind_from(s, p, i - 1)
    }
}

/// The position of the first occurrence of `p` in `s`, if any.
pub open spec fn find_first(s: Seq<char>, p: Seq<char>) -> Option<int> {
    find_from(s, p, 0)
}

/// The position of the last occurrence of `p` in `s`, if any.
pub open spec fn find_last(s: Seq<char>, p: Seq<char>) -> Option<int> {
    rfind_from(s, p, s.len() - p.len())
}

/// An occurrence reported by `find_from` really is one, at or after the
/// start of the search.
pub proof fn lemma_find_from_some(s: Seq<char>, p: Seq<char>, i: int, k: int)
    requires
        find_from(s, p, i) == Some(k),
    ensures
        lit_at(s, k, p),
        i <= k,
    decreases s.len() - i,
{
    if i + p.len() > s.len() {
    } else if lit_at(s, i, p) {
    } else {
        lemma_find_from_some(s, p, i + 1, k);
    }
}

/// An occurrence reported by `rfind_from` really is one, at or before the
/// start of the search.
pub proof fn lemma_rfind_from_some(s: Seq<char>, p: Seq<char>, i: int, k: int)
    requires
        rfind_from(s, p, i) == Some(k),
    ensures
        lit_at(s, k, p),
        k <= i,
    decreases i + 1,
{
    if i < 0 {
    } else if lit_at(s, i, p) {
    } else {
        lemma_rfind_from_some(s, p, i - 1, k);
    }
}

/// Decides `find_first`.
pub fn find_sub(s: &Vec<char>, p: &Vec<char>) -> (r: Option<usize>)
    ensures
        match r {
            Some(k) => find_first(s@, p@) == Some(k as int),
            None => find_first(s@, p@) is None,
        },
{
    if p.len() > s.len() {
        return None;
    }
    if p.len() == 0 {
        return Some(0);
    }
    let bound: usize = s.len() - p.len();
    let mut i: usize = 0;
    while i <= bound
        invariant
            1 <= p@.len() <= s@.len(),
            s@.len() <= usize::MAX,
            bound == s@.len() - p@.len(),
            i <= bound + 1,
            find_first(s@, p@) == find_from(s@, p@, i as int),
        decreases bound + 1 - i,
    {
        if match_at(s, i, p) {
            return Some(i);
        }
        proof {
            assert(find_from(s@, p@, i as int) == find_from(s@, p@, i as int + 1));
        }
        i += 1;
    }
    None
}

/// Decides `find_last`.
pub fn rfind_sub(s: &Vec<char>, p: &Vec<char>) -> (r: Option<usize>)
    ensures
        match r {
            Some(k) => find_last(s@, p@) == Some(k as int),
            None => find_last(s@, p@) is None,
        },
{
    if p.len() > s.len() {
        return None;
    }
    if p.len() == 0 {
        return Some(s.len());
    }
    let mut i: usize = s.len() - p.len() + 1;
    while i > 0
        invariant
            p@.len() <= s@.len(),
            i <= s@.len() - p@.len() + 1,
            find_last(s@, p@) == rfind_from(s@, p@, i as int - 1),
        decreases i,
    {
        i = i - 1;
        if match_at(s, i, p) {
            return Some(i);
        }
        proof {
            assert(rfind_from(s@, p@, i as int) == rfind_from(s@, p@, i as int - 1));
        }
    }
    None
}

/// The text of `haystack` strictly between the first occurrence of `left`
/// (after its end) and the last occurrence of `right` (before its start).
/// `None` when either occurrence is missing or the span would be reversed.
pub fn between<'a>(haystack: &'a str, left: &str, right: &str) -> (r: Option<&'a str>)
    ensures
        match r {
            Some(sub) => {
                &&& find_first(haystack@, left@) matches Some(f)
                    && find_last(haystack@, right@) matches Some(t)
                    && f + left@.len() <= t
                    && sub@ == haystack@.subrange(f + left@.len(), t)
            },
            None => {
                ||| find_first(haystack@, left@) is None
                ||| find_last(haystack@, right@) is None
                ||| (find_first(haystack@, left@) matches Some(f)
                    && find_last(haystack@, right@) matches Some(t)
                    && f + left@.len() > t)
            },
        },
{
    let hv = str_to_chars(haystack);
    let lv = str_to_chars(left);
    let rv = str_to_chars(right);
    let f = match find_sub(&hv, &lv) {
        Some(f) => f,
        None => {
            return None;
        },
    };
    let t = match rfind_sub(&hv, &rv) {
        Some(t) => t,
        None => {
            return None;
        },
    };
    let hn: usize = hv.len();
    proof {
        lemma_find_from_some(haystack@, left@, 0, f as int);
        lemma_rfind_from_some(haystack@, right@, haystack@.len() - right@.len(), t as int);
        assert(f + left@.len() <= hn);
    }
    let from: usize = f + lv.len();
    if from > t {
        return None;
    }
    Some(haystack.substring_char(from, t))
}

} // verus!
