//! Static extraction of the deciphering sequence from a player script.
//!
//! The script declares an object whose properties are the four canonical
//! array operations under arbitrary minified keys, and a decipher function
//! that splits the signature into characters, calls those properties in a
//! fixed order, and joins the result.  The grammar of those shapes is
//! defined here as deterministic specification-level parsers over character
//! sequences; the executable parsers are proved to decide them exactly.

use vstd::prelude::*;

use crate::text::{lit_at, match_at, str_to_chars};
use crate::tokens::{ActionToken, OperationKind};

verus! {

/// A character that may start a minified identifier.
pub open spec fn is_ident_start(c: char) -> bool {
    ||| ('a' as u32) <= (c as u32) && (c as u32) <= ('z' as u32)
    ||| ('A' as u32) <= (c as u32) && (c as u32) <= ('Z' as u32)
    ||| c == '_'
    ||| c == '$'
}

/// A character that may continue a minified identifier.
pub open spec fn is_ident_char(c: char) -> bool {
    is_ident_start(c) || (('0' as u32) <= (c as u32) && (c as u32) <= ('9' as u32))
}

/// A decimal digit.
pub open spec fn is_digit(c: char) -> bool {
    ('0' as u32) <= (c as u32) && (c as u32) <= ('9' as u32)
}

/// Whitespace accepted between the split call and the first operation call.
pub open spec fn is_ws(c: char) -> bool {
    c == ' ' || c == '\t' || c == '\r' || c == '\n'
}

/// Decides `is_ident_start`.
fn ident_start_exec(c: char) -> (r: bool)
    ensures
        r == is_ident_start(c),
{
    let u = c as u32;
    (97 <= u && u <= 122) || (65 <= u && u <= 90) || c == '_' || c == '$'
}

/// Decides `is_ident_char`.
fn ident_char_exec(c: char) -> (r: bool)
    ensures
        r == is_ident_char(c),
{
    let u = c as u32;
    ident_start_exec(c) || (48 <= u && u <= 57)
}

/// Decides `is_digit`.
pub(crate) fn digit_exec(c: char) -> (r: bool)
    ensures
        r == is_digit(c),
{
    let u = c as u32;
    48 <= u && u <= 57
}

/// Decides `is_ws`.
fn ws_exec(c: char) -> (r: bool)
    ensures
        r == is_ws(c),
{
    c == ' ' || c == '\t' || c == '\r' || c == '\n'
}

/// The end of the maximal run of identifier characters starting at `i`.
pub open spec fn ident_end(s: Seq<char>, i: int) -> int
    decreases s.len() - i,
{
    if i < s.len() && is_ident_char(s[i]) {
        ident_end(s, i + 1)
    } else {
        i
    }
}

/// The end of the maximal run of decimal digits starting at `i`.
pub open spec fn digits_end(s: Seq<char>, i: int) -> int
    decreases s.len() - i,
{
    if i < s.len() && is_digit(s[i]) {
        digits_end(s, i + 1)
    } else {
        i
    }
}

/// The end of the maximal run of whitespace starting at `i`.
pub open spec fn ws_end(s: Seq<char>, i: int) -> int
    decreases s.len() - i,
{
    if i < s.len() && is_ws(s[i]) {
        ws_end(s, i + 1)
    } else {
        i
    }
}

/// The end of an identifier run never lies before its start nor past the
/// end of the text.
pub proof fn lemma_ident_end_bounds(s: Seq<char>, i: int)
    requires
        0 <= i <= s.len(),
    ensures
        i <= ident_end(s, i) <= s.len(),
    decreases s.len() - i,
{
    if i < s.len() && is_ident_char(s[i]) {
        lemma_ident_end_bounds(s, i + 1);
    }
}

/// Decides `ident_end`.
fn scan_ident(s: &Vec<char>, i: usize) -> (r: usize)
    requires
        i <= s@.len(),
    ensures
        r as int == ident_end(s@, i as int),
        i <= r <= s@.len(),
    decreases s@.len() - i,
{
    if i < s.len() && ident_char_exec(s[i]) {
        scan_ident(s, i + 1)
    } else {
        i
    }
}

/// Decides `digits_end`.
fn scan_digits(s: &Vec<char>, i: usize) -> (r: usize)
    requires
        i <= s@.len(),
    ensures
        r as int == digits_end(s@, i as int),
        i <= r <= s@.len(),
    decreases s@.len() - i,
{
    if i < s.len() && digit_exec(s[i]) {
        scan_digits(s, i + 1)
    } else {
        i
    }
}

/// Decides `ws_end`.
fn scan_ws(s: &Vec<char>, i: usize) -> (r: usize)
    requires
        i <= s@.len(),
    ensures
        r as int == ws_end(s@, i as int),
        i <= r <= s@.len(),
    decreases s@.len() - i,
{
    if i < s.len() && ws_exec(s[i]) {
        scan_ws(s, i + 1)
    } else {
        i
    }
}

/// The position just after the quote that closes a quoted key whose inner
/// text starts at `i`.  Backslashes are not accepted inside quoted keys.
pub open spec fn quoted_end(s: Seq<char>, i: int, q: char) -> Option<int>
    decreases s.len() - i,
{
    if i < 0 || i >= s.len() {
        None
    } else if s[i] == q {
        Some(i + 1)
    } else if s[i] == '\\' {
        None
    } else {
        quoted_end(s, i + 1, q)
    }
}

/// Decides `quoted_end`.
fn scan_quoted(s: &Vec<char>, i: usize, q: char) -> (r: Option<usize>)
    ensures
        match r {
            Some(e) => quoted_end(s@, i as int, q) == Some(e as int) && i < e <= s@.len(),
            None => quoted_end(s@, i as int, q) is None,
        },
    decreases s@.len() - i,
{
    if i >= s.len() {
        None
    } else if s[i] == q {
        Some(i + 1)
    } else if s[i] == '\\' {
        None
    } else {
        scan_quoted(s, i + 1, q)
    }
}

/// A property key at position `i`: a bare identifier, or a single- or
/// double-quoted string.  Yields the key's text (without quotes) and the
/// position just after it.
pub open spec fn key_at(s: Seq<char>, i: int) -> Option<(Seq<char>, int)> {
    if 0 <= i < s.len() && (s[i] == '\'' || s[i] == '"') {
        match quoted_end(s, i + 1, s[i]) {
            None => None,
            Some(e) => Some((s.subrange(i + 1, e - 1), e)),
        }
    } else if 0 <= i < s.len() && is_ident_start(s[i]) {
        Some((s.subrange(i, ident_end(s, i)), ident_end(s, i)))
    } else {
        None
    }
}

/// Copies `s[a..b]` into a fresh buffer.
fn copy_range(s: &Vec<char>, a: usize, b: usize) -> (r: Vec<char>)
    requires
        a <= b <= s@.len(),
    ensures
        r@ == s@.subrange(a as int, b as int),
{
    let mut r: Vec<char> = Vec::new();
    let mut i: usize = a;
    while i < b
        invariant
            a <= i <= b <= s@.len(),
            r@.len() == i - a,
            forall|j: int| 0 <= j < r@.len() ==> r@[j] == s@[a + j],
        decreases b - i,
    {
        r.push(s[i]);
        i += 1;
    }
    proof {
        assert(r@ =~= s@.subrange(a as int, b as int));
    }
    r
}

/// Decides `key_at`.
fn parse_key(s: &Vec<char>, i: usize) -> (r: Option<(Vec<char>, usize)>)
    ensures
        match r {
            Some(p) => key_at(s@, i as int) matches Some(sp) && p.0@ == sp.0 && p.1 as int == sp.1
                && i < p.1 <= s@.len(),
            None => key_at(s@, i as int) is None,
        },
{
    if i < s.len() && (s[i] == '\'' || s[i] == '"') {
        let q = s[i];
        match scan_quoted(s, i + 1, q) {
            None => None,
            Some(e) => Some((copy_range(s, i + 1, e - 1), e)),
        }
    } else if i < s.len() && ident_start_exec(s[i]) {
        let e = scan_ident(s, i);
        proof {
            assert(ident_end(s@, i as int) == ident_end(s@, i as int + 1));
            lemma_ident_end_bounds(s@, i as int + 1);
        }
        Some((copy_range(s, i, e), e))
    } else {
        None
    }
}

/// The `Reverse` property body: a one-argument function reversing the
/// array, with or without an explicit `return`.
pub open spec fn reverse_end(s: Seq<char>, i: int) -> Option<int> {
    if lit_at(s, i, ":function(a){a.reverse()}"@) {
        Some(i + ":function(a){a.reverse()}"@.len() as int)
    } else if lit_at(s, i, ":function(a){return a.reverse()}"@) {
        Some(i + ":function(a){return a.reverse()}"@.len() as int)
    } else {
        None
    }
}

/// The `SliceFrom` property body: a two-argument function returning the
/// tail of the array from the second argument on.
pub open spec fn slice_end(s: Seq<char>, i: int) -> Option<int> {
    if lit_at(s, i, ":function(a,b){return a.slice(b)}"@) {
        Some(i + ":function(a,b){return a.slice(b)}"@.len() as int)
    } else {
        None
    }
}

/// The `RemovePrefix` property body: a two-argument function splicing the
/// first `b` elements off the front of the array.
pub open spec fn splice_end(s: Seq<char>, i: int) -> Option<int> {
    if lit_at(s, i, ":function(a,b){a.splice(0,b)}"@) {
        Some(i + ":function(a,b){a.splice(0,b)}"@.len() as int)
    } else {
        None
    }
}

/// The index expression inside the `SwapFirst` body, with or without a
/// modulo by the array length.
pub open spec fn swap_idx_end(s: Seq<char>, i: int) -> Option<int> {
    if lit_at(s, i, "b%a.length"@) {
        Some(i + "b%a.length"@.len() as int)
    } else if lit_at(s, i, "b"@) {
        Some(i + "b"@.len() as int)
    } else {
        None
    }
}

/// The close of the `SwapFirst` body, with or without an explicit
/// `return`.
pub open spec fn swap_tail_end(s: Seq<char>, i: int) -> Option<int> {
    if lit_at(s, i, ";return a}"@) {
        Some(i + ";return a}"@.len() as int)
    } else if lit_at(s, i, "}"@) {
        Some(i + "}"@.len() as int)
    } else {
        None
    }
}

/// The `SwapFirst` property body: a two-argument function exchanging the
/// element at index 0 with the one at the index named by the second
/// argument.
pub open spec fn swap_end(s: Seq<char>, i: int) -> Option<int> {
    if !lit_at(s, i, ":function(a,b){var c=a[0];a[0]=a["@) {
        None
    } else {
        let j1 = i + ":function(a,b){var c=a[0];a[0]=a["@.len() as int;
        match swap_idx_end(s, j1) {
            None => None,
            Some(j2) => if !lit_at(s, j2, "];a["@) {
                None
            } else {
                let j3 = j2 + "];a["@.len() as int;
                match swap_idx_end(s, j3) {
                    None => None,
                    Some(j4) => if !lit_at(s, j4, "]=c"@) {
                        None
                    } else {
                        swap_tail_end(s, j4 + "]=c"@.len() as int)
                    },
                }
            },
        }
    }
}

/// The property body at `i`, classified by operation kind, together with
/// the position just after it.  The four shapes are mutually exclusive.
pub open spec fn shape_at(s: Seq<char>, i: int) -> Option<(OperationKind, int)> {
    match reverse_end(s, i) {
        Some(e) => Some((OperationKind::Reverse, e)),
        None => match slice_end(s, i) {
            Some(e) => Some((OperationKind::SliceFrom, e)),
            None => match splice_end(s, i) {
                Some(e) => Some((OperationKind::RemovePrefix, e)),
                None => match swap_end(s, i) {
                    Some(e) => Some((OperationKind::SwapFirst, e)),
                    None => None,
                },
            },
        },
    }
}

/// Decides `swap_idx_end`.
fn match_swap_idx(s: &Vec<char>, i: usize) -> (r: Option<usize>)
    ensures
        match r {
            Some(e) => swap_idx_end(s@, i as int) == Some(e as int) && i <= e <= s@.len(),
            None => swap_idx_end(s@, i as int) is None,
        },
{
    let p1 = str_to_chars("b%a.length");
    if match_at(s, i, &p1) {
        return Some(i + p1.len());
    }
    let p2 = str_to_chars("b");
    if match_at(s, i, &p2) {
        return Some(i + p2.len());
    }
    None
}

/// Decides `swap_tail_end`.
fn match_swap_tail(s: &Vec<char>, i: usize) -> (r: Option<usize>)
    ensures
        match r {
            Some(e) => swap_tail_end(s@, i as int) == Some(e as int) && i <= e <= s@.len(),
            None => swap_tail_end(s@, i as int) is None,
        },
{
    let p1 = str_to_chars(";return a}");
    if match_at(s, i, &p1) {
        return Some(i + p1.len());
    }
    let p2 = str_to_chars("}");
    if match_at(s, i, &p2) {
        return Some(i + p2.len());
    }
    None
}

/// Decides `shape_at`.
fn parse_shape(s: &Vec<char>, i: usize) -> (r: Option<(OperationKind, usize)>)
    ensures
        match r {
            Some(p) => shape_at(s@, i as int) == Some((p.0, p.1 as int)) && i <= p.1 <= s@.len(),
            None => shape_at(s@, i as int) is None,
        },
{
    let rev1 = str_to_chars(":function(a){a.reverse()}");
    if match_at(s, i, &rev1) {
        return Some((OperationKind::Reverse, i + rev1.len()));
    }
    let rev2 = str_to_chars(":function(a){return a.reverse()}");
    if match_at(s, i, &rev2) {
        return Some((OperationKind::Reverse, i + rev2.len()));
    }
    let sl = str_to_chars(":function(a,b){return a.slice(b)}");
    if match_at(s, i, &sl) {
        return Some((OperationKind::SliceFrom, i + sl.len()));
    }
    let sp = str_to_chars(":function(a,b){a.splice(0,b)}");
    if match_at(s, i, &sp) {
        return Some((OperationKind::RemovePrefix, i + sp.len()));
    }
    let sw = str_to_chars(":function(a,b){var c=a[0];a[0]=a[");
    if !match_at(s, i, &sw) {
        return None;
    }
    let j1: usize = i + sw.len();
    let j2 = match match_swap_idx(s, j1) {
        None => {
            return None;
        },
        Some(e) => e,
    };
    let br = str_to_chars("];a[");
    if !match_at(s, j2, &br) {
        return None;
    }
    let j3: usize = j2 + br.len();
    let j4 = match match_swap_idx(s, j3) {
        None => {
            return None;
        },
        Some(e) => e,
    };
    let cl = str_to_chars("]=c");
    if !match_at(s, j4, &cl) {
        return None;
    }
    match match_swap_tail(s, j4 + cl.len()) {
        None => None,
        Some(e) => Some((OperationKind::SwapFirst, e)),
    }
}

/// The position after the optional separators that may follow an object
/// entry: a comma, a carriage return and a line feed, each optional.
pub open spec fn sep_end(s: Seq<char>, i: int) -> int {
    let a = if lit_at(s, i, ","@) {
        i + ","@.len() as int
    } else {
        i
    };
    let b = if lit_at(s, a, "\r"@) {
        a + "\r"@.len() as int
    } else {
        a
    };
    if lit_at(s, b, "\n"@) {
        b + "\n"@.len() as int
    } else {
        b
    }
}

/// Decides `sep_end`.
fn skip_sep(s: &Vec<char>, i: usize) -> (r: usize)
    ensures
        r as int == sep_end(s@, i as int),
        i <= r,
        r == i || r <= s@.len(),
{
    let comma = str_to_chars(",");
    let a: usize = if match_at(s, i, &comma) {
        i + comma.len()
    } else {
        i
    };
    let cr = str_to_chars("\r");
    let b: usize = if match_at(s, a, &cr) {
        a + cr.len()
    } else {
        a
    };
    let nl = str_to_chars("\n");
    if match_at(s, b, &nl) {
        b + nl.len()
    } else {
        b
    }
}

/// The one-or-more property entries of the operations object starting at
/// `i`, each a key followed by one of the four canonical bodies, up to and
/// including the closing `};`.  Yields the entries in source order and the
/// position just after the close.
pub open spec fn entries_at(s: Seq<char>, i: int) -> Option<(Seq<(Seq<char>, OperationKind)>, int)>
    decreases s.len() - i,
{
    match key_at(s, i) {
        None => None,
        Some((k, e1)) => match shape_at(s, e1) {
            None => None,
            Some((kind, e2)) => {
                let e3 = sep_end(s, e2);
                if lit_at(s, e3, "};"@) {
                    Some((seq![(k, kind)], e3 + "};"@.len() as int))
                } else if i < e3 <= s.len() {
                    match entries_at(s, e3) {
                        None => None,
                        Some((rest, e4)) => Some((seq![(k, kind)] + rest, e4)),
                    }
                } else {
                    None
                }
            },
        },
    }
}

/// The key of the first entry of the given kind, if any: the key the
/// resolver associates with that canonical operation.
pub open spec fn first_key(
    ents: Seq<(Seq<char>, OperationKind)>,
    kind: OperationKind,
) -> Option<Seq<char>>
    decreases ents.len(),
{
    if ents.len() == 0 {
        None
    } else if ents[0].1 == kind {
        Some(ents[0].0)
    } else {
        first_key(ents.drop_first(), kind)
    }
}

/// The key table resolved from an entry list: for each canonical
/// operation, the key of its first entry, absent when the shape never
/// occurs.
pub struct ResolvedSpec {
    pub reverse: Option<Seq<char>>,
    pub slice_from: Option<Seq<char>>,
    pub remove_prefix: Option<Seq<char>>,
    pub swap_first: Option<Seq<char>>,
}

/// Resolves all four canonical operations against an entry list.
pub open spec fn resolve_all(ents: Seq<(Seq<char>, OperationKind)>) -> ResolvedSpec {
    ResolvedSpec {
        reverse: first_key(ents, OperationKind::Reverse),
        slice_from: first_key(ents, OperationKind::SliceFrom),
        remove_prefix: first_key(ents, OperationKind::RemovePrefix),
        swap_first: first_key(ents, OperationKind::SwapFirst),
    }
}

/// The executable key table.
pub struct Resolved {
    pub reverse: Option<Vec<char>>,
    pub slice_from: Option<Vec<char>>,
    pub remove_prefix: Option<Vec<char>>,
    pub swap_first: Option<Vec<char>>,
}

/// The mathematical table an executable table stands for.
pub open spec fn r_view(r: &Resolved) -> ResolvedSpec {
    ResolvedSpec {
        reverse: match r.reverse {
            Some(v) => Some(v@),
            None => None,
        },
        slice_from: match r.slice_from {
            Some(v) => Some(v@),
            None => None,
        },
        remove_prefix: match r.remove_prefix {
            Some(v) => Some(v@),
            None => None,
        },
        swap_first: match r.swap_first {
            Some(v) => Some(v@),
            None => None,
        },
    }
}

/// Resolution of a single-entry list.
proof fn lemma_first_key_single(e: (Seq<char>, OperationKind), kind: OperationKind)
    ensures
        first_key(seq![e], kind) == if e.1 == kind {
            Some(e.0)
        } else {
            None::<Seq<char>>
        },
{
    assert(seq![e][0] == e);
    assert(seq![e].drop_first() =~= Seq::<(Seq<char>, OperationKind)>::empty());
    assert(first_key(Seq::<(Seq<char>, OperationKind)>::empty(), kind) is None);
}

/// Resolution of a list looks at its head first.
proof fn lemma_first_key_cons(
    e: (Seq<char>, OperationKind),
    rest: Seq<(Seq<char>, OperationKind)>,
    kind: OperationKind,
)
    ensures
        first_key(seq![e] + rest, kind) == if e.1 == kind {
            Some(e.0)
        } else {
            first_key(rest, kind)
        },
{
    let ts = seq![e] + rest;
    assert(ts[0] == e);
    assert(ts.drop_first() =~= rest);
}

/// Decides `entries_at`, producing the resolved key table of the entries
/// rather than the entry list itself.
fn parse_entries(s: &Vec<char>, i: usize) -> (r: Option<(Resolved, usize)>)
    requires
        i <= s@.len(),
    ensures
        match r {
            Some(p) => entries_at(s@, i as int) matches Some(q) && r_view(&p.0) == resolve_all(q.0)
                && p.1 as int == q.1,
            None => entries_at(s@, i as int) is None,
        },
    decreases s@.len() - i,
{
    let (k, e1) = match parse_key(s, i) {
        None => {
            return None;
        },
        Some(p) => p,
    };
    let (kind, e2) = match parse_shape(s, e1) {
        None => {
            return None;
        },
        Some(p) => p,
    };
    let e3 = skip_sep(s, e2);
    let close = str_to_chars("};");
    if match_at(s, e3, &close) {
        let ghost ent = (k@, kind);
        let res = match kind {
            OperationKind::Reverse => Resolved {
                reverse: Some(k),
                slice_from: None,
                remove_prefix: None,
                swap_first: None,
            },
            OperationKind::SliceFrom => Resolved {
                reverse: None,
                slice_from: Some(k),
                remove_prefix: None,
                swap_first: None,
            },
            OperationKind::RemovePrefix => Resolved {
                reverse: None,
                slice_from: None,
                remove_prefix: Some(k),
                swap_first: None,
            },
            OperationKind::SwapFirst => Resolved {
                reverse: None,
                slice_from: None,
                remove_prefix: None,
                swap_first: Some(k),
            },
        };
        proof {
            lemma_first_key_single(ent, OperationKind::Reverse);
            lemma_first_key_single(ent, OperationKind::SliceFrom);
            lemma_first_key_single(ent, OperationKind::RemovePrefix);
            lemma_first_key_single(ent, OperationKind::SwapFirst);
        }
        Some((res, e3 + close.len()))
    } else if e3 > i && e3 <= s.len() {
        match parse_entries(s, e3) {
            None => None,
            Some((rest, e4)) => {
                let ghost ent = (k@, kind);
                let ghost rest_ents = entries_at(s@, e3 as int)->Some_0.0;
                let res = match kind {
                    OperationKind::Reverse => Resolved {
                        reverse: Some(k),
                        slice_from: rest.slice_from,
                        remove_prefix: rest.remove_prefix,
                        swap_first: rest.swap_first,
                    },
                    OperationKind::SliceFrom => Resolved {
                        reverse: rest.reverse,
                        slice_from: Some(k),
                        remove_prefix: rest.remove_prefix,
                        swap_first: rest.swap_first,
                    },
                    OperationKind::RemovePrefix => Resolved {
                        reverse: rest.reverse,
                        slice_from: rest.slice_from,
                        remove_prefix: Some(k),
                        swap_first: rest.swap_first,
                    },
                    OperationKind::SwapFirst => Resolved {
                        reverse: rest.reverse,
                        slice_from: rest.slice_from,
                        remove_prefix: rest.remove_prefix,
                        swap_first: Some(k),
                    },
                };
                proof {
                    lemma_first_key_cons(ent, rest_ents, OperationKind::Reverse);
                    lemma_first_key_cons(ent, rest_ents, OperationKind::SliceFrom);
                    lemma_first_key_cons(ent, rest_ents, OperationKind::RemovePrefix);
                    lemma_first_key_cons(ent, rest_ents, OperationKind::SwapFirst);
                }
                Some((res, e4))
            },
        }
    } else {
        None
    }
}

/// The operations object declared at `i`: `var NAME={ENTRIES};`.  Yields
/// the object's name, its entries, and the position just after the close.
pub open spec fn obj_at(s: Seq<char>, i: int) -> Option<
    (Seq<char>, Seq<(Seq<char>, OperationKind)>, int),
> {
    if !lit_at(s, i, "var "@) {
        None
    } else {
        let j = i + "var "@.len() as int;
        if !(j < s.len() && is_ident_start(s[j])) {
            None
        } else {
            let e = ident_end(s, j);
            if !lit_at(s, e, "={"@) {
                None
            } else {
                match entries_at(s, e + "={"@.len() as int) {
                    None => None,
                    Some((ents, end)) => Some((s.subrange(j, e), ents, end)),
                }
            }
        }
    }
}

/// Decides `obj_at`, producing the name and the resolved key table.
fn parse_obj(s: &Vec<char>, i: usize) -> (r: Option<(Vec<char>, Resolved, usize)>)
    ensures
        match r {
            Some(p) => obj_at(s@, i as int) matches Some(q) && p.0@ == q.0 && r_view(&p.1)
                == resolve_all(q.1) && p.2 as int == q.2,
            None => obj_at(s@, i as int) is None,
        },
{
    let var = str_to_chars("var ");
    if !match_at(s, i, &var) {
        return None;
    }
    let j: usize = i + var.len();
    if !(j < s.len() && ident_start_exec(s[j])) {
        return None;
    }
    let e = scan_ident(s, j);
    let brace = str_to_chars("={");
    if !match_at(s, e, &brace) {
        return None;
    }
    match parse_entries(s, e + brace.len()) {
        None => None,
        Some((res, end)) => Some((copy_range(s, j, e), res, end)),
    }
}

/// The first position at or after `i` where an operations object is
/// declared, with the object's name and entries.
pub open spec fn obj_search(s: Seq<char>, i: int) -> Option<
    (Seq<char>, Seq<(Seq<char>, OperationKind)>),
>
    decreases s.len() - i,
{
    if i >= s.len() {
        None
    } else {
        match obj_at(s, i) {
            Some((name, ents, _)) => Some((name, ents)),
            None => obj_search(s, i + 1),
        }
    }
}

/// Decides `obj_search` from the start of the text.
fn find_obj(s: &Vec<char>) -> (r: Option<(Vec<char>, Resolved)>)
    ensures
        match r {
            Some(p) => obj_search(s@, 0) matches Some(q) && p.0@ == q.0 && r_view(&p.1)
                == resolve_all(q.1),
            None => obj_search(s@, 0) is None,
        },
{
    let n = s.len();
    let mut i: usize = 0;
    while i < n
        invariant
            n == s@.len(),
            i <= n,
            obj_search(s@, 0) == obj_search(s@, i as int),
        decreases n - i,
    {
        match parse_obj(s, i) {
            Some((name, res, _end)) => {
                return Some((name, res));
            },
            None => {},
        }
        proof {
            assert(obj_search(s@, i as int) == obj_search(s@, i as int + 1));
        }
        i += 1;
    }
    None
}

/// One operation call as written in the decipher function's body: the
/// object it is made on, the property key, and the numeric operand text.
pub struct CallSpec {
    pub obj: Seq<char>,
    pub key: Seq<char>,
    pub num: Seq<char>,
}

/// The executable form of a parsed operation call.
pub struct Call {
    pub obj: Vec<char>,
    pub key: Vec<char>,
    pub num: Vec<char>,
}

/// The mathematical calls an executable call list stands for.
pub open spec fn call_views(cs: Seq<Call>) -> Seq<CallSpec> {
    Seq::new(cs.len(), |k: int| CallSpec { obj: cs[k].obj@, key: cs[k].key@, num: cs[k].num@ })
}

/// The property access after an object name: `.key`, `['key']` or
/// `["key"]`.  Yields the key text and the position just after it.
pub open spec fn prop_key_at(s: Seq<char>, i: int) -> Option<(Seq<char>, int)> {
    if lit_at(s, i, "."@) {
        let j = i + "."@.len() as int;
        if j < s.len() && is_ident_start(s[j]) {
            Some((s.subrange(j, ident_end(s, j)), ident_end(s, j)))
        } else {
            None
        }
    } else if lit_at(s, i, "["@) {
        let j = i + "["@.len() as int;
        if j < s.len() && (s[j] == '\'' || s[j] == '"') {
            match quoted_end(s, j + 1, s[j]) {
                None => None,
                Some(qe) => if lit_at(s, qe, "]"@) {
                    Some((s.subrange(j + 1, qe - 1), qe + "]"@.len() as int))
                } else {
                    None
                },
            }
        } else {
            None
        }
    } else {
        None
    }
}

/// Decides `prop_key_at`.
fn parse_prop_key(s: &Vec<char>, i: usize) -> (r: Option<(Vec<char>, usize)>)
    ensures
        match r {
            Some(p) => prop_key_at(s@, i as int) matches Some(q) && p.0@ == q.0 && p.1 as int
                == q.1 && i < p.1 <= s@.len(),
            None => prop_key_at(s@, i as int) is None,
        },
{
    let dot = str_to_chars(".");
    if match_at(s, i, &dot) {
        let j: usize = i + dot.len();
        if j < s.len() && ident_start_exec(s[j]) {
            let e = scan_ident(s, j);
            proof {
                assert(ident_end(s@, j as int) == ident_end(s@, j as int + 1));
                lemma_ident_end_bounds(s@, j as int + 1);
            }
            return Some((copy_range(s, j, e), e));
        }
        return None;
    }
    let open = str_to_chars("[");
    if match_at(s, i, &open) {
        let j: usize = i + open.len();
        if j < s.len() && (s[j] == '\'' || s[j] == '"') {
            let q = s[j];
            match scan_quoted(s, j + 1, q) {
                None => {
                    return None;
                },
                Some(qe) => {
                    let close = str_to_chars("]");
                    if match_at(s, qe, &close) {
                        return Some((copy_range(s, j + 1, qe - 1), qe + close.len()));
                    }
                    return None;
                },
            }
        }
        return None;
    }
    None
}

/// One operation call at `i`: an optional `a=` reassignment prefix, an
/// object identifier, a property access, and an `(a,NUM);` argument list
/// with a decimal operand.
pub open spec fn call_at(s: Seq<char>, i: int) -> Option<(CallSpec, int)> {
    let j = if lit_at(s, i, "a="@) {
        i + "a="@.len() as int
    } else {
        i
    };
    if !(j < s.len() && is_ident_start(s[j])) {
        None
    } else {
        let e1 = ident_end(s, j);
        match prop_key_at(s, e1) {
            None => None,
            Some((key, e2)) => if !lit_at(s, e2, "(a,"@) {
                None
            } else {
                let d = e2 + "(a,"@.len() as int;
                let de = digits_end(s, d);
                if de == d {
                    None
                } else if !lit_at(s, de, ");"@) {
                    None
                } else {
                    Some(
                        (
                            CallSpec {
                                obj: s.subrange(j, e1),
                                key: key,
                                num: s.subrange(d, de),
                            },
                            de + ");"@.len() as int,
                        ),
                    )
                }
            },
        }
    }
}

/// Decides `call_at`.
fn parse_call(s: &Vec<char>, i: usize) -> (r: Option<(Call, usize)>)
    requires
        i <= s@.len(),
    ensures
        match r {
            Some(p) => call_at(s@, i as int) matches Some(q) && p.0.obj@ == q.0.obj && p.0.key@
                == q.0.key && p.0.num@ == q.0.num && p.1 as int == q.1 && i < p.1 <= s@.len(),
            None => call_at(s@, i as int) is None,
        },
{
    let assign = str_to_chars("a=");
    let j: usize = if match_at(s, i, &assign) {
        i + assign.len()
    } else {
        i
    };
    if !(j < s.len() && ident_start_exec(s[j])) {
        return None;
    }
    let e1 = scan_ident(s, j);
    let (key, e2) = match parse_prop_key(s, e1) {
        None => {
            return None;
        },
        Some(p) => p,
    };
    let par = str_to_chars("(a,");
    if !match_at(s, e2, &par) {
        return None;
    }
    let d: usize = e2 + par.len();
    let de = scan_digits(s, d);
    if de == d {
        return None;
    }
    let close = str_to_chars(");");
    if !match_at(s, de, &close) {
        return None;
    }
    Some(
        (
            Call { obj: copy_range(s, j, e1), key: key, num: copy_range(s, d, de) },
            de + close.len(),
        ),
    )
}

/// An empty string literal, with either quote style.
pub open spec fn empty_str_end(s: Seq<char>, i: int) -> Option<int> {
    if lit_at(s, i, "''"@) {
        Some(i + "''"@.len() as int)
    } else if lit_at(s, i, "\"\""@) {
        Some(i + "\"\""@.len() as int)
    } else {
        None
    }
}

/// Decides `empty_str_end`.
fn match_empty_str(s: &Vec<char>, i: usize) -> (r: Option<usize>)
    ensures
        match r {
            Some(e) => empty_str_end(s@, i as int) == Some(e as int) && i <= e <= s@.len(),
            None => empty_str_end(s@, i as int) is None,
        },
{
    let p1 = str_to_chars("''");
    if match_at(s, i, &p1) {
        return Some(i + p1.len());
    }
    let p2 = str_to_chars("\"\"");
    if match_at(s, i, &p2) {
        return Some(i + p2.len());
    }
    None
}

/// The close of the decipher function: `return a.join('')}` with either
/// quote style.
pub open spec fn tail_at(s: Seq<char>, i: int) -> Option<int> {
    if !lit_at(s, i, "return a.join("@) {
        None
    } else {
        match empty_str_end(s, i + "return a.join("@.len() as int) {
            None => None,
            Some(j) => if lit_at(s, j, ")}"@) {
                Some(j + ")}"@.len() as int)
            } else {
                None
            },
        }
    }
}

/// Decides `tail_at`.
fn match_tail(s: &Vec<char>, i: usize) -> (r: Option<usize>)
    ensures
        match r {
            Some(e) => tail_at(s@, i as int) == Some(e as int),
            None => tail_at(s@, i as int) is None,
        },
{
    let ret = str_to_chars("return a.join(");
    if !match_at(s, i, &ret) {
        return None;
    }
    match match_empty_str(s, i + ret.len()) {
        None => None,
        Some(j) => {
            let close = str_to_chars(")}");
            if match_at(s, j, &close) {
                Some(j + close.len())
            } else {
                None
            }
        },
    }
}

/// The remaining operation calls after `i`, ended by the function's
/// closing `return a.join('')}`.  Yields the calls in source order and the
/// position just after the close.
pub open spec fn calls_rest(s: Seq<char>, i: int) -> Option<(Seq<CallSpec>, int)>
    decreases s.len() - i,
{
    match tail_at(s, i) {
        Some(end) => Some((Seq::empty(), end)),
        None => match call_at(s, i) {
            None => None,
            Some((c, e)) => if i < e <= s.len() {
                match calls_rest(s, e) {
                    None => None,
                    Some((rest, end)) => Some((seq![c] + rest, end)),
                }
            } else {
                None
            },
        },
    }
}

/// Decides `calls_rest`.
fn parse_calls_rest(s: &Vec<char>, i: usize) -> (r: Option<(Vec<Call>, usize)>)
    requires
        i <= s@.len(),
    ensures
        match r {
            Some(p) => calls_rest(s@, i as int) matches Some(q) && call_views(p.0@) == q.0 && p.1
                as int == q.1,
            None => calls_rest(s@, i as int) is None,
        },
    decreases s@.len() - i,
{
    match match_tail(s, i) {
        Some(end) => {
            let out: Vec<Call> = Vec::new();
            proof {
                assert(call_views(out@) =~= Seq::<CallSpec>::empty());
            }
            Some((out, end))
        },
        None => {
            let (c, e) = match parse_call(s, i) {
                None => {
                    return None;
                },
                Some(p) => p,
            };
            let ghost cv = CallSpec { obj: c.obj@, key: c.key@, num: c.num@ };
            match parse_calls_rest(s, e) {
                None => None,
                Some((rest, end)) => {
                    let ghost rest_views = call_views(rest@);
                    let mut out = rest;
                    out.insert(0, c);
                    proof {
                        assert(call_views(out@) =~= seq![cv] + rest_views);
                    }
                    Some((out, end))
                },
            }
        },
    }
}

/// The decipher function declared at `i`: an optionally named
/// single-argument function that splits its argument on the empty string,
/// applies one or more operation calls, and joins the result on the empty
/// string.  Yields the calls in source order and the position after the
/// close.
pub open spec fn func_at(s: Seq<char>, i: int) -> Option<(Seq<CallSpec>, int)> {
    if !lit_at(s, i, "function"@) {
        None
    } else {
        let h = i + "function"@.len() as int;
        let h2 = if h < s.len() && s[h] == ' ' && h + 1 < s.len() && is_ident_start(s[h + 1]) {
            ident_end(s, h + 1)
        } else {
            h
        };
        if !lit_at(s, h2, "(a){a=a.split("@) {
            None
        } else {
            match empty_str_end(s, h2 + "(a){a=a.split("@.len() as int) {
                None => None,
                Some(j) => if !lit_at(s, j, ");"@) {
                    None
                } else {
                    let b = ws_end(s, j + ");"@.len() as int);
                    match call_at(s, b) {
                        None => None,
                        Some((c, e)) => if b < e <= s.len() {
                            match calls_rest(s, e) {
                                None => None,
                                Some((rest, end)) => Some((seq![c] + rest, end)),
                            }
                        } else {
                            None
                        },
                    }
                },
            }
        }
    }
}

/// Decides `func_at`.
fn parse_func(s: &Vec<char>, i: usize) -> (r: Option<(Vec<Call>, usize)>)
    ensures
        match r {
            Some(p) => func_at(s@, i as int) matches Some(q) && call_views(p.0@) == q.0 && p.1
                as int == q.1,
            None => func_at(s@, i as int) is None,
        },
{
    let kw = str_to_chars("function");
    if !match_at(s, i, &kw) {
        return None;
    }
    let h: usize = i + kw.len();
    let h2: usize = if h < s.len() && s[h] == ' ' && h + 1 < s.len() && ident_start_exec(
        s[h + 1],
    ) {
        scan_ident(s, h + 1)
    } else {
        h
    };
    let split = str_to_chars("(a){a=a.split(");
    if !match_at(s, h2, &split) {
        return None;
    }
    let j = match match_empty_str(s, h2 + split.len()) {
        None => {
            return None;
        },
        Some(j) => j,
    };
    let semi = str_to_chars(");");
    if !match_at(s, j, &semi) {
        return None;
    }
    let b = scan_ws(s, j + semi.len());
    let (c, e) = match parse_call(s, b) {
        None => {
            return None;
        },
        Some(p) => p,
    };
    let ghost cv = CallSpec { obj: c.obj@, key: c.key@, num: c.num@ };
    match parse_calls_rest(s, e) {
        None => None,
        Some((rest, end)) => {
            let ghost rest_views = call_views(rest@);
            let mut out = rest;
            out.insert(0, c);
            proof {
                assert(call_views(out@) =~= seq![cv] + rest_views);
            }
            Some((out, end))
        },
    }
}

/// The first position at or after `i` where a decipher function is
/// declared, with its operation calls.
pub open spec fn func_search(s: Seq<char>, i: int) -> Option<Seq<CallSpec>>
    decreases s.len() - i,
{
    if i >= s.len() {
        None
    } else {
        match func_at(s, i) {
            Some((calls, _)) => Some(calls),
            None => func_search(s, i + 1),
        }
    }
}

/// Decides `func_search` from the start of the text.
fn find_func(s: &Vec<char>) -> (r: Option<Vec<Call>>)
    ensures
        match r {
            Some(p) => func_search(s@, 0) matches Some(q) && call_views(p@) == q,
            None => func_search(s@, 0) is None,
        },
{
    let n = s.len();
    let mut i: usize = 0;
    while i < n
        invariant
            n == s@.len(),
            i <= n,
            func_search(s@, 0) == func_search(s@, i as int),
        decreases n - i,
    {
        match parse_func(s, i) {
            Some((calls, _end)) => {
                return Some(calls);
            },
            None => {},
        }
        proof {
            assert(func_search(s@, i as int) == func_search(s@, i as int + 1));
        }
        i += 1;
    }
    None
}

/// Why extraction failed.
#[derive(Clone, Copy, Debug, PartialEq, Eq, Structural)]
pub enum ExtractError {
    /// No operations-object shape occurs anywhere in the script.
    ObjectNotFound,
    /// No decipher-function shape occurs anywhere in the script.
    FunctionNotFound,
    /// Both shapes matched, but no operation call could be derived: an
    /// empty sequence is never a valid extraction result.
    PatternMismatch,
    /// A matched numeric literal does not fit a `usize`.
    OperandParseFailure,
}

/// The value of one decimal digit character (0 for non-digits).
pub open spec fn digit_of(c: char) -> nat {
    if c == '1' {
        1
    } else if c == '2' {
        2
    } else if c == '3' {
        3
    } else if c == '4' {
        4
    } else if c == '5' {
        5
    } else if c == '6' {
        6
    } else if c == '7' {
        7
    } else if c == '8' {
        8
    } else if c == '9' {
        9
    } else {
        0
    }
}

/// Decides `digit_of`.
pub(crate) fn digit_of_exec(c: char) -> (r: u8)
    ensures
        r as nat == digit_of(c),
        r <= 9,
{
    if c == '1' {
        1
    } else if c == '2' {
        2
    } else if c == '3' {
        3
    } else if c == '4' {
        4
    } else if c == '5' {
        5
    } else if c == '6' {
        6
    } else if c == '7' {
        7
    } else if c == '8' {
        8
    } else if c == '9' {
        9
    } else {
        0
    }
}

/// The value of a run of decimal digits.
pub open spec fn digit_val(ds: Seq<char>) -> nat
    decreases ds.len(),
{
    if ds.len() == 0 {
        0
    } else {
        digit_val(ds.drop_last()) * 10 + digit_of(ds.last())
    }
}

/// A longer digit prefix never has a smaller value.
proof fn lemma_digit_val_mono(s: Seq<char>, i: int, j: int)
    requires
        0 <= i <= j <= s.len(),
    ensures
        digit_val(s.subrange(0, i)) <= digit_val(s.subrange(0, j)),
    decreases j - i,
{
    if i < j {
        lemma_digit_val_mono(s, i, j - 1);
        assert(s.subrange(0, j).drop_last() =~= s.subrange(0, j - 1));
        assert(digit_val(s.subrange(0, j)) == digit_val(s.subrange(0, j - 1)) * 10 + digit_of(
            s.subrange(0, j).last(),
        ));
    }
}

/// Parses a digit run as a `usize`; reports when the value does not fit.
fn digits_to_usize(num: &Vec<char>) -> (r: Option<usize>)
    ensures
        match r {
            Some(v) => v as nat == digit_val(num@),
            None => digit_val(num@) > usize::MAX,
        },
{
    let n = num.len();
    let mut acc: u128 = 0;
    let mut i: usize = 0;
    proof {
        assert(num@.subrange(0, 0) =~= Seq::<char>::empty());
    }
    while i < n
        invariant
            n == num@.len(),
            i <= n,
            acc as nat == digit_val(num@.subrange(0, i as int)),
            acc <= usize::MAX as u128,
        decreases n - i,
    {
        let d = digit_of_exec(num[i]);
        acc = acc * 10 + (d as u128);
        proof {
            assert(num@.subrange(0, i as int + 1).drop_last() =~= num@.subrange(0, i as int));
            assert(num@.subrange(0, i as int + 1).last() == num@[i as int]);
        }
        i += 1;
        if acc > (usize::MAX as u128) {
            proof {
                lemma_digit_val_mono(num@, i as int, num@.len() as int);
                assert(num@.subrange(0, num@.len() as int) =~= num@);
            }
            return None;
        }
    }
    proof {
        assert(num@.subrange(0, n as int) =~= num@);
    }
    Some(acc as usize)
}

/// Whether two character buffers spell the same text.
fn chars_eq(a: &Vec<char>, b: &Vec<char>) -> (r: bool)
    ensures
        r == (a@ == b@),
{
    if a.len() != b.len() {
        return false;
    }
    let mut i: usize = 0;
    while i < a.len()
        invariant
            a@.len() == b@.len(),
            i <= a@.len(),
            forall|j: int| 0 <= j < i ==> a@[j] == b@[j],
        decreases a@.len() - i,
    {
        if a[i] != b[i] {
            return false;
        }
        i += 1;
    }
    proof {
        assert(a@ =~= b@);
    }
    true
}

/// The operation a resolved key table assigns to a key.  When two
/// canonical shapes resolved to the same key text, the one later in the
/// fixed scan order Reverse, SliceFrom, RemovePrefix, SwapFirst wins, so
/// the candidates are tried here in the reverse of that order.
pub open spec fn kind_of_key(r: ResolvedSpec, k: Seq<char>) -> Option<OperationKind> {
    if r.swap_first == Some(k) {
        Some(OperationKind::SwapFirst)
    } else if r.remove_prefix == Some(k) {
        Some(OperationKind::RemovePrefix)
    } else if r.slice_from == Some(k) {
        Some(OperationKind::SliceFrom)
    } else if r.reverse == Some(k) {
        Some(OperationKind::Reverse)
    } else {
        None
    }
}

/// Decides `kind_of_key`.
fn kind_for_key(res: &Resolved, k: &Vec<char>) -> (r: Option<OperationKind>)
    ensures
        r == kind_of_key(r_view(res), k@),
{
    match &res.swap_first {
        Some(v) => if chars_eq(v, k) {
            return Some(OperationKind::SwapFirst);
        },
        None => {},
    }
    match &res.remove_prefix {
        Some(v) => if chars_eq(v, k) {
            return Some(OperationKind::RemovePrefix);
        },
        None => {},
    }
    match &res.slice_from {
        Some(v) => if chars_eq(v, k) {
            return Some(OperationKind::SliceFrom);
        },
        None => {},
    }
    match &res.reverse {
        Some(v) => if chars_eq(v, k) {
            return Some(OperationKind::Reverse);
        },
        None => {},
    }
    None
}

/// The operations emitted by a call list, in source order: one per call
/// that is made on the resolved object under a resolved key, as a pair of
/// the operation kind and the operand's digit text.
pub open spec fn emitted(
    calls: Seq<CallSpec>,
    obj: Seq<char>,
    r: ResolvedSpec,
) -> Seq<(OperationKind, Seq<char>)>
    decreases calls.len(),
{
    if calls.len() == 0 {
        Seq::empty()
    } else {
        let rest = emitted(calls.drop_first(), obj, r);
        if calls[0].obj == obj && kind_of_key(r, calls[0].key) is Some {
            seq![(kind_of_key(r, calls[0].key).unwrap(), calls[0].num)] + rest
        } else {
            rest
        }
    }
}

/// The action tokens an emitted list denotes, operands parsed.
pub open spec fn token_list(em: Seq<(OperationKind, Seq<char>)>) -> Seq<ActionToken> {
    Seq::new(em.len(), |k: int| ActionToken { kind: em[k].0, operand: digit_val(em[k].1) as usize })
}

/// Walks the parsed call list and builds the token sequence, exactly as
/// `emitted` and `token_list` describe it.
fn build_tokens(calls: &Vec<Call>, name: &Vec<char>, res: &Resolved) -> (r: Result<
    Vec<ActionToken>,
    ExtractError,
>)
    ensures
        ({
            let em = emitted(call_views(calls@), name@, r_view(res));
            match r {
                Ok(v) => em.len() > 0 && (forall|k: int|
                    0 <= k < em.len() ==> digit_val(em[k].1) <= usize::MAX) && v@ == token_list(em),
                Err(e) => {
                    ||| (e is PatternMismatch && em.len() == 0)
                    ||| (e is OperandParseFailure && exists|k: int|
                        0 <= k < em.len() && digit_val(em[k].1) > usize::MAX)
                },
            }
        }),
{
    let ghost all = call_views(calls@);
    let ghost rv = r_view(res);
    let n = calls.len();
    let mut out: Vec<ActionToken> = Vec::new();
    let ghost mut done = Seq::<(OperationKind, Seq<char>)>::empty();
    let mut i: usize = 0;
    proof {
        assert(all.subrange(0, all.len() as int) =~= all);
    }
    while i < n
        invariant
            n == calls@.len(),
            i <= n,
            all == call_views(calls@),
            rv == r_view(res),
            emitted(all, name@, rv) == done + emitted(
                all.subrange(i as int, all.len() as int),
                name@,
                rv,
            ),
            out@.len() == done.len(),
            forall|k: int| 0 <= k < done.len() ==> #[trigger] digit_val(done[k].1) <= usize::MAX,
            forall|k: int|
                0 <= k < done.len() ==> out@[k] == (ActionToken {
                    kind: done[k].0,
                    operand: digit_val(done[k].1) as usize,
                }),
        decreases n - i,
    {
        let c = &calls[i];
        let ghost rem = all.subrange(i as int, all.len() as int);
        proof {
            assert(rem[0] == all[i as int]);
            assert(rem.drop_first() =~= all.subrange(i as int + 1, all.len() as int));
        }
        let mut emit: Option<OperationKind> = None;
        if chars_eq(&c.obj, name) {
            emit = kind_for_key(res, &c.key);
        }
        match emit {
            Some(kind) => {
                let ghost item = (kind, c.num@);
                match digits_to_usize(&c.num) {
                    Some(v) => {
                        out.push(ActionToken { kind, operand: v });
                        proof {
                            assert(emitted(rem, name@, rv) == seq![item] + emitted(
                                rem.drop_first(),
                                name@,
                                rv,
                            ));
                            assert(done + emitted(rem, name@, rv) =~= (done + seq![item])
                                + emitted(rem.drop_first(), name@, rv));
                            done = done + seq![item];
                            assert(emitted(all, name@, rv) == done + emitted(
                                all.subrange(i as int + 1, all.len() as int),
                                name@,
                                rv,
                            ));
                            assert(forall|k: int|
                                0 <= k < done.len() ==> #[trigger] digit_val(done[k].1)
                                    <= usize::MAX);
                            assert(forall|k: int|
                                0 <= k < done.len() ==> out@[k] == (ActionToken {
                                    kind: done[k].0,
                                    operand: digit_val(done[k].1) as usize,
                                }));
                        }
                    },
                    None => {
                        proof {
                            assert(emitted(rem, name@, rv) == seq![item] + emitted(
                                rem.drop_first(),
                                name@,
                                rv,
                            ));
                            let em = emitted(all, name@, rv);
                            assert(em[done.len() as int] == item);
                            assert(digit_val(em[done.len() as int].1) > usize::MAX);
                        }
                        return Err(ExtractError::OperandParseFailure);
                    },
                }
            },
            None => {
                proof {
                    assert(emitted(rem, name@, rv) == emitted(rem.drop_first(), name@, rv));
                }
            },
        }
        i += 1;
    }
    proof {
        assert(all.subrange(n as int, all.len() as int) =~= Seq::<CallSpec>::empty());
        assert(emitted(Seq::<CallSpec>::empty(), name@, rv) =~= Seq::<(
            OperationKind,
            Seq<char>,
        )>::empty());
        assert(emitted(all, name@, rv) =~= done);
    }
    if out.len() == 0 {
        return Err(ExtractError::PatternMismatch);
    }
    proof {
        assert(out@ =~= token_list(emitted(all, name@, rv)));
    }
    Ok(out)
}

/// Law (extraction ordering): when every call in the decipher function
/// addresses the operations object under a resolved key, the emitted
/// operations reproduce the calls exactly — one per call, in call order,
/// each with that call's operation kind and operand text.
pub proof fn lemma_extraction_ordering(calls: Seq<CallSpec>, obj: Seq<char>, r: ResolvedSpec)
    requires
        forall|k: int|
            0 <= k < calls.len() ==> (#[trigger] calls[k]).obj == obj && kind_of_key(
                r,
                calls[k].key,
            ) is Some,
    ensures
        emitted(calls, obj, r).len() == calls.len(),
        forall|k: int|
            0 <= k < calls.len() ==> #[trigger] emitted(calls, obj, r)[k] == (kind_of_key(
                r,
                calls[k].key,
            ).unwrap(), calls[k].num),
    decreases calls.len(),
{
    if calls.len() > 0 {
        let rest = calls.drop_first();
        assert(forall|k: int|
            0 <= k < rest.len() ==> (#[trigger] rest[k]).obj == obj && kind_of_key(
                r,
                rest[k].key,
            ) is Some) by {
            assert(forall|k: int| 0 <= k < rest.len() ==> rest[k] == calls[k + 1]);
        }
        lemma_extraction_ordering(rest, obj, r);
        let head = (kind_of_key(r, calls[0].key).unwrap(), calls[0].num);
        assert(emitted(calls, obj, r) == seq![head] + emitted(rest, obj, r));
        assert(forall|k: int|
            0 <= k < calls.len() ==> #[trigger] emitted(calls, obj, r)[k] == (kind_of_key(
                r,
                calls[k].key,
            ).unwrap(), calls[k].num)) by {
            assert(forall|k: int| 1 <= k < calls.len() ==> calls[k] == rest[k - 1]);
            assert(forall|k: int|
                1 <= k < calls.len() ==> emitted(calls, obj, r)[k] == emitted(rest, obj, r)[k
                    - 1]);
        }
    }
}

/// The extraction result a script's text denotes: the token sequence the
/// script applies, or the error class when no such sequence can be
/// derived.
pub open spec fn extract_spec(s: Seq<char>) -> Result<Seq<ActionToken>, ExtractError> {
    match obj_search(s, 0) {
        None => Err(ExtractError::ObjectNotFound),
        Some((name, ents)) => match func_search(s, 0) {
            None => Err(ExtractError::FunctionNotFound),
            Some(calls) => {
                let em = emitted(calls, name, resolve_all(ents));
                if em.len() == 0 {
                    Err(ExtractError::PatternMismatch)
                } else if exists|k: int| 0 <= k < em.len() && digit_val(em[k].1) > usize::MAX {
                    Err(ExtractError::OperandParseFailure)
                } else {
                    Ok(token_list(em))
                }
            },
        },
    }
}

/// Extracts the ordered deciphering token sequence from a player script's
/// source text: discovers the operations object, resolves which minified
/// key stands for which canonical operation, and walks the decipher
/// function's calls in source order.  Fails — and never yields a partial
/// or empty sequence — exactly as `extract_spec` says.
pub fn extract_actions(script: &str) -> (r: Result<Vec<ActionToken>, ExtractError>)
    ensures
        match r {
            Ok(v) => extract_spec(script@) matches Ok(ts) && v@ == ts,
            Err(e) => extract_spec(script@) matches Err(e2) && e == e2,
        },
{
    let sv = str_to_chars(script);
    let (name, res) = match find_obj(&sv) {
        None => {
            return Err(ExtractError::ObjectNotFound);
        },
        Some(p) => p,
    };
    let calls = match find_func(&sv) {
        None => {
            return Err(ExtractError::FunctionNotFound);
        },
        Some(p) => p,
    };
    build_tokens(&calls, &name, &res)
}

/// A character allowed in a script version token.
pub open spec fn is_version_char(c: char) -> bool {
    ||| is_ident_char(c) && c != '$'
    ||| c == '-'
}

/// Decides `is_version_char`.
fn version_char_exec(c: char) -> (r: bool)
    ensures
        r == is_version_char(c),
{
    (ident_char_exec(c) && c != '$') || c == '-'
}

/// The end of the maximal run of version characters starting at `i`.
pub open spec fn version_end(s: Seq<char>, i: int) -> int
    decreases s.len() - i,
{
    if i < s.len() && is_version_char(s[i]) {
        version_end(s, i + 1)
    } else {
        i
    }
}

/// Decides `version_end`.
fn scan_version(s: &Vec<char>, i: usize) -> (r: usize)
    requires
        i <= s@.len(),
    ensures
        r as int == version_end(s@, i as int),
        i <= r <= s@.len(),
    decreases s@.len() - i,
{
    if i < s.len() && version_char_exec(s[i]) {
        scan_version(s, i + 1)
    } else {
        i
    }
}

/// A version marker at `i`: the word `player`, a `-` or `_` separator, and
/// at least one version character.
pub open spec fn version_marker_at(s: Seq<char>, i: int) -> bool {
    &&& lit_at(s, i, "player"@)
    &&& ({
        let j = i + "player"@.len() as int;
        &&& j < s.len()
        &&& (s[j] == '-' || s[j] == '_')
        &&& j + 1 < s.len()
        &&& is_version_char(s[j + 1])
    })
}

/// Decides `version_marker_at`.
fn version_marker(s: &Vec<char>, i: usize) -> (r: bool)
    ensures
        r == version_marker_at(s@, i as int),
{
    let pl = str_to_chars("player");
    if !match_at(s, i, &pl) {
        return false;
    }
    let j: usize = i + pl.len();
    if !(j < s.len() && (s[j] == '-' || s[j] == '_')) {
        return false;
    }
    j + 1 < s.len() && version_char_exec(s[j + 1])
}

/// The first position at or after `i` holding a version marker.
pub open spec fn version_search(s: Seq<char>, i: int) -> Option<int>
    decreases s.len() - i,
{
    if i >= s.len() {
        None
    } else if version_marker_at(s, i) {
        Some(i)
    } else {
        version_search(s, i + 1)
    }
}

/// The script version token embedded in a script URL: the maximal run of
/// version characters after the first `player-` or `player_` marker.
pub open spec fn version_id_spec(s: Seq<char>) -> Option<Seq<char>> {
    match version_search(s, 0) {
        None => None,
        Some(i) => {
            let st = i + "player"@.len() as int + 1;
            Some(s.subrange(st, version_end(s, st)))
        },
    }
}

/// Extracts the script version identifier from the script's URL, exactly
/// as `version_id_spec` says; `None` when the URL carries no version
/// marker.
pub fn extract_version_id(url: &str) -> (r: Option<String>)
    ensures
        match r {
            Some(v) => version_id_spec(url@) == Some(v@),
            None => version_id_spec(url@) is None,
        },
{
    let sv = str_to_chars(url);
    let n = sv.len();
    let pl = str_to_chars("player");
    let mut i: usize = 0;
    while i < n
        invariant
            n == sv@.len(),
            sv@ == url@,
            pl@ == "player"@,
            i <= n,
            version_search(url@, 0) == version_search(url@, i as int),
        decreases n - i,
    {
        if version_marker(&sv, i) {
            let st: usize = i + pl.len() + 1;
            let e = scan_version(&sv, st);
            let piece = copy_range(&sv, st, e);
            return Some(crate::text::chars_to_string(&piece));
        }
        proof {
            assert(version_search(url@, i as int) == version_search(url@, i as int + 1));
        }
        i += 1;
    }
    None
}

} // verus!
