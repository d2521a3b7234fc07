//! The signature transformer: replays a token sequence against a cipher
//! string to recover the plaintext signature.
//!
//! Out-of-range operands are given a total meaning rather than left
//! undefined: `SliceFrom` and `RemovePrefix` past the end of the buffer
//! yield the empty buffer, and `SwapFirst` with an index outside the buffer
//! leaves the buffer unchanged.  The transformer never fails.

use vstd::prelude::*;

use crate::text::{chars_to_string, str_to_chars};
use crate::tokens::{ActionToken, OperationKind};

verus! {

/// The buffer without its first `n` elements; empty when `n` exceeds the
/// length.
pub open spec fn drop_prefix(s: Seq<char>, n: int) -> Seq<char> {
    if n <= s.len() {
        s.subrange(n, s.len() as int)
    } else {
        Seq::empty()
    }
}

/// The buffer with the elements at index 0 and index `n` exchanged;
/// unchanged when `n` is not a valid index.
pub open spec fn swap_first(s: Seq<char>, n: int) -> Seq<char> {
    if 0 <= n < s.len() {
        s.update(0, s[n]).update(n, s[0])
    } else {
        s
    }
}

/// The meaning of one action token applied to a character buffer.
pub open spec fn apply_token(s: Seq<char>, t: ActionToken) -> Seq<char> {
    match t.kind {
        OperationKind::Reverse => s.reverse(),
        OperationKind::SliceFrom => drop_prefix(s, t.operand as int),
        OperationKind::RemovePrefix => drop_prefix(s, t.operand as int),
        OperationKind::SwapFirst => swap_first(s, t.operand as int),
    }
}

/// The meaning of a whole token sequence: the tokens applied in order.
pub open spec fn apply_tokens(s: Seq<char>, ts: Seq<ActionToken>) -> Seq<char>
    decreases ts.len(),
{
    if ts.len() == 0 {
        s
    } else {
        apply_tokens(apply_token(s, ts[0]), ts.drop_first())
    }
}

/// The buffer of `v` reversed.
fn reverse_chars(v: &Vec<char>) -> (r: Vec<char>)
    ensures
        r@ == v@.reverse(),
{
    let n = v.len();
    let mut r: Vec<char> = Vec::new();
    let mut i: usize = 0;
    while i < n
        invariant
            n == v@.len(),
            i <= n,
            r@.len() == i,
            forall|j: int| 0 <= j < i ==> r@[j] == v@[n - 1 - j],
        decreases n - i,
    {
        r.push(v[n - 1 - i]);
        i += 1;
    }
    proof {
        assert(r@ =~= v@.reverse());
    }
    r
}

/// The buffer of `v` without its first `n` elements (empty when `n` is out
/// of range).
fn drop_prefix_chars(v: &Vec<char>, n: usize) -> (r: Vec<char>)
    ensures
        r@ == drop_prefix(v@, n as int),
{
    let mut r: Vec<char> = Vec::new();
    if n > v.len() {
        proof {
            assert(r@ =~= drop_prefix(v@, n as int));
        }
        return r;
    }
    let mut i: usize = n;
    while i < v.len()
        invariant
            n <= i <= v@.len(),
            r@.len() == i - n,
            forall|j: int| 0 <= j < r@.len() ==> r@[j] == v@[n + j],
        decreases v@.len() - i,
    {
        r.push(v[i]);
        i += 1;
    }
    proof {
        assert(r@ =~= drop_prefix(v@, n as int));
    }
    r
}

/// The buffer of `v` with the elements at index 0 and index `n` exchanged
/// (unchanged when `n` is out of range).
fn swap_first_chars(v: &Vec<char>, n: usize) -> (r: Vec<char>)
    ensures
        r@ == swap_first(v@, n as int),
{
    let mut r: Vec<char> = Vec::new();
    let mut i: usize = 0;
    while i < v.len()
        invariant
            i <= v@.len(),
            r@.len() == i,
            forall|j: int| 0 <= j < i ==> r@[j] == (if n < v@.len() && j == 0 {
                v@[n as int]
            } else if n < v@.len() && j == n {
                v@[0]
            } else {
                v@[j]
            }),
        decreases v@.len() - i,
    {
        if n < v.len() && i == 0 {
            r.push(v[n]);
        } else if n < v.len() && i == n {
            r.push(v[0]);
        } else {
            r.push(v[i]);
        }
        i += 1;
    }
    proof {
        assert(r@ =~= swap_first(v@, n as int));
    }
    r
}

/// One token applied to a character buffer.
fn apply_one(buf: &Vec<char>, t: ActionToken) -> (r: Vec<char>)
    ensures
        r@ == apply_token(buf@, t),
{
    match t.kind {
        OperationKind::Reverse => reverse_chars(buf),
        OperationKind::SliceFrom => drop_prefix_chars(buf, t.operand),
        OperationKind::RemovePrefix => drop_prefix_chars(buf, t.operand),
        OperationKind::SwapFirst => swap_first_chars(buf, t.operand),
    }
}

/// Replays `tokens` in order against the characters of `signature` and
/// returns the resulting plaintext signature.  The result is exactly the
/// mathematical replay `apply_tokens`; the transformation is pure and never
/// fails.
pub fn decipher(tokens: &Vec<ActionToken>, signature: &str) -> (r: String)
    ensures
        r@ == apply_tokens(signature@, tokens@),
{
    let mut buf = str_to_chars(signature);
    proof {
        assert(tokens@.subrange(0, tokens@.len() as int) =~= tokens@);
    }
    let mut i: usize = 0;
    while i < tokens.len()
        invariant
            i <= tokens@.len(),
            apply_tokens(signature@, tokens@) == apply_tokens(
                buf@,
                tokens@.subrange(i as int, tokens@.len() as int),
            ),
        decreases tokens@.len() - i,
    {
        let t = tokens[i];
        let ghost rest = tokens@.subrange(i as int, tokens@.len() as int);
        let next = apply_one(&buf, t);
        proof {
            assert(rest[0] == tokens@[i as int]);
            assert(rest.drop_first() =~= tokens@.subrange(i as int + 1, tokens@.len() as int));
            assert(apply_tokens(buf@, rest) == apply_tokens(next@, rest.drop_first()));
        }
        buf = next;
        i += 1;
    }
    proof {
        assert(tokens@.subrange(i as int, tokens@.len() as int) =~= Seq::<ActionToken>::empty());
    }
    chars_to_string(&buf)
}

/// A pair of tokens applied in order is the two single applications chained.
pub proof fn lemma_apply_two(s: Seq<char>, t1: ActionToken, t2: ActionToken)
    ensures
        apply_tokens(s, seq![t1, t2]) == apply_token(apply_token(s, t1), t2),
{
    let ts = seq![t1, t2];
    assert(ts[0] == t1);
    assert(ts.drop_first() =~= seq![t2]);
    assert(apply_tokens(s, ts) == apply_tokens(apply_token(s, t1), seq![t2]));
    let s1 = apply_token(s, t1);
    assert(seq![t2][0] == t2);
    assert(seq![t2].drop_first() =~= Seq::<ActionToken>::empty());
    assert(apply_tokens(s1, seq![t2]) == apply_tokens(apply_token(s1, t2), Seq::empty()));
}

/// Law: applying `Reverse` twice yields the original buffer, whatever the
/// operands of the two tokens say.
pub proof fn lemma_reverse_twice(s: Seq<char>, t1: ActionToken, t2: ActionToken)
    requires
        t1.kind is Reverse,
        t2.kind is Reverse,
    ensures
        apply_tokens(s, seq![t1, t2]) == s,
{
    lemma_apply_two(s, t1, t2);
    assert(s.reverse().reverse() =~= s);
}

/// Law: `SliceFrom(n)` on a buffer of length `L` yields a buffer of length
/// `max(0, L - n)`.
pub proof fn lemma_slice_from_len(s: Seq<char>, t: ActionToken)
    requires
        t.kind is SliceFrom,
    ensures
        apply_token(s, t).len() == if t.operand <= s.len() {
            s.len() - t.operand
        } else {
            0
        },
{
}

/// Law: `RemovePrefix(n)` with `n <= L` on a buffer of length `L` yields a
/// buffer of length `L - n`.
pub proof fn lemma_remove_prefix_len(s: Seq<char>, t: ActionToken)
    requires
        t.kind is RemovePrefix,
        t.operand <= s.len(),
    ensures
        apply_token(s, t).len() == s.len() - t.operand,
{
}

/// Law: for `n < L`, applying `SwapFirst(n)` twice in succession yields the
/// original buffer.
pub proof fn lemma_swap_first_twice(s: Seq<char>, t1: ActionToken, t2: ActionToken)
    requires
        t1.kind is SwapFirst,
        t2.kind is SwapFirst,
        t1.operand == t2.operand,
        t1.operand < s.len(),
    ensures
        apply_tokens(s, seq![t1, t2]) == s,
{
    lemma_apply_two(s, t1, t2);
    let n = t1.operand as int;
    assert(swap_first(swap_first(s, n), n) =~= s);
}

/// Law: replaying a token sequence is deterministic — the same sequence on
/// the same cipher buffer always yields the same output.
pub proof fn lemma_replay_deterministic(
    s1: Seq<char>,
    s2: Seq<char>,
    ts1: Seq<ActionToken>,
    ts2: Seq<ActionToken>,
)
    requires
        s1 == s2,
        ts1 == ts2,
    ensures
        apply_tokens(s1, ts1) == apply_tokens(s2, ts2),
{
}

} // verus!
