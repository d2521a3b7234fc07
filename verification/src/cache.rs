//! The version cache: memoizes extracted token sequences keyed by script
//! version, so the expensive fetch-and-extract path runs at most once per
//! distinct version.
//!
//! The cache is an explicitly constructed value handed to its users — no
//! process-wide global — and is append-only: a stored entry is never
//! mutated, evicted or overwritten.  Failed extractions are never stored;
//! callers only store a sequence that extraction actually produced.

use vstd::prelude::*;

use crate::tokens::ActionToken;

verus! {

/// The mapping a list of cache entries holds; on duplicate keys the later
/// entry would win, though the cache never creates duplicates.
pub open spec fn entries_map(es: Seq<(String, Vec<ActionToken>)>) -> Map<
    Seq<char>,
    Seq<ActionToken>,
>
    decreases es.len(),
{
    if es.len() == 0 {
        Map::empty()
    } else {
        entries_map(es.drop_last()).insert(es.last().0@, es.last().1@)
    }
}

/// Memoized token sequences, keyed by script version identifier.
pub struct TokenCache {
    entries: Vec<(String, Vec<ActionToken>)>,
}

impl View for TokenCache {
    type V = Map<Seq<char>, Seq<ActionToken>>;

    closed spec fn view(&self) -> Map<Seq<char>, Seq<ActionToken>> {
        entries_map(self.entries@)
    }
}

/// A fresh copy of a token sequence.
fn clone_tokens(v: &Vec<ActionToken>) -> (r: Vec<ActionToken>)
    ensures
        r@ == v@,
{
    let mut r: Vec<ActionToken> = Vec::new();
    let mut i: usize = 0;
    while i < v.len()
        invariant
            i <= v@.len(),
            r@ == v@.subrange(0, i as int),
        decreases v@.len() - i,
    {
        r.push(v[i]);
        proof {
            assert(r@ =~= v@.subrange(0, i as int + 1));
        }
        i += 1;
    }
    proof {
        assert(r@ =~= v@);
    }
    r
}

impl TokenCache {
    /// An empty cache.
    pub fn new() -> (r: TokenCache)
        ensures
            r@ == Map::<Seq<char>, Seq<ActionToken>>::empty(),
    {
        TokenCache { entries: Vec::new() }
    }

    /// A copy of the sequence stored for `id`: `Some` exactly when the
    /// version is cached — the caller then needs no fetch — and `None`
    /// exactly when it is not, in which case the caller fetches, extracts
    /// and stores.
    pub fn lookup(&self, id: &str) -> (r: Option<Vec<ActionToken>>)
        ensures
            match r {
                Some(v) => self@.contains_key(id@) && v@ == self@[id@],
                None => !self@.contains_key(id@),
            },
    {
        let key: String = id.to_owned();
        let mut j: usize = self.entries.len();
        proof {
            assert(self.entries@.subrange(0, j as int) =~= self.entries@);
        }
        while j > 0
            invariant
                j <= self.entries@.len(),
                self@ == entries_map(self.entries@),
                self@.contains_key(id@) == entries_map(
                    self.entries@.subrange(0, j as int),
                ).contains_key(id@),
                self@.contains_key(id@) ==> self@[id@] == entries_map(
                    self.entries@.subrange(0, j as int),
                )[id@],
                key@ == id@,
            decreases j,
        {
            j = j - 1;
            let ghost pre = self.entries@.subrange(0, j as int + 1);
            proof {
                assert(pre.drop_last() =~= self.entries@.subrange(0, j as int));
                assert(pre.last() == self.entries@[j as int]);
            }
            if self.entries[j].0 == key {
                return Some(clone_tokens(&self.entries[j].1));
            }
        }
        proof {
            assert(self.entries@.subrange(0, 0) =~= Seq::<(String, Vec<ActionToken>)>::empty());
        }
        None
    }

    /// Stores the sequence extracted for `id`.  A version already cached
    /// keeps its original entry unchanged; otherwise the mapping gains
    /// exactly this one entry.
    pub fn store(&mut self, id: &str, tokens: Vec<ActionToken>)
        ensures
            final(self)@ == if old(self)@.contains_key(id@) {
                old(self)@
            } else {
                old(self)@.insert(id@, tokens@)
            },
    {
        match self.lookup(id) {
            Some(_) => {},
            None => {
                let key: String = id.to_owned();
                let ghost before = self.entries@;
                self.entries.push((key, tokens));
                proof {
                    assert(self.entries@.drop_last() =~= before);
                    assert(self.entries@.last() == self.entries@[before.len() as int]);
                }
            },
        }
    }
}

/// Law (cache single-fetch): once a version's tokens are stored, a second
/// request for the same version id finds them, with the stored sequence
/// unchanged — the fetch collaborator is never invoked again for it —
/// while a distinct version id is cached or not exactly as it was before,
/// so a fresh id still misses and costs exactly one fetch of its own.
pub proof fn lemma_cache_single_fetch(
    m: Map<Seq<char>, Seq<ActionToken>>,
    id: Seq<char>,
    toks: Seq<ActionToken>,
    other: Seq<char>,
)
    ensures
        m.insert(id, toks).contains_key(id),
        m.insert(id, toks)[id] == toks,
        other != id ==> m.insert(id, toks).contains_key(other) == m.contains_key(other),
        other != id && m.contains_key(other) ==> m.insert(id, toks)[other] == m[other],
{
}

} // verus!
