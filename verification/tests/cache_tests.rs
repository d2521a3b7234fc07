use ytdl_lib::{ActionToken, OperationKind, TokenCache};

fn sample_tokens(n: usize) -> Vec<ActionToken> {
    vec![ActionToken { kind: OperationKind::SliceFrom, operand: n }]
}

// The get-or-build path a caller runs against the cache: on a miss the
// fetch-and-extract collaborator (counted here) runs and its result is
// stored; on a hit the stored copy is returned and the collaborator is
// never invoked.
fn get_or_build(cache: &mut TokenCache, id: &str, fetches: &mut usize) -> Vec<ActionToken> {
    match cache.lookup(id) {
        Some(tokens) => tokens,
        None => {
            *fetches += 1;
            let tokens = sample_tokens(id.len());
            cache.store(id, tokens.clone());
            tokens
        },
    }
}

#[test]
fn same_version_fetches_once() {
    let mut cache = TokenCache::new();
    let mut fetches: usize = 0;
    let first = get_or_build(&mut cache, "vfl49f_g4", &mut fetches);
    let second = get_or_build(&mut cache, "vfl49f_g4", &mut fetches);
    assert_eq!(fetches, 1);
    assert_eq!(first, second);
}

#[test]
fn distinct_versions_fetch_twice() {
    let mut cache = TokenCache::new();
    let mut fetches: usize = 0;
    get_or_build(&mut cache, "aaa", &mut fetches);
    get_or_build(&mut cache, "bbbb", &mut fetches);
    assert_eq!(fetches, 2);
    // And both stay cached afterwards.
    get_or_build(&mut cache, "aaa", &mut fetches);
    get_or_build(&mut cache, "bbbb", &mut fetches);
    assert_eq!(fetches, 2);
}

#[test]
fn lookup_misses_on_an_empty_cache() {
    let cache = TokenCache::new();
    assert!(cache.lookup("anything").is_none());
}

#[test]
fn store_keeps_the_first_entry() {
    let mut cache = TokenCache::new();
    cache.store("id", sample_tokens(1));
    cache.store("id", sample_tokens(2));
    assert_eq!(cache.lookup("id"), Some(sample_tokens(1)));
}

#[test]
fn lookup_returns_a_copy_of_the_stored_sequence() {
    let mut cache = TokenCache::new();
    cache.store("id", sample_tokens(7));
    let mut copy = cache.lookup("id").unwrap();
    copy.push(ActionToken { kind: OperationKind::Reverse, operand: 0 });
    // The stored entry is unchanged.
    assert_eq!(cache.lookup("id"), Some(sample_tokens(7)));
}
