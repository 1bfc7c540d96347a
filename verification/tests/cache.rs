use ku_syntax::cache::StringCache;
use ku_syntax::cache::StringKey;

#[test]
fn cache_it_works() {
    let mut cache = StringCache::new();
    let a = cache.intern("a");
    let b = cache.intern("b");
    let c = cache.intern("c");

    assert_eq!(Some("a"), cache.get(a));
    assert_eq!(Some("b"), cache.get(b));
    assert_eq!(Some("c"), cache.get(c));
}

#[test]
fn interning_is_idempotent_and_stable() {
    let mut cache = StringCache::new();
    assert_eq!(1, cache.len());
    assert_eq!(Some(""), cache.get(StringKey::empty()));
    assert_eq!(StringKey::empty(), cache.intern(""));
    let a = cache.intern("alpha");
    let b = cache.intern("beta");
    assert_ne!(a, b);
    assert_eq!(StringKey(1), a);
    assert_eq!(StringKey(2), b);
    assert_eq!(a, cache.intern("alpha"));
    assert_eq!(b, cache.intern("beta"));
    assert_eq!(3, cache.len());
    assert_eq!(Some("alpha"), cache.get(a));
    assert_eq!(None, cache.get(StringKey(3)));
}
