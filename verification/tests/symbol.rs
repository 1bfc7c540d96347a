use ku_syntax::ast::effect::Effect;
use ku_syntax::ast::generic::TypeParam;
use ku_syntax::ast::ident::Ident;
use ku_syntax::cache::StringCache;
use ku_syntax::symbol::SymbolKey;
use ku_syntax::symbol::SymbolTable;

#[test]
fn symbol_it_works() {
    let mut cache = StringCache::new();
    let ka = cache.intern("a");
    let kb = cache.intern("b");
    let kc = cache.intern("c");
    let mut symbol_table = SymbolTable::new();
    // symbols:
    //  1 - a
    //  2 - a::b
    //  3 - a::b::a
    //  4 - a::b::b
    //  5 - a::b::b::c
    //  6 - a::b::c
    let a = symbol_table.define(ka, SymbolKey::root()).expect("a");
    let a_b = symbol_table.define(kb, a).expect("a::b");
    let a_b_a = symbol_table.define(ka, a_b).expect("a::b::a");
    let a_b_b = symbol_table.define(kb, a_b).expect("a::b::b");
    let a_b_b_c = symbol_table.define(kc, a_b_b).expect("a::b::b::c");
    let a_b_c = symbol_table.define(kc, a_b).expect("a::b::c");
    assert!(symbol_table.define(kc, a_b).is_none());
    assert!(symbol_table.define(ka, SymbolKey::root()).is_none());

    assert_eq!(a, symbol_table.resolve(&[ka], SymbolKey::root()).expect("a/_"), "a/_");
    assert_eq!(
        a_b,
        symbol_table.resolve(&[ka, kb], SymbolKey::root()).expect("a::b/_"),
        "a::b/_"
    );
    assert_eq!(a_b, symbol_table.resolve(&[kb], a).expect("b/a"), "b/a");
    assert_eq!(a_b_b, symbol_table.resolve(&[kb], a_b).expect("b/a::b"), "b/a::b");
    assert_eq!(a_b_c, symbol_table.resolve(&[kc], a_b).expect("c/a::b"), "c/a::b");
    assert_eq!(a, symbol_table.resolve(&[ka], a).expect("a/a"), "a/a");
    assert_eq!(a_b_a, symbol_table.resolve(&[ka], a_b).expect("a/a::b"), "a/a::b");
    assert_eq!(
        a_b_b_c,
        symbol_table.resolve(&[kb, kc], a_b).expect("b::c/a::b"),
        "b::c/a::b"
    );
    assert_eq!(
        a_b_a,
        symbol_table.resolve(&[kb, ka], a_b).expect("b::a/a::b"),
        "b::a/a::b"
    );
    assert!(symbol_table.resolve(&[kb], SymbolKey::root()).is_none(), "b/_");
    assert!(symbol_table.resolve(&[kc], a).is_none(), "c/a")
}

#[test]
fn direct_resolution_does_not_look_outwards() {
    let mut cache = StringCache::new();
    let ka = cache.intern("a");
    let kb = cache.intern("b");
    let mut table = SymbolTable::new();
    let a = table.define(ka, SymbolKey::root()).expect("a");
    let a_b = table.define(kb, a).expect("a::b");
    assert_eq!(Some(a_b), table.resolve_direct(&[ka, kb], SymbolKey::root()));
    assert_eq!(None, table.resolve_direct(&[ka], a));
    assert_eq!(Some(a), table.resolve(&[ka], a_b));
    assert_eq!(None, table.resolve_direct(&[], a));
    assert_eq!(None, table.resolve(&[], a));
    assert_eq!(ka, table.string_key(a));
    assert_eq!(kb, table.string_key(a_b));
    assert_eq!(3, table.len());
}

#[test]
fn effect_declares_itself_and_its_type_parameters() {
    let mut cache = StringCache::new();
    let eff = cache.intern("eff");
    let t = cache.intern("T");
    let u = cache.intern("U");
    let mut table = SymbolTable::new();
    let effect = Effect {
        name: Ident::Ident(eff),
        type_params: vec![TypeParam { name: Ident::Ident(t) }, TypeParam { name: Ident::Ident(u) }],
        operators: vec![],
    };
    assert_eq!(Ok(()), effect.declare_symbols(&mut table, SymbolKey::root()));
    assert_eq!(Some(SymbolKey(1)), table.resolve(&[eff], SymbolKey::root()));
    assert_eq!(Some(SymbolKey(2)), table.resolve(&[eff, t], SymbolKey::root()));
    assert_eq!(Some(SymbolKey(3)), table.resolve(&[u], SymbolKey(1)));
    // a second declaration of the same effect declares nothing
    assert_eq!(Err(()), effect.declare_symbols(&mut table, SymbolKey::root()));
    assert_eq!(4, table.len());
}

#[test]
fn repeated_type_parameter_is_an_error_but_the_rest_is_declared() {
    let mut cache = StringCache::new();
    let eff = cache.intern("eff");
    let t = cache.intern("T");
    let u = cache.intern("U");
    let mut table = SymbolTable::new();
    let effect = Effect {
        name: Ident::Ident(eff),
        type_params: vec![
            TypeParam { name: Ident::Ident(t) },
            TypeParam { name: Ident::Ident(t) },
            TypeParam { name: Ident::Error },
            TypeParam { name: Ident::Ident(u) },
        ],
        operators: vec![],
    };
    assert_eq!(Err(()), effect.declare_symbols(&mut table, SymbolKey::root()));
    assert_eq!(4, table.len());
    assert_eq!(Some(SymbolKey(3)), table.resolve(&[eff, u], SymbolKey::root()));
    let unnamed = Effect { name: Ident::Error, type_params: vec![], operators: vec![] };
    assert_eq!(Err(()), unnamed.declare_symbols(&mut table, SymbolKey::root()));
    assert_eq!(4, table.len());
}
