use ku_syntax::ast::expr::Conditional;
use ku_syntax::ast::expr::Expr;
use ku_syntax::ast::expr::Operator;
use ku_syntax::ast::generic::TypedIdent;
use ku_syntax::ast::ident::Ident;
use ku_syntax::ast::ident::QualifiedIdent;
use ku_syntax::ast::item::Function;
use ku_syntax::ast::item::FunctionHeader;
use ku_syntax::ast::item::Item;
use ku_syntax::ast::number::Integer;
use ku_syntax::ast::statement::Statement;
use ku_syntax::ast::types::Effect;
use ku_syntax::ast::types::Type;
use ku_syntax::cache::StringCache;
use ku_syntax::cache::StringKey;
use ku_syntax::diagnostic::Code;
use ku_syntax::diagnostic::Diagnostic;
use ku_syntax::diagnostic::Diagnostics;
use ku_syntax::parse::atoms::parse_digits;
use ku_syntax::parse::Parser;
use ku_syntax::span::Span;
use ku_syntax::span::Spanned;
use ku_syntax::token::TokenKind;
use ku_syntax::tokenizer::Tokenizer;

fn parser_for(src: &str) -> Parser<'_> {
    Parser {
        tz: Tokenizer::from_parts(StringKey::empty(), src),
        cache: StringCache::new(),
        ds: Diagnostics::new(),
    }
}

fn span(pos: usize, len: usize) -> Span {
    Span { file: StringKey::empty(), pos, len }
}

fn assert_clean_and_done(parser: &mut Parser<'_>, input: &str) {
    assert_eq!(
        TokenKind::Eof,
        parser.tz.next().value,
        "Failed to parse the entire input: {}",
        input
    );
    assert!(!parser.ds.has_errors(), "At input: {}", input);
}

fn name(parser: &mut Parser<'_>, text: &str) -> Expr {
    Expr::Ident(QualifiedIdent::from_key(parser.cache.intern(text)))
}

fn literal(value: i64) -> Expr {
    Expr::Int(Integer::Integer(value))
}

fn simple_type(parser: &mut Parser<'_>, text: &str) -> Type {
    Type::Simple { name: QualifiedIdent::from_key(parser.cache.intern(text)), args: vec![] }
}

fn simple_effect(parser: &mut Parser<'_>, text: &str) -> Effect {
    Effect {
        name: QualifiedIdent::from_key(parser.cache.intern(text)),
        args: vec![],
        meta_effects: vec![],
    }
}

#[test]
fn atoms() {
    let mut cache = StringCache::new();
    let file_name = cache.intern("mysource.ku");
    let hello = cache.intern("hello");
    let tokenizer = Tokenizer::from_parts(file_name, "hello 17 0xc3f 0c19");
    let mut parser = Parser { tz: tokenizer, cache, ds: Diagnostics::new() };

    let expected =
        Spanned::from_span_value(Span { file: file_name, pos: 0, len: 5 }, Ident::Ident(hello));
    assert_eq!(expected, parser.ident());
    assert!(!parser.ds.has_errors());

    let expected =
        Spanned::from_span_value(Span { file: file_name, pos: 6, len: 2 }, Integer::Integer(17));
    assert_eq!(expected, parser.integer());
    assert!(!parser.ds.has_errors());

    let expected = Spanned::from_span_value(
        Span { file: file_name, pos: 9, len: 5 },
        Integer::Integer(0xc3f),
    );
    assert_eq!(expected, parser.integer());
    assert!(!parser.ds.has_errors());

    assert_eq!(Integer::Error, parser.integer().value);
    assert!(parser.ds.has_errors());
}

#[test]
fn qualified_ident() {
    let mut cache = StringCache::new();
    let file_name = cache.intern("mysource.ku");
    let foo = Ident::Ident(cache.intern("foo"));
    let bar = Ident::Ident(cache.intern("bar"));
    let baz = Ident::Ident(cache.intern("baz"));

    let tokenizer = Tokenizer::from_parts(file_name, "foo::bar::baz");
    let mut parser = Parser { tz: tokenizer, cache, ds: Diagnostics::new() };

    let expected = Spanned::from_span_value(
        Span { file: file_name, pos: 0, len: 13 },
        QualifiedIdent(vec![foo, bar, baz]),
    );
    assert_eq!(expected, parser.qualified_ident());
    assert!(!parser.ds.has_errors());
}

#[test]
fn valid_expressions_smoke() {
    let exprs = [
        "1",
        "a",
        "a.b",
        "a.b.c",
        "a::b",
        "a::b.c",
        "f()",
        "a.f()",
        "a::b.f()",
        "a.f().b",
        "f(1)",
        "f(1, 2)",
        "1 + 2",
        "1 + 2 + 3",
        "(1 + 2) * 3",
        "f(1 + 2)",
        "{}",
        "{ a }",
        "{ a; }",
        "{ a + b }",
        "{ {} }",
        "{ {}; }",
        "if 1 { 2 } else { 3 }",
        "do { 1 }",
        "{ x: Int, y: Int -> x + y }",
        "return",
        "continue",
        "if 1 { 2 } else if 3 { 4 }",
        "loop { func(); if cond { :break x; } }",
    ];
    for input in exprs {
        let mut parser = parser_for(input);
        let _ = parser.block_expr();
        assert_clean_and_done(&mut parser, input);
    }
}

#[test]
fn valid_items_smoke() {
    let inputs = [
        "finally {}",
        "fn foo() ->;",
        "fn foo() -> ();",
        "fn foo() -> () ->;",
        "fn foo(x: A) -> (B) -> C;",
        "fn foo[T, U | e]()/e -> (T, U);",
    ];
    for input in inputs {
        let mut parser = parser_for(input);
        let _ = parser.item();
        assert_clean_and_done(&mut parser, input);
    }
}

#[test]
fn valid_types_smoke() {
    let inputs = [
        "Foo",
        "Foo[Bar]",
        "Foo[Bar, Baz]",
        "() ->",
        "() -> ()",
        "() -> Foo[Bar]",
        "(Foo, Bar[Baz]) -> Quux",
        "()/ef ->",
        "{Foo}",
        "{Foo[Bar]}",
        "{}/ef",
        "()/ef, ef2, ef3 ->",
        "()/ef, ef2 -> ()/ef3 ->",
        "{() -> () -> {Foo, Bar}}",
        "() -> (Foo, Bar)",
        "() -> () ->",
        "() -> (() ->, Foo)",
    ];
    for input in inputs {
        let mut parser = parser_for(input);
        let _ = parser.ty();
        assert_clean_and_done(&mut parser, input);
    }
}

#[test]
fn valid_effects_smoke() {
    let inputs = ["foo", "foo[Bar]", "foo[()/bar ->]", "foo bar", "foo[A] bar[B]", "foo bar baz"];
    for input in inputs {
        let mut parser = parser_for(input);
        let _ = parser.effect();
        assert_clean_and_done(&mut parser, input);
    }
}

#[test]
fn function_bodies_follow_the_header_directly() {
    let input = "fn foo() -> Foo {} fn bar(x: Int)/e -> { return; }";
    let mut parser = parser_for(input);
    let items = parser.file();
    assert_clean_and_done(&mut parser, input);
    let foo = Ident::Ident(parser.cache.intern("foo"));
    let bar = Ident::Ident(parser.cache.intern("bar"));
    let x = Ident::Ident(parser.cache.intern("x"));
    let expected = vec![
        Item::Function(Function {
            header: FunctionHeader {
                name: foo,
                type_params: vec![],
                effect_params: vec![],
                params: vec![],
                effects: vec![],
                ret: Some(vec![simple_type(&mut parser, "Foo")]),
            },
            body: vec![],
        }),
        Item::Function(Function {
            header: FunctionHeader {
                name: bar,
                type_params: vec![],
                effect_params: vec![],
                params: vec![TypedIdent { name: x, ty: simple_type(&mut parser, "Int") }],
                effects: vec![simple_effect(&mut parser, "e")],
                ret: None,
            },
            body: vec![Statement::Expr(Expr::Return)],
        }),
    ];
    assert_eq!(expected, items);
}

#[test]
fn an_equals_sign_before_a_body_is_unexpected() {
    let mut parser = parser_for("fn foo() -> = {}");
    let item = parser.item();
    assert!(matches!(item, Item::Function(_)));
    assert!(parser.ds.has_errors());
    let reports: Vec<Diagnostic> = parser.ds.into_vec();
    assert_eq!(Code::Unexpected, reports[0].code);
    assert_eq!(span(12, 1), reports[0].span);
    assert_eq!("=", reports[0].context);
}

#[test]
fn same_operator_chains_flatten() {
    let mut parser = parser_for("1 + 2 + 3");
    let expected = Expr::Binary { op: Operator::Add, operands: vec![literal(1), literal(2), literal(3)] };
    assert_eq!(expected, parser.block_expr());
    assert_clean_and_done(&mut parser, "1 + 2 + 3");

    let mut parser = parser_for("(1 + 2) * 3");
    let expected = Expr::Binary {
        op: Operator::Mul,
        operands: vec![
            Expr::Binary { op: Operator::Add, operands: vec![literal(1), literal(2)] },
            literal(3),
        ],
    };
    assert_eq!(expected, parser.block_expr());
    assert_clean_and_done(&mut parser, "(1 + 2) * 3");
}

#[test]
fn a_different_operator_is_left_for_the_caller() {
    let mut parser = parser_for("1 + 2 * 3");
    let expected = Expr::Binary { op: Operator::Add, operands: vec![literal(1), literal(2)] };
    assert_eq!(expected, parser.binary_expr());
    assert_eq!(TokenKind::Star, parser.tz.peek().value);
    assert!(!parser.ds.has_errors());

    let mut parser = parser_for("8 / 4 / 2 - 1");
    let expected = Expr::Binary { op: Operator::Div, operands: vec![literal(8), literal(4), literal(2)] };
    assert_eq!(expected, parser.binary_expr());
    assert_eq!(TokenKind::Minus, parser.tz.peek().value);

    // `%` and the comparisons chain nothing
    let mut parser = parser_for("7 % 2");
    assert_eq!(literal(7), parser.binary_expr());
    assert_eq!(TokenKind::Percent, parser.tz.peek().value);
}

#[test]
fn integer_radix_decoding() {
    let inputs = ["34", "0xfe76c", "0c773", "0b11011", "0XFF", "0B101", "0C17", "0"];
    let expected = [34, 1042284, 507, 27, 255, 5, 15, 0];
    for (input, value) in inputs.into_iter().zip(expected) {
        let mut parser = parser_for(input);
        let literal = parser.integer();
        assert_eq!(Integer::Integer(value), literal.value, "{}", input);
        assert_eq!(span(0, input.len()), literal.span);
        assert_clean_and_done(&mut parser, input);
    }
}

#[test]
fn invalid_digit_is_reported_and_marked() {
    let mut parser = parser_for("0c9");
    let literal = parser.integer();
    assert_eq!(Spanned::from_span_value(span(0, 3), Integer::Error), literal);
    let reports = parser.ds.into_vec();
    assert_eq!(1, reports.len());
    assert_eq!(Code::InvalidIntegerDigit, reports[0].code);
    assert_eq!(span(0, 3), reports[0].span);
    assert_eq!("", reports[0].context);
}

#[test]
fn too_large_integers_are_reported() {
    let mut parser = parser_for("9223372036854775807 9223372036854775808 0x8000000000000000");
    assert_eq!(Integer::Integer(i64::MAX), parser.integer().value);
    assert!(!parser.ds.has_errors());
    assert_eq!(Integer::Error, parser.integer().value);
    assert_eq!(Integer::Error, parser.integer().value);
    let reports = parser.ds.into_vec();
    assert_eq!(2, reports.len());
    assert_eq!(Code::IntegerTooLarge, reports[0].code);
    assert_eq!(span(20, 19), reports[0].span);
    assert_eq!(Code::IntegerTooLarge, reports[1].code);
}

#[test]
fn digits_are_read_as_the_standard_library_reads_them() {
    let samples = [
        "0", "7", "10", "777", "9", "a", "Z", "g", "1g", "g1", "ff", "FF", "7fffffffffffffff",
        "8000000000000000", "99999999999999999999", "9999999999999999999g", "g9999999999999999999",
        "111111111111111111111111111111111111111111111111111111111111111",
        "1111111111111111111111111111111111111111111111111111111111111111",
        "777777777777777777777", "1000000000000000000000", "777777777777777777777778",
    ];
    for radix in [2u32, 8, 10, 16, 36] {
        for sample in samples {
            let expected = match i64::from_str_radix(sample, radix) {
                Ok(value) => Ok(value),
                Err(error) => match error.kind() {
                    std::num::IntErrorKind::PosOverflow => Err(Code::IntegerTooLarge),
                    _ => Err(Code::InvalidIntegerDigit),
                },
            };
            assert_eq!(expected, parse_digits(sample.as_bytes(), 0, radix), "{} r {}", sample, radix);
        }
    }
    assert_eq!(Ok(255), parse_digits(b"0xff", 2, 16));
}

#[test]
fn an_integer_where_none_stands_is_unexpected() {
    let mut parser = parser_for("abc");
    assert_eq!(Integer::Error, parser.integer().value);
    let reports = parser.ds.into_vec();
    assert_eq!(Code::Unexpected, reports[0].code);
    assert_eq!("<number>", reports[0].context);
}

#[test]
fn block_classification() {
    let mut parser = parser_for("{ a }");
    let a = name(&mut parser, "a");
    let expected = Expr::Closure { params: vec![], stmts: vec![Statement::BlockEndExpr(a)] };
    assert_eq!(expected, parser.block_expr());
    assert_clean_and_done(&mut parser, "{ a }");

    let mut parser = parser_for("{ a; }");
    let a = name(&mut parser, "a");
    let expected = Expr::Closure { params: vec![], stmts: vec![Statement::Expr(a)] };
    assert_eq!(expected, parser.block_expr());
    assert_clean_and_done(&mut parser, "{ a; }");

    for input in ["if x {1} else {2}", "if x {1} else {2};"] {
        let mut parser = parser_for(input);
        let x = name(&mut parser, "x");
        let expected = Statement::BlockExpr(Expr::Conditional {
            cases: vec![Conditional {
                condition: x,
                then_body: vec![Statement::BlockEndExpr(literal(1))],
            }],
            final_else: vec![Statement::BlockEndExpr(literal(2))],
        });
        assert_eq!(expected, parser.stmt());
        assert_clean_and_done(&mut parser, input);
    }
}

#[test]
fn conditional_ladder() {
    let input = "if a { 1 } else if b { 2 } else if c { 3 }";
    let mut parser = parser_for(input);
    let a = name(&mut parser, "a");
    let b = name(&mut parser, "b");
    let c = name(&mut parser, "c");
    let expected = Expr::Conditional {
        cases: vec![
            Conditional { condition: a, then_body: vec![Statement::BlockEndExpr(literal(1))] },
            Conditional { condition: b, then_body: vec![Statement::BlockEndExpr(literal(2))] },
            Conditional { condition: c, then_body: vec![Statement::BlockEndExpr(literal(3))] },
        ],
        final_else: vec![],
    };
    let parsed = parser.block_expr();
    assert!(parsed.is_block_expr());
    assert_eq!(expected, parsed);
    assert_clean_and_done(&mut parser, input);
}

#[test]
fn trailing_block_call_sugar() {
    // The closures begin at the same offset, so that they are equal, spans and all.
    for body in ["x: Int -> x", "x -> x"] {
        let sugared = format!("f() {{ {} }}", body);
        let plain = format!("f(  {{ {} }})", body);
        let mut parser = parser_for(&sugared);
        let with_block = parser.block_expr();
        let mut parser = parser_for(&plain);
        let with_argument = parser.block_expr();
        match (with_block, with_argument) {
            (Expr::BlockCall { func, args }, Expr::Call { func: plain_func, args: plain_args }) => {
                assert_eq!(func, plain_func);
                assert_eq!(1, args.len());
                assert!(matches!(args[0], Expr::Closure { .. }));
                assert_eq!(args, plain_args);
            }
            other => panic!("unexpected shapes: {:?}", other),
        }
    }

    let mut parser = parser_for("f(1) { 2 }");
    let f = name(&mut parser, "f");
    let expected = Expr::BlockCall {
        func: Box::new(f),
        args: vec![
            literal(1),
            Expr::Closure { params: vec![], stmts: vec![Statement::BlockEndExpr(literal(2))] },
        ],
    };
    assert_eq!(expected, parser.block_expr());

    let mut parser = parser_for("a.b { }");
    let a = name(&mut parser, "a");
    let b = Ident::Ident(parser.cache.intern("b"));
    let expected = Expr::BlockCall {
        func: Box::new(Expr::Member { recv: Box::new(a), member: b }),
        args: vec![Expr::Closure { params: vec![], stmts: vec![] }],
    };
    assert_eq!(expected, parser.block_expr());
    assert_clean_and_done(&mut parser, "a.b { }");

    // a chain of operands takes no trailing block
    let mut parser = parser_for("1 + 2 { }");
    let expected = Expr::Binary { op: Operator::Add, operands: vec![literal(1), literal(2)] };
    assert_eq!(expected, parser.block_expr());
    assert_eq!(TokenKind::CurlyL, parser.tz.peek().value);
}

#[test]
fn statements_of_each_kind() {
    let input = "{ let x: Int, y: Int = f(y); :k x, 1 + 2; do { x } with h; g() }";
    let mut parser = parser_for(input);
    let x = Ident::Ident(parser.cache.intern("x"));
    let y = Ident::Ident(parser.cache.intern("y"));
    let expected = Expr::Closure {
        params: vec![],
        stmts: vec![
            Statement::Let {
                bindings: vec![
                    TypedIdent { name: x, ty: simple_type(&mut parser, "Int") },
                    TypedIdent { name: y, ty: simple_type(&mut parser, "Int") },
                ],
                init: Expr::Call {
                    func: Box::new(name(&mut parser, "f")),
                    args: vec![name(&mut parser, "y")],
                },
            },
            Statement::Continue {
                cont: Expr::Continue,
                args: vec![
                    name(&mut parser, "x"),
                    Expr::Binary { op: Operator::Add, operands: vec![literal(1), literal(2)] },
                ],
            },
            Statement::Expr(Expr::DoWith {
                stmts: vec![Statement::BlockEndExpr(name(&mut parser, "x"))],
                handler: Box::new(name(&mut parser, "h")),
            }),
            Statement::BlockEndExpr(Expr::Call {
                func: Box::new(name(&mut parser, "g")),
                args: vec![],
            }),
        ],
    };
    assert_eq!(expected, parser.block_expr());
    assert_clean_and_done(&mut parser, input);
}

#[test]
fn handler_literal() {
    let input = "handle eff[Foo], log { fn bar(x: Foo) -> { } finally { } }";
    let mut parser = parser_for(input);
    let parsed = parser.block_expr();
    assert_clean_and_done(&mut parser, input);
    let bar = Ident::Ident(parser.cache.intern("bar"));
    let x = Ident::Ident(parser.cache.intern("x"));
    let expected = Expr::Handler {
        impl_effects: vec![
            Effect {
                name: QualifiedIdent::from_key(parser.cache.intern("eff")),
                args: vec![simple_type(&mut parser, "Foo")],
                meta_effects: vec![],
            },
            simple_effect(&mut parser, "log"),
        ],
        items: vec![
            Item::Function(Function {
                header: FunctionHeader {
                    name: bar,
                    type_params: vec![],
                    effect_params: vec![],
                    params: vec![TypedIdent { name: x, ty: simple_type(&mut parser, "Foo") }],
                    effects: vec![],
                    ret: None,
                },
                body: vec![],
            }),
            Item::Finally { stmts: vec![] },
        ],
    };
    assert!(parsed.is_block_expr());
    assert_eq!(expected, parsed);
}

#[test]
fn effect_definition_item() {
    let input = "effect foo[T | e] { fn bar(x: T) ->; fn baz(y: T) -> T; }";
    let mut parser = parser_for(input);
    let parsed = parser.item();
    assert_clean_and_done(&mut parser, input);
    let foo = Ident::Ident(parser.cache.intern("foo"));
    let t = Ident::Ident(parser.cache.intern("T"));
    let e = Ident::Ident(parser.cache.intern("e"));
    let bar = Ident::Ident(parser.cache.intern("bar"));
    let baz = Ident::Ident(parser.cache.intern("baz"));
    let x = Ident::Ident(parser.cache.intern("x"));
    let y = Ident::Ident(parser.cache.intern("y"));
    let expected = Item::Effect {
        name: foo,
        type_params: vec![t],
        effect_params: vec![e],
        body: vec![
            Item::AbstractFunction(FunctionHeader {
                name: bar,
                type_params: vec![],
                effect_params: vec![],
                params: vec![TypedIdent { name: x, ty: simple_type(&mut parser, "T") }],
                effects: vec![],
                ret: None,
            }),
            Item::AbstractFunction(FunctionHeader {
                name: baz,
                type_params: vec![],
                effect_params: vec![],
                params: vec![TypedIdent { name: y, ty: simple_type(&mut parser, "T") }],
                effects: vec![],
                ret: Some(vec![simple_type(&mut parser, "T")]),
            }),
        ],
    };
    assert_eq!(expected, parsed);
}

#[test]
fn continuation_types_nest_from_the_last_argument_list() {
    let input = "(A)/e -> (B) -> C";
    let mut parser = parser_for(input);
    let parsed = parser.ty();
    assert_clean_and_done(&mut parser, input);
    let expected = Type::Continuation {
        args: vec![simple_type(&mut parser, "A")],
        ret: Some(vec![Type::Continuation {
            args: vec![simple_type(&mut parser, "B")],
            ret: Some(vec![simple_type(&mut parser, "C")]),
            effects: vec![],
        }]),
        effects: vec![simple_effect(&mut parser, "e")],
    };
    assert_eq!(expected, parsed);

    let input = "{A, B[C]}/e, f";
    let mut parser = parser_for(input);
    let parsed = parser.ty();
    assert_clean_and_done(&mut parser, input);
    let expected = Type::Closure {
        ret: vec![
            simple_type(&mut parser, "A"),
            Type::Simple {
                name: QualifiedIdent::from_key(parser.cache.intern("B")),
                args: vec![simple_type(&mut parser, "C")],
            },
        ],
        effects: vec![simple_effect(&mut parser, "e"), simple_effect(&mut parser, "f")],
    };
    assert_eq!(expected, parsed);
}

#[test]
fn meta_effects_come_before_the_base_effect() {
    let input = "foo bar[A] baz";
    let mut parser = parser_for(input);
    let parsed = parser.effect();
    assert_clean_and_done(&mut parser, input);
    let expected = Effect {
        name: QualifiedIdent::from_key(parser.cache.intern("baz")),
        args: vec![],
        meta_effects: vec![
            simple_effect(&mut parser, "foo"),
            Effect {
                name: QualifiedIdent::from_key(parser.cache.intern("bar")),
                args: vec![simple_type(&mut parser, "A")],
                meta_effects: vec![],
            },
        ],
    };
    assert_eq!(expected, parsed);
}

#[test]
fn failures_leave_error_nodes_and_several_diagnostics() {
    let input = "f(+, ]) ; fn";
    let mut parser = parser_for(input);
    let parsed = parser.block_expr();
    let expected = Expr::Call {
        func: Box::new(name(&mut parser, "f")),
        args: vec![Expr::Error { err_span: span(2, 1) }, Expr::Error { err_span: span(5, 1) }],
    };
    assert_eq!(expected, parsed);
    let items = parser.file();
    assert_eq!(Item::Error { err_span: span(8, 1) }, items[0]);
    assert!(matches!(items[1], Item::Function(_)));
    assert_eq!(2, items.len());
    assert_eq!(TokenKind::Eof, parser.tz.peek().value);
    assert!(parser.ds.has_errors());
    let reports = parser.ds.into_vec();
    assert_eq!(Code::Unexpected, reports[0].code);
    assert_eq!(span(2, 1), reports[0].span);
    assert_eq!("+", reports[0].context);
    assert_eq!(span(5, 1), reports[1].span);
    assert_eq!("]", reports[1].context);
    assert_eq!(span(8, 1), reports[2].span);
    assert_eq!(";", reports[2].context);
    assert!(reports.len() > 3);
    assert_eq!("<EOF>", reports[3].context);
}

#[test]
fn a_pair_without_its_colon_empties_the_list() {
    let input = "{ x: Int, y -> x }";
    let mut parser = parser_for(input);
    let parsed = parser.block_expr();
    match parsed {
        Expr::Closure { params, .. } => assert!(params.is_empty()),
        other => panic!("not a closure: {:?}", other),
    }
    assert!(parser.ds.has_errors());
}

#[test]
fn missing_identifier_is_an_error_name() {
    let mut parser = parser_for("a::7");
    let parsed = parser.qualified_ident();
    let a = Ident::Ident(parser.cache.intern("a"));
    assert_eq!(QualifiedIdent(vec![a, Ident::Error]), parsed.value);
    assert_eq!(span(0, 4), parsed.span);
    let reports = parser.ds.into_vec();
    assert_eq!(Code::Unexpected, reports[0].code);
    assert_eq!("<number>", reports[0].context);
}

#[test]
fn qualified_names_round_trip() {
    for input in ["a", "a::b", "alpha::beta_2::_c::D"] {
        let mut parser = parser_for(input);
        let parsed = parser.qualified_ident();
        assert_clean_and_done(&mut parser, input);
        let mut flat = String::new();
        for (i, segment) in parsed.value.0.iter().enumerate() {
            if i > 0 {
                flat.push_str("::");
            }
            match segment {
                Ident::Ident(key) => flat.push_str(parser.cache.get(*key).expect("interned")),
                Ident::Error => panic!("error name in {}", input),
            }
        }
        assert_eq!(input, flat);
        assert_eq!(span(0, input.len()), parsed.span);
    }
}

#[test]
fn integers() {
    let inputs = ["34", "0xfe76c", "0c773", "0b11011"];
    let expected = [
        Integer::Integer(34),
        Integer::Integer(0xfe76c),
        Integer::Integer(0o773),
        Integer::Integer(0b11011),
    ];
    let outputs = inputs
        .into_iter()
        .map(|s| {
            let mut parser = parser_for(s);
            let parsed = parser.integer().value;
            assert!(!parser.ds.has_errors(), "Failed to parse");
            parsed
        })
        .collect::<Vec<_>>();
    assert_eq!(expected, outputs.as_slice());
}

#[test]
fn a_brace_behind_the_arrow_begins_the_body() {
    let input = "fn foo(x: () ->) -> {};";
    let mut parser = parser_for(input);
    let item = parser.item();
    match item {
        Item::Function(function) => {
            assert_eq!(None, function.header.ret);
            assert!(function.body.is_empty());
            assert_eq!(1, function.header.params.len());
        }
        other => panic!("not a function: {:?}", other),
    }
    assert!(!parser.ds.has_errors());
    assert_eq!(TokenKind::Semi, parser.tz.peek().value);
}
