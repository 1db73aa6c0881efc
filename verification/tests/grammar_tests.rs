use eson::{
    comment, eson, eson_literal, fn_call, legal_id, operator, parse_dict, parse_expr,
    parse_literal_number, parse_string, reference, root, Dict, ErrorKind, EsonLiteralSegment,
    EsonSegment, ExprChunk, ExprToken, ExprTokenChunk, FloatLit, RefIndex, RefPronoun,
};

#[test]
fn trailing_comma_same_dict() {
    let with = parse_dict("{foo: 1, bar: 2,}").unwrap();
    let without = parse_dict("{foo: 1, bar: 2}").unwrap();
    assert_eq!(with, without);
}

#[test]
fn duplicate_names_collapse() {
    let (rem, d) = parse_dict("{@a\nfoo: 1, @b\nfoo: 2}").unwrap();
    assert_eq!(rem, "");
    assert_eq!(d.entries.len(), 1);
    assert_eq!(d.entries[0].1, EsonSegment::Int(2));
    // the first-inserted key is the one kept, with its annotations
    let anns = d.entries[0].0.annotation.as_ref().unwrap();
    assert_eq!(anns.len(), 1);
    assert_eq!(anns[0].name, "a");
}

#[test]
fn raw_fence_mismatch() {
    assert_eq!(
        parse_string(r###"r##"John"##"###).unwrap(),
        (String::from(""), String::from("John"))
    );
    assert_eq!(
        parse_string(r##"r#"John"#"##).unwrap(),
        (String::from(""), String::from("John"))
    );
    // an opening fence of two hashes is never closed by one
    assert!(parse_string("r##\"John\"#").is_err());
    // a longer closing run only ends the string at its fence's width
    assert_eq!(
        parse_string("r#\"John\"##").unwrap(),
        (String::from("#"), String::from("John"))
    );
}

#[test]
fn reference_paths() {
    assert_eq!(
        reference("self.ele").unwrap(),
        (
            String::from(""),
            ExprToken::Ref(RefPronoun::Curr(vec![RefIndex::Str("ele".to_string())]))
        )
    );
    assert_eq!(
        reference("super[\"ele\"]").unwrap(),
        (
            String::from(""),
            ExprToken::Ref(RefPronoun::Super(vec![RefIndex::Str("ele".to_string())]))
        )
    );
    assert_eq!(
        reference("$[0]").unwrap(),
        (
            String::from(""),
            ExprToken::Ref(RefPronoun::Root(vec![RefIndex::Int(0)]))
        )
    );
    // a path index out of the 16-bit range simply ends the path
    assert_eq!(
        reference("$[40000]").unwrap(),
        (
            String::from("[40000]"),
            ExprToken::Ref(RefPronoun::Root(vec![]))
        )
    );
}

#[test]
fn composition() {
    let (rem, t) = fn_call("g(1, f(a, b), {x: 2})").unwrap();
    assert_eq!(rem, "");
    match t {
        ExprToken::FnCall(name, args) => {
            assert_eq!(name, "g");
            assert_eq!(args.len(), 3);
            assert_eq!(
                args[0],
                ExprTokenChunk::from(vec![ExprToken::Val(EsonSegment::Int(1))])
            );
            assert_eq!(
                args[1],
                ExprTokenChunk::from(vec![ExprToken::FnCall(
                    "f".to_string(),
                    vec![
                        ExprTokenChunk::from(vec![ExprToken::Var("a".to_string())]),
                        ExprTokenChunk::from(vec![ExprToken::Var("b".to_string())]),
                    ],
                )])
            );
            match &args[2] {
                ExprTokenChunk(toks) => match &toks[0] {
                    ExprToken::Val(EsonSegment::Dict(d)) => {
                        assert_eq!(d.entries.len(), 1);
                        assert_eq!(d.entries[0].0.name, "x");
                        assert_eq!(d.entries[0].1, EsonSegment::Int(2));
                    }
                    other => panic!("expected a dictionary value, got {:?}", other),
                },
            }
        }
        other => panic!("expected a call token, got {:?}", other),
    }
    // a bare call is no value, so a list cannot hold one: the open bracket
    // commits, and the failure inside is reported as committed
    let err = eson("[1, f(a, b), {x: 2}]").unwrap_err();
    assert!(err.committed);
}

#[test]
fn numeric_overflow_is_an_error() {
    assert_eq!(
        parse_literal_number("9223372036854775807").unwrap(),
        (String::from(""), EsonLiteralSegment::Int(i64::MAX))
    );
    let err = parse_literal_number("9223372036854775808").unwrap_err();
    assert_eq!(err.kind, ErrorKind::Overflow);
    assert!(err.committed);
    let err = parse_literal_number("0x8000000000000000").unwrap_err();
    assert_eq!(err.kind, ErrorKind::Overflow);
    assert_eq!(
        parse_literal_number("0x7FFFFFFFFFFFFFFF").unwrap(),
        (String::from(""), EsonLiteralSegment::Int(i64::MAX))
    );
}

#[test]
fn named_floats() {
    assert_eq!(
        parse_literal_number("Infinity").unwrap(),
        (String::from(""), EsonLiteralSegment::Float(FloatLit::Infinity))
    );
    assert_eq!(
        parse_literal_number("-Infinity").unwrap(),
        (
            String::from(""),
            EsonLiteralSegment::Float(FloatLit::NegInfinity)
        )
    );
    assert_eq!(
        parse_literal_number("NaN").unwrap(),
        (String::from(""), EsonLiteralSegment::Float(FloatLit::NaN))
    );
}

#[test]
fn unicode_escapes() {
    assert_eq!(
        parse_string("\"\\u{1F601}\"").unwrap(),
        (String::from(""), String::from("\u{1F601}"))
    );
    assert_eq!(
        parse_string("\"\\u0041\"").unwrap(),
        (String::from(""), String::from("A"))
    );
    // a surrogate is no scalar, so the escape fails and the string never
    // reaches its closing quote
    assert!(parse_string("\"\\uD800\"").is_err());
}

#[test]
fn escapes() {
    assert_eq!(
        parse_string("\"a\\nb\\tc\\\\d\\\"e\\/f\"").unwrap(),
        (String::from(""), String::from("a\nb\tc\\d\"e/f"))
    );
}

#[test]
fn undefined_operator() {
    let err = operator("^").unwrap_err();
    assert!(err.committed);
    assert!(eson("${ 1 ^ 2 }").is_err());
}

#[test]
fn expression_tree_errors() {
    // leftover tokens are reported, not dropped
    let chunk = ExprTokenChunk::from(vec![
        ExprToken::Val(EsonSegment::Int(1)),
        ExprToken::Val(EsonSegment::Int(2)),
    ]);
    let err = parse_expr(chunk).unwrap_err();
    assert_eq!(err.kind, ErrorKind::Expr);

    // a leading infix operator is an error, not a panic
    let chunk = ExprTokenChunk::from(vec![ExprToken::Mul, ExprToken::Val(EsonSegment::Int(1))]);
    let err = parse_expr(chunk).unwrap_err();
    assert_eq!(err.kind, ErrorKind::Expr);

    // an empty stream is an error, not a panic
    let err = parse_expr(ExprTokenChunk::from(vec![])).unwrap_err();
    assert_eq!(err.kind, ErrorKind::Expr);
}

#[test]
fn prefix_operators() {
    let chunk = ExprTokenChunk::from(vec![
        ExprToken::Not,
        ExprToken::Val(EsonSegment::Boolean(true)),
    ]);
    assert_eq!(
        parse_expr(chunk).unwrap(),
        ExprChunk::PrefixOp(
            ExprToken::Not,
            Box::new(ExprChunk::Primary(ExprToken::Val(EsonSegment::Boolean(
                true
            )))),
        )
    );
    let chunk = ExprTokenChunk::from(vec![
        ExprToken::Minus,
        ExprToken::Val(EsonSegment::Int(1)),
        ExprToken::Plus,
        ExprToken::Val(EsonSegment::Int(2)),
    ]);
    assert_eq!(
        parse_expr(chunk).unwrap(),
        ExprChunk::InfixOp(
            ExprToken::Plus,
            Box::new(ExprChunk::PrefixOp(
                ExprToken::Minus,
                Box::new(ExprChunk::Primary(ExprToken::Val(EsonSegment::Int(1)))),
            )),
            Box::new(ExprChunk::Primary(ExprToken::Val(EsonSegment::Int(2)))),
        )
    );
}

#[test]
fn comment_needs_its_newline() {
    assert!(comment("// x").is_err());
    assert!(comment("//\n").is_err());
    assert_eq!(
        comment("//   hello world\nrest").unwrap(),
        (String::from("rest"), String::from("hello world"))
    );
}

#[test]
fn identifiers() {
    assert_eq!(
        legal_id("foo bar").unwrap(),
        (String::from(" bar"), String::from("foo"))
    );
    assert_eq!(
        legal_id("_x9!").unwrap(),
        (String::from("!"), String::from("_x9"))
    );
    assert!(legal_id("9a").is_err());
    assert!(legal_id("").is_err());
}

#[test]
fn dispatcher_order() {
    assert_eq!(
        eson("null").unwrap(),
        (String::from(""), EsonSegment::Null)
    );
    assert_eq!(
        eson("true").unwrap(),
        (String::from(""), EsonSegment::Boolean(true))
    );
    // keyword prefixes bind like tags: the tail is left over
    assert_eq!(
        eson("trueX").unwrap(),
        (String::from("X"), EsonSegment::Boolean(true))
    );
    assert_eq!(
        eson("  [1, 2, 3]").unwrap(),
        (
            String::from(""),
            EsonSegment::List(vec![
                EsonSegment::Int(1),
                EsonSegment::Int(2),
                EsonSegment::Int(3),
            ])
        )
    );
    assert!(eson("").is_err());
    assert!(!eson("").unwrap_err().committed);
}

#[test]
fn nested_values() {
    let (rem, v) = eson("{a: [1, {b: \"x\"}], c: ${ y }}").unwrap();
    assert_eq!(rem, "");
    match v {
        EsonSegment::Dict(d) => {
            assert_eq!(d.entries.len(), 2);
            assert_eq!(d.entries[0].0.name, "a");
            assert_eq!(d.entries[1].0.name, "c");
            assert_eq!(
                d.entries[1].1,
                EsonSegment::Expr(ExprTokenChunk::from(vec![ExprToken::Var(
                    "y".to_string()
                )]))
            );
        }
        other => panic!("expected a dictionary, got {:?}", other),
    }
}

#[test]
fn literal_values_reject_expressions() {
    assert!(eson_literal("${ x }").is_err());
    assert!(eson_literal("f\"x\"").is_err());
    assert_eq!(
        eson_literal("\"x\"").unwrap(),
        (String::from(""), EsonLiteralSegment::Str("x".to_string()))
    );
}

#[test]
fn root_parses_null() {
    assert_eq!(
        root("  null  ").unwrap(),
        (String::from(""), EsonSegment::Null)
    );
    assert!(root("{}").is_err());
}

#[test]
fn rendering() {
    assert_eq!(ExprToken::Var("x".to_string()).to_text(), "Var(x)");
    assert_eq!(
        ExprToken::Val(EsonSegment::Int(-42)).to_text(),
        "Val(Int(-42))"
    );
    assert_eq!(ExprToken::Nil.to_text(), "None");
    // payloads render in structure shape: contents quoted, escapes applied
    assert_eq!(
        ExprToken::Val(EsonSegment::Str("x".to_string())).to_text(),
        "Val(Str(\"x\"))"
    );
    assert_eq!(
        ExprToken::Val(EsonSegment::Str("a\"b\\c\nd".to_string())).to_text(),
        "Val(Str(\"a\\\"b\\\\c\\nd\"))"
    );
    assert_eq!(
        ExprToken::Val(EsonSegment::List(vec![
            EsonSegment::Int(1),
            EsonSegment::Int(2)
        ]))
        .to_text(),
        "Val(List([Int(1), Int(2)]))"
    );
    assert_eq!(
        ExprToken::Val(EsonSegment::Float(FloatLit::Infinity)).to_text(),
        "Val(Float(inf))"
    );
    assert_eq!(
        ExprToken::Val(EsonSegment::Dict(Dict {
            entries: vec![(
                eson::Key {
                    name: "foo".to_string(),
                    annotation: None,
                },
                EsonSegment::Int(1)
            )],
        }))
        .to_text(),
        "Val(Dict({Key { name: \"foo\", annotation: None }: Int(1)}))"
    );
    assert_eq!(
        ExprToken::Ref(RefPronoun::Curr(vec![RefIndex::Str("ele".to_string())])).to_text(),
        "Ref(Curr([Str(\"ele\")]))"
    );
    let chunk = ExprTokenChunk::from(vec![
        ExprToken::Val(EsonSegment::Int(1)),
        ExprToken::Plus,
        ExprToken::Val(EsonSegment::Int(2)),
    ]);
    assert_eq!(chunk.to_text(), "Val(Int(1))PlusVal(Int(2))");

    let tree = ExprChunk::InfixOp(
        ExprToken::Plus,
        Box::new(ExprChunk::Primary(ExprToken::Val(EsonSegment::Int(1)))),
        Box::new(ExprChunk::Primary(ExprToken::Val(EsonSegment::Int(2)))),
    );
    assert_eq!(tree.to_text(), "(Val(Int(1))PlusVal(Int(2)))");
}

#[test]
fn dict_insert_keeps_first_key() {
    let mut d = Dict::new();
    d.insert(
        eson::Key {
            name: "k".to_string(),
            annotation: Some(vec![eson::Annotation {
                name: "first".to_string(),
                value: None,
            }]),
        },
        EsonSegment::Int(1),
    );
    d.insert(
        eson::Key {
            name: "k".to_string(),
            annotation: Some(vec![eson::Annotation {
                name: "second".to_string(),
                value: None,
            }]),
        },
        EsonSegment::Int(2),
    );
    assert_eq!(d.len(), 1);
    assert_eq!(d.entries[0].1, EsonSegment::Int(2));
    assert_eq!(
        d.entries[0].0.annotation.as_ref().unwrap()[0].name,
        "first"
    );
}
