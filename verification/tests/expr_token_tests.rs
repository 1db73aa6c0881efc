use eson::{
    expr_token_set, fn_call, operator, parse_expr_token_chunk, reference, value, var,
    EsonSegment, ExprToken, ExprTokenChunk, FloatLit,
};

#[test]
fn test_nil() {
    assert!(fn_call("").is_err());
    assert!(reference("").is_err());
    assert!(var("").is_err());
    assert!(operator("").is_err());
    assert!(value("").is_err());
    assert!(expr_token_set("").is_err());
}

#[test]
fn test_expr_chunk_zero() {
    assert!(expr_token_set(r#""#).is_err());
}

#[test]
fn test_value() {
    let dat = "1";
    assert_eq!(
        value(dat).unwrap(),
        (String::from(""), ExprToken::Val(EsonSegment::Int(1)))
    );
}

#[test]
fn test_expr_chunk() {
    assert_eq!(
        expr_token_set(r#"1"#).unwrap(),
        (
            String::from(""),
            ExprTokenChunk::from(vec![ExprToken::Val(EsonSegment::Int(1))])
        )
    );
}

#[test]
fn test_separated_list() {
    fn sl(i: &str) -> (String, Vec<ExprTokenChunk>) {
        let mut out = Vec::new();
        let mut rem = match expr_token_set(i) {
            Ok((r, c)) => {
                out.push(c);
                r
            }
            Err(_) => return (i.to_string(), out),
        };
        loop {
            let t = rem.trim_start();
            if let Some(after_comma) = t.strip_prefix(',') {
                let t2 = after_comma.trim_start();
                match expr_token_set(t2) {
                    Ok((r2, c2)) => {
                        out.push(c2);
                        rem = r2;
                    }
                    Err(_) => break,
                }
            } else {
                break;
            }
        }
        (rem, out)
    }

    assert_eq!(
        sl("1, 2, 3"),
        (
            String::from(""),
            vec![
                ExprTokenChunk::from(vec![ExprToken::Val(EsonSegment::Int(1))]),
                ExprTokenChunk::from(vec![ExprToken::Val(EsonSegment::Int(2))]),
                ExprTokenChunk::from(vec![ExprToken::Val(EsonSegment::Int(3))]),
            ],
        )
    );

    assert_eq!(
        sl("a, b, 1"),
        (
            String::from(""),
            vec![
                ExprTokenChunk::from(vec![ExprToken::Var("a".to_string())]),
                ExprTokenChunk::from(vec![ExprToken::Var("b".to_string())]),
                ExprTokenChunk::from(vec![ExprToken::Val(EsonSegment::Int(1))]),
            ],
        )
    );

    assert_eq!(
        sl("1"),
        (
            String::from(""),
            vec![ExprTokenChunk::from(vec![ExprToken::Val(EsonSegment::Int(
                1
            ))])],
        )
    );

    assert_eq!(sl(""), (String::from(""), vec![]));
}

#[test]
fn test_fn_call0() {
    assert_eq!(
        fn_call("fn_call()").unwrap(),
        (
            String::from(""),
            ExprToken::FnCall("fn_call".to_string(), vec![])
        )
    );
    assert_eq!(
        fn_call("fn_call( )").unwrap(),
        (
            String::from(""),
            ExprToken::FnCall("fn_call".to_string(), vec![])
        )
    );
    assert_eq!(
        fn_call("fn_call( ) ").unwrap(),
        (
            String::from(""),
            ExprToken::FnCall("fn_call".to_string(), vec![])
        )
    );
    assert_eq!(
        fn_call("fn_call ( )").unwrap(),
        (
            String::from(""),
            ExprToken::FnCall("fn_call".to_string(), vec![])
        )
    );
    assert_eq!(
        fn_call("fn_call(hello, world)").unwrap(),
        (
            String::from(""),
            ExprToken::FnCall(
                "fn_call".to_string(),
                vec![
                    ExprTokenChunk::from(vec![ExprToken::Var("hello".to_string())]),
                    ExprTokenChunk::from(vec![ExprToken::Var("world".to_string())]),
                ],
            )
        )
    );
    assert_eq!(
        fn_call("fn_call(fn_call())").unwrap(),
        (
            String::from(""),
            ExprToken::FnCall(
                "fn_call".to_string(),
                vec![ExprTokenChunk::from(vec![ExprToken::FnCall(
                    "fn_call".to_string(),
                    vec![],
                )])],
            )
        )
    );
    assert_eq!(
        fn_call("fn_call(fn_call(), fn_call(1, 2), 3)").unwrap(),
        (
            String::from(""),
            ExprToken::FnCall(
                "fn_call".to_string(),
                vec![
                    ExprTokenChunk::from(vec![ExprToken::FnCall("fn_call".to_string(), vec![])]),
                    ExprTokenChunk::from(vec![ExprToken::FnCall(
                        "fn_call".to_string(),
                        vec![
                            ExprTokenChunk::from(vec![ExprToken::Val(EsonSegment::Int(1))]),
                            ExprTokenChunk::from(vec![ExprToken::Val(EsonSegment::Int(2))]),
                        ],
                    )]),
                    ExprTokenChunk::from(vec![ExprToken::Val(EsonSegment::Int(3))]),
                ],
            )
        )
    );
}

#[test]
fn test_expr_chunk1() {
    assert_eq!(
        expr_token_set(r#"1 + 2 * 3 / 4 % 5"#).unwrap(),
        (
            String::from(""),
            ExprTokenChunk::from(vec![
                ExprToken::Val(EsonSegment::Int(1)),
                ExprToken::Plus,
                ExprToken::Val(EsonSegment::Int(2)),
                ExprToken::Mul,
                ExprToken::Val(EsonSegment::Int(3)),
                ExprToken::Div,
                ExprToken::Val(EsonSegment::Int(4)),
                ExprToken::Mod,
                ExprToken::Val(EsonSegment::Int(5)),
            ])
        )
    );
}

#[test]
fn test_expr_chunk2() {
    assert_eq!(
        expr_token_set(r#"f(1) + g(2) * h(3)"#).unwrap(),
        (
            String::from(""),
            ExprTokenChunk::from(vec![
                ExprToken::FnCall(
                    "f".to_string(),
                    vec![ExprTokenChunk::from(vec![ExprToken::Val(EsonSegment::Int(
                        1
                    ))])],
                ),
                ExprToken::Plus,
                ExprToken::FnCall(
                    "g".to_string(),
                    vec![ExprTokenChunk::from(vec![ExprToken::Val(EsonSegment::Int(
                        2
                    ))])],
                ),
                ExprToken::Mul,
                ExprToken::FnCall(
                    "h".to_string(),
                    vec![ExprTokenChunk::from(vec![ExprToken::Val(EsonSegment::Int(
                        3
                    ))])],
                ),
            ])
        )
    );
}

#[test]
fn expr_token_test_float() {
    assert_eq!(
        value("10").unwrap(),
        (String::from(""), ExprToken::Val(EsonSegment::Int(10)))
    );
    assert_eq!(
        value("1.0").unwrap(),
        (
            String::from(""),
            ExprToken::Val(EsonSegment::Float(FloatLit::Dec("1.0".to_string())))
        )
    );
    assert_eq!(
        value("1.0e1").unwrap(),
        (
            String::from(""),
            ExprToken::Val(EsonSegment::Float(FloatLit::Dec("1.0e+1".to_string())))
        )
    );
    assert_eq!(
        value("1.0e-1").unwrap(),
        (
            String::from(""),
            ExprToken::Val(EsonSegment::Float(FloatLit::Dec("1.0e-1".to_string())))
        )
    );
    assert_eq!(
        value("1.0e+1").unwrap(),
        (
            String::from(""),
            ExprToken::Val(EsonSegment::Float(FloatLit::Dec("1.0e+1".to_string())))
        )
    );
    assert_eq!(
        value("1.0E1").unwrap(),
        (
            String::from(""),
            ExprToken::Val(EsonSegment::Float(FloatLit::Dec("1.0e+1".to_string())))
        )
    );
    assert_eq!(
        value("1.0E-1").unwrap(),
        (
            String::from(""),
            ExprToken::Val(EsonSegment::Float(FloatLit::Dec("1.0e-1".to_string())))
        )
    );
    assert_eq!(
        value("1.0E+1").unwrap(),
        (
            String::from(""),
            ExprToken::Val(EsonSegment::Float(FloatLit::Dec("1.0e+1".to_string())))
        )
    );
    // the kept literal reads back to the value the source wrote
    match value("1.0e-1").unwrap().1 {
        ExprToken::Val(EsonSegment::Float(FloatLit::Dec(t))) => {
            assert_eq!(t.parse::<f64>().unwrap(), 0.1);
        }
        other => panic!("unexpected token {:?}", other),
    }
}

#[test]
fn test_fn_call_arg_float() {
    assert_eq!(
        fn_call("fn_call(1.0)").unwrap(),
        (
            String::from(""),
            ExprToken::FnCall(
                "fn_call".to_string(),
                vec![ExprTokenChunk::from(vec![ExprToken::Val(
                    EsonSegment::Float(FloatLit::Dec("1.0".to_string()))
                )])],
            )
        )
    );
    assert_eq!(
        fn_call("fn_call(1.0, 2.0)").unwrap(),
        (
            String::from(""),
            ExprToken::FnCall(
                "fn_call".to_string(),
                vec![
                    ExprTokenChunk::from(vec![ExprToken::Val(EsonSegment::Float(
                        FloatLit::Dec("1.0".to_string())
                    ))]),
                    ExprTokenChunk::from(vec![ExprToken::Val(EsonSegment::Float(
                        FloatLit::Dec("2.0".to_string())
                    ))]),
                ],
            )
        )
    );
}

#[test]
fn test_expr_chunk3() {
    assert_eq!(
        expr_token_set(r#"f(1) + g(2, 2.5) * h(3) + 4"#).unwrap(),
        (
            String::from(""),
            ExprTokenChunk::from(vec![
                ExprToken::FnCall(
                    "f".to_string(),
                    vec![ExprTokenChunk::from(vec![ExprToken::Val(EsonSegment::Int(
                        1
                    ))])],
                ),
                ExprToken::Plus,
                ExprToken::FnCall(
                    "g".to_string(),
                    vec![
                        ExprTokenChunk::from(vec![ExprToken::Val(EsonSegment::Int(2))]),
                        ExprTokenChunk::from(vec![ExprToken::Val(EsonSegment::Float(
                            FloatLit::Dec("2.5".to_string())
                        ))]),
                    ],
                ),
                ExprToken::Mul,
                ExprToken::FnCall(
                    "h".to_string(),
                    vec![ExprTokenChunk::from(vec![ExprToken::Val(EsonSegment::Int(
                        3
                    ))])],
                ),
                ExprToken::Plus,
                ExprToken::Val(EsonSegment::Int(4)),
            ])
        )
    );
}

#[test]
fn test_parse_expr_token_chunk() {
    assert!(parse_expr_token_chunk("${}").is_err());
    assert!(parse_expr_token_chunk("${ }").is_err());
    assert_eq!(
        parse_expr_token_chunk("${ 1 }").unwrap(),
        (
            String::from(""),
            ExprTokenChunk::from(vec![ExprToken::Val(EsonSegment::Int(1))])
        )
    );

    assert!(parse_expr_token_chunk("${ 1 + 2 * 3 }").is_ok());
}
