use eson::{eson, EsonSegment, ExprChunk, ExprToken, ExprTokenChunk, Parser};

#[test]
fn test_expr() {
    let (_remaining, expr) = eson(r#"${ 1 + 2 * 3 }"#).unwrap();
    match expr {
        EsonSegment::Expr(chunk) => {
            assert_eq!(
                chunk,
                ExprTokenChunk::from(vec![
                    ExprToken::Val(EsonSegment::Int(1)),
                    ExprToken::Plus,
                    ExprToken::Val(EsonSegment::Int(2)),
                    ExprToken::Mul,
                    ExprToken::Val(EsonSegment::Int(3)),
                ])
            );

            let mut parser = Parser::new(chunk.into());
            let chunk = parser.parse(0).unwrap();
            assert_eq!(
                chunk,
                ExprChunk::InfixOp(
                    ExprToken::Plus,
                    Box::new(ExprChunk::Primary(ExprToken::Val(EsonSegment::Int(1)))),
                    Box::new(ExprChunk::InfixOp(
                        ExprToken::Mul,
                        Box::new(ExprChunk::Primary(ExprToken::Val(EsonSegment::Int(2)))),
                        Box::new(ExprChunk::Primary(ExprToken::Val(EsonSegment::Int(3)))),
                    )),
                )
            );
        }
        _ => panic!("expected an expression literal"),
    }
}

#[test]
fn test_expr_with_fncall() {
    let (_remaining, expr) = eson(r#"${ 1 + f(a, b) * 2 }"#).unwrap();
    match expr {
        EsonSegment::Expr(chunk) => {
            assert_eq!(
                chunk,
                ExprTokenChunk::from(vec![
                    ExprToken::Val(EsonSegment::Int(1)),
                    ExprToken::Plus,
                    ExprToken::FnCall(
                        String::from("f"),
                        vec![
                            ExprTokenChunk::from(vec![ExprToken::Var("a".to_string())]),
                            ExprTokenChunk::from(vec![ExprToken::Var("b".to_string())]),
                        ],
                    ),
                    ExprToken::Mul,
                    ExprToken::Val(EsonSegment::Int(2)),
                ])
            );

            let mut parser = Parser::new(chunk.into());
            let chunk = parser.parse(0).unwrap();
            assert_eq!(
                chunk,
                ExprChunk::InfixOp(
                    ExprToken::Plus,
                    Box::new(ExprChunk::Primary(ExprToken::Val(EsonSegment::Int(1)))),
                    Box::new(ExprChunk::InfixOp(
                        ExprToken::Mul,
                        Box::new(ExprChunk::Primary(ExprToken::FnCall(
                            String::from("f"),
                            vec![
                                ExprTokenChunk::from(vec![ExprToken::Var("a".to_string())]),
                                ExprTokenChunk::from(vec![ExprToken::Var("b".to_string())]),
                            ],
                        ))),
                        Box::new(ExprChunk::Primary(ExprToken::Val(EsonSegment::Int(2)))),
                    )),
                )
            );
        }
        _ => panic!("expected an expression literal"),
    }
}
