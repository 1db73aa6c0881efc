use eson::parse_string;

#[test]
fn test_format_string() {
    assert_eq!(
        parse_string(r#"f"${name}""#).unwrap(),
        (String::from(""), String::from("Var(name)"))
    );
    assert_eq!(
        parse_string(r#"f"hello ${name}""#).unwrap(),
        (String::from(""), String::from("hello Var(name)"))
    );
    assert_eq!(
        parse_string(r#"f"hello ${ name }""#).unwrap(),
        (String::from(""), String::from("hello Var(name)"))
    );
    assert_eq!(
        parse_string(r#"f"hello ${ name } world""#).unwrap(),
        (String::from(""), String::from("hello Var(name) world"))
    );
    assert_eq!(
        parse_string(r#"f"hello ${ name } world ${ name }""#).unwrap(),
        (
            String::from(""),
            String::from("hello Var(name) world Var(name)")
        )
    );
    assert_eq!(
        parse_string(r####"f#"hello ${ name }"#"####).unwrap(),
        (String::from(""), String::from("hello Var(name)"))
    );
    assert_eq!(
        parse_string(r####"f#"hello ${ foo(bar) }"#"####).unwrap(),
        (
            String::from(""),
            String::from("hello FnCall(foo, [ExprTokenChunk([Var(\"bar\")])])")
        )
    );
    assert_eq!(
        parse_string(r####"f#"hello ${ foo(bar, foo()) }"#"####).unwrap(),
        (
            String::from(""),
            String::from(
                "hello FnCall(foo, [ExprTokenChunk([Var(\"bar\")]), ExprTokenChunk([FnCall(\"foo\", [])])])"
            )
        )
    );
}

#[test]
fn string_test_string() {
    assert_eq!(
        parse_string("\"John\"").unwrap(),
        (String::from(""), String::from("John"))
    );
    assert!(parse_string("\"John").is_err());
    assert_eq!(
        parse_string(
            r#""hello \
        John""#
        )
        .unwrap(),
        (String::from(""), String::from("hello John"))
    );
    assert_eq!(
        parse_string(r#"r"John""#).unwrap(),
        (String::from(""), String::from("John"))
    );
    assert_eq!(
        parse_string(r##"r#"John"#"##).unwrap(),
        (String::from(""), String::from("John"))
    );
    assert_eq!(
        parse_string(r###"r##"John"##"###).unwrap(),
        (String::from(""), String::from("John"))
    );
}
