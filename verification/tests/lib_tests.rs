use eson::{eson, parse_annotations, parse_string, sp, EsonSegment};

#[test]
fn test_eson() {
    let dat = r###"
        {
            // hello
            @hello
            "c": {},
            "d": "bar",
        }
        "###;

    assert!(eson(dat).is_ok());
}

#[test]
fn test_eson2() {
    let data = "1";
    assert_eq!(
        eson(data).unwrap(),
        (String::from(""), EsonSegment::Int(1))
    );
}

#[test]
fn test_comment_annotation() {
    let dat = r###"
        // hello
        @hello
        "c": {},
        "###;

    let (rem, _) = sp(dat);
    let (rem, annotations) = parse_annotations(&rem).unwrap();
    assert_eq!(annotations.len(), 1);
    assert_eq!(annotations[0].name, "hello");
    assert!(rem.starts_with("\"c\""));
}

#[test]
fn test_map1() {
    let dat = r###"
        {
            // foo annotation
            @foo


            "c": "hello",
            "d": "bar",
        }
        "###;

    assert!(eson(dat).is_ok());
}

#[test]
fn test_root0() {
    let dat = r###"
        {
        // hello
            @hello
            "c": {},
            "d": "bar",
        }
        "###;

    let _ = dat;
}

#[test]
fn test_root() {
    let dat = r###"
        // comment1
        {
            "a": 42,
            "b": [
                "x", // two
                "y",
                12
            ],
            // three
            @hello
            "c": {
                "hello": "world",
                "foo": r"bar",
                "bar": f"hello ${name}",
            }
        }
        "###;

    let _ = dat;
}

#[test]
fn lib_test_comment() {
    let json = r##"
        // comment1
        {}
        "##;
    let _ = json;
}

#[test]
fn test_comment2() {
    let json = r##"
        // comment1
        // comment2
        {}
        "##;
    let _ = json;
}

#[test]
fn test_json_with_comments() {
    let json = r##"
        // comment1
        // two
        {
            // comment3
            "a": 42,
            "b": [
                "x", // four
                "y",
                12
            ],
            "c": {
                "hello": "world",
                "foo": r"bar",
                // five
                "bar": f"hello ${name}",
            }
        }
        "##;
    let _ = json;
}

#[test]
fn test_literal_key() {}

#[test]
fn lib_test_sp() {
    assert_eq!(sp("  "), (String::from(""), String::from("")));
    assert_eq!(sp(" \t\r\n"), (String::from(""), String::from("")));
    assert_eq!(sp(""), (String::from(""), String::from("")));
}

#[test]
fn test_null() {}

#[test]
fn test_f_string() {
    assert_eq!(
        parse_string(r#"f"${name}""#).unwrap(),
        (String::from(""), String::from("Var(name)"))
    );
    assert_eq!(
        parse_string(r#"f"hello ${name}""#).unwrap(),
        (String::from(""), String::from("hello Var(name)"))
    );
    assert_eq!(
        parse_string(r#"f"hello ${ name }""#).unwrap(),
        (String::from(""), String::from("hello Var(name)"))
    );
    assert_eq!(
        parse_string(r#"f"hello ${ name } world""#).unwrap(),
        (String::from(""), String::from("hello Var(name) world"))
    );
    assert_eq!(
        parse_string(r#"f"hello ${ name } world ${ name }""#).unwrap(),
        (
            String::from(""),
            String::from("hello Var(name) world Var(name)")
        )
    );
    assert_eq!(
        parse_string(r####"f#"hello ${ name }"#"####).unwrap(),
        (String::from(""), String::from("hello Var(name)"))
    );
    assert_eq!(
        parse_string(r####"f#"hello ${ foo(bar) }"#"####).unwrap(),
        (
            String::from(""),
            String::from("hello FnCall(foo, [ExprTokenChunk([Var(\"bar\")])])")
        )
    );
    assert_eq!(
        parse_string(r####"f#"hello ${ foo(bar, foo()) }"#"####).unwrap(),
        (
            String::from(""),
            String::from(
                "hello FnCall(foo, [ExprTokenChunk([Var(\"bar\")]), ExprTokenChunk([FnCall(\"foo\", [])])])"
            )
        )
    );
}

#[test]
fn test_f_string2() {
    let data = r#"f"${hello}" hello "#;
    let _ = parse_string(data);
}

#[test]
fn test_json() {
    let data = r#"{
            "a": 42,
            "b": [
                "x",
                "y",
                12
            ],
            "c": {
                "hello": "world",
                "foo": r"bar",
                "bar": f"hello ${name}",
            }
        }"#;

    let _ = data;
}
