use eson::comment;

#[test]
fn comments_test_comment() {
    assert_eq!(
        comment("// hello\n").unwrap(),
        (String::from(""), String::from("hello"))
    );
    assert_eq!(
        comment("// hello\nworld").unwrap(),
        (String::from("world"), String::from("hello"))
    );
    assert_eq!(
        comment(
            r#"// hello
        @world"#
        )
        .unwrap(),
        (String::from("        @world"), String::from("hello"))
    );
}
