use eson::{annotation, parse_annotations, sp, sp_without_br0, Annotation, EsonLiteralSegment};

#[test]
fn test_devel() {
    let s = r#"
            // foo annotation
            @foo
        "#;
    assert_eq!(
        sp(s),
        (String::from("@foo\n        "), String::from(""))
    );

    assert_eq!(
        annotation("@foo\n        ").unwrap(),
        (
            String::from("\n        "),
            Annotation {
                name: "foo".to_string(),
                value: None,
            }
        )
    );

    let (rem, _) = sp(s);
    assert_eq!(
        annotation(&rem).unwrap(),
        (
            String::from("\n        "),
            Annotation {
                name: "foo".to_string(),
                value: None,
            }
        )
    );

    let (rem, annotations) = parse_annotations(s).unwrap();
    assert_eq!(rem, "");
    assert_eq!(
        annotations,
        vec![Annotation {
            name: "foo".to_string(),
            value: None,
        }]
    );

    let s = r#"
            // foo annotation
            @foo
            @bar
        "#;
    let (rem, annotations) = parse_annotations(s).unwrap();
    assert_eq!(rem, "");
    assert_eq!(
        annotations,
        vec![
            Annotation {
                name: "foo".to_string(),
                value: None,
            },
            Annotation {
                name: "bar".to_string(),
                value: None,
            },
        ]
    );
}

#[test]
fn test_annotation_after_comment() {
    let s = r###"
            // foo annotation
            @foo
        "###;
    assert_eq!(
        parse_annotations(s).unwrap(),
        (
            String::from(""),
            vec![Annotation {
                name: "foo".to_string(),
                value: None,
            }]
        )
    );
}

#[test]
fn test_annotation3() {
    let s = "        @world";
    assert_eq!(
        parse_annotations(s).unwrap(),
        (
            String::from(""),
            vec![Annotation {
                name: "world".to_string(),
                value: None,
            }]
        )
    );
}

#[test]
fn test_annotation() {
    assert_eq!(
        annotation("@DEF\n").unwrap(),
        (
            String::from("\n"),
            Annotation {
                name: "DEF".to_string(),
                value: None,
            }
        )
    );

    assert_eq!(
        parse_annotations("@DEF\n").unwrap(),
        (
            String::from(""),
            vec![Annotation {
                name: "DEF".to_string(),
                value: None,
            }]
        )
    );
}

#[test]
fn test_sp_without_br0() {
    assert_eq!(sp_without_br0("   "), (String::from(""), String::from("")));
    assert_eq!(
        sp_without_br0(" \t \r  "),
        (String::from(""), String::from(""))
    );
    assert_eq!(sp_without_br0(""), (String::from(""), String::from("")));
    assert_eq!(
        sp_without_br0("   \n"),
        (String::from("\n"), String::from(""))
    );
    assert_eq!(
        sp_without_br0("   \n  "),
        (String::from("\n  "), String::from(""))
    );
}

#[test]
fn test_sep_annotation() {
    fn element(s: &str) -> Option<(String, Annotation)> {
        let (r1, _) = sp_without_br0(s);
        let (r2, a) = annotation(&r1).ok()?;
        let (r3, _) = sp_without_br0(&r2);
        Some((r3, a))
    }

    fn parser(s: &str) -> (String, Vec<Annotation>) {
        let mut out = Vec::new();
        let mut rem = match element(s) {
            Some((r, a)) => {
                out.push(a);
                r
            }
            None => return (s.to_string(), out),
        };
        loop {
            if let Some(stripped) = rem.strip_prefix('\n') {
                match element(stripped) {
                    Some((r, a)) => {
                        out.push(a);
                        rem = r;
                    }
                    None => break,
                }
            } else {
                break;
            }
        }
        (rem, out)
    }

    assert_eq!(
        parser("   @ABC  \n  @DEF "),
        (
            String::from(""),
            vec![
                Annotation {
                    name: "ABC".to_string(),
                    value: None,
                },
                Annotation {
                    name: "DEF".to_string(),
                    value: None,
                },
            ]
        )
    );
}

#[test]
fn test_annotations() {
    let anno_str = r##"
            @some
            @some1("value")
            @some2("value", "value2")
        "##;

    assert_eq!(
        parse_annotations(anno_str).unwrap(),
        (
            String::from(""),
            vec![
                Annotation {
                    name: "some".to_string(),
                    value: None,
                },
                Annotation {
                    name: "some1".to_string(),
                    value: Some(vec![EsonLiteralSegment::Str("value".to_string())]),
                },
                Annotation {
                    name: "some2".to_string(),
                    value: Some(vec![
                        EsonLiteralSegment::Str("value".to_string()),
                        EsonLiteralSegment::Str("value2".to_string()),
                    ]),
                },
            ]
        )
    );
}

#[test]
fn test_annotation2() {
    assert_eq!(
        annotation("@DEF   ").unwrap(),
        (
            String::from(""),
            Annotation {
                name: "DEF".to_string(),
                value: None,
            }
        )
    );
}

#[test]
fn test_parse() {
    assert_eq!(
        annotation("@some").unwrap(),
        (
            String::from(""),
            Annotation {
                name: "some".to_string(),
                value: None,
            }
        )
    );
    assert_eq!(
        annotation("@some()").unwrap(),
        (
            String::from(""),
            Annotation {
                name: "some".to_string(),
                value: Some(vec![]),
            }
        )
    );
    assert_eq!(
        annotation("@some(1, 2, 3)").unwrap(),
        (
            String::from(""),
            Annotation {
                name: "some".to_string(),
                value: Some(vec![
                    EsonLiteralSegment::Int(1),
                    EsonLiteralSegment::Int(2),
                    EsonLiteralSegment::Int(3),
                ]),
            }
        )
    );
    assert_eq!(
        annotation("@some(1, 2, 3, 4)").unwrap(),
        (
            String::from(""),
            Annotation {
                name: "some".to_string(),
                value: Some(vec![
                    EsonLiteralSegment::Int(1),
                    EsonLiteralSegment::Int(2),
                    EsonLiteralSegment::Int(3),
                    EsonLiteralSegment::Int(4),
                ]),
            }
        )
    );
    assert_eq!(
        annotation(r#"@some("foo", "bar")"#).unwrap(),
        (
            String::from(""),
            Annotation {
                name: "some".to_string(),
                value: Some(vec![
                    EsonLiteralSegment::Str("foo".to_string()),
                    EsonLiteralSegment::Str("bar".to_string()),
                ]),
            }
        )
    );
}
