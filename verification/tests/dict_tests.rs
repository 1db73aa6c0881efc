use eson::{key, parse_dict, Annotation, Dict, EsonLiteralSegment, EsonSegment, Key};

#[test]
fn test_key() {
    assert_eq!(
        key("foo").unwrap(),
        (
            String::from(""),
            Key {
                name: String::from("foo"),
                annotation: None,
            }
        )
    );
    assert_eq!(
        key("@bar \n foo").unwrap(),
        (
            String::from(""),
            Key {
                name: String::from("foo"),
                annotation: Some(vec![Annotation {
                    name: String::from("bar"),
                    value: None,
                }]),
            }
        )
    );
    assert_eq!(
        key("@bar()\nfoo").unwrap(),
        (
            String::from(""),
            Key {
                name: String::from("foo"),
                annotation: Some(vec![Annotation {
                    name: String::from("bar"),
                    value: Some(vec![]),
                }]),
            }
        )
    );
    assert_eq!(
        key("@bar(1)\nfoo").unwrap(),
        (
            String::from(""),
            Key {
                name: String::from("foo"),
                annotation: Some(vec![Annotation {
                    name: String::from("bar"),
                    value: Some(vec![EsonLiteralSegment::Int(1)]),
                }]),
            }
        )
    );
    assert_eq!(
        key(" @bar(1, 2)    foo").unwrap(),
        (
            String::from(""),
            Key {
                name: String::from("foo"),
                annotation: Some(vec![Annotation {
                    name: String::from("bar"),
                    value: Some(vec![
                        EsonLiteralSegment::Int(1),
                        EsonLiteralSegment::Int(2)
                    ]),
                }]),
            }
        )
    );
    assert_eq!(
        key("@bar(1, 2, 3) \t\nfoo").unwrap(),
        (
            String::from(""),
            Key {
                name: String::from("foo"),
                annotation: Some(vec![Annotation {
                    name: String::from("bar"),
                    value: Some(vec![
                        EsonLiteralSegment::Int(1),
                        EsonLiteralSegment::Int(2),
                        EsonLiteralSegment::Int(3),
                    ]),
                }]),
            }
        )
    );
}

#[test]
fn test_parse_dict() {
    assert_eq!(
        parse_dict("{}").unwrap(),
        (String::from(""), Dict { entries: vec![] })
    );
    assert_eq!(
        parse_dict("{foo: 1}").unwrap(),
        (
            String::from(""),
            Dict {
                entries: vec![(
                    Key {
                        name: String::from("foo"),
                        annotation: None,
                    },
                    EsonSegment::Int(1)
                )],
            }
        )
    );
    assert_eq!(
        parse_dict("{foo: 1, bar: 2}").unwrap(),
        (
            String::from(""),
            Dict {
                entries: vec![
                    (
                        Key {
                            name: String::from("foo"),
                            annotation: None,
                        },
                        EsonSegment::Int(1)
                    ),
                    (
                        Key {
                            name: String::from("bar"),
                            annotation: None,
                        },
                        EsonSegment::Int(2)
                    ),
                ],
            }
        )
    );
    assert_eq!(
        parse_dict("{foo: 1, bar: 2,}").unwrap(),
        (
            String::from(""),
            Dict {
                entries: vec![
                    (
                        Key {
                            name: String::from("foo"),
                            annotation: None,
                        },
                        EsonSegment::Int(1)
                    ),
                    (
                        Key {
                            name: String::from("bar"),
                            annotation: None,
                        },
                        EsonSegment::Int(2)
                    ),
                ],
            }
        )
    );
}
