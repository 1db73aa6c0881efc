use eson::{parse_literal_number, EsonLiteralSegment, FloatLit};

#[test]
fn numeric_test() {
    assert_eq!(
        parse_literal_number("0b1010").unwrap(),
        (String::from(""), EsonLiteralSegment::Int(10))
    );
    assert_eq!(
        parse_literal_number("0o777").unwrap(),
        (String::from(""), EsonLiteralSegment::Int(511))
    );
    assert_eq!(
        parse_literal_number("0x123").unwrap(),
        (String::from(""), EsonLiteralSegment::Int(291))
    );
    assert_eq!(
        parse_literal_number("123.456").unwrap(),
        (
            String::from(""),
            EsonLiteralSegment::Float(FloatLit::Dec("123.456".to_string()))
        )
    );
    assert_eq!(
        parse_literal_number("123.456e-10").unwrap(),
        (
            String::from(""),
            EsonLiteralSegment::Float(FloatLit::Dec("123.456e-10".to_string()))
        )
    );
    assert_eq!(
        parse_literal_number("123.456e+10").unwrap(),
        (
            String::from(""),
            EsonLiteralSegment::Float(FloatLit::Dec("123.456e+10".to_string()))
        )
    );
    assert_eq!(
        parse_literal_number("123.456e10").unwrap(),
        (
            String::from(""),
            EsonLiteralSegment::Float(FloatLit::Dec("123.456e+10".to_string()))
        )
    );
    assert_eq!(
        parse_literal_number("123").unwrap(),
        (String::from(""), EsonLiteralSegment::Int(123))
    );

    // the kept literals read back to the values the source wrote
    fn float_of(r: (String, EsonLiteralSegment)) -> f64 {
        match r.1 {
            EsonLiteralSegment::Float(FloatLit::Dec(t)) => t.parse::<f64>().unwrap(),
            other => panic!("expected a float, got {:?}", other),
        }
    }
    assert_eq!(float_of(parse_literal_number("123.456").unwrap()), 123.456);
    assert_eq!(
        float_of(parse_literal_number("123.456e-10").unwrap()),
        0.0000000123456
    );
    assert_eq!(
        float_of(parse_literal_number("123.456e+10").unwrap()),
        1234560000000.0
    );
    assert_eq!(
        float_of(parse_literal_number("123.456e10").unwrap()),
        1234560000000.0
    );
}
