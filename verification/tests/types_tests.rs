use eson::{JsonArray, JsonBool, JsonInt, JsonNull, JsonString, JsonValue};

#[test]
fn reg() {}

#[test]
fn test_array() {
    let a = JsonArray(vec![
        JsonValue::Int(1),
        JsonValue::Int(2),
        JsonValue::Int(3),
    ]);
    let aa: Vec<JsonValue> = a.into();
    assert_eq!(
        aa,
        vec![JsonValue::Int(1), JsonValue::Int(2), JsonValue::Int(3)]
    );

    let a = JsonArray(vec![
        JsonValue::Int(1),
        JsonValue::Int(2),
        JsonValue::Int(3),
    ]);
    let aa: JsonValue = a.into();
    assert_eq!(
        aa,
        JsonValue::Array(vec![
            JsonValue::Int(1),
            JsonValue::Int(2),
            JsonValue::Int(3),
        ])
    );

    let a = JsonArray(vec![
        JsonValue::Int(1),
        JsonValue::Int(2),
        JsonValue::Int(3),
    ]);
    let aa = JsonValue::Array(vec![
        JsonValue::Int(1),
        JsonValue::Int(2),
        JsonValue::Int(3),
    ]);
    assert_eq!(aa, a.into());
}

#[test]
fn lib_test_null() {
    let n = JsonNull;
    let nn: JsonValue = n.into();
    assert_eq!(nn, JsonValue::Null);

    let n = JsonNull;
    let nn: () = n.into();
    assert_eq!(nn, ());

    let n = JsonNull;
    let nn = ();
    assert_eq!(nn, n.into());
}

#[test]
fn lib_test_string() {
    let s = JsonString("hello".to_string());
    let ss: String = s.into();
    assert_eq!(ss, "hello");

    let s = JsonString("hello".to_string());
    let ss: JsonValue = s.into();
    assert_eq!(ss, JsonValue::Str("hello".to_string()));

    let s = JsonString("hello".to_string());
    let ss = JsonValue::Str("hello".to_string());
    assert_eq!(ss, s.into());
}

#[test]
fn test_bool() {
    let b = JsonBool(true);
    let bb: bool = b.into();
    assert_eq!(bb, true);

    let b = JsonBool(true);
    let bb: JsonValue = b.into();
    assert_eq!(bb, JsonValue::Boolean(true));

    let b = JsonBool(true);
    let bb = JsonValue::Boolean(true);
    assert_eq!(bb, b.into());
}

fn test_add(a: i64, b: i64) -> i64 {
    a + b
}

#[test]
fn test2() {
    let a = JsonInt(1);
    let b = JsonInt(2);
    let c = test_add(a.into(), b.into());
    assert_eq!(c, 3);
}
