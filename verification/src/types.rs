use vstd::prelude::*;
use crate::ast::FloatLit;

verus! {

/// A value in plain JSON shape, as the wrapper types below hand it over:
/// the tree without annotations or expressions.
#[derive(Debug, PartialEq)]
pub enum JsonValue {
    Null,
    Str(String),
    Boolean(bool),
    Int(i64),
    Float(FloatLit),
    Array(Vec<JsonValue>),
}

/// A plain integer, convertible to and from the value tree.
#[derive(Debug)]
pub struct JsonInt(pub i64);

/// A plain string, convertible to and from the value tree.
#[derive(Debug)]
pub struct JsonString(pub String);

/// A plain boolean, convertible to and from the value tree.
#[derive(Debug)]
pub struct JsonBool(pub bool);

/// The null value, convertible to and from the value tree.
#[derive(Debug)]
pub struct JsonNull;

/// A plain array, convertible to and from the value tree.
#[derive(Debug)]
pub struct JsonArray(pub Vec<JsonValue>);

impl From<JsonInt> for JsonValue {
    fn from(i: JsonInt) -> (r: JsonValue) {
        JsonValue::Int(i.0)
    }
}

impl vstd::std_specs::convert::FromSpecImpl<JsonInt> for JsonValue {
    open spec fn obeys_from_spec() -> bool {
        true
    }

    open spec fn from_spec(i: JsonInt) -> Self {
        JsonValue::Int(i.0)
    }
}

impl From<JsonInt> for i64 {
    fn from(i: JsonInt) -> (r: i64) {
        i.0
    }
}

impl vstd::std_specs::convert::FromSpecImpl<JsonInt> for i64 {
    open spec fn obeys_from_spec() -> bool {
        true
    }

    open spec fn from_spec(i: JsonInt) -> Self {
        i.0
    }
}

impl From<JsonString> for JsonValue {
    fn from(s: JsonString) -> (r: JsonValue) {
        JsonValue::Str(s.0)
    }
}

impl vstd::std_specs::convert::FromSpecImpl<JsonString> for JsonValue {
    open spec fn obeys_from_spec() -> bool {
        true
    }

    open spec fn from_spec(s: JsonString) -> Self {
        JsonValue::Str(s.0)
    }
}

impl From<JsonString> for String {
    fn from(s: JsonString) -> (r: String) {
        s.0
    }
}

impl vstd::std_specs::convert::FromSpecImpl<JsonString> for String {
    open spec fn obeys_from_spec() -> bool {
        true
    }

    open spec fn from_spec(s: JsonString) -> Self {
        s.0
    }
}

impl From<JsonBool> for JsonValue {
    fn from(b: JsonBool) -> (r: JsonValue) {
        JsonValue::Boolean(b.0)
    }
}

impl vstd::std_specs::convert::FromSpecImpl<JsonBool> for JsonValue {
    open spec fn obeys_from_spec() -> bool {
        true
    }

    open spec fn from_spec(b: JsonBool) -> Self {
        JsonValue::Boolean(b.0)
    }
}

impl From<JsonBool> for bool {
    fn from(b: JsonBool) -> (r: bool) {
        b.0
    }
}

impl vstd::std_specs::convert::FromSpecImpl<JsonBool> for bool {
    open spec fn obeys_from_spec() -> bool {
        true
    }

    open spec fn from_spec(b: JsonBool) -> Self {
        b.0
    }
}

impl From<JsonNull> for JsonValue {
    fn from(n: JsonNull) -> (r: JsonValue) {
        JsonValue::Null
    }
}

impl vstd::std_specs::convert::FromSpecImpl<JsonNull> for JsonValue {
    open spec fn obeys_from_spec() -> bool {
        true
    }

    open spec fn from_spec(n: JsonNull) -> Self {
        JsonValue::Null
    }
}

impl From<JsonNull> for () {
    fn from(n: JsonNull) -> (r: ()) {
        ()
    }
}

impl vstd::std_specs::convert::FromSpecImpl<JsonNull> for () {
    open spec fn obeys_from_spec() -> bool {
        true
    }

    open spec fn from_spec(n: JsonNull) -> Self {
        ()
    }
}

impl From<JsonArray> for JsonValue {
    fn from(a: JsonArray) -> (r: JsonValue) {
        JsonValue::Array(a.0)
    }
}

impl vstd::std_specs::convert::FromSpecImpl<JsonArray> for JsonValue {
    open spec fn obeys_from_spec() -> bool {
        true
    }

    open spec fn from_spec(a: JsonArray) -> Self {
        JsonValue::Array(a.0)
    }
}

impl From<JsonArray> for Vec<JsonValue> {
    fn from(a: JsonArray) -> (r: Vec<JsonValue>) {
        a.0
    }
}

impl vstd::std_specs::convert::FromSpecImpl<JsonArray> for Vec<JsonValue> {
    open spec fn obeys_from_spec() -> bool {
        true
    }

    open spec fn from_spec(a: JsonArray) -> Self {
        a.0
    }
}

} // verus!
