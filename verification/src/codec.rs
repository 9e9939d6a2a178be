//! Reading and writing structured values as JSON text.

use vstd::prelude::*;
use crate::optional::view_of;
use crate::value::{Json, Value};

verus! {

/// The values of the `json` crate, which pass through `lift` and `lower`
/// without being looked into.
#[verifier::external_type_specification]
#[verifier::external_body]
pub struct ExJsonValue(json::JsonValue);

/// What the JSON parser makes of a text: a value, or nothing where the text
/// is no JSON document.
pub uninterp spec fn parsed_json(text: Seq<char>) -> Option<Json>;

/// The text that the JSON printer writes for a value, indented by `spaces`.
pub uninterp spec fn pretty_json(value: Json, spaces: u16) -> Seq<char>;

/// Copies a `json::JsonValue` into a `Value`, variant by variant: a number
/// by `Number::as_parts`, a short and a long string alike as a text, the
/// entries of an object in the order of `Object::iter`. Nothing is claimed
/// of the result.
#[verifier::external_body]
fn lift(j: &json::JsonValue) -> Value {
    match j {
        json::JsonValue::Null => Value::Null,
        json::JsonValue::Boolean(b) => Value::Bool(*b),
        json::JsonValue::Number(n) => Value::Number(n.as_parts().0, n.as_parts().1, n.as_parts().2),
        json::JsonValue::Short(s) => Value::Text(s.as_str().to_string()),
        json::JsonValue::String(s) => Value::Text(s.clone()),
        json::JsonValue::Array(a) => Value::List(a.iter().map(lift).collect()),
        json::JsonValue::Object(o) => Value::Record(
            o.iter().map(|(k, v)| (k.to_string(), lift(v))).collect(),
        ),
    }
}

/// Copies a `Value` into a `json::JsonValue`, variant by variant: a number
/// by `Number::from_parts`, the entries of a record by `Object::from_iter`.
/// Nothing is claimed of the result.
#[verifier::external_body]
fn lower(v: &Value) -> json::JsonValue {
    match v {
        Value::Null => json::JsonValue::Null,
        Value::Bool(b) => json::JsonValue::Boolean(*b),
        Value::Number(p, m, e) => json::JsonValue::Number(json::number::Number::from_parts(*p, *m, *e)),
        Value::Text(s) => json::JsonValue::String(s.clone()),
        Value::List(a) => json::JsonValue::Array(a.iter().map(lower).collect()),
        Value::Record(o) => json::JsonValue::Object(
            o.iter().map(|(k, v)| (k.as_str(), lower(v))).collect(),
        ),
    }
}

/// The longest run of digits that a text may hold to be read.
pub const MAX_DIGIT_RUN: usize = 32767;

/// How deep lists and records may be nested in a value to be written.
pub const MAX_DEPTH: usize = 513;

/// The widest indentation that a value is written with.
pub const MAX_INDENT: u16 = 63;

/// Whether a byte is one of the digits `0` to `9`.
pub open spec fn is_digit(byte: u8) -> bool {
    0x30 <= byte <= 0x39
}

/// How many digits stand in a row just before the place `n`.
pub open spec fn digit_run(bytes: Seq<u8>, n: int) -> nat
    decreases n,
{
    if n <= 0 || n > bytes.len() {
        0
    } else if is_digit(bytes[n - 1]) {
        digit_run(bytes, n - 1) + 1
    } else {
        0
    }
}

/// Whether no run of digits is longer than `MAX_DIGIT_RUN`.
pub open spec fn digits_fit(bytes: Seq<u8>) -> bool {
    forall|n: int| 0 <= n <= bytes.len() ==> #[trigger] digit_run(bytes, n) <= MAX_DIGIT_RUN
}

/// Whether a text can be handed to the JSON parser: in its bytes no run of
/// digits is longer than `MAX_DIGIT_RUN`.
pub open spec fn readable(text: Seq<char>) -> bool {
    digits_fit(vstd::utf8::encode_utf8(text))
}

/// The value that a text holds: what the JSON parser makes of it, where it
/// can be handed to the parser.
pub open spec fn decoded(text: Seq<char>) -> Option<Json> {
    if readable(text) {
        parsed_json(text)
    } else {
        None
    }
}

/// The text of a value: what the JSON printer writes for it with four
/// spaces of indentation, where the value is nested at most `MAX_DEPTH`
/// deep.
pub open spec fn encoded(value: Json) -> Option<Seq<char>> {
    if value.nests_within(MAX_DEPTH as nat) {
        Some(pretty_json(value, 4))
    } else {
        None
    }
}

/// Calls `json::parse` and copies what it gives into a `Value` with `lift`.
/// Trusted: that the outcome depends on the text alone. Long runs of digits
/// are left out because the parser counts the digits of a fraction in 16
/// bits.
#[verifier::external_body]
fn parse_text(text: &str) -> (r: Option<Value>)
    requires
        readable(text@),
    ensures
        match r {
            Some(v) => parsed_json(text@) == Some(v@),
            None => parsed_json(text@).is_none(),
        },
{
    match json::parse(text) {
        Ok(j) => Some(lift(&j)),
        Err(_) => None,
    }
}

/// Copies a `Value` into a `json::JsonValue` with `lower` and calls
/// `json::JsonValue::pretty` on it. Trusted: that the outcome depends on
/// the content of the value and the indentation alone. Depth and
/// indentation are bounded because the printer counts the spaces of a line
/// in 16 bits.
#[verifier::external_body]
fn pretty_text(value: &Value, spaces: u16) -> (r: String)
    requires
        value@.nests_within(MAX_DEPTH as nat),
        spaces <= MAX_INDENT,
    ensures
        r@ == pretty_json(value@, spaces),
{
    lower(value).pretty(spaces)
}

/// Whether no run of digits in a text is longer than `MAX_DIGIT_RUN`.
pub fn is_readable(text: &str) -> (b: bool)
    ensures
        b == readable(text@),
{
    let bytes = text.as_bytes();
    let mut run: usize = 0;
    let mut i: usize = 0;
    while i < bytes.len()
        invariant
            i <= bytes.len(),
            bytes@ == vstd::utf8::encode_utf8(text@),
            run == digit_run(bytes@, i as int),
            run <= MAX_DIGIT_RUN,
            forall|n: int| 0 <= n <= i ==> #[trigger] digit_run(bytes@, n) <= MAX_DIGIT_RUN,
        decreases bytes.len() - i,
    {
        if 0x30 <= bytes[i] && bytes[i] <= 0x39 {
            if run == MAX_DIGIT_RUN {
                assert(digit_run(bytes@, i + 1) > MAX_DIGIT_RUN);
                return false;
            }
            run = run + 1;
        } else {
            run = 0;
        }
        i = i + 1;
    }
    true
}

/// Reads a JSON document. A text with a run of more than `MAX_DIGIT_RUN`
/// digits is not read.
pub fn decode(text: &str) -> (r: Option<Value>)
    ensures
        view_of(r) == decoded(text@),
{
    if is_readable(text) {
        parse_text(text)
    } else {
        None
    }
}

/// Writes a value as JSON text, indented by four spaces. A value that is
/// nested more than `MAX_DEPTH` deep is not written.
pub fn encode(value: &Value) -> (r: Option<String>)
    ensures
        view_of(r) == encoded(value@),
{
    if value.nests_within(MAX_DEPTH) {
        Some(pretty_text(value, 4))
    } else {
        None
    }
}

} // verus!
