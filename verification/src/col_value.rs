//! The closed set of typed cell values a row mutation can carry, and its
//! two JSON renderings (the generic encoder's and the vendor template's).
//!
//! Floating-point cells are carried as their decimal rendering, and a
//! Mongo document as its extended-JSON text: the encoders only read those
//! texts.

use vstd::prelude::*;

use base64::Engine;

use vstd::string::StringExecFns;

use crate::json_value::{
    dec_digits, int_text, json_escaped, json_text, parse_json, parse_json_bytes,
    parsed_json_bytes_of, parsed_json_of, JsonVal,
};

verus! {

/// Result of base64-encoding these bytes with the standard alphabet; a
/// function of the bytes alone.
pub uninterp spec fn base64_of(b: Seq<u8>) -> Seq<char>;

/// Result of decoding these bytes as UTF-8 with lossy replacement; a
/// function of the bytes alone.
pub uninterp spec fn utf8_lossy_of(b: Seq<u8>) -> Seq<char>;

#[derive(Clone, Debug, PartialEq)]
pub enum ColValue {
    Null,
    Bool(bool),
    Tiny(i8),
    UnsignedTiny(u8),
    Short(i16),
    UnsignedShort(u16),
    Long(i32),
    UnsignedLong(u32),
    LongLong(i64),
    UnsignedLongLong(u64),
    Float(String),
    Double(String),
    Decimal(String),
    Time(String),
    Date(String),
    DateTime(String),
    Timestamp(String),
    Year(i16),
    Str(String),
    RawString(Vec<u8>),
    Blob(Vec<u8>),
    Bit(u64),
    SetBits(u64),
    Set2(String),
    Enum(u32),
    Enum2(String),
    Json(Vec<u8>),
    Json2(String),
    Json3(JsonVal),
    MongoDoc(String),
}

/// A JSON string literal holding `s`.
pub open spec fn str_lit_text(s: Seq<char>) -> Seq<char> {
    seq!['"'] + json_escaped(s) + seq!['"']
}

/// Is this the decimal rendering of a non-finite floating-point value?
pub open spec fn nonfinite_text(s: Seq<char>) -> bool {
    s == "NaN"@ || s == "inf"@ || s == "-inf"@
}

/// The generic JSON rendering of a cell (§ column-value encoding):
/// numbers as JSON numbers, temporal and textual values as strings,
/// binary as base64, JSON cells parsed when valid, Mongo documents as
/// null.
pub open spec fn col_value_json_text(v: ColValue) -> Seq<char> {
    match v {
        ColValue::Null => "null"@,
        ColValue::Bool(b) => if b {
            "true"@
        } else {
            "false"@
        },
        ColValue::Tiny(x) => int_text(x as int),
        ColValue::UnsignedTiny(x) => dec_digits(x as int),
        ColValue::Short(x) => int_text(x as int),
        ColValue::UnsignedShort(x) => dec_digits(x as int),
        ColValue::Long(x) => int_text(x as int),
        ColValue::UnsignedLong(x) => dec_digits(x as int),
        ColValue::LongLong(x) => int_text(x as int),
        ColValue::UnsignedLongLong(x) => dec_digits(x as int),
        ColValue::Float(s) => if nonfinite_text(s@) {
            str_lit_text(s@)
        } else {
            s@
        },
        ColValue::Double(s) => if nonfinite_text(s@) {
            str_lit_text(s@)
        } else {
            s@
        },
        ColValue::Decimal(s) => str_lit_text(s@),
        ColValue::Time(s) => str_lit_text(s@),
        ColValue::Date(s) => str_lit_text(s@),
        ColValue::DateTime(s) => str_lit_text(s@),
        ColValue::Timestamp(s) => str_lit_text(s@),
        ColValue::Year(x) => int_text(x as int),
        ColValue::Str(s) => str_lit_text(s@),
        ColValue::RawString(b) => str_lit_text(base64_of(b@)),
        ColValue::Blob(b) => str_lit_text(base64_of(b@)),
        ColValue::Bit(x) => dec_digits(x as int),
        ColValue::SetBits(x) => dec_digits(x as int),
        ColValue::Set2(s) => str_lit_text(s@),
        ColValue::Enum(x) => dec_digits(x as int),
        ColValue::Enum2(s) => str_lit_text(s@),
        ColValue::Json(b) => match parsed_json_bytes_of(b@) {
            Some(v) => json_text(v),
            None => str_lit_text(base64_of(b@)),
        },
        ColValue::Json2(s) => match parsed_json_of(s@) {
            Some(v) => json_text(v),
            None => str_lit_text(s@),
        },
        ColValue::Json3(v) => json_text(v),
        ColValue::MongoDoc(_) => "null"@,
    }
}

/// The vendor template's rendering: the same column-value encoding as
/// the generic one, except that a Mongo document keeps its extended-JSON
/// text as a string instead of becoming null.
pub open spec fn col_value_vendor_json_text(v: ColValue) -> Seq<char> {
    match v {
        ColValue::MongoDoc(s) => str_lit_text(s@),
        _ => col_value_json_text(v),
    }
}

/// The generic JSON value of a cell; its text is `col_value_json_text`.
pub fn col_value_to_json_value(value: &ColValue) -> (r: JsonVal)
    ensures
        json_text(r) == col_value_json_text(*value),
{
    match value {
        ColValue::Null => JsonVal::Null,
        ColValue::Bool(b) => JsonVal::Bool(*b),
        ColValue::Tiny(x) => JsonVal::Int(*x as i64),
        ColValue::UnsignedTiny(x) => JsonVal::Uint(*x as u64),
        ColValue::Short(x) => JsonVal::Int(*x as i64),
        ColValue::UnsignedShort(x) => JsonVal::Uint(*x as u64),
        ColValue::Long(x) => JsonVal::Int(*x as i64),
        ColValue::UnsignedLong(x) => JsonVal::Uint(*x as u64),
        ColValue::LongLong(x) => JsonVal::Int(*x),
        ColValue::UnsignedLongLong(x) => JsonVal::Uint(*x),
        ColValue::Float(s) => {
            if is_nonfinite_text(s) {
                JsonVal::Str(s.clone())
            } else {
                JsonVal::NumText(s.clone())
            }
        }
        ColValue::Double(s) => {
            if is_nonfinite_text(s) {
                JsonVal::Str(s.clone())
            } else {
                JsonVal::NumText(s.clone())
            }
        }
        ColValue::Decimal(s) => JsonVal::Str(s.clone()),
        ColValue::Time(s) => JsonVal::Str(s.clone()),
        ColValue::Date(s) => JsonVal::Str(s.clone()),
        ColValue::DateTime(s) => JsonVal::Str(s.clone()),
        ColValue::Timestamp(s) => JsonVal::Str(s.clone()),
        ColValue::Year(x) => JsonVal::Int(*x as i64),
        ColValue::Str(s) => JsonVal::Str(s.clone()),
        ColValue::RawString(b) => JsonVal::Str(base64_encode(b.as_slice())),
        ColValue::Blob(b) => JsonVal::Str(base64_encode(b.as_slice())),
        ColValue::Bit(x) => JsonVal::Uint(*x),
        ColValue::SetBits(x) => JsonVal::Uint(*x),
        ColValue::Set2(s) => JsonVal::Str(s.clone()),
        ColValue::Enum(x) => JsonVal::Uint(*x as u64),
        ColValue::Enum2(s) => JsonVal::Str(s.clone()),
        ColValue::Json(b) => {
            match parse_json_bytes(b.as_slice()) {
                Some(v) => v,
                None => JsonVal::Str(base64_encode(b.as_slice())),
            }
        }
        ColValue::Json2(s) => {
            match parse_json(s.as_str()) {
                Some(v) => v,
                None => JsonVal::Str(s.clone()),
            }
        }
        ColValue::Json3(v) => v.clone(),
        ColValue::MongoDoc(_) => JsonVal::Null,
    }
}

/// The vendor template's JSON value of a cell; its text is
/// `col_value_vendor_json_text`.
pub fn col_value_to_vendor_json_value(value: &ColValue) -> (r: JsonVal)
    ensures
        json_text(r) == col_value_vendor_json_text(*value),
{
    match value {
        ColValue::MongoDoc(s) => JsonVal::Str(s.clone()),
        other => col_value_to_json_value(other),
    }
}

fn is_nonfinite_text(s: &String) -> (r: bool)
    ensures
        r == nonfinite_text(s@),
{
    let nan = String::from_str("NaN");
    let inf = String::from_str("inf");
    let neg_inf = String::from_str("-inf");
    s.eq(&nan) || s.eq(&inf) || s.eq(&neg_inf)
}

/// Relies on base64's standard engine: RFC 4648 base64 with padding; the
/// result depends on the bytes alone, four characters per three bytes.
#[verifier::external_body]
pub fn base64_encode(b: &[u8]) -> (r: String)
    ensures
        r@ == base64_of(b@),
        r@.len() == 4 * ((b@.len() + 2) / 3),
{
    base64::engine::general_purpose::STANDARD.encode(b)
}

/// Relies on String::from_utf8_lossy: decodes UTF-8, replacing invalid
/// sequences; the result depends on the bytes alone, and all-ASCII input
/// is mapped to its own characters.
#[verifier::external_body]
pub fn utf8_lossy(b: &[u8]) -> (r: String)
    ensures
        r@ == utf8_lossy_of(b@),
        (forall|i: int| 0 <= i < b@.len() ==> #[trigger] b@[i] < 128) ==> r@ == b@.map_values(
            |x: u8| x as char,
        ),
{
    String::from_utf8_lossy(b).to_string()
}

} // verus!
