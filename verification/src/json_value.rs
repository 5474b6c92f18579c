//! A closed JSON value model and its serializer. Encoders build these
//! trees and render them; the exact text is pinned down by `json_text`.
//! Parsing is delegated to serde_json behind a trusted wrapper.

use vstd::prelude::*;
use vstd::string::StringExecFns;

use crate::chars::chars_to_string;

verus! {

/// A JSON document: object fields keep insertion order. `NumText` is a
/// number already rendered as text (floating-point and other values the
/// model does not carry natively).
#[derive(Debug, PartialEq)]
pub enum JsonVal {
    Null,
    Bool(bool),
    Int(i64),
    Uint(u64),
    NumText(String),
    Str(String),
    Arr(Vec<JsonVal>),
    Obj(Vec<(String, JsonVal)>),
}

impl Clone for JsonVal {
    /// A copy that serializes to exactly the same text.
    fn clone(&self) -> (r: Self)
        ensures
            json_text(r) == json_text(*self),
        decreases *self,
    {
        match self {
            JsonVal::Null => JsonVal::Null,
            JsonVal::Bool(b) => JsonVal::Bool(*b),
            JsonVal::Int(i) => JsonVal::Int(*i),
            JsonVal::Uint(u) => JsonVal::Uint(*u),
            JsonVal::NumText(s) => JsonVal::NumText(s.clone()),
            JsonVal::Str(s) => JsonVal::Str(s.clone()),
            JsonVal::Arr(items) => {
                let mut out: Vec<JsonVal> = Vec::new();
                let mut i: usize = 0;
                while i < items.len()
                    invariant
                        i <= items@.len(),
                        *self == JsonVal::Arr(*items),
                        out@.len() == i,
                        forall|k: int|
                            0 <= k < i ==> json_text(#[trigger] out@[k]) == json_text(items@[k]),
                    decreases items@.len() - i,
                {
                    proof {
                        assert(decreases_to!(*self => self->Arr_0));
                        assert(decreases_to!(*items => items@[i as int]));
                    }
                    out.push(items[i].clone());
                    i = i + 1;
                }
                proof {
                    lemma_arr_text_congruent(out@, items@);
                }
                JsonVal::Arr(out)
            }
            JsonVal::Obj(fields) => {
                let mut out: Vec<(String, JsonVal)> = Vec::new();
                let mut i: usize = 0;
                while i < fields.len()
                    invariant
                        i <= fields@.len(),
                        *self == JsonVal::Obj(*fields),
                        out@.len() == i,
                        forall|k: int|
                            0 <= k < i ==> (#[trigger] out@[k]).0@ == fields@[k].0@ && json_text(
                                out@[k].1,
                            ) == json_text(fields@[k].1),
                    decreases fields@.len() - i,
                {
                    proof {
                        assert(decreases_to!(*self => self->Obj_0));
                        assert(decreases_to!(*fields => fields@[i as int]));
                        assert(decreases_to!(fields@[i as int] => fields@[i as int].1));
                    }
                    out.push((fields[i].0.clone(), fields[i].1.clone()));
                    i = i + 1;
                }
                proof {
                    lemma_obj_text_congruent(out@, fields@);
                }
                JsonVal::Obj(out)
            }
        }
    }
}

/// Arrays whose items serialize alike serialize alike.
proof fn lemma_arr_text_congruent(a: Seq<JsonVal>, b: Seq<JsonVal>)
    requires
        a.len() == b.len(),
        forall|k: int| 0 <= k < a.len() ==> json_text(#[trigger] a[k]) == json_text(b[k]),
    ensures
        arr_text(a) == arr_text(b),
    decreases a.len(),
{
    if a.len() > 1 {
        assert(forall|k: int|
            0 <= k < a.drop_first().len() ==> json_text(#[trigger] a.drop_first()[k])
                == json_text(b.drop_first()[k])) by {
            assert(forall|k: int|
                0 <= k < a.drop_first().len() ==> #[trigger] a.drop_first()[k] == a[k + 1]
                    && b.drop_first()[k] == b[k + 1]);
        }
        lemma_arr_text_congruent(a.drop_first(), b.drop_first());
    }
}

/// Objects with equal keys whose values serialize alike serialize alike.
proof fn lemma_obj_text_congruent(a: Seq<(String, JsonVal)>, b: Seq<(String, JsonVal)>)
    requires
        a.len() == b.len(),
        forall|k: int|
            0 <= k < a.len() ==> (#[trigger] a[k]).0@ == b[k].0@ && json_text(a[k].1) == json_text(
                b[k].1,
            ),
    ensures
        obj_text(a) == obj_text(b),
    decreases a.len(),
{
    if a.len() > 1 {
        assert(forall|k: int|
            0 <= k < a.drop_first().len() ==> (#[trigger] a.drop_first()[k]).0@
                == b.drop_first()[k].0@ && json_text(a.drop_first()[k].1) == json_text(
                b.drop_first()[k].1,
            )) by {
            assert(forall|k: int|
                0 <= k < a.drop_first().len() ==> #[trigger] a.drop_first()[k] == a[k + 1]
                    && b.drop_first()[k] == b[k + 1]);
        }
        lemma_obj_text_congruent(a.drop_first(), b.drop_first());
    }
}

/// The decimal digit character for `0 <= n <= 9`.
pub open spec fn digit_char_spec(n: int) -> char {
    if n == 0 {
        '0'
    } else if n == 1 {
        '1'
    } else if n == 2 {
        '2'
    } else if n == 3 {
        '3'
    } else if n == 4 {
        '4'
    } else if n == 5 {
        '5'
    } else if n == 6 {
        '6'
    } else if n == 7 {
        '7'
    } else if n == 8 {
        '8'
    } else {
        '9'
    }
}

/// The decimal digits of a non-negative integer, most significant first.
pub open spec fn dec_digits(n: int) -> Seq<char>
    decreases n,
{
    if n < 0 {
        Seq::<char>::empty()
    } else if n < 10 {
        seq![digit_char_spec(n)]
    } else {
        dec_digits(n / 10).push(digit_char_spec(n % 10))
    }
}

/// The decimal rendering of a signed integer.
pub open spec fn int_text(n: int) -> Seq<char> {
    if n < 0 {
        seq!['-'] + dec_digits(-n)
    } else {
        dec_digits(n)
    }
}

/// The hexadecimal digit character for `0 <= n <= 15`.
pub open spec fn hex_char_spec(n: int) -> char {
    if n < 10 {
        digit_char_spec(n)
    } else if n == 10 {
        'a'
    } else if n == 11 {
        'b'
    } else if n == 12 {
        'c'
    } else if n == 13 {
        'd'
    } else if n == 14 {
        'e'
    } else {
        'f'
    }
}

/// How one character is written inside a JSON string literal.
pub open spec fn escape_char_spec(c: char) -> Seq<char> {
    if c == '"' {
        seq!['\\', '"']
    } else if c == '\\' {
        seq!['\\', '\\']
    } else if c == '\u{8}' {
        seq!['\\', 'b']
    } else if c == '\u{c}' {
        seq!['\\', 'f']
    } else if c == '\n' {
        seq!['\\', 'n']
    } else if c == '\r' {
        seq!['\\', 'r']
    } else if c == '\t' {
        seq!['\\', 't']
    } else if (c as u32) < 32 {
        seq!['\\', 'u', '0', '0', hex_char_spec((c as u32) as int / 16), hex_char_spec(
            (c as u32) as int % 16,
        )]
    } else {
        seq![c]
    }
}

/// The body of a JSON string literal: each character escaped.
pub open spec fn json_escaped(s: Seq<char>) -> Seq<char>
    decreases s.len(),
{
    if s.len() == 0 {
        Seq::<char>::empty()
    } else {
        escape_char_spec(s[0]) + json_escaped(s.drop_first())
    }
}

/// The serialized text of a JSON value: no insignificant whitespace,
/// object fields in their stored order.
pub open spec fn json_text(v: JsonVal) -> Seq<char>
    decreases v,
{
    match v {
        JsonVal::Null => "null"@,
        JsonVal::Bool(b) => if b {
            "true"@
        } else {
            "false"@
        },
        JsonVal::Int(i) => int_text(i as int),
        JsonVal::Uint(u) => dec_digits(u as int),
        JsonVal::NumText(s) => s@,
        JsonVal::Str(s) => seq!['"'] + json_escaped(s@) + seq!['"'],
        JsonVal::Arr(items) => seq!['['] + arr_text(items@) + seq![']'],
        JsonVal::Obj(fields) => seq!['{'] + obj_text(fields@) + seq!['}'],
    }
}

/// The comma-separated serialization of array items.
pub open spec fn arr_text(items: Seq<JsonVal>) -> Seq<char>
    decreases items,
{
    if items.len() == 0 {
        Seq::<char>::empty()
    } else if items.len() == 1 {
        json_text(items[0])
    } else {
        json_text(items[0]) + seq![','] + arr_text(items.drop_first())
    }
}

/// The comma-separated serialization of object fields.
pub open spec fn obj_text(fields: Seq<(String, JsonVal)>) -> Seq<char>
    decreases fields,
{
    if fields.len() == 0 {
        Seq::<char>::empty()
    } else {
        let f = seq!['"'] + json_escaped(fields[0].0@) + seq!['"', ':'] + json_text(fields[0].1);
        if fields.len() == 1 {
            f
        } else {
            f + seq![','] + obj_text(fields.drop_first())
        }
    }
}

/// One serialized object field: quoted key, colon, value text.
pub open spec fn obj_field_text(name: Seq<char>, val_text: Seq<char>) -> Seq<char> {
    seq!['"'] + json_escaped(name) + seq!['"', ':'] + val_text
}

/// Appending an array item appends its text after a comma (or alone when
/// the array was empty).
pub proof fn lemma_arr_text_push(items: Seq<JsonVal>, x: JsonVal)
    ensures
        arr_text(items.push(x)) == if items.len() == 0 {
            json_text(x)
        } else {
            arr_text(items) + seq![','] + json_text(x)
        },
    decreases items.len(),
{
    if items.len() == 0 {
        assert(items.push(x)[0] == x);
    } else {
        lemma_arr_text_push(items.drop_first(), x);
        assert(items.push(x).drop_first() =~= items.drop_first().push(x));
        assert(items.push(x)[0] == items[0]);
        if items.len() == 1 {
            assert(arr_text(items.push(x)) == json_text(items[0]) + seq![','] + arr_text(
                items.drop_first().push(x),
            ));
            assert(arr_text(items.drop_first().push(x)) == json_text(x));
        } else {
            assert(arr_text(items) + seq![','] + json_text(x) =~= json_text(items[0]) + seq![',']
                + (arr_text(items.drop_first()) + seq![','] + json_text(x)));
        }
    }
}

/// Appending an object field appends its text after a comma (or alone
/// when the object was empty).
pub proof fn lemma_obj_text_push(fields: Seq<(String, JsonVal)>, x: (String, JsonVal))
    ensures
        obj_text(fields.push(x)) == if fields.len() == 0 {
            obj_field_text(x.0@, json_text(x.1))
        } else {
            obj_text(fields) + seq![','] + obj_field_text(x.0@, json_text(x.1))
        },
    decreases fields.len(),
{
    if fields.len() == 0 {
        assert(fields.push(x)[0] == x);
        assert(obj_text(fields.push(x)) =~= obj_field_text(x.0@, json_text(x.1)));
    } else {
        lemma_obj_text_push(fields.drop_first(), x);
        assert(fields.push(x).drop_first() =~= fields.drop_first().push(x));
        assert(fields.push(x)[0] == fields[0]);
        let f0 = seq!['"'] + json_escaped(fields[0].0@) + seq!['"', ':'] + json_text(fields[0].1);
        if fields.len() == 1 {
            assert(obj_text(fields.push(x)) == f0 + seq![','] + obj_text(
                fields.drop_first().push(x),
            ));
            assert(obj_text(fields.drop_first().push(x)) == obj_field_text(x.0@, json_text(x.1)));
        } else {
            assert(obj_text(fields) + seq![','] + obj_field_text(x.0@, json_text(x.1)) =~= f0
                + seq![','] + (obj_text(fields.drop_first()) + seq![','] + obj_field_text(
                x.0@,
                json_text(x.1),
            )));
        }
    }
}

fn digit_char(n: u64) -> (r: char)
    requires
        n < 10,
    ensures
        r == digit_char_spec(n as int),
{
    if n == 0 {
        '0'
    } else if n == 1 {
        '1'
    } else if n == 2 {
        '2'
    } else if n == 3 {
        '3'
    } else if n == 4 {
        '4'
    } else if n == 5 {
        '5'
    } else if n == 6 {
        '6'
    } else if n == 7 {
        '7'
    } else if n == 8 {
        '8'
    } else {
        '9'
    }
}

fn hex_char(n: u32) -> (r: char)
    requires
        n < 16,
    ensures
        r == hex_char_spec(n as int),
{
    if n < 10 {
        digit_char(n as u64)
    } else if n == 10 {
        'a'
    } else if n == 11 {
        'b'
    } else if n == 12 {
        'c'
    } else if n == 13 {
        'd'
    } else if n == 14 {
        'e'
    } else {
        'f'
    }
}

/// The decimal text of an unsigned integer.
pub fn u64_to_string(n: u64) -> (r: String)
    ensures
        r@ == dec_digits(n as int),
{
    let mut low_digits: Vec<char> = Vec::new();
    let mut m: u64 = n;
    proof {
        assert(low_digits@.reverse() =~= Seq::<char>::empty());
        assert(dec_digits(n as int) =~= dec_digits(m as int) + low_digits@.reverse());
    }
    while m >= 10
        invariant
            dec_digits(n as int) == dec_digits(m as int) + low_digits@.reverse(),
        decreases m,
    {
        let d = m % 10;
        let ghost prev = low_digits@;
        low_digits.push(digit_char(d));
        proof {
            assert(low_digits@.reverse() =~= seq![digit_char_spec(d as int)] + prev.reverse());
            assert(dec_digits(m as int) + prev.reverse() =~= dec_digits(m as int / 10) + (seq![
                digit_char_spec(m as int % 10),
            ] + prev.reverse()));
        }
        m = m / 10;
    }
    let mut out: Vec<char> = Vec::new();
    out.push(digit_char(m));
    let mut j: usize = 0;
    while j < low_digits.len()
        invariant
            j <= low_digits@.len(),
            out@.len() == 1 + j,
            out@[0] == digit_char_spec(m as int),
            forall|k: int|
                0 <= k < j ==> #[trigger] out@[1 + k] == low_digits@[low_digits@.len() - 1 - k],
    decreases low_digits@.len() - j,
    {
        out.push(low_digits[low_digits.len() - 1 - j]);
        j = j + 1;
    }
    proof {
        let target = seq![digit_char_spec(m as int)] + low_digits@.reverse();
        assert(out@.len() == target.len());
        assert forall|jj: int| 0 <= jj < out@.len() implies out@[jj] == target[jj] by {
            if jj > 0 {
                assert(out@[1 + (jj - 1)] == low_digits@[low_digits@.len() - 1 - (jj - 1)]);
            }
        }
        assert(out@ =~= target);
        assert(out@ =~= dec_digits(n as int));
    }
    chars_to_string(&out)
}

/// The decimal text of a signed integer.
pub fn i64_to_string(n: i64) -> (r: String)
    ensures
        r@ == int_text(n as int),
{
    if n >= 0 {
        u64_to_string(n as u64)
    } else {
        let mag: u64 = (-(n as i128)) as u64;
        proof {
            assert(mag as int == -(n as int));
        }
        let mut r = String::from_str("-");
        let digits = u64_to_string(mag);
        r.append(digits.as_str());
        proof {
            reveal_strlit("-");
            assert(r@ =~= int_text(n as int));
        }
        r
    }
}

/// The body of a JSON string literal for `s`.
fn escape_json_chars(s: &str) -> (r: String)
    ensures
        r@ == json_escaped(s@),
{
    let chars = crate::chars::str_to_chars(s);
    let mut out: Vec<char> = Vec::new();
    let mut i: usize = 0;
    proof {
        assert(s@.subrange(0, s@.len() as int) =~= s@);
        assert(json_escaped(s@) =~= out@ + json_escaped(s@));
    }
    while i < chars.len()
        invariant
            i <= chars@.len(),
            chars@ == s@,
            json_escaped(s@) == out@ + json_escaped(s@.subrange(i as int, s@.len() as int)),
        decreases chars@.len() - i,
    {
        let ghost rest = s@.subrange(i as int, s@.len() as int);
        let c = chars[i];
        proof {
            assert(rest[0] == c);
            assert(rest.drop_first() =~= s@.subrange(i + 1, s@.len() as int));
        }
        let ghost prev = out@;
        if c == '"' {
            out.push('\\');
            out.push('"');
        } else if c == '\\' {
            out.push('\\');
            out.push('\\');
        } else if c == '\u{8}' {
            out.push('\\');
            out.push('b');
        } else if c == '\u{c}' {
            out.push('\\');
            out.push('f');
        } else if c == '\n' {
            out.push('\\');
            out.push('n');
        } else if c == '\r' {
            out.push('\\');
            out.push('r');
        } else if c == '\t' {
            out.push('\\');
            out.push('t');
        } else if (c as u32) < 32 {
            out.push('\\');
            out.push('u');
            out.push('0');
            out.push('0');
            out.push(hex_char((c as u32) / 16));
            out.push(hex_char((c as u32) % 16));
        } else {
            out.push(c);
        }
        proof {
            assert(out@ =~= prev + escape_char_spec(c));
            assert(json_escaped(s@) == (prev + escape_char_spec(c)) + json_escaped(
                s@.subrange(i + 1, s@.len() as int),
            )) by {
                assert(escape_char_spec(c) + json_escaped(rest.drop_first()) == json_escaped(
                    rest,
                ));
                assert((prev + escape_char_spec(c)) + json_escaped(rest.drop_first()) =~= prev + (
                escape_char_spec(c) + json_escaped(rest.drop_first())));
            }
        }
        i = i + 1;
    }
    proof {
        assert(s@.subrange(s@.len() as int, s@.len() as int) =~= Seq::<char>::empty());
        assert(out@ =~= json_escaped(s@));
    }
    chars_to_string(&out)
}

impl JsonVal {
    /// Serialize the value; the result is exactly `json_text`.
    pub fn to_json_string(&self) -> (r: String)
        ensures
            r@ == json_text(*self),
        decreases *self,
    {
        match self {
            JsonVal::Null => String::from_str("null"),
            JsonVal::Bool(b) => {
                if *b {
                    String::from_str("true")
                } else {
                    String::from_str("false")
                }
            }
            JsonVal::Int(i) => i64_to_string(*i),
            JsonVal::Uint(u) => u64_to_string(*u),
            JsonVal::NumText(s) => s.clone(),
            JsonVal::Str(s) => {
                let mut r = String::new();
                r.push('"');
                let esc = escape_json_chars(s.as_str());
                r.append(esc.as_str());
                r.push('"');
                proof {
                    assert(r@ =~= json_text(*self));
                }
                r
            }
            JsonVal::Arr(items) => {
                let mut r = String::new();
                r.push('[');
                let mut i: usize = 0;
                proof {
                    assert(r@ =~= seq!['[']);
                    assert(items@.subrange(0, items@.len() as int) =~= items@);
                }
                while i < items.len()
                    invariant
                        i <= items@.len(),
                        *self == JsonVal::Arr(*items),
                        seq!['['] + arr_text(items@) == r@ + arr_text(
                            items@.subrange(i as int, items@.len() as int),
                        ),
                    decreases items@.len() - i,
                {
                    let ghost rest = items@.subrange(i as int, items@.len() as int);
                    proof {
                        assert(rest[0] == items@[i as int]);
                        assert(rest.drop_first() =~= items@.subrange(
                            i + 1,
                            items@.len() as int,
                        ));
                        assert(decreases_to!(*self => self->Arr_0));
                        assert(decreases_to!(*items => items@[i as int]));
                    }
                    let item_text = items[i].to_json_string();
                    let ghost prev = r@;
                    r.append(item_text.as_str());
                    if i < items.len() - 1 {
                        r.push(',');
                        proof {
                            assert(prev + arr_text(rest) =~= (prev + json_text(rest[0])
                                + seq![',']) + arr_text(rest.drop_first()));
                        }
                    } else {
                        proof {
                            assert(rest.len() == 1);
                            assert(prev + arr_text(rest) =~= (prev + json_text(rest[0]))
                                + arr_text(rest.drop_first()));
                            assert(arr_text(rest.drop_first()) =~= Seq::<char>::empty());
                        }
                    }
                    i = i + 1;
                }
                proof {
                    assert(arr_text(items@.subrange(items@.len() as int, items@.len() as int))
                        =~= Seq::<char>::empty());
                }
                r.push(']');
                proof {
                    assert(r@ =~= json_text(*self));
                }
                r
            }
            JsonVal::Obj(fields) => {
                let mut r = String::new();
                r.push('{');
                let mut i: usize = 0;
                proof {
                    assert(r@ =~= seq!['{']);
                    assert(fields@.subrange(0, fields@.len() as int) =~= fields@);
                }
                while i < fields.len()
                    invariant
                        i <= fields@.len(),
                        *self == JsonVal::Obj(*fields),
                        seq!['{'] + obj_text(fields@) == r@ + obj_text(
                            fields@.subrange(i as int, fields@.len() as int),
                        ),
                    decreases fields@.len() - i,
                {
                    let ghost rest = fields@.subrange(i as int, fields@.len() as int);
                    proof {
                        assert(rest[0] == fields@[i as int]);
                        assert(rest.drop_first() =~= fields@.subrange(
                            i + 1,
                            fields@.len() as int,
                        ));
                        assert(decreases_to!(*self => self->Obj_0));
                        assert(decreases_to!(*fields => fields@[i as int]));
                        assert(decreases_to!(fields@[i as int] => fields@[i as int].1));
                    }
                    let ghost prev = r@;
                    r.push('"');
                    let key_esc = escape_json_chars(fields[i].0.as_str());
                    r.append(key_esc.as_str());
                    r.push('"');
                    r.push(':');
                    let val_text = fields[i].1.to_json_string();
                    r.append(val_text.as_str());
                    let ghost f = seq!['"'] + json_escaped(rest[0].0@) + seq!['"', ':']
                        + json_text(rest[0].1);
                    proof {
                        assert(r@ =~= prev + f);
                    }
                    if i < fields.len() - 1 {
                        r.push(',');
                        proof {
                            assert(prev + obj_text(rest) =~= (prev + f + seq![',']) + obj_text(
                                rest.drop_first(),
                            ));
                        }
                    } else {
                        proof {
                            assert(rest.len() == 1);
                            assert(prev + obj_text(rest) =~= prev + f);
                        }
                    }
                    i = i + 1;
                }
                proof {
                    assert(obj_text(fields@.subrange(fields@.len() as int, fields@.len() as int))
                        =~= Seq::<char>::empty());
                }
                r.push('}');
                proof {
                    assert(r@ =~= json_text(*self));
                }
                r
            }
        }
    }
}

#[verifier::external_type_specification]
#[verifier::external_body]
pub struct ExSerdeValue(serde_json::Value);

/// What parsing this text as JSON yields: `None` when the text is not
/// valid JSON, else the parsed tree with numbers carried as `Int` when
/// they fit an i64, else `Uint`, else their text. A function of the text
/// alone.
pub uninterp spec fn parsed_json_of(s: Seq<char>) -> Option<JsonVal>;

/// What parsing these bytes as JSON yields, under the same conventions.
pub uninterp spec fn parsed_json_bytes_of(b: Seq<u8>) -> Option<JsonVal>;

/// Converts a parsed serde_json tree into the library's model, variant by
/// variant; only called from the trusted parse wrappers below.
#[verifier::external_body]
fn from_serde_value(v: serde_json::Value) -> JsonVal {
    match v {
        serde_json::Value::Null => JsonVal::Null,
        serde_json::Value::Bool(b) => JsonVal::Bool(b),
        serde_json::Value::Number(n) => match (n.as_i64(), n.as_u64()) {
            (Some(i), _) => JsonVal::Int(i),
            (None, Some(u)) => JsonVal::Uint(u),
            _ => JsonVal::NumText(n.to_string()),
        },
        serde_json::Value::String(s) => JsonVal::Str(s),
        serde_json::Value::Array(a) => JsonVal::Arr(a.into_iter().map(from_serde_value).collect()),
        serde_json::Value::Object(m) => JsonVal::Obj(
            m.into_iter().map(|(k, w)| (k, from_serde_value(w))).collect(),
        ),
    }
}

/// Relies on serde_json::from_str::<serde_json::Value>: parses JSON text;
/// the result depends on the text alone.
#[verifier::external_body]
pub fn parse_json(s: &str) -> (r: Option<JsonVal>)
    ensures
        r == parsed_json_of(s@),
{
    match serde_json::from_str::<serde_json::Value>(s) {
        Ok(v) => Some(from_serde_value(v)),
        Err(_) => None,
    }
}

/// Relies on serde_json::from_slice::<serde_json::Value>: parses JSON
/// bytes; the result depends on the bytes alone.
#[verifier::external_body]
pub fn parse_json_bytes(b: &[u8]) -> (r: Option<JsonVal>)
    ensures
        r == parsed_json_bytes_of(b@),
{
    match serde_json::from_slice::<serde_json::Value>(b) {
        Ok(v) => Some(from_serde_value(v)),
        Err(_) => None,
    }
}

} // verus!
