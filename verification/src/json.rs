//! The library's own model of a parsed JSON document. The outside parser
//! produces it once at the boundary; all document interpretation happens on
//! this type, in verified code. A number carries both its whole-number
//! reading (as indices and byte lengths use it) and the bit pattern of its
//! single-precision reading (as factors, timestamps and angles use it).

use vstd::prelude::*;

verus! {

/// A JSON number: its value converted to `usize` by Rust's saturating
/// float-to-integer cast (negative values and NaN read zero, overlarge
/// values the machine maximum) and the bit pattern of its single-precision
/// value.
#[derive(Clone, Copy, PartialEq, Eq, Debug)]
pub struct JsonNum {
    pub whole: usize,
    pub bits: u32,
}

/// One JSON value. Object members keep the order the parser handed them
/// over in; keys within one object are unique, as JSON objects are.
pub enum Json {
    Null,
    Bool(bool),
    Num(JsonNum),
    Str(String),
    Arr(Vec<Json>),
    Obj(Vec<(String, Json)>),
}

/// The first member of `fields` named `key`, from index `i` on.
pub open spec fn spec_member_from(fields: Seq<(String, Json)>, key: Seq<char>, i: int) -> Option<
    Json,
>
    decreases fields.len() - i,
{
    if i < 0 || i >= fields.len() {
        None
    } else if fields[i].0@ == key {
        Some(fields[i].1)
    } else {
        spec_member_from(fields, key, i + 1)
    }
}

/// The member of object `j` named `key`; `None` when `j` is no object or
/// has no such member.
pub open spec fn spec_member(j: Json, key: Seq<char>) -> Option<Json> {
    match j {
        Json::Obj(fields) => spec_member_from(fields@, key, 0),
        _ => None,
    }
}

/// The whole-number reading of `j`, when `j` is a number.
pub open spec fn spec_usize_of(j: Json) -> Option<usize> {
    match j {
        Json::Num(n) => Some(n.whole),
        _ => None,
    }
}

/// The single-precision bit pattern of `j`, when `j` is a number.
pub open spec fn spec_f32_of(j: Json) -> Option<u32> {
    match j {
        Json::Num(n) => Some(n.bits),
        _ => None,
    }
}

/// Relies on str equality: true exactly when the two strings read back the
/// same characters.
#[verifier::external_body]
pub fn str_eq(a: &str, b: &str) -> (r: bool)
    ensures
        r == (a@ == b@),
{
    a == b
}

impl Json {
    /// The member of this object named `key`, or `None`.
    pub fn member<'a>(&'a self, key: &str) -> (r: Option<&'a Json>)
        ensures
            match r {
                Some(v) => spec_member(*self, key@) == Some(*v),
                None => spec_member(*self, key@) is None,
            },
    {
        match self {
            Json::Obj(fields) => {
                let n = fields.len();
                let mut i: usize = 0;
                while i < n
                    invariant
                        *self == Json::Obj(*fields),
                        n == fields@.len(),
                        i <= n,
                        spec_member_from(fields@, key@, 0) == spec_member_from(
                            fields@,
                            key@,
                            i as int,
                        ),
                    decreases n - i,
                {
                    if str_eq(fields[i].0.as_str(), key) {
                        proof {
                            assert(spec_member_from(fields@, key@, i as int) == Some(
                                fields@[i as int].1,
                            ));
                        }
                        return Some(&fields[i].1);
                    }
                    i = i + 1;
                }
                proof {
                    assert(spec_member_from(fields@, key@, n as int) is None);
                }
                None
            },
            _ => None,
        }
    }

    /// This value's elements, when it is an array.
    pub fn as_array(&self) -> (r: Option<&Vec<Json>>)
        ensures
            match r {
                Some(v) => *self == Json::Arr(*v),
                None => !(*self is Arr),
            },
    {
        match self {
            Json::Arr(v) => Some(v),
            _ => None,
        }
    }

    /// This value's members, when it is an object.
    pub fn as_object(&self) -> (r: Option<&Vec<(String, Json)>>)
        ensures
            match r {
                Some(v) => *self == Json::Obj(*v),
                None => !(*self is Obj),
            },
    {
        match self {
            Json::Obj(v) => Some(v),
            _ => None,
        }
    }

    /// This value's text, when it is a string.
    pub fn as_string(&self) -> (r: Option<&String>)
        ensures
            match r {
                Some(s) => *self == Json::Str(*s),
                None => !(*self is Str),
            },
    {
        match self {
            Json::Str(s) => Some(s),
            _ => None,
        }
    }

    /// This value's truth, when it is a boolean.
    pub fn as_bool(&self) -> (r: Option<bool>)
        ensures
            match r {
                Some(b) => *self == Json::Bool(b),
                None => !(*self is Bool),
            },
    {
        match self {
            Json::Bool(b) => Some(*b),
            _ => None,
        }
    }

    /// This value's whole-number reading, when it is a number.
    pub fn as_usize(&self) -> (r: Option<usize>)
        ensures
            r == spec_usize_of(*self),
    {
        match self {
            Json::Num(n) => Some(n.whole),
            _ => None,
        }
    }

    /// This value's single-precision bit pattern, when it is a number.
    pub fn as_f32_bits(&self) -> (r: Option<u32>)
        ensures
            r == spec_f32_of(*self),
    {
        match self {
            Json::Num(n) => Some(n.bits),
            _ => None,
        }
    }
}

#[verifier::external_type_specification]
#[verifier::external_body]
pub struct ExJsonValue(tinyjson::JsonValue);

/// Relies on tinyjson's parsed value: converts each variant to the
/// library's model, one for one. A number's whole-number reading saturates
/// as Rust's float-to-integer cast does; its single-precision bits come
/// from narrowing the value. Object member order follows the parser's map
/// iteration, which fixes no order; keys stay unique.
#[verifier::external_body]
fn convert_json(v: tinyjson::JsonValue) -> Json {
    match v {
        tinyjson::JsonValue::Null => Json::Null,
        tinyjson::JsonValue::Boolean(b) => Json::Bool(b),
        tinyjson::JsonValue::Number(n) => Json::Num(
            JsonNum { whole: n as usize, bits: glam::DVec2::splat(n).as_vec2().x.to_bits() },
        ),
        tinyjson::JsonValue::String(s) => Json::Str(s),
        tinyjson::JsonValue::Array(a) => Json::Arr(a.into_iter().map(convert_json).collect()),
        tinyjson::JsonValue::Object(o) => Json::Obj(
            o.into_iter().map(|(k, x)| (k, convert_json(x))).collect(),
        ),
    }
}

pub uninterp spec fn json_parses(s: Seq<char>) -> bool;

/// Relies on tinyjson::JsonValue::from_str for the JSON grammar: parsing
/// is a pure function of the text and fails exactly when the text is not
/// valid JSON. Nothing more is assumed of the result's shape: the document
/// logic takes the returned value as it is.
#[verifier::external_body]
pub fn parse_json(s: &str) -> (r: Option<Json>)
    ensures
        r is Some <==> json_parses(s@),
{
    match s.parse::<tinyjson::JsonValue>() {
        Ok(v) => Some(convert_json(v)),
        Err(_) => None,
    }
}

} // verus!
