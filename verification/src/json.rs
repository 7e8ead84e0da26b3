//! A JSON document model that the library's logic reads and builds, with the
//! text conversions done by `serde_json` and `serde_yaml`.
use vstd::prelude::*;

verus! {

/// A JSON number as `serde_json` keeps it: a non-negative integer, a negative
/// integer, or any other number, held as its decimal text.
#[derive(Debug)]
pub enum JsonNumber {
    PosInt(u64),
    NegInt(i64),
    Float(String),
}

/// A JSON document. Object members keep the order in which `serde_json`
/// iterates them.
#[derive(Debug)]
pub enum JsonValue {
    Null,
    Bool(bool),
    Number(JsonNumber),
    Str(String),
    Array(Vec<JsonValue>),
    Object(Vec<(String, JsonValue)>),
}


/// `serde_json::Value`, carried through the text conversions below.
#[verifier::external_type_specification]
#[verifier::external_body]
pub struct ExSerdeJsonValue(serde_json::Value);

/// `serde_json::Error`, the error of a failed JSON parse.
#[verifier::external_type_specification]
#[verifier::external_body]
pub struct ExSerdeJsonError(serde_json::Error);

/// `serde_yaml::Error`, the error of a failed YAML parse.
#[verifier::external_type_specification]
#[verifier::external_body]
pub struct ExSerdeYamlError(serde_yaml::Error);

/// Moves a `serde_json::Value` into the library's model, variant for variant;
/// a number that is neither a `u64` nor an `i64` keeps its decimal text.
#[verifier::external_body]
fn from_serde(v: serde_json::Value) -> JsonValue {
    match v {
        serde_json::Value::Null => JsonValue::Null,
        serde_json::Value::Bool(b) => JsonValue::Bool(b),
        serde_json::Value::Number(n) => JsonValue::Number(match (n.as_u64(), n.as_i64()) {
            (Some(u), _) => JsonNumber::PosInt(u),
            (None, Some(i)) => JsonNumber::NegInt(i),
            (None, None) => JsonNumber::Float(n.to_string()),
        }),
        serde_json::Value::String(s) => JsonValue::Str(s),
        serde_json::Value::Array(a) => JsonValue::Array(a.into_iter().map(from_serde).collect()),
        serde_json::Value::Object(m) => JsonValue::Object(m.into_iter().map(|(k, x)| (k, from_serde(x))).collect()),
    }
}

/// The document that `serde_json::from_str` reads from a text, or `None` where it
/// reports a syntax error.
pub uninterp spec fn json_parsed(text: Seq<char>) -> Option<JsonValue>;

/// `serde_json::from_str::<serde_json::Value>`: parses JSON text. The contract claims
/// that it succeeds exactly on the texts for which `json_parsed` has a value, and
/// gives that value; what the parse yields is left to `serde_json`.
#[verifier::external_body]
fn serde_parse_json(text: &str) -> (res: Result<JsonValue, serde_json::Error>)
    ensures
        res is Ok <==> json_parsed(text@) is Some,
        res matches Ok(v) ==> json_parsed(text@) == Some(v),
{
    serde_json::from_str::<serde_json::Value>(text).map(from_serde)
}

/// `serde_json::Error`'s `Display`: the message of a JSON syntax error. Nothing is
/// claimed of the text.
#[verifier::external_body]
fn json_error_message(e: &serde_json::Error) -> String {
    e.to_string()
}

/// The document that `serde_yaml::from_str` reads from a YAML text, or `None` where it
/// reports an error.
pub uninterp spec fn yaml_parsed(text: Seq<char>) -> Option<JsonValue>;

/// `serde_yaml::from_str::<serde_json::Value>`: parses YAML text into a JSON document.
/// The contract claims that it succeeds exactly where `yaml_parsed` has a value, and
/// gives that value.
#[verifier::external_body]
fn serde_parse_yaml(text: &str) -> (res: Result<JsonValue, serde_yaml::Error>)
    ensures
        res is Ok <==> yaml_parsed(text@) is Some,
        res matches Ok(v) ==> yaml_parsed(text@) == Some(v),
{
    serde_yaml::from_str::<serde_json::Value>(text).map(from_serde)
}

/// A failed parse of a JSON or YAML text, with the parser's message.
#[derive(Debug)]
pub struct ParseError {
    pub message: String,
}

/// Parses JSON text (`serde_json::from_str`).
pub fn parse_json(text: &str) -> (res: Result<JsonValue, ParseError>)
    ensures
        res is Ok <==> json_parsed(text@) is Some,
        res matches Ok(v) ==> json_parsed(text@) == Some(v),
{
    match serde_parse_json(text) {
        Ok(v) => Ok(v),
        Err(e) => Err(ParseError { message: json_error_message(&e) }),
    }
}

/// Parses YAML text into a JSON document (`serde_yaml::from_str`).
pub fn parse_yaml(text: &str) -> (res: Option<JsonValue>)
    ensures
        res == yaml_parsed(text@),
{
    match serde_parse_yaml(text) {
        Ok(v) => Some(v),
        Err(_) => None,
    }
}


/// A JSON string holding the characters of `s`.
pub fn json_str(s: &str) -> (res: JsonValue)
    ensures
        res.str_of() == Some(s@),
{
    JsonValue::Str(crate::text::owned(s))
}

/// A JSON non-negative integer.
pub fn json_u64(n: u64) -> (res: JsonValue)
    ensures
        res == JsonValue::Number(JsonNumber::PosInt(n)),
{
    JsonValue::Number(JsonNumber::PosInt(n))
}

/// An object member.
pub fn json_member(key: &str, value: JsonValue) -> (res: (String, JsonValue))
    ensures
        res.0@ == key@,
        res.1 == value,
{
    (crate::text::owned(key), value)
}

/// The characters of the string elements of `a`, in order (other elements are skipped).
pub open spec fn string_elems(a: Seq<JsonValue>) -> Seq<Seq<char>>
    decreases a.len(),
{
    if a.len() == 0 {
        seq![]
    } else {
        let rest = string_elems(a.drop_last());
        match a.last().str_of() {
            Some(s) => rest.push(s),
            None => rest,
        }
    }
}

/// The `u64` elements of `a`, in order (other elements are skipped).
pub open spec fn u64_elems(a: Seq<JsonValue>) -> Seq<u64>
    decreases a.len(),
{
    if a.len() == 0 {
        seq![]
    } else {
        let rest = u64_elems(a.drop_last());
        match a.last().u64_of() {
            Some(n) => rest.push(n),
            None => rest,
        }
    }
}

/// `arr.iter().filter_map(|v| v.as_str().map(|s| s.to_string())).collect()`.
pub fn collect_strings(a: &Vec<JsonValue>) -> (res: Vec<String>)
    ensures
        crate::text::string_views(res@) == string_elems(a@),
{
    let mut res: Vec<String> = Vec::new();
    let mut i: usize = 0;
    while i < a.len()
        invariant
            i <= a@.len(),
            crate::text::string_views(res@) == string_elems(a@.take(i as int)),
        decreases a.len() - i,
    {
        let ghost before = res@;
        assert(a@.take(i + 1).drop_last() =~= a@.take(i as int));
        match a[i].as_str() {
            Some(s) => {
                res.push(crate::text::owned(s));
                assert(crate::text::string_views(res@) =~= crate::text::string_views(before).push(s@));
            },
            None => {},
        }
        i = i + 1;
    }
    assert(a@.take(a@.len() as int) =~= a@);
    res
}

/// `arr.iter().filter_map(|v| v.as_u64()).collect()`.
pub fn collect_u64s(a: &Vec<JsonValue>) -> (res: Vec<u64>)
    ensures
        res@ == u64_elems(a@),
{
    let mut res: Vec<u64> = Vec::new();
    let mut i: usize = 0;
    while i < a.len()
        invariant
            i <= a@.len(),
            res@ == u64_elems(a@.take(i as int)),
        decreases a.len() - i,
    {
        assert(a@.take(i + 1).drop_last() =~= a@.take(i as int));
        match a[i].as_u64() {
            Some(n) => {
                res.push(n);
            },
            None => {},
        }
        i = i + 1;
    }
    assert(a@.take(a@.len() as int) =~= a@);
    res
}

/// The value of the first member named `key`, if any.
pub open spec fn member(entries: Seq<(String, JsonValue)>, key: Seq<char>) -> Option<JsonValue>
    decreases entries.len(),
{
    if entries.len() == 0 {
        None
    } else if entries[0].0@ == key {
        Some(entries[0].1)
    } else {
        member(entries.drop_first(), key)
    }
}

/// The null value that lookups of absent members stand for.
pub const NULL_JSON: JsonValue = JsonValue::Null;

impl JsonValue {
    /// `value[key]`: the member named `key` of an object, or null.
    pub open spec fn at(self, key: Seq<char>) -> JsonValue {
        match self {
            JsonValue::Object(es) => match member(es@, key) {
                Some(v) => v,
                None => JsonValue::Null,
            },
            _ => JsonValue::Null,
        }
    }

    /// `value[i]`: the element `i` of an array, or null.
    pub open spec fn nth(self, i: int) -> JsonValue {
        match self {
            JsonValue::Array(a) => if 0 <= i < a@.len() {
                a@[i]
            } else {
                JsonValue::Null
            },
            _ => JsonValue::Null,
        }
    }

    /// `value.as_str()`, by the characters of the string.
    pub open spec fn str_of(self) -> Option<Seq<char>> {
        match self {
            JsonValue::Str(s) => Some(s@),
            _ => None,
        }
    }

    /// `value.as_u64()`.
    pub open spec fn u64_of(self) -> Option<u64> {
        match self {
            JsonValue::Number(JsonNumber::PosInt(n)) => Some(n),
            _ => None,
        }
    }

    /// `value.as_i64()`.
    pub open spec fn i64_of(self) -> Option<i64> {
        match self {
            JsonValue::Number(JsonNumber::PosInt(n)) => if n <= i64::MAX as u64 {
                Some(n as i64)
            } else {
                None
            },
            JsonValue::Number(JsonNumber::NegInt(n)) => Some(n),
            _ => None,
        }
    }

    /// `value.as_array()`, by its elements.
    pub open spec fn array_of(self) -> Option<Seq<JsonValue>> {
        match self {
            JsonValue::Array(a) => Some(a@),
            _ => None,
        }
    }

    /// `value.as_object()`, by its members.
    pub open spec fn object_of(self) -> Option<Seq<(String, JsonValue)>> {
        match self {
            JsonValue::Object(es) => Some(es@),
            _ => None,
        }
    }

    /// `value.is_null()`.
    pub open spec fn null(self) -> bool {
        self is Null
    }

    /// `value[key]`.
    pub fn get(&self, key: &str) -> (res: &JsonValue)
        ensures
            *res == self.at(key@),
    {
        match self {
            JsonValue::Object(es) => {
                let mut i: usize = 0;
                assert(es@.skip(0) =~= es@);
                while i < es.len()
                    invariant
                        i <= es@.len(),
                        self.object_of() == Some(es@),
                        member(es@, key@) == member(es@.skip(i as int), key@),
                    decreases es.len() - i,
                {
                    assert(es@.skip(i as int).drop_first() =~= es@.skip(i + 1));
                    assert(es@.skip(i as int)[0] == es@[i as int]);
                    if crate::text::str_eq(es[i].0.as_str(), key) {
                        assert(member(es@.skip(i as int), key@) == Some(es@[i as int].1));
                        return &es[i].1;
                    }
                    i = i + 1;
                }
                &NULL_JSON
            },
            _ => &NULL_JSON,
        }
    }

    /// `value[i]`.
    pub fn index(&self, i: usize) -> (res: &JsonValue)
        ensures
            *res == self.nth(i as int),
    {
        match self {
            JsonValue::Array(a) => if i < a.len() {
                &a[i]
            } else {
                &NULL_JSON
            },
            _ => &NULL_JSON,
        }
    }

    /// `value.as_str()`.
    pub fn as_str(&self) -> (res: Option<&str>)
        ensures
            match res {
                Some(s) => self.str_of() == Some(s@),
                None => self.str_of() is None,
            },
    {
        match self {
            JsonValue::Str(s) => Some(s.as_str()),
            _ => None,
        }
    }

    /// `value.as_u64()`.
    pub fn as_u64(&self) -> (res: Option<u64>)
        ensures
            res == self.u64_of(),
    {
        match self {
            JsonValue::Number(JsonNumber::PosInt(n)) => Some(*n),
            _ => None,
        }
    }

    /// `value.as_i64()`.
    pub fn as_i64(&self) -> (res: Option<i64>)
        ensures
            res == self.i64_of(),
    {
        match self {
            JsonValue::Number(JsonNumber::PosInt(n)) => if *n <= i64::MAX as u64 {
                Some(*n as i64)
            } else {
                None
            },
            JsonValue::Number(JsonNumber::NegInt(n)) => Some(*n),
            _ => None,
        }
    }

    /// `value.as_array()`.
    pub fn as_array(&self) -> (res: Option<&Vec<JsonValue>>)
        ensures
            match res {
                Some(a) => self.array_of() == Some(a@),
                None => self.array_of() is None,
            },
    {
        match self {
            JsonValue::Array(a) => Some(a),
            _ => None,
        }
    }

    /// `value.as_object()`.
    pub fn as_object(&self) -> (res: Option<&Vec<(String, JsonValue)>>)
        ensures
            match res {
                Some(es) => self.object_of() == Some(es@),
                None => self.object_of() is None,
            },
    {
        match self {
            JsonValue::Object(es) => Some(es),
            _ => None,
        }
    }

    /// `value.is_null()`.
    pub fn is_null(&self) -> (res: bool)
        ensures
            res == self.null(),
    {
        match self {
            JsonValue::Null => true,
            _ => false,
        }
    }
}

} // verus!
