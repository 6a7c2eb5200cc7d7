use vstd::prelude::*;
use crate::value::{Val, Value, val_of};
use crate::eval::vals_model;
use crate::rationale::{FunctionError, RationaleResult};
use crate::registry::{Package, PackagePath};
use serde_json::Value as JsonVal;
use serde_json::Number as JsonNum;

verus! {

/// What base64 decoding yields on a given text, when the text is valid
/// standard base64; the result depends on the characters alone.
pub uninterp spec fn b64_decoded(s: Seq<char>) -> Option<Seq<u8>>;

/// Relies on base64::decode (standard alphabet, padding accepted): the
/// result is a pure function of the input characters; an invalid input is
/// reported as an error, mapped to None here.
#[verifier::external_body]
fn base64_decode(s: &str) -> (r: Option<Vec<u8>>)
    ensures
        match (r, b64_decoded(s@)) {
            (Some(v), Some(b)) => v@ == b,
            (None, None) => true,
            _ => false,
        },
{
    base64::decode(s).ok()
}

#[verifier::external_type_specification]
#[verifier::external_body]
pub struct ExJsonValue(JsonVal);

#[verifier::external_type_specification]
#[verifier::external_body]
pub struct ExJsonNumber(JsonNum);

/// Relies on serde_json::from_slice: parse a byte slice as one JSON
/// document; a parse failure is mapped to None.
#[verifier::external_body]
fn parse_json(bytes: &[u8]) -> (r: Option<JsonVal>)
{
    serde_json::from_slice::<JsonVal>(bytes).ok()
}

/// One level of a parsed JSON document, told apart variant by variant so
/// that verified code can walk it.
pub enum JsonShape {
    Null,
    Bool(bool),
    Num(JsonNum),
    Str(String),
    Arr(Vec<JsonVal>),
    Obj(Vec<(String, JsonVal)>),
}

/// Relies on serde_json::Value's variants: each arm moves the payload into
/// the library's shape enum, object entries in the map's iteration order.
#[verifier::external_body]
fn json_shape(j: &JsonVal) -> (r: JsonShape)
{
    match j {
        JsonVal::Null => JsonShape::Null,
        JsonVal::Bool(b) => JsonShape::Bool(*b),
        JsonVal::Number(n) => JsonShape::Num(n.clone()),
        JsonVal::String(s) => JsonShape::Str(s.clone()),
        JsonVal::Array(a) => JsonShape::Arr(a.clone()),
        JsonVal::Object(m) => JsonShape::Obj(
            m.iter().map(|(k, v)| (k.clone(), v.clone())).collect(),
        ),
    }
}

/// Relies on serde_json::Number::as_i64: the number as a signed integer
/// when it is one.
#[verifier::external_body]
fn number_as_i64(n: &JsonNum) -> (r: Option<i64>)
{
    n.as_i64()
}

/// Rebuild a parsed JSON document as a library value, one shape level per
/// fuel unit; a document deeper than the fuel, or a number that is not a
/// signed integer, yields None.
fn json_to_value(j: &JsonVal, fuel: u32) -> (r: Option<Value>)
    decreases fuel, 0int,
{
    if fuel == 0 {
        return None;
    }
    match json_shape(j) {
        JsonShape::Null => Some(Value::Null),
        JsonShape::Bool(b) => Some(Value::Bool(b)),
        JsonShape::Num(n) => match number_as_i64(&n) {
            Some(i) => Some(Value::Int(i)),
            None => None,
        },
        JsonShape::Str(s) => Some(Value::Str(s)),
        JsonShape::Arr(items) => match json_items(&items, 0, fuel - 1) {
            Some(vs) => Some(Value::List(vs)),
            None => None,
        },
        JsonShape::Obj(entries) => match json_entries(&entries, 0, fuel - 1) {
            Some(fs) => Some(Value::Object(fs)),
            None => None,
        },
    }
}

fn json_items(items: &Vec<JsonVal>, i: usize, fuel: u32) -> (r: Option<Vec<Value>>)
    requires
        i <= items@.len(),
    decreases fuel, 1int, items@.len() - i,
{
    if i >= items.len() {
        return Some(Vec::new());
    }
    match json_to_value(&items[i], fuel) {
        None => None,
        Some(v) => match json_items(items, i + 1, fuel) {
            None => None,
            Some(mut rest) => {
                rest.insert(0, v);
                Some(rest)
            },
        },
    }
}

fn json_entries(entries: &Vec<(String, JsonVal)>, i: usize, fuel: u32) -> (r: Option<
    Vec<crate::value::ObjectField>,
>)
    requires
        i <= entries@.len(),
    decreases fuel, 1int, entries@.len() - i,
{
    if i >= entries.len() {
        return Some(Vec::new());
    }
    match json_to_value(&entries[i].1, fuel) {
        None => None,
        Some(v) => match json_entries(entries, i + 1, fuel) {
            None => None,
            Some(mut rest) => {
                rest.insert(0, crate::value::ObjectField { name: entries[i].0.clone(), value: v });
                Some(rest)
            },
        },
    }
}

/// How many nesting levels a decoded record may have.
pub const RECORD_DEPTH: u32 = 64;

/// Decode one transparency-log entry body: base64 text wrapping one JSON
/// document. A body whose base64 layer does not decode yields None.
pub fn decode_record(body: &str) -> (r: Option<Value>)
    ensures
        b64_decoded(body@) is None ==> r is None,
{
    match base64_decode(body) {
        None => None,
        Some(bytes) => match parse_json(bytes.as_slice()) {
            None => None,
            Some(j) => json_to_value(&j, RECORD_DEPTH),
        },
    }
}

/// How many of `bodies[i..]` pass the base64 layer.
pub open spec fn b64_ok_count(bodies: Seq<String>, i: int) -> int
    decreases bodies.len() - i,
{
    if i < 0 || i >= bodies.len() {
        0
    } else {
        (if b64_decoded(bodies[i]@) is Some {
            1int
        } else {
            0int
        }) + b64_ok_count(bodies, i + 1)
    }
}

proof fn lemma_b64_ok_count_bounds(bodies: Seq<String>, i: int)
    ensures
        0 <= b64_ok_count(bodies, i) <= bodies.len() - i || bodies.len() - i < 0,
    decreases bodies.len() - i,
{
    if i < 0 || i >= bodies.len() {
    } else {
        lemma_b64_ok_count_bounds(bodies, i + 1);
    }
}

/// Decode every entry body that decodes, in order, and keep the results:
/// a body that fails a decoding step is skipped and neither aborts the
/// walk nor produces an error. A body whose base64 layer fails never
/// contributes, so the result is also bounded by the number of bodies that
/// pass that layer.
pub fn collect_records(bodies: &Vec<String>) -> (r: Vec<Value>)
    ensures
        r@.len() <= bodies@.len(),
        r@.len() <= b64_ok_count(bodies@, 0),
{
    let mut out: Vec<Value> = Vec::new();
    let mut i: usize = 0;
    while i < bodies.len()
        invariant
            i <= bodies@.len(),
            out@.len() <= i,
            out@.len() + b64_ok_count(bodies@, i as int) <= b64_ok_count(bodies@, 0),
        decreases bodies@.len() - i,
    {
        match decode_record(bodies[i].as_str()) {
            Some(v) => {
                out.push(v);
            },
            None => {},
        }
        i = i + 1;
    }
    proof {
        lemma_b64_ok_count_bounds(bodies@, bodies@.len() as int);
    }
    out
}

/// The signature-transparency-log lookup capability, registered under the
/// sigstore namespace as `SHA256`. The input value is a digest string; the
/// lookup itself is I/O and is driven outside the library, through
/// `check_input` before the lookup and `classify` after it.
pub struct SHA256;

impl SHA256 {
    /// What this capability does, for catalog rendering.
    pub fn documentation(&self) -> (r: Option<String>)
        ensures
            r is Some,
    {
        Some(
            String::from_str(
                "Look up a SHA-256 digest in the signature transparency log and replace the value with the list of decoded matching records.",
            ),
        )
    }

    /// Declared generic parameters: this capability has none.
    pub fn parameters(&self) -> (r: Vec<String>)
        ensures
            r@.len() == 0,
    {
        Vec::new()
    }

    /// The input-shape check that opens every invocation: the value must be
    /// a string, and that string is the digest handed to the lookup; any
    /// other variant is answered with the invalid-input error.
    pub fn check_input(v: &Value) -> (r: Result<String, FunctionError>)
        ensures
            match r {
                Ok(s) => v@ == Val::Str(s@),
                Err(e) => !(v@ is Str) && (e matches FunctionError::Other(m) && m@
                    == "invalid input"@),
            },
    {
        match v.try_get_string() {
            Some(s) => Ok(s),
            None => Err(FunctionError::Other(String::from_str("invalid input"))),
        }
    }

    /// The transform outcome carrying exactly the given decoded records,
    /// in order: the one place a transform is built, so the value the
    /// engine goes on with is pinned to the records handed in.
    pub fn transform_of(records: Vec<Value>) -> (r: RationaleResult)
        ensures
            r matches RationaleResult::Transform(out) && out@ == Val::List(vals_model(records@)),
    {
        let ghost rs = records@;
        let out = Value::List(records);
        proof {
            let s1 = out@->List_0;
            let s2 = vals_model(rs);
            assert forall|k: int| 0 <= k < s1.len() implies s1[k] == s2[k] by {
                assert(s1[k] == val_of(rs[k]));
                assert(s2[k] == val_of(rs[k]));
            }
            assert(s1 =~= s2);
            assert(out@ == Val::List(s1));
        }
        RationaleResult::Transform(out)
    }

    /// Outcome classification, fed with what the lookup produced: the entry
    /// bodies of the matching records, or the lookup's own failure message.
    /// An empty lookup is the no-signatures error; one or more records
    /// become a Transform carrying the ordered list of decoded records.
    pub fn classify(lookup: Result<Vec<String>, String>) -> (r: Result<
        RationaleResult,
        FunctionError,
    >)
        ensures
            match r {
                Ok(rr) => (lookup matches Ok(b) && b@.len() > 0) && (rr
                    matches RationaleResult::Transform(out) && out@ is List
                    && out@->List_0.len() <= lookup->Ok_0@.len() && out@->List_0.len()
                    <= b64_ok_count(lookup->Ok_0@, 0)),
                Err(e) => match lookup {
                    Ok(b) => b@.len() == 0 && (e matches FunctionError::Other(m) && m@
                        == "no signatures"@),
                    Err(msg) => e matches FunctionError::Other(m) && m@ == msg@,
                },
            },
    {
        match lookup {
            Err(msg) => Err(FunctionError::Other(msg)),
            Ok(bodies) => {
                if bodies.len() == 0 {
                    Err(FunctionError::Other(String::from_str("no signatures")))
                } else {
                    let records = collect_records(&bodies);
                    Ok(Self::transform_of(records))
                }
            },
        }
    }
}

/// The sigstore namespace: one package exposing the `SHA256` lookup
/// function.
pub fn package() -> (r: Package)
    ensures
        r.path@.len() == 1,
        r.path@[0] == "sigstore"@,
        r.functions@.len() == 1,
        r.functions@[0]@ == "SHA256"@,
        r.patterns@.len() == 0,
    {
    let mut parts: Vec<String> = Vec::new();
    parts.push(String::from_str("sigstore"));
    let mut pkg = Package::new(PackagePath::from_parts(parts));
    let res = pkg.register_function(String::from_str("SHA256"));
    match res {
        Ok(()) => {},
        Err(_) => {
            assert(false);
        },
    }
    pkg
}

} // verus!
