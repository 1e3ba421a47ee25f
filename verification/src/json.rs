use vstd::prelude::*;

use crate::name::str_eq;
use crate::pairs::lemma_find_key_bounds;
use crate::pairs::lemma_find_key_first;
use crate::pairs::lookup;

verus! {

/// The library's JSON data model: what the codec reads of untyped input.
/// `Other` stands for a JSON number not representable as an `i64`, or for a
/// GraphQL literal with no JSON counterpart (a float, an enum value, a
/// variable); the codec rejects it wherever a typed value is expected.
#[derive(Debug)]
pub enum JsonValue {
    Null,
    Bool(bool),
    Int(i64),
    Other,
    Str(String),
    Arr(Vec<JsonValue>),
    Obj(Vec<(String, JsonValue)>),
}

/// The mathematical shape of a JSON value.
#[verifier::ext_equal]
pub enum JsonV {
    Null,
    Bool(bool),
    Int(int),
    Other,
    Str(Seq<char>),
    Arr(Seq<JsonV>),
    Obj(Seq<(Seq<char>, JsonV)>),
}

impl View for JsonValue {
    type V = JsonV;

    open spec fn view(&self) -> JsonV
        decreases self,
    {
        match self {
            JsonValue::Null => JsonV::Null,
            JsonValue::Bool(b) => JsonV::Bool(*b),
            JsonValue::Int(i) => JsonV::Int(*i as int),
            JsonValue::Other => JsonV::Other,
            JsonValue::Str(s) => JsonV::Str(s@),
            JsonValue::Arr(v) => JsonV::Arr(json_seq_view(v@)),
            JsonValue::Obj(v) => JsonV::Obj(json_obj_view(v@)),
        }
    }
}

/// The views of a sequence of JSON values.
pub open spec fn json_seq_view(s: Seq<JsonValue>) -> Seq<JsonV>
    decreases s,
{
    if s.len() == 0 {
        Seq::empty()
    } else {
        json_seq_view(s.drop_last()).push(s.last()@)
    }
}

/// The views of a sequence of keyed JSON values.
pub open spec fn json_obj_view(s: Seq<(String, JsonValue)>) -> Seq<(Seq<char>, JsonV)>
    decreases s,
{
    if s.len() == 0 {
        Seq::empty()
    } else {
        json_obj_view(s.drop_last()).push((s.last().0@, s.last().1@))
    }
}

/// The views of a sequence of JSON values, elementwise.
pub open spec fn seq_view(s: Seq<JsonValue>) -> Seq<JsonV> {
    Seq::new(s.len(), |i: int| s[i]@)
}

/// The views of a sequence of keyed JSON values, elementwise.
pub open spec fn doc_view(s: Seq<(String, JsonValue)>) -> Seq<(Seq<char>, JsonV)> {
    Seq::new(s.len(), |i: int| (s[i].0@, s[i].1@))
}

pub broadcast proof fn lemma_json_seq_view(s: Seq<JsonValue>)
    ensures
        #[trigger] json_seq_view(s) =~= seq_view(s),
    decreases s.len(),
{
    if s.len() > 0 {
        lemma_json_seq_view(s.drop_last());
        assert(json_seq_view(s) == json_seq_view(s.drop_last()).push(s.last()@));
        assert(json_seq_view(s).len() == seq_view(s).len());
        assert forall|i: int| 0 <= i < s.len() implies json_seq_view(s)[i] == seq_view(s)[i] by {
            if i < s.len() - 1 {
                assert(seq_view(s.drop_last())[i] == s.drop_last()[i]@);
                assert(s.drop_last()[i] == s[i]);
            }
        }
    }
}

pub broadcast proof fn lemma_json_obj_view(s: Seq<(String, JsonValue)>)
    ensures
        #[trigger] json_obj_view(s) =~= doc_view(s),
    decreases s.len(),
{
    if s.len() > 0 {
        lemma_json_obj_view(s.drop_last());
        assert(json_obj_view(s) == json_obj_view(s.drop_last()).push((s.last().0@, s.last().1@)));
        assert(json_obj_view(s).len() == doc_view(s).len());
        assert forall|i: int| 0 <= i < s.len() implies json_obj_view(s)[i] == doc_view(s)[i] by {
            if i < s.len() - 1 {
                assert(doc_view(s.drop_last())[i] == (s.drop_last()[i].0@, s.drop_last()[i].1@));
                assert(s.drop_last()[i] == s[i]);
            }
        }
    }
}

#[verifier::external_type_specification]
#[verifier::external_body]
pub struct ExSerdeValue(serde_json::Value);

/// What `serde_json::from_str` returns on a text, translated into the
/// library's JSON data model; `None` where the text is not valid JSON.
/// The result is a function of the text alone.
pub uninterp spec fn json_of(s: Seq<char>) -> Option<JsonV>;

pub open spec fn opt_json_view(r: Option<JsonValue>) -> Option<JsonV> {
    match r {
        Some(v) => Some(v@),
        None => None,
    }
}

/// Looks a field up in the pairs of a JSON object; first occurrence wins.
pub fn doc_get<'a>(fields: &'a Vec<(String, JsonValue)>, key: &str) -> (r: Option<&'a JsonValue>)
    ensures
        match r {
            Some(v) => lookup(doc_view(fields@), key@) == Some(v@),
            None => lookup(doc_view(fields@), key@) is None,
        },
{
    let ghost fv = doc_view(fields@);
    let mut i: usize = 0;
    while i < fields.len()
        invariant
            0 <= i <= fields@.len(),
            fv == doc_view(fields@),
            fv.len() == fields@.len(),
            forall|j: int| 0 <= j < i ==> (#[trigger] fv[j]).0 != key@,
        decreases fields@.len() - i,
    {
        proof {
            assert(fv[i as int] == (fields@[i as int].0@, fields@[i as int].1@));
        }
        if str_eq(fields[i].0.as_str(), key) {
            proof {
                lemma_find_key_first(fv, key@, i as int);
            }
            return Some(&fields[i].1);
        }
        i = i + 1;
    }
    proof {
        lemma_find_key_bounds(fv, key@);
    }
    None
}

/// Relies on serde_json::Value: translates a parsed value into the library's
/// data model, arm by arm; a number is held as `Int` exactly when
/// `Number::as_i64` represents it, else as `Other`.
#[verifier::external_body]
fn convert_json(v: serde_json::Value) -> JsonValue {
    match v {
        serde_json::Value::Null => JsonValue::Null,
        serde_json::Value::Bool(b) => JsonValue::Bool(b),
        serde_json::Value::Number(n) => match n.as_i64() {
            Some(i) => JsonValue::Int(i),
            None => JsonValue::Other,
        },
        serde_json::Value::String(s) => JsonValue::Str(s),
        serde_json::Value::Array(a) => JsonValue::Arr(a.into_iter().map(convert_json).collect()),
        serde_json::Value::Object(m) => JsonValue::Obj(
            m.into_iter().map(|(k, val)| (k, convert_json(val))).collect(),
        ),
    }
}

/// Relies on serde_json::from_str::<serde_json::Value>: parses a JSON text,
/// or fails on anything that is not valid JSON.
#[verifier::external_body]
pub fn parse_json(text: &str) -> (r: Option<JsonValue>)
    ensures
        opt_json_view(r) == json_of(text@),
{
    match serde_json::from_str::<serde_json::Value>(text) {
        Ok(v) => Some(convert_json(v)),
        Err(_) => None,
    }
}

} // verus!
