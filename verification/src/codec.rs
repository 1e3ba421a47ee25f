use vstd::prelude::*;

use crate::error::ErrorKind;
use crate::error::GusError;
use crate::json::JsonV;
use crate::json::JsonValue;
use crate::json::doc_view;
use crate::json::json_of;
use crate::json::lemma_json_obj_view;
use crate::json::lemma_json_seq_view;
use crate::json::seq_view;
use crate::model_def::ModelDefinition;
use crate::model_def::ModelV;
use crate::name::AttrName;
use crate::name::is_valid_name;
use crate::pairs::find_key;
use crate::pairs::has_key;
use crate::pairs::key_set;
use crate::pairs::lemma_find_key_bounds;
use crate::pairs::lookup;
use crate::pairs::unique_keys;
use crate::pairs::upsert;
use crate::value::AttrType;
use crate::value::PrimV;
use crate::value::PrimitiveType;
use crate::value::Record;
use crate::value::TruePrimitiveType;
use crate::value::TrueType;
use crate::value::ValueV;

verus! {

// ---------------------------------------------------------------------------
// Coercion of untyped values into the value algebra
// ---------------------------------------------------------------------------

/// Coercion of one JSON value to a primitive of kind `t`: null is "no value"
/// on an optional attribute and an error on a required one; otherwise the
/// JSON shape must match the primitive kind exactly.
pub open spec fn spec_coerce_prim(v: JsonV, t: PrimitiveType, required: bool) -> Result<
    Option<PrimV>,
    (),
> {
    if v is Null {
        if required {
            Err(())
        } else {
            Ok(None)
        }
    } else {
        match t {
            PrimitiveType::Integer => match v {
                JsonV::Int(i) => Ok(Some(PrimV::Int(i))),
                _ => Err(()),
            },
            PrimitiveType::String => match v {
                JsonV::Str(s) => Ok(Some(PrimV::Str(s))),
                _ => Err(()),
            },
            PrimitiveType::Boolean => match v {
                JsonV::Bool(b) => Ok(Some(PrimV::Bool(b))),
                _ => Err(()),
            },
        }
    }
}

pub open spec fn array_elem_ok(e: JsonV, t: PrimitiveType) -> bool {
    spec_coerce_prim(e, t, true) is Ok
}

/// Coercion of the elements of a JSON array: every element is coerced as a
/// required primitive, so null elements fail.
pub open spec fn spec_coerce_elems(es: Seq<JsonV>, t: PrimitiveType) -> Result<Seq<PrimV>, ()> {
    if forall|i: int| 0 <= i < es.len() ==> array_elem_ok(#[trigger] es[i], t) {
        Ok(Seq::new(es.len(), |i: int| spec_coerce_prim(es[i], t, true).unwrap().unwrap()))
    } else {
        Err(())
    }
}

/// Coercion of one JSON value to an attribute value of type `ty`. An array
/// attribute takes a JSON array, or null when optional, in which case the
/// whole attribute becomes the explicit "no value".
pub open spec fn spec_coerce_value(v: JsonV, ty: AttrType, required: bool) -> Result<ValueV, ()> {
    match ty {
        AttrType::Primitive(t) => match spec_coerce_prim(v, t, required) {
            Ok(p) => Ok(ValueV::Prim(p)),
            Err(_) => Err(()),
        },
        AttrType::Array(t) => match v {
            JsonV::Arr(es) => match spec_coerce_elems(es, t) {
                Ok(ps) => Ok(ValueV::Arr(Some(ps))),
                Err(_) => Err(()),
            },
            JsonV::Null => if !required {
                Ok(ValueV::Prim(None))
            } else {
                Err(())
            },
            _ => Err(()),
        },
    }
}

pub open spec fn opt_prim_view(o: Option<TruePrimitiveType>) -> Option<PrimV> {
    match o {
        Some(p) => Some(p@),
        None => None,
    }
}

/// Coerces a JSON value to a primitive value of the given kind, exactly as
/// `spec_coerce_prim` describes.
pub fn to_true_prim_type(value: &JsonValue, model_type: &PrimitiveType, is_required: bool) -> (r:
    Result<Option<TruePrimitiveType>, GusError>)
    ensures
        match spec_coerce_prim(value@, *model_type, is_required) {
            Ok(po) => r matches Ok(ro) && opt_prim_view(ro) == po,
            Err(_) => r matches Err(e) && e.kind == ErrorKind::InvalidData,
        },
{
    match value {
        JsonValue::Null => {
            if is_required {
                Err(GusError::new(ErrorKind::InvalidData, "it is required, got: null"))
            } else {
                Ok(None)
            }
        },
        _ => {
            match model_type {
                PrimitiveType::Integer => match value {
                    JsonValue::Int(i) => Ok(Some(TruePrimitiveType::Integer(*i))),
                    _ => Err(GusError::new(ErrorKind::InvalidData, "expected: Integer")),
                },
                PrimitiveType::String => match value {
                    JsonValue::Str(s) => Ok(Some(TruePrimitiveType::String(s.clone()))),
                    _ => Err(GusError::new(ErrorKind::InvalidData, "expected: String")),
                },
                PrimitiveType::Boolean => match value {
                    JsonValue::Bool(b) => Ok(Some(TruePrimitiveType::Boolean(*b))),
                    _ => Err(GusError::new(ErrorKind::InvalidData, "expected: Boolean")),
                },
            }
        },
    }
}

/// Coerces a JSON value to an attribute value of the given type, exactly as
/// `spec_coerce_value` describes.
#[verifier::loop_isolation(false)]
pub fn coerce_value(value: &JsonValue, ty: AttrType, is_required: bool) -> (r: Result<
    TrueType,
    GusError,
>)
    ensures
        match spec_coerce_value(value@, ty, is_required) {
            Ok(vv) => r matches Ok(rv) && rv@ == vv,
            Err(_) => r matches Err(e) && e.kind == ErrorKind::InvalidData,
        },
{
    match ty {
        AttrType::Primitive(t) => match to_true_prim_type(value, &t, is_required) {
            Ok(p) => Ok(TrueType::Primitive(p)),
            Err(e) => Err(e),
        },
        AttrType::Array(t) => match value {
            JsonValue::Arr(es) => {
                proof {
                    lemma_json_seq_view(es@);
                }
                let ghost ev = seq_view(es@);
                let mut out: Vec<TruePrimitiveType> = Vec::new();
                let mut i: usize = 0;
                while i < es.len()
                    invariant
                        0 <= i <= es@.len(),
                        out@.len() == i,
                        forall|j: int| 0 <= j < i ==> array_elem_ok(#[trigger] ev[j], t),
                        forall|j: int| 0 <= j < i ==> (#[trigger] out@[j])@ == spec_coerce_prim(
                            ev[j],
                            t,
                            true,
                        ).unwrap().unwrap(),
                    decreases es@.len() - i,
                {
                    proof {
                        assert(ev[i as int] == es@[i as int]@);
                    }
                    match to_true_prim_type(&es[i], &t, true) {
                        Ok(Some(p)) => {
                            out.push(p);
                        },
                        _ => {
                            assert(!array_elem_ok(ev[i as int], t));
                            return Err(
                                GusError::new(
                                    ErrorKind::InvalidData,
                                    "wrong type of array attribute",
                                ),
                            );
                        },
                    }
                    i = i + 1;
                }
                let r = TrueType::Array(Some(out));
                proof {
                    assert(spec_coerce_elems(ev, t) is Ok);
                    assert(r@ matches ValueV::Arr(Some(ps)) && ps =~= spec_coerce_elems(
                        ev,
                        t,
                    ).unwrap());
                }
                Ok(r)
            },
            JsonValue::Null => {
                if !is_required {
                    Ok(TrueType::Primitive(None))
                } else {
                    Err(GusError::new(ErrorKind::InvalidData, "it is required, got: null"))
                }
            },
            _ => Err(GusError::new(ErrorKind::InvalidData, "expected: Array")),
        },
    }
}

// ---------------------------------------------------------------------------
// Building a record out of a parsed document
// ---------------------------------------------------------------------------

/// One document entry is acceptable: a validly named attribute the model
/// defines, whose value coerces to the attribute's type.
pub open spec fn doc_entry_ok(m: ModelV, e: (Seq<char>, JsonV)) -> bool {
    &&& is_valid_name(e.0)
    &&& m.attr_of(e.0) matches Some(ty) && spec_coerce_value(e.1, ty, m.is_required(e.0)) is Ok
}

/// The coerced value of one acceptable document entry.
pub open spec fn coerced_entry(m: ModelV, e: (Seq<char>, JsonV)) -> ValueV {
    spec_coerce_value(e.1, m.attr_of(e.0).unwrap(), m.is_required(e.0)).unwrap()
}

/// The record pairs built out of acceptable document entries, in order; a
/// repeated key keeps its first position and the latest value.
pub open spec fn spec_record_pairs(m: ModelV, pairs: Seq<(Seq<char>, JsonV)>) -> Seq<
    (Seq<char>, ValueV),
>
    decreases pairs.len(),
{
    if pairs.len() == 0 {
        Seq::empty()
    } else {
        upsert(
            spec_record_pairs(m, pairs.drop_last()),
            pairs.last().0,
            coerced_entry(m, pairs.last()),
        )
    }
}

/// What building a record out of a JSON document yields: the document must be
/// an object, every required attribute must be present, and every entry must
/// be acceptable.
pub open spec fn spec_record_from_doc(m: ModelV, j: JsonV) -> Result<
    Seq<(Seq<char>, ValueV)>,
    (),
> {
    match j {
        JsonV::Obj(pairs) => {
            if !(forall|i: int|
                0 <= i < m.required.len() ==> has_key(pairs, #[trigger] m.required[i])) {
                Err(())
            } else if !(forall|i: int| 0 <= i < pairs.len() ==> doc_entry_ok(m, #[trigger] pairs[i])) {
                Err(())
            } else {
                Ok(spec_record_pairs(m, pairs))
            }
        },
        _ => Err(()),
    }
}

/// Builds a typed record out of a parsed JSON document against a model,
/// exactly as `spec_record_from_doc` describes: fails where the document is
/// not an object, where a required attribute is missing, on an unknown or
/// invalidly named attribute, and on any value that does not coerce.
pub fn record_from_document(doc: &JsonValue, model: &ModelDefinition) -> (r: Result<
    Record,
    GusError,
>)
    ensures
        match spec_record_from_doc(model@, doc@) {
            Ok(pv) => r matches Ok(rec) && rec@ == pv,
            Err(_) => r is Err,
        },
        r matches Err(e) ==> e.kind == ErrorKind::InvalidData,
{
    let fields = match doc {
        JsonValue::Obj(fields) => fields,
        _ => {
            return Err(
                GusError::new(ErrorKind::InvalidData, "Given JSON-String is not valid JSON"),
            );
        },
    };
    proof {
        lemma_json_obj_view(fields@);
    }
    record_from_fields(fields, model)
}

/// Builds a typed record out of the entries of a JSON object against a model,
/// exactly as `spec_record_from_doc` on an object with these entries.
#[verifier::loop_isolation(false)]
pub fn record_from_fields(fields: &Vec<(String, JsonValue)>, model: &ModelDefinition) -> (r:
    Result<Record, GusError>)
    ensures
        match spec_record_from_doc(model@, JsonV::Obj(doc_view(fields@))) {
            Ok(pv) => r matches Ok(rec) && rec@ == pv,
            Err(_) => r is Err,
        },
        r matches Err(e) ==> e.kind == ErrorKind::InvalidData,
{
    let ghost fv = doc_view(fields@);

    // check for missing required attributes
    let mut i: usize = 0;
    while i < model.required.len()
        invariant
            0 <= i <= model.required@.len(),
            forall|j: int| 0 <= j < i ==> has_key(fv, #[trigger] model@.required[j]),
        decreases model.required@.len() - i,
    {
        proof {
            assert(model@.required[i as int] == model.required@[i as int]@);
        }
        match crate::json::doc_get(fields, model.required[i].0.as_str()) {
            Some(_) => {},
            None => {
                return Err(GusError::new(ErrorKind::InvalidData, "Missing attribute"));
            },
        }
        i = i + 1;
    }

    // convert the document to a record
    let mut record = Record::new();
    let mut i: usize = 0;
    while i < fields.len()
        invariant
            0 <= i <= fields@.len(),
            forall|j: int| 0 <= j < i ==> doc_entry_ok(model@, #[trigger] fv[j]),
            record@ == spec_record_pairs(model@, fv.subrange(0, i as int)),
        decreases fields@.len() - i,
    {
        proof {
            assert(fv[i as int] == (fields@[i as int].0@, fields@[i as int].1@));
        }
        let key = match AttrName::try_from(fields[i].0.as_str()) {
            Ok(a) => a,
            Err(_) => {
                assert(!doc_entry_ok(model@, fv[i as int]));
                return Err(
                    GusError::new(ErrorKind::InvalidData, "Given JSON-String is not valid JSON"),
                );
            },
        };
        let ty = match model.attr_get(&key) {
            Some(t) => t,
            None => {
                assert(!doc_entry_ok(model@, fv[i as int]));
                return Err(GusError::new(ErrorKind::InvalidData, "Unknown attribute"));
            },
        };
        let is_required = model.required_contains(&key);
        match coerce_value(&fields[i].1, ty, is_required) {
            Ok(v) => {
                record.insert(key, v);
            },
            Err(_) => {
                assert(!doc_entry_ok(model@, fv[i as int]));
                return Err(GusError::new(ErrorKind::InvalidData, "Wrong type of attribute"));
            },
        }
        proof {
            let pre = fv.subrange(0, i as int);
            let post = fv.subrange(0, i + 1 as int);
            assert(post.drop_last() =~= pre);
            assert(post.last() == fv[i as int]);
        }
        i = i + 1;
    }
    proof {
        assert(fv.subrange(0, fv.len() as int) =~= fv);
    }
    match check_constraints(&record) {
        Ok(_) => Ok(record),
        Err(e) => Err(e),
    }
}

/// The reserved constraint hook: currently accepts every record.
pub fn check_constraints(record: &Record) -> (r: Result<(), GusError>)
    ensures
        r is Ok,
{
    Ok(())
}

/// What parsing a record text yields: the JSON parse, then the record build.
pub open spec fn spec_parse_record(t: Seq<char>, m: ModelV) -> Result<Seq<(Seq<char>, ValueV)>, ()> {
    match json_of(t) {
        Some(j) => spec_record_from_doc(m, j),
        None => Err(()),
    }
}

/// Parses a JSON text to a record appropriate to the given model definition,
/// exactly as `spec_parse_record` describes.
pub fn parse_record(json: &str, model: &ModelDefinition) -> (r: Result<Record, GusError>)
    ensures
        match spec_parse_record(json@, model@) {
            Ok(pv) => r matches Ok(rec) && rec@ == pv,
            Err(_) => r is Err,
        },
        r matches Err(e) ==> e.kind == ErrorKind::InvalidData,
{
    match crate::json::parse_json(json) {
        Some(doc) => record_from_document(&doc, model),
        None => Err(GusError::new(ErrorKind::InvalidData, "Given JSON-String is not valid JSON")),
    }
}

// ---------------------------------------------------------------------------
// Backfilling nulls
// ---------------------------------------------------------------------------

/// The record pairs after backfilling: every model attribute absent from the
/// record is appended with the explicit "no value", in attribute order.
pub open spec fn spec_add_nulls(
    rec: Seq<(Seq<char>, ValueV)>,
    attrs: Seq<(Seq<char>, AttrType)>,
) -> Seq<(Seq<char>, ValueV)>
    decreases attrs.len(),
{
    if attrs.len() == 0 {
        rec
    } else {
        let prev = spec_add_nulls(rec, attrs.drop_last());
        if has_key(prev, attrs.last().0) {
            prev
        } else {
            prev.push((attrs.last().0, ValueV::Prim(None)))
        }
    }
}

/// Backfills every attribute defined on the model but absent from the record
/// with an explicit "no value", so responses have a uniform attribute set.
#[verifier::loop_isolation(false)]
pub fn add_null_values(record: Record, model: &ModelDefinition) -> (r: Record)
    ensures
        r@ == spec_add_nulls(record@, model@.attributes),
{
    let ghost orig = record@;
    let mut record = record;
    let mut i: usize = 0;
    while i < model.attributes.len()
        invariant
            0 <= i <= model.attributes@.len(),
            record@ == spec_add_nulls(orig, model@.attributes.subrange(0, i as int)),
        decreases model.attributes@.len() - i,
    {
        proof {
            assert(model@.attributes[i as int] == (
                model.attributes@[i as int].0@,
                model.attributes@[i as int].1,
            ));
        }
        let ghost before = record@;
        if !record.contains_key(&model.attributes[i].0) {
            let key = model.attributes[i].0.dup();
            record.insert(key, TrueType::null());
            proof {
                assert(record@ =~= before.push((
                    model@.attributes[i as int].0,
                    ValueV::Prim(None),
                )));
            }
        }
        proof {
            let pre = model@.attributes.subrange(0, i as int);
            let post = model@.attributes.subrange(0, i + 1 as int);
            assert(post.drop_last() =~= pre);
            assert(post.last() == model@.attributes[i as int]);
        }
        i = i + 1;
    }
    proof {
        assert(model@.attributes.subrange(0, model@.attributes.len() as int) =~= model@.attributes);
    }
    record
}

// ---------------------------------------------------------------------------
// Laws of the codec
// ---------------------------------------------------------------------------

/// The record built out of a document has exactly the document's keys.
pub proof fn lemma_record_pairs_keys(m: ModelV, pairs: Seq<(Seq<char>, JsonV)>, k: Seq<char>)
    ensures
        has_key(spec_record_pairs(m, pairs), k) <==> has_key(pairs, k),
    decreases pairs.len(),
{
    crate::pairs::lemma_find_key_bounds(pairs, k);
    if pairs.len() == 0 {
        crate::pairs::lemma_find_key_bounds(spec_record_pairs(m, pairs), k);
    } else {
        lemma_record_pairs_keys(m, pairs.drop_last(), k);
        crate::pairs::lemma_find_key_bounds(pairs.drop_last(), k);
        crate::pairs::lemma_lookup_upsert(
            spec_record_pairs(m, pairs.drop_last()),
            pairs.last().0,
            coerced_entry(m, pairs.last()),
            k,
        );
        if has_key(pairs, k) {
            let i = find_key(pairs, k);
            if i < pairs.len() - 1 {
                assert(pairs.drop_last()[i] == pairs[i]);
                crate::pairs::lemma_find_key_first(pairs.drop_last(), k, i);
            }
        } else {
            assert(pairs[pairs.len() - 1].0 != k);
            if has_key(pairs.drop_last(), k) {
                let i = find_key(pairs.drop_last(), k);
                crate::pairs::lemma_find_key_bounds(pairs.drop_last(), k);
                assert(pairs[i] == pairs.drop_last()[i]);
            }
        }
    }
}

/// Backfilling adds exactly the model's attribute names to the key set.
pub proof fn lemma_add_nulls_keys(
    rec: Seq<(Seq<char>, ValueV)>,
    attrs: Seq<(Seq<char>, AttrType)>,
    k: Seq<char>,
)
    ensures
        has_key(spec_add_nulls(rec, attrs), k) <==> has_key(rec, k) || has_key(attrs, k),
        has_key(rec, k) ==> lookup(spec_add_nulls(rec, attrs), k) == lookup(rec, k),
    decreases attrs.len(),
{
    crate::pairs::lemma_find_key_bounds(attrs, k);
    if attrs.len() == 0 {
    } else {
        lemma_add_nulls_keys(rec, attrs.drop_last(), k);
        lemma_add_nulls_keys(rec, attrs.drop_last(), attrs.last().0);
        let prev = spec_add_nulls(rec, attrs.drop_last());
        crate::pairs::lemma_find_key_bounds(attrs.drop_last(), k);
        if !has_key(prev, attrs.last().0) {
            crate::pairs::lemma_lookup_push(prev, attrs.last().0, ValueV::Prim(None), k);
        }
        if has_key(attrs, k) {
            let i = find_key(attrs, k);
            if i < attrs.len() - 1 {
                assert(attrs.drop_last()[i] == attrs[i]);
                crate::pairs::lemma_find_key_first(attrs.drop_last(), k, i);
            }
        } else {
            assert(attrs[attrs.len() - 1].0 != k);
            if has_key(attrs.drop_last(), k) {
                let i = find_key(attrs.drop_last(), k);
                crate::pairs::lemma_find_key_bounds(attrs.drop_last(), k);
                assert(attrs[i] == attrs.drop_last()[i]);
            }
        }
    }
}

/// Law: for any record produced by building a document against a model and
/// then backfilling nulls, the resulting key set equals exactly the key set
/// of the model's attributes.
pub proof fn lemma_parsed_record_key_set(m: ModelV, j: JsonV, pv: Seq<(Seq<char>, ValueV)>)
    requires
        spec_record_from_doc(m, j) == Ok::<Seq<(Seq<char>, ValueV)>, ()>(pv),
    ensures
        key_set(spec_add_nulls(pv, m.attributes)) =~= key_set(m.attributes),
{
    let pairs = match j {
        JsonV::Obj(pairs) => pairs,
        _ => Seq::empty(),
    };
    assert forall|k: Seq<char>|
        has_key(spec_add_nulls(pv, m.attributes), k) <==> has_key(m.attributes, k) by {
        lemma_add_nulls_keys(pv, m.attributes, k);
        lemma_record_pairs_keys(m, pairs, k);
        if has_key(pairs, k) {
            crate::pairs::lemma_find_key_bounds(pairs, k);
            let i = find_key(pairs, k);
            assert(doc_entry_ok(m, pairs[i]));
            crate::pairs::lemma_find_key_bounds(m.attributes, k);
        }
    }
}

// ---------------------------------------------------------------------------
// Re-serialization and the round-trip law
// ---------------------------------------------------------------------------

/// One primitive value projected back into the JSON data model.
pub open spec fn prim_to_json(p: PrimV) -> JsonV {
    match p {
        PrimV::Int(i) => JsonV::Int(i),
        PrimV::Str(s) => JsonV::Str(s),
        PrimV::Bool(b) => JsonV::Bool(b),
    }
}

/// One attribute value projected back into the JSON data model; the explicit
/// "no value" becomes null.
pub open spec fn value_to_json(v: ValueV) -> JsonV {
    match v {
        ValueV::Prim(None) => JsonV::Null,
        ValueV::Prim(Some(p)) => prim_to_json(p),
        ValueV::Arr(None) => JsonV::Null,
        ValueV::Arr(Some(es)) => JsonV::Arr(Seq::new(es.len(), |i: int| prim_to_json(es[i]))),
    }
}

/// A record projected back into a JSON document, pair by pair.
pub open spec fn spec_record_to_doc(rv: Seq<(Seq<char>, ValueV)>) -> Seq<(Seq<char>, JsonV)> {
    Seq::new(rv.len(), |i: int| (rv[i].0, value_to_json(rv[i].1)))
}

fn prim_to_json_exec(p: &TruePrimitiveType) -> (r: JsonValue)
    ensures
        r@ == prim_to_json(p@),
{
    match p {
        TruePrimitiveType::Integer(i) => JsonValue::Int(*i),
        TruePrimitiveType::String(s) => JsonValue::Str(s.clone()),
        TruePrimitiveType::Boolean(b) => JsonValue::Bool(*b),
    }
}

fn value_to_json_exec(v: &TrueType) -> (r: JsonValue)
    ensures
        r@ == value_to_json(v@),
{
    match v {
        TrueType::Primitive(None) => JsonValue::Null,
        TrueType::Primitive(Some(p)) => prim_to_json_exec(p),
        TrueType::Array(None) => JsonValue::Null,
        TrueType::Array(Some(es)) => {
            let ghost ev = Seq::new(es@.len(), |i: int| es@[i]@);
            let mut out: Vec<JsonValue> = Vec::new();
            let mut i: usize = 0;
            while i < es.len()
                invariant
                    0 <= i <= es@.len(),
                    ev == Seq::new(es@.len(), |j: int| es@[j]@),
                    out@.len() == i,
                    forall|j: int| 0 <= j < i ==> (#[trigger] out@[j])@ == prim_to_json(ev[j]),
                decreases es@.len() - i,
            {
                proof {
                    assert(ev[i as int] == es@[i as int]@);
                }
                out.push(prim_to_json_exec(&es[i]));
                i = i + 1;
            }
            let r = JsonValue::Arr(out);
            proof {
                crate::json::lemma_json_seq_view(r->Arr_0@);
                assert(crate::json::seq_view(r->Arr_0@) =~= Seq::new(
                    ev.len(),
                    |j: int| prim_to_json(ev[j]),
                ));
                assert(r@ =~= value_to_json(v@));
            }
            r
        },
    }
}

/// Serializes a record back into a JSON document, exactly the projection
/// `spec_record_to_doc` of its pairs.
pub fn record_to_document(rec: &Record) -> (r: JsonValue)
    ensures
        r@ == JsonV::Obj(spec_record_to_doc(rec@)),
{
    let mut out: Vec<(String, JsonValue)> = Vec::new();
    let mut i: usize = 0;
    while i < rec.pairs.len()
        invariant
            0 <= i <= rec.pairs@.len(),
            rec@.len() == rec.pairs@.len(),
            out@.len() == i,
            forall|j: int| 0 <= j < i ==> ((#[trigger] out@[j]).0@, out@[j].1@) == (
                rec@[j].0,
                value_to_json(rec@[j].1),
            ),
        decreases rec.pairs@.len() - i,
    {
        proof {
            assert(rec@[i as int] == (rec.pairs@[i as int].0@, rec.pairs@[i as int].1@));
        }
        out.push((rec.pairs[i].0.0.clone(), value_to_json_exec(&rec.pairs[i].1)));
        i = i + 1;
    }
    let r = JsonValue::Obj(out);
    proof {
        crate::json::lemma_json_obj_view(r->Obj_0@);
        assert(crate::json::doc_view(r->Obj_0@) =~= spec_record_to_doc(rec@));
        assert(r@ =~= JsonV::Obj(spec_record_to_doc(rec@)));
    }
    r
}

/// A primitive value of the given primitive kind.
pub open spec fn prim_matches(p: PrimV, t: PrimitiveType) -> bool {
    match (p, t) {
        (PrimV::Int(_), PrimitiveType::Integer) => true,
        (PrimV::Str(_), PrimitiveType::String) => true,
        (PrimV::Bool(_), PrimitiveType::Boolean) => true,
        _ => false,
    }
}

/// An attribute value conforming to an attribute type under the model's
/// nullability rules: what the codec itself produces.
pub open spec fn value_conforms(v: ValueV, ty: AttrType, required: bool) -> bool {
    match ty {
        AttrType::Primitive(t) => v matches ValueV::Prim(po) && (match po {
            None => !required,
            Some(p) => prim_matches(p, t),
        }),
        AttrType::Array(t) => (v == ValueV::Prim(None::<PrimV>) && !required) || (
        v matches ValueV::Arr(Some(es)) && forall|i: int|
            0 <= i < es.len() ==> prim_matches(#[trigger] es[i], t)),
    }
}

/// A record conforming to a model: unique, validly named attributes the model
/// defines, each value of its attribute's type, required ones present.
pub open spec fn conforms(m: ModelV, rv: Seq<(Seq<char>, ValueV)>) -> bool {
    &&& unique_keys(rv)
    &&& forall|i: int| 0 <= i < rv.len() ==> is_valid_name((#[trigger] rv[i]).0)
    &&& forall|i: int|
        0 <= i < rv.len() ==> (m.attr_of((#[trigger] rv[i]).0) matches Some(ty) && value_conforms(
            rv[i].1,
            ty,
            m.is_required(rv[i].0),
        ))
    &&& forall|i: int| 0 <= i < m.required.len() ==> has_key(rv, #[trigger] m.required[i])
}

/// Coercion undoes the JSON projection of a conforming value.
proof fn lemma_coerce_round(v: ValueV, ty: AttrType, required: bool)
    requires
        value_conforms(v, ty, required),
    ensures
        spec_coerce_value(value_to_json(v), ty, required) == Ok::<ValueV, ()>(v),
{
    match ty {
        AttrType::Primitive(t) => {},
        AttrType::Array(t) => {
            if v == ValueV::Prim(None::<PrimV>) {
            } else {
                let es = v->Arr_0.unwrap();
                let js = Seq::new(es.len(), |i: int| prim_to_json(es[i]));
                assert forall|i: int| 0 <= i < js.len() implies array_elem_ok(#[trigger] js[i], t) by {
                    assert(prim_matches(es[i], t));
                }
                assert(spec_coerce_elems(js, t) is Ok);
                assert(spec_coerce_elems(js, t).unwrap() =~= es);
            }
        },
    }
}

/// The pairs built back from a conforming record's projection are the record.
proof fn lemma_record_pairs_id(m: ModelV, rv: Seq<(Seq<char>, ValueV)>)
    requires
        unique_keys(rv),
        forall|i: int|
            0 <= i < rv.len() ==> (m.attr_of((#[trigger] rv[i]).0) matches Some(ty)
                && value_conforms(rv[i].1, ty, m.is_required(rv[i].0))),
    ensures
        spec_record_pairs(m, spec_record_to_doc(rv)) =~= rv,
    decreases rv.len(),
{
    let doc = spec_record_to_doc(rv);
    if rv.len() > 0 {
        let pre = rv.drop_last();
        assert(unique_keys(pre)) by {
            assert forall|a: int, b: int| 0 <= a < b < pre.len() implies (#[trigger] pre[a]).0 != (
            #[trigger] pre[b]).0 by {
                assert(pre[a] == rv[a]);
                assert(pre[b] == rv[b]);
            }
        }
        assert forall|i: int| 0 <= i < pre.len() implies (m.attr_of((#[trigger] pre[i]).0)
            matches Some(ty) && value_conforms(pre[i].1, ty, m.is_required(pre[i].0))) by {
            assert(pre[i] == rv[i]);
        }
        lemma_record_pairs_id(m, pre);
        assert(doc.drop_last() =~= spec_record_to_doc(pre));
        assert(doc.last() == (rv.last().0, value_to_json(rv.last().1)));
        lemma_coerce_round(
            rv.last().1,
            m.attr_of(rv.last().0).unwrap(),
            m.is_required(rv.last().0),
        );
        assert(coerced_entry(m, doc.last()) == rv.last().1);
        assert(!has_key(pre, rv.last().0)) by {
            crate::pairs::lemma_find_key_bounds(pre, rv.last().0);
            if has_key(pre, rv.last().0) {
                let j = find_key(pre, rv.last().0);
                assert(pre[j] == rv[j]);
                assert(rv[j].0 == rv[rv.len() - 1].0);
            }
        }
        crate::pairs::lemma_find_key_same_keys(spec_record_to_doc(pre), pre, rv.last().0);
        assert(spec_record_pairs(m, doc) =~= rv);
    }
}

/// Law: re-serializing a record already conforming to a model and re-parsing
/// it against that model yields an equal record.
pub proof fn lemma_codec_round_trip(m: ModelV, rv: Seq<(Seq<char>, ValueV)>)
    requires
        conforms(m, rv),
    ensures
        spec_record_from_doc(m, JsonV::Obj(spec_record_to_doc(rv))) == Ok::<
            Seq<(Seq<char>, ValueV)>,
            (),
        >(rv),
{
    let doc = spec_record_to_doc(rv);
    assert forall|i: int| 0 <= i < m.required.len() implies has_key(
        doc,
        #[trigger] m.required[i],
    ) by {
        crate::pairs::lemma_find_key_same_keys(doc, rv, m.required[i]);
    }
    assert forall|i: int| 0 <= i < doc.len() implies doc_entry_ok(m, #[trigger] doc[i]) by {
        assert(doc[i] == (rv[i].0, value_to_json(rv[i].1)));
        lemma_coerce_round(rv[i].1, m.attr_of(rv[i].0).unwrap(), m.is_required(rv[i].0));
    }
    lemma_record_pairs_id(m, rv);
    assert(spec_record_pairs(m, doc) == rv);
}

} // verus!
