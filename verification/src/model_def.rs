use vstd::prelude::*;

use crate::error::ErrorKind;
use crate::error::GusError;
use crate::json::JsonV;
use crate::json::JsonValue;
use crate::name::AttrName;
use crate::name::ModelName;
use crate::name::is_valid_name;
use crate::name::plural_of;
use crate::name::singular_of;
use crate::name::str_eq;
use crate::pairs::has_key;
use crate::pairs::lemma_find_key_bounds;
use crate::pairs::lemma_find_key_first;
use crate::pairs::lookup;
use crate::pairs::unique_keys;
use crate::value::AttrType;
use crate::value::PrimitiveType;

verus! {

/// Selects the storage backend of a model.
#[allow(non_camel_case_types)]
#[derive(Clone, Copy, Debug, PartialEq, Eq, Structural, Hash)]
pub enum StorageType {
    json,
}

// Reserved constraint hooks, currently unused by the codec.
#[derive(Clone, Copy, Debug, PartialEq, Eq, Structural)]
pub struct IntConstraint;

#[derive(Clone, Copy, Debug, PartialEq, Eq, Structural)]
pub struct StrConstraint;

#[derive(Clone, Copy, Debug, PartialEq, Eq, Structural)]
pub struct BoolConstraint;

#[derive(Clone, Copy, Debug, PartialEq, Eq, Structural)]
pub struct FloatConstraint;

#[derive(Clone, Copy, Debug, PartialEq, Eq, Structural)]
pub struct ArrayConstraint;

/// A reserved, currently unused constraint on an attribute.
#[derive(Clone, Copy, Debug, PartialEq, Eq, Structural)]
pub enum Constraints {
    Integer(IntConstraint),
    String(StrConstraint),
    Boolean(BoolConstraint),
    Float(FloatConstraint),
}

/// The schema of one model.
#[derive(Clone, Debug)]
pub struct ModelDefinition {
    pub model_name: ModelName,
    pub storage_type: StorageType,
    pub attributes: Vec<(AttrName, AttrType)>,
    pub primary_key: AttrName,
    pub required: Vec<AttrName>,
    pub constraints: Option<Vec<(AttrName, Constraints)>>,
}

/// The mathematical shape of a model definition.
#[verifier::ext_equal]
pub struct ModelV {
    pub model_name: Seq<char>,
    pub storage_type: StorageType,
    pub attributes: Seq<(Seq<char>, AttrType)>,
    pub primary_key: Seq<char>,
    pub required: Seq<Seq<char>>,
    pub constraints: Option<Seq<(Seq<char>, Constraints)>>,
}

impl View for ModelDefinition {
    type V = ModelV;

    open spec fn view(&self) -> ModelV {
        ModelV {
            model_name: self.model_name@,
            storage_type: self.storage_type,
            attributes: Seq::new(
                self.attributes@.len(),
                |i: int| (self.attributes@[i].0@, self.attributes@[i].1),
            ),
            primary_key: self.primary_key@,
            required: Seq::new(self.required@.len(), |i: int| self.required@[i]@),
            constraints: match &self.constraints {
                Some(cs) => Some(Seq::new(cs@.len(), |i: int| (cs@[i].0@, cs@[i].1))),
                None => None,
            },
        }
    }
}

impl ModelV {
    /// The type of an attribute, if the model defines it.
    pub open spec fn attr_of(self, k: Seq<char>) -> Option<AttrType> {
        lookup(self.attributes, k)
    }

    pub open spec fn is_required(self, k: Seq<char>) -> bool {
        self.required.contains(k)
    }

    /// The structural invariants of a model definition: the primary key is a
    /// defined, non-array attribute; the primary key is required; every
    /// required name is a defined attribute. These are what the record
    /// pipeline relies on.
    pub open spec fn structure_ok(self) -> bool {
        &&& self.attr_of(self.primary_key) matches Some(AttrType::Primitive(_))
        &&& self.is_required(self.primary_key)
        &&& forall|i: int|
            0 <= i < self.required.len() ==> has_key(self.attributes, #[trigger] self.required[i])
    }

    /// The naming invariant: the model name has distinct singular and plural
    /// forms, so an uncountable or invalid name is rejected.
    pub open spec fn inflection_ok(self) -> bool {
        singular_of(self.model_name) != plural_of(self.model_name)
    }

    /// The full model-definition invariant.
    pub open spec fn valid(self) -> bool {
        self.structure_ok() && self.inflection_ok()
    }
}

impl ModelDefinition {
    /// Attribute names occur at most once.
    pub open spec fn wf(&self) -> bool {
        unique_keys(self@.attributes)
    }

    /// Looks an attribute up by name.
    pub fn attr_get(&self, key: &AttrName) -> (r: Option<AttrType>)
        ensures
            r == self@.attr_of(key@),
    {
        let mut i: usize = 0;
        while i < self.attributes.len()
            invariant
                0 <= i <= self.attributes@.len(),
                self@.attributes.len() == self.attributes@.len(),
                forall|j: int| 0 <= j < i ==> (#[trigger] self@.attributes[j]).0 != key@,
            decreases self.attributes@.len() - i,
        {
            proof {
                assert(self@.attributes[i as int] == (
                    self.attributes@[i as int].0@,
                    self.attributes@[i as int].1,
                ));
            }
            if self.attributes[i].0.eq_name(key) {
                proof {
                    lemma_find_key_first(self@.attributes, key@, i as int);
                }
                return Some(self.attributes[i].1);
            }
            i = i + 1;
        }
        proof {
            lemma_find_key_bounds(self@.attributes, key@);
        }
        None
    }

    /// A copy with the same view.
    pub fn dup(&self) -> (r: ModelDefinition)
        ensures
            r@ == self@,
    {
        let mut attributes: Vec<(AttrName, AttrType)> = Vec::new();
        let mut i: usize = 0;
        while i < self.attributes.len()
            invariant
                0 <= i <= self.attributes@.len(),
                attributes@.len() == i,
                forall|j: int| 0 <= j < i ==> ((#[trigger] attributes@[j]).0@, attributes@[j].1)
                    == (self.attributes@[j].0@, self.attributes@[j].1),
            decreases self.attributes@.len() - i,
        {
            attributes.push((self.attributes[i].0.dup(), self.attributes[i].1));
            i = i + 1;
        }
        let mut required: Vec<AttrName> = Vec::new();
        let mut i: usize = 0;
        while i < self.required.len()
            invariant
                0 <= i <= self.required@.len(),
                required@.len() == i,
                forall|j: int| 0 <= j < i ==> (#[trigger] required@[j])@ == self.required@[j]@,
            decreases self.required@.len() - i,
        {
            required.push(self.required[i].dup());
            i = i + 1;
        }
        let constraints: Option<Vec<(AttrName, Constraints)>> = match &self.constraints {
            None => None,
            Some(cs) => {
                let mut out: Vec<(AttrName, Constraints)> = Vec::new();
                let mut i: usize = 0;
                while i < cs.len()
                    invariant
                        0 <= i <= cs@.len(),
                        out@.len() == i,
                        forall|j: int| 0 <= j < i ==> ((#[trigger] out@[j]).0@, out@[j].1) == (
                            cs@[j].0@,
                            cs@[j].1,
                        ),
                    decreases cs@.len() - i,
                {
                    out.push((cs[i].0.dup(), cs[i].1));
                    i = i + 1;
                }
                Some(out)
            },
        };
        let r = ModelDefinition {
            model_name: self.model_name.dup(),
            storage_type: self.storage_type,
            attributes,
            primary_key: self.primary_key.dup(),
            required,
            constraints,
        };
        proof {
            assert(r@ =~= self@);
        }
        r
    }

    /// Whether a name is in the required set.
    pub fn required_contains(&self, key: &AttrName) -> (r: bool)
        ensures
            r == self@.is_required(key@),
    {
        let mut i: usize = 0;
        while i < self.required.len()
            invariant
                0 <= i <= self.required@.len(),
                self@.required.len() == self.required@.len(),
                forall|j: int| 0 <= j < i ==> self@.required[j] != key@,
            decreases self.required@.len() - i,
        {
            proof {
                assert(self@.required[i as int] == self.required@[i as int]@);
            }
            if self.required[i].eq_name(key) {
                return true;
            }
            i = i + 1;
        }
        false
    }
}

/// Checks the model-definition invariants: succeeds exactly when the primary
/// key is a defined non-array attribute and required, every required name is
/// a defined attribute, and the model name has distinct singular and plural
/// forms.
pub fn validate_model_definition(definition: &ModelDefinition) -> (r: Result<(), GusError>)
    ensures
        r is Ok <==> definition@.valid(),
        r matches Err(e) ==> e.kind == ErrorKind::InvalidData,
{
    let singular = definition.model_name.singular();
    let plural = definition.model_name.plural();
    if singular.0.0 == plural.0.0 {
        return Err(GusError::new(ErrorKind::InvalidData, "Name has no plural variant"));
    }
    match definition.attr_get(&definition.primary_key) {
        Some(AttrType::Primitive(_)) => {},
        _ => {
            return Err(GusError::new(ErrorKind::InvalidData, "invalid primary key"));
        },
    }
    if !definition.required_contains(&definition.primary_key) {
        return Err(GusError::new(ErrorKind::InvalidData, "primary key must be required"));
    }
    let mut i: usize = 0;
    while i < definition.required.len()
        invariant
            0 <= i <= definition.required@.len(),
            definition@.required.len() == definition.required@.len(),
            forall|j: int| 0 <= j < i ==> has_key(definition@.attributes, #[trigger] definition@.required[j]),
        decreases definition.required@.len() - i,
    {
        proof {
            assert(definition@.required[i as int] == definition.required@[i as int]@);
        }
        match definition.attr_get(&definition.required[i]) {
            Some(_) => {},
            None => {
                proof {
                    lemma_find_key_bounds(definition@.attributes, definition.required@[i as int]@);
                }
                return Err(GusError::new(ErrorKind::InvalidData, "invalid required attribute"));
            },
        }
        i = i + 1;
    }
    Ok(())
}

// ---------------------------------------------------------------------------
// Parsing a model definition out of a JSON document
// ---------------------------------------------------------------------------

/// The primitive type named by a JSON string, if any.
pub open spec fn spec_prim_type(j: JsonV) -> Option<PrimitiveType> {
    match j {
        JsonV::Str(s) => if s == "Integer"@ {
            Some(PrimitiveType::Integer)
        } else if s == "String"@ {
            Some(PrimitiveType::String)
        } else if s == "Boolean"@ {
            Some(PrimitiveType::Boolean)
        } else {
            None
        },
        _ => None,
    }
}

/// The attribute type denoted by a JSON value: the name of a primitive, or a
/// one-element array holding the name of the array's element type.
pub open spec fn spec_attr_type(j: JsonV) -> Option<AttrType> {
    match j {
        JsonV::Str(_) => match spec_prim_type(j) {
            Some(p) => Some(AttrType::Primitive(p)),
            None => None,
        },
        JsonV::Arr(es) => if es.len() == 1 {
            match spec_prim_type(es[0]) {
                Some(p) => Some(AttrType::Array(p)),
                None => None,
            }
        } else {
            None
        },
        _ => None,
    }
}

pub open spec fn attr_entry_ok(e: (Seq<char>, JsonV)) -> bool {
    is_valid_name(e.0) && spec_attr_type(e.1) is Some
}

/// The attribute table denoted by the pairs of a JSON object.
pub open spec fn spec_attrs(pairs: Seq<(Seq<char>, JsonV)>) -> Option<
    Seq<(Seq<char>, AttrType)>,
> {
    if forall|i: int| 0 <= i < pairs.len() ==> attr_entry_ok(#[trigger] pairs[i]) {
        Some(Seq::new(pairs.len(), |i: int| (pairs[i].0, spec_attr_type(pairs[i].1).unwrap())))
    } else {
        None
    }
}

/// The payload of a JSON string, empty elsewhere.
pub open spec fn str_of(j: JsonV) -> Seq<char> {
    match j {
        JsonV::Str(s) => s,
        _ => Seq::empty(),
    }
}

/// The elements of a JSON array, empty elsewhere.
pub open spec fn arr_of(j: JsonV) -> Seq<JsonV> {
    match j {
        JsonV::Arr(es) => es,
        _ => Seq::empty(),
    }
}

/// The pairs of a JSON object, empty elsewhere.
pub open spec fn obj_of(j: JsonV) -> Seq<(Seq<char>, JsonV)> {
    match j {
        JsonV::Obj(fields) => fields,
        _ => Seq::empty(),
    }
}

pub open spec fn required_entry_ok(e: JsonV) -> bool {
    e matches JsonV::Str(s) && is_valid_name(s)
}

/// The required-name list denoted by the elements of a JSON array.
pub open spec fn spec_required(es: Seq<JsonV>) -> Option<Seq<Seq<char>>> {
    if forall|i: int| 0 <= i < es.len() ==> required_entry_ok(#[trigger] es[i]) {
        Some(Seq::new(es.len(), |i: int| str_of(es[i])))
    } else {
        None
    }
}

/// The constraint denoted by a JSON value: an object with exactly one entry,
/// named after the constrained primitive type, holding null.
pub open spec fn spec_constraint(j: JsonV) -> Option<Constraints> {
    match j {
        JsonV::Obj(fields) => if fields.len() == 1 && fields[0].1 is Null {
            if fields[0].0 == "Integer"@ {
                Some(Constraints::Integer(IntConstraint))
            } else if fields[0].0 == "String"@ {
                Some(Constraints::String(StrConstraint))
            } else if fields[0].0 == "Boolean"@ {
                Some(Constraints::Boolean(BoolConstraint))
            } else if fields[0].0 == "Float"@ {
                Some(Constraints::Float(FloatConstraint))
            } else {
                None
            }
        } else {
            None
        },
        _ => None,
    }
}

pub open spec fn constraint_entry_ok(e: (Seq<char>, JsonV)) -> bool {
    is_valid_name(e.0) && spec_constraint(e.1) is Some
}

/// The constraint table denoted by the pairs of a JSON object.
pub open spec fn spec_constraints(pairs: Seq<(Seq<char>, JsonV)>) -> Option<
    Seq<(Seq<char>, Constraints)>,
> {
    if forall|i: int| 0 <= i < pairs.len() ==> constraint_entry_ok(#[trigger] pairs[i]) {
        Some(Seq::new(pairs.len(), |i: int| (pairs[i].0, spec_constraint(pairs[i].1).unwrap())))
    } else {
        None
    }
}

/// The model definition denoted by a JSON document: an object with the fields
/// `model_name`, `storage_type`, `attributes`, `primary_key`, `required` and
/// optionally `constraints`; unknown fields are ignored. `None` where a field
/// is missing or malformed. Validity of the model is checked separately.
pub open spec fn spec_model_of(j: JsonV) -> Option<ModelV> {
    match j {
        JsonV::Obj(fields) => {
            let name = lookup(fields, "model_name"@);
            let storage = lookup(fields, "storage_type"@);
            let attrs = lookup(fields, "attributes"@);
            let pk = lookup(fields, "primary_key"@);
            let req = lookup(fields, "required"@);
            let cons = lookup(fields, "constraints"@);
            if {
                &&& name matches Some(JsonV::Str(n)) && is_valid_name(n)
                &&& storage matches Some(JsonV::Str(s)) && s == "json"@
                &&& attrs matches Some(JsonV::Obj(ap)) && spec_attrs(ap) is Some
                &&& pk matches Some(JsonV::Str(p)) && is_valid_name(p)
                &&& req matches Some(JsonV::Arr(es)) && spec_required(es) is Some
                &&& match cons {
                    None => true,
                    Some(JsonV::Null) => true,
                    Some(JsonV::Obj(cp)) => spec_constraints(cp) is Some,
                    Some(_) => false,
                }
            } {
                Some(
                    ModelV {
                        model_name: str_of(name.unwrap()),
                        storage_type: StorageType::json,
                        attributes: spec_attrs(obj_of(attrs.unwrap())).unwrap(),
                        primary_key: str_of(pk.unwrap()),
                        required: spec_required(arr_of(req.unwrap())).unwrap(),
                        constraints: match cons {
                            Some(JsonV::Obj(cp)) => Some(spec_constraints(cp).unwrap()),
                            _ => None,
                        },
                    },
                )
            } else {
                None
            }
        },
        _ => None,
    }
}

// ---------------------------------------------------------------------------
// The executable parser
// ---------------------------------------------------------------------------

fn parse_prim_type_exec(v: &JsonValue) -> (r: Option<PrimitiveType>)
    ensures
        r == spec_prim_type(v@),
{
    match v {
        JsonValue::Str(s) => {
            if str_eq(s.as_str(), "Integer") {
                Some(PrimitiveType::Integer)
            } else if str_eq(s.as_str(), "String") {
                Some(PrimitiveType::String)
            } else if str_eq(s.as_str(), "Boolean") {
                Some(PrimitiveType::Boolean)
            } else {
                None
            }
        },
        _ => None,
    }
}

fn parse_attr_type_exec(v: &JsonValue) -> (r: Option<AttrType>)
    ensures
        r == spec_attr_type(v@),
{
    match v {
        JsonValue::Str(_) => match parse_prim_type_exec(v) {
            Some(p) => Some(AttrType::Primitive(p)),
            None => None,
        },
        JsonValue::Arr(es) => {
            proof {
                crate::json::lemma_json_seq_view(es@);
            }
            if es.len() == 1 {
                proof {
                    assert(crate::json::seq_view(es@)[0] == es@[0]@);
                }
                match parse_prim_type_exec(&es[0]) {
                    Some(p) => Some(AttrType::Array(p)),
                    None => None,
                }
            } else {
                None
            }
        },
        _ => None,
    }
}

fn parse_constraint_exec(v: &JsonValue) -> (r: Option<Constraints>)
    ensures
        r == spec_constraint(v@),
{
    match v {
        JsonValue::Obj(fields) => {
            proof {
                crate::json::lemma_json_obj_view(fields@);
            }
            if fields.len() != 1 {
                return None;
            }
            proof {
                assert(crate::json::doc_view(fields@)[0] == (fields@[0].0@, fields@[0].1@));
            }
            let is_null = match &fields[0].1 {
                JsonValue::Null => true,
                _ => false,
            };
            if !is_null {
                return None;
            }
            let key = fields[0].0.as_str();
            if str_eq(key, "Integer") {
                Some(Constraints::Integer(IntConstraint))
            } else if str_eq(key, "String") {
                Some(Constraints::String(StrConstraint))
            } else if str_eq(key, "Boolean") {
                Some(Constraints::Boolean(BoolConstraint))
            } else if str_eq(key, "Float") {
                Some(Constraints::Float(FloatConstraint))
            } else {
                None
            }
        },
        _ => None,
    }
}

/// Builds a model definition out of a parsed JSON document, exactly as
/// `spec_model_of` describes; fails with `InvalidData` on any other document.
#[verifier::loop_isolation(false)]
pub fn model_from_json(doc: &JsonValue) -> (r: Result<ModelDefinition, GusError>)
    ensures
        match spec_model_of(doc@) {
            Some(mv) => r matches Ok(m) && m@ == mv,
            None => r is Err,
        },
        r matches Err(e) ==> e.kind == ErrorKind::InvalidData,
{
    let invalid = "no valid model definition";
    let fields = match doc {
        JsonValue::Obj(fields) => fields,
        _ => {
            return Err(GusError::new(ErrorKind::InvalidData, invalid));
        },
    };
    proof {
        crate::json::lemma_json_obj_view(fields@);
    }
    let ghost fv = crate::json::doc_view(fields@);

    // model_name
    let name_attr = match crate::json::doc_get(fields, "model_name") {
        Some(JsonValue::Str(s)) => match AttrName::try_from(s.as_str()) {
            Ok(a) => a,
            Err(_) => {
                return Err(GusError::new(ErrorKind::InvalidData, invalid));
            },
        },
        _ => {
            return Err(GusError::new(ErrorKind::InvalidData, invalid));
        },
    };

    // storage_type
    match crate::json::doc_get(fields, "storage_type") {
        Some(JsonValue::Str(s)) => {
            if !str_eq(s.as_str(), "json") {
                return Err(GusError::new(ErrorKind::InvalidData, invalid));
            }
        },
        _ => {
            return Err(GusError::new(ErrorKind::InvalidData, invalid));
        },
    }

    // attributes
    let attrs_field = crate::json::doc_get(fields, "attributes");
    let attributes: Vec<(AttrName, AttrType)> = match attrs_field {
        Some(JsonValue::Obj(apairs)) => {
            proof {
                crate::json::lemma_json_obj_view(apairs@);
            }
            let ghost av = crate::json::doc_view(apairs@);
            let mut out: Vec<(AttrName, AttrType)> = Vec::new();
            let mut i: usize = 0;
            while i < apairs.len()
                invariant
                    0 <= i <= apairs@.len(),
                    av == crate::json::doc_view(apairs@),
                    av.len() == apairs@.len(),
                    out@.len() == i,
                    forall|j: int| 0 <= j < i ==> attr_entry_ok(#[trigger] av[j]),
                    forall|j: int| 0 <= j < i ==> ((#[trigger] out@[j]).0@, out@[j].1) == (
                        av[j].0,
                        spec_attr_type(av[j].1).unwrap(),
                    ),
                decreases apairs@.len() - i,
            {
                proof {
                    assert(av[i as int] == (apairs@[i as int].0@, apairs@[i as int].1@));
                }
                let key = match AttrName::try_from(apairs[i].0.as_str()) {
                    Ok(a) => a,
                    Err(_) => {
                        assert(!attr_entry_ok(av[i as int]));
                        return Err(GusError::new(ErrorKind::InvalidData, invalid));
                    },
                };
                let ty = match parse_attr_type_exec(&apairs[i].1) {
                    Some(t) => t,
                    None => {
                        assert(!attr_entry_ok(av[i as int]));
                        return Err(GusError::new(ErrorKind::InvalidData, invalid));
                    },
                };
                out.push((key, ty));
                i = i + 1;
            }
            proof {
                assert(spec_attrs(av) is Some);
            }
            out
        },
        _ => {
            return Err(GusError::new(ErrorKind::InvalidData, invalid));
        },
    };

    // primary_key
    let primary_key = match crate::json::doc_get(fields, "primary_key") {
        Some(JsonValue::Str(s)) => match AttrName::try_from(s.as_str()) {
            Ok(a) => a,
            Err(_) => {
                return Err(GusError::new(ErrorKind::InvalidData, invalid));
            },
        },
        _ => {
            return Err(GusError::new(ErrorKind::InvalidData, invalid));
        },
    };

    // required
    let req_field = crate::json::doc_get(fields, "required");
    let required: Vec<AttrName> = match req_field {
        Some(JsonValue::Arr(es)) => {
            proof {
                crate::json::lemma_json_seq_view(es@);
            }
            let ghost ev = crate::json::seq_view(es@);
            let mut out: Vec<AttrName> = Vec::new();
            let mut i: usize = 0;
            while i < es.len()
                invariant
                    0 <= i <= es@.len(),
                    ev == crate::json::seq_view(es@),
                    ev.len() == es@.len(),
                    out@.len() == i,
                    forall|j: int| 0 <= j < i ==> required_entry_ok(#[trigger] ev[j]),
                    forall|j: int| 0 <= j < i ==> (#[trigger] out@[j])@ == str_of(ev[j]),
                decreases es@.len() - i,
            {
                proof {
                    assert(ev[i as int] == es@[i as int]@);
                }
                match &es[i] {
                    JsonValue::Str(s) => match AttrName::try_from(s.as_str()) {
                        Ok(a) => {
                            out.push(a);
                        },
                        Err(_) => {
                            assert(!required_entry_ok(ev[i as int]));
                            return Err(GusError::new(ErrorKind::InvalidData, invalid));
                        },
                    },
                    _ => {
                        assert(!required_entry_ok(ev[i as int]));
                        return Err(GusError::new(ErrorKind::InvalidData, invalid));
                    },
                }
                i = i + 1;
            }
            proof {
                assert(spec_required(ev) is Some);
            }
            out
        },
        _ => {
            return Err(GusError::new(ErrorKind::InvalidData, invalid));
        },
    };

    // constraints (optional; reserved)
    let cons_field = crate::json::doc_get(fields, "constraints");
    let constraints: Option<Vec<(AttrName, Constraints)>> = match cons_field {
        None => None,
        Some(JsonValue::Null) => None,
        Some(JsonValue::Obj(cpairs)) => {
            proof {
                crate::json::lemma_json_obj_view(cpairs@);
            }
            let ghost cv = crate::json::doc_view(cpairs@);
            let mut out: Vec<(AttrName, Constraints)> = Vec::new();
            let mut i: usize = 0;
            while i < cpairs.len()
                invariant
                    0 <= i <= cpairs@.len(),
                    cv == crate::json::doc_view(cpairs@),
                    cv.len() == cpairs@.len(),
                    out@.len() == i,
                    forall|j: int| 0 <= j < i ==> constraint_entry_ok(#[trigger] cv[j]),
                    forall|j: int| 0 <= j < i ==> ((#[trigger] out@[j]).0@, out@[j].1) == (
                        cv[j].0,
                        spec_constraint(cv[j].1).unwrap(),
                    ),
                decreases cpairs@.len() - i,
            {
                proof {
                    assert(cv[i as int] == (cpairs@[i as int].0@, cpairs@[i as int].1@));
                }
                let key = match AttrName::try_from(cpairs[i].0.as_str()) {
                    Ok(a) => a,
                    Err(_) => {
                        assert(!constraint_entry_ok(cv[i as int]));
                        return Err(GusError::new(ErrorKind::InvalidData, invalid));
                    },
                };
                let c = match parse_constraint_exec(&cpairs[i].1) {
                    Some(c) => c,
                    None => {
                        assert(!constraint_entry_ok(cv[i as int]));
                        return Err(GusError::new(ErrorKind::InvalidData, invalid));
                    },
                };
                out.push((key, c));
                i = i + 1;
            }
            proof {
                assert(spec_constraints(cv) is Some);
            }
            Some(out)
        },
        Some(_) => {
            return Err(GusError::new(ErrorKind::InvalidData, invalid));
        },
    };

    let m = ModelDefinition {
        model_name: ModelName(name_attr),
        storage_type: StorageType::json,
        attributes,
        primary_key,
        required,
        constraints,
    };
    proof {
        let mv = spec_model_of(doc@).unwrap();
        assert(m@.attributes =~= mv.attributes);
        assert(m@.required =~= mv.required);
        match m@.constraints {
            Some(cs) => {
                assert(mv.constraints is Some);
                assert(cs =~= mv.constraints.unwrap());
            },
            None => {},
        }
        assert(m@ =~= mv);
    }
    Ok(m)
}

/// What a model-definition text denotes: the JSON parse, then the model shape.
pub open spec fn spec_model_of_text(t: Seq<char>) -> Option<ModelV> {
    match crate::json::json_of(t) {
        Some(j) => spec_model_of(j),
        None => None,
    }
}

impl ModelDefinition {
    /// Parses and validates a model definition from a JSON text: succeeds
    /// exactly on texts that denote a model definition meeting the
    /// model-definition invariants.
    pub fn try_from(json: &str) -> (r: Result<ModelDefinition, GusError>)
        ensures
            r is Ok <==> (spec_model_of_text(json@) matches Some(mv) && mv.valid()),
            r matches Ok(m) ==> Some(m@) == spec_model_of_text(json@),
            r matches Err(e) ==> e.kind == ErrorKind::InvalidData,
    {
        match crate::json::parse_json(json) {
            Some(doc) => match model_from_json(&doc) {
                Ok(model) => match validate_model_definition(&model) {
                    Ok(_) => Ok(model),
                    Err(e) => Err(e),
                },
                Err(_) => Err(GusError::new(ErrorKind::InvalidData, "no valid JSON")),
            },
            None => Err(GusError::new(ErrorKind::InvalidData, "no valid JSON")),
        }
    }
}

} // verus!
