use vstd::prelude::*;

use crate::codec::add_null_values;
use crate::codec::record_from_document;
use crate::codec::spec_add_nulls;
use crate::codec::spec_coerce_prim;
use crate::codec::spec_record_from_doc;
use crate::error::ErrorKind;
use crate::error::GusError;
use crate::json::JsonV;
use crate::json::JsonValue;
use crate::json::json_of;
use crate::json::parse_json;
use crate::model_def::ModelDefinition;
use crate::model_def::ModelV;
use crate::models::model_pairs;
use crate::models::models_view;
use crate::models::norm_name;
use crate::models::parse_model;
use crate::name::AttrName;
use crate::name::ModelName;
use crate::name::is_valid_name;
use crate::name::normal_of;
use crate::name::singular_of;
use crate::pairs::has_key;
use crate::pairs::lemma_find_key_bounds;
use crate::pairs::lemma_lookup_upsert;
use crate::pairs::lookup;
use crate::pairs::upsert;
use crate::store::DatabaseV;
use crate::store::Database;
use crate::store::RecordV;
use crate::store::StorageHandler;
use crate::store::create_spec;
use crate::store::delete_spec;
use crate::store::get_handler;
use crate::store::read_spec;
use crate::store::table_of;
use crate::store::update_spec;
use crate::value::AttrType;
use crate::value::PrimitiveType;
use crate::value::Record;
use crate::value::TruePrimitiveType;
use crate::value::TrueType;
use crate::value::ValueV;

verus! {

/// All models of a request's model list meet the structural invariants: what
/// the loader guarantees of every list it yields.
pub open spec fn models_ok(models: Seq<ModelV>) -> bool {
    forall|i: int| 0 <= i < models.len() ==> (#[trigger] models[i]).structure_ok()
}

/// The model serving a request name: the first whose normalized name matches.
pub open spec fn model_for(models: Seq<ModelV>, name: Seq<char>) -> Option<ModelV> {
    lookup(model_pairs(models), normal_of(name))
}

/// Request-name resolution: the name must be a valid identifier in singular
/// form, and a model must exist under its normalized form.
pub open spec fn spec_resolve(models: Seq<ModelV>, name: Seq<char>) -> Result<ModelV, ErrorKind> {
    if !is_valid_name(name) {
        Err(ErrorKind::InvalidData)
    } else if name != singular_of(name) {
        Err(ErrorKind::InvalidData)
    } else {
        match model_for(models, name) {
            Some(m) => Ok(m),
            None => Err(ErrorKind::NotFound),
        }
    }
}

/// Resolves the model for a request, exactly as `spec_resolve` describes.
fn resolve_model(models: &Vec<ModelDefinition>, model_name: &str) -> (r: Result<
    ModelDefinition,
    GusError,
>)
    ensures
        match spec_resolve(models_view(models@), model_name@) {
            Ok(mv) => r matches Ok(m) && m@ == mv,
            Err(k) => r matches Err(e) && e.kind == k,
        },
{
    let attr = match AttrName::try_from(model_name) {
        Ok(a) => a,
        Err(e) => {
            return Err(e);
        },
    };
    let name = ModelName(attr);
    match name.assert_singularity() {
        Ok(_) => {},
        Err(e) => {
            return Err(e);
        },
    }
    parse_model(models, &name)
}

/// A resolved model is one of the list, so it meets the structural invariants
/// whenever the whole list does.
proof fn lemma_resolved_structure(models: Seq<ModelV>, name: Seq<char>)
    requires
        models_ok(models),
        spec_resolve(models, name) is Ok,
    ensures
        spec_resolve(models, name).unwrap().structure_ok(),
{
    lemma_find_key_bounds(model_pairs(models), normal_of(name));
    let i = crate::pairs::find_key(model_pairs(models), normal_of(name));
    assert(model_pairs(models)[i] == (norm_name(models[i]), models[i]));
}

/// The id as fetched from a request path, coerced to the model's primary-key
/// type: taken verbatim for a string key, parsed as a JSON scalar otherwise.
pub open spec fn spec_parse_uri_id(id: Seq<char>, m: ModelV) -> Result<ValueV, ()> {
    match m.attr_of(m.primary_key) {
        Some(AttrType::Primitive(PrimitiveType::String)) => Ok(
            ValueV::Prim(Some(crate::value::PrimV::Str(id))),
        ),
        Some(AttrType::Primitive(t)) => match json_of(id) {
            Some(j) => match spec_coerce_prim(j, t, true) {
                Ok(p) => Ok(ValueV::Prim(p)),
                Err(_) => Err(()),
            },
            None => Err(()),
        },
        _ => Err(()),
    }
}

/// Coerces a request-path id to the model's primary-key type, exactly as
/// `spec_parse_uri_id` describes.
fn parse_uri_id(id: &str, model: &ModelDefinition) -> (r: Result<TrueType, GusError>)
    requires
        model@.attr_of(model@.primary_key) matches Some(AttrType::Primitive(_)),
    ensures
        match spec_parse_uri_id(id@, model@) {
            Ok(v) => r matches Ok(out) && out@ == v,
            Err(_) => r matches Err(e) && e.kind == ErrorKind::InvalidData,
        },
{
    match model.attr_get(&model.primary_key) {
        Some(AttrType::Primitive(PrimitiveType::String)) => Ok(
            TrueType::Primitive(Some(TruePrimitiveType::String(id.to_owned()))),
        ),
        Some(AttrType::Primitive(other)) => match parse_json(id) {
            Some(v) => match crate::codec::to_true_prim_type(&v, &other, true) {
                Ok(p) => Ok(TrueType::Primitive(p)),
                Err(e) => Err(e),
            },
            None => Err(GusError::new(ErrorKind::InvalidData, "Invalid value for primary key")),
        },
        _ => {
            proof {
                assert(false);
            }
            Err(GusError::new(ErrorKind::InvalidData, "Invalid value for primary key"))
        },
    }
}

// ---------------------------------------------------------------------------
// create
// ---------------------------------------------------------------------------

/// Creation against a parsed document: resolve the model, build and backfill
/// the record, and store it under its primary-key value.
pub open spec fn spec_create_with_doc(
    models: Seq<ModelV>,
    dbv: DatabaseV,
    name: Seq<char>,
    j: JsonV,
) -> Result<(DatabaseV, RecordV), ErrorKind> {
    match spec_resolve(models, name) {
        Err(k) => Err(k),
        Ok(m) => match spec_record_from_doc(m, j) {
            Err(_) => Err(ErrorKind::InvalidData),
            Ok(pv) => {
                let rec = spec_add_nulls(pv, m.attributes);
                match lookup(rec, m.primary_key) {
                    Some(key) => match create_spec(table_of(dbv, m.model_name), key, rec) {
                        Ok(t2) => Ok((upsert(dbv, m.model_name, t2), rec)),
                        Err(k) => Err(k),
                    },
                    None => Err(ErrorKind::Unreachable),
                }
            },
        },
    }
}

/// Creation against a request body text: the body must parse as JSON.
pub open spec fn spec_create_one(
    models: Seq<ModelV>,
    dbv: DatabaseV,
    name: Seq<char>,
    body: Seq<char>,
) -> Result<(DatabaseV, RecordV), ErrorKind> {
    match json_of(body) {
        Some(j) => spec_create_with_doc(models, dbv, name, j),
        None => Err(ErrorKind::InvalidData),
    }
}

/// Creates one record of the named model out of a parsed document, exactly as
/// `spec_create_with_doc` describes.
pub fn create_one_with_doc(
    models: &Vec<ModelDefinition>,
    db: &mut Database,
    model_name: &str,
    doc: &JsonValue,
) -> (r: Result<Record, GusError>)
    requires
        models_ok(models_view(models@)),
    ensures
        match spec_create_with_doc(models_view(models@), old(db)@, model_name@, doc@) {
            Ok((dbv, rec)) => r matches Ok(out) && final(db)@ == dbv && out@ == rec,
            Err(k) => r matches Err(e) && e.kind == k && final(db)@ == old(db)@,
        },
{
    let model = match resolve_model(models, model_name) {
        Ok(m) => m,
        Err(e) => {
            return Err(e);
        },
    };
    proof {
        lemma_resolved_structure(models_view(models@), model_name@);
    }
    let parsed = match record_from_document(doc, &model) {
        Ok(rec) => rec,
        Err(e) => {
            return Err(e);
        },
    };
    let record = add_null_values(parsed, &model);
    proof {
        crate::codec::lemma_add_nulls_keys(parsed@, model@.attributes, model@.primary_key);
        lemma_find_key_bounds(model@.attributes, model@.primary_key);
    }
    let handler = match get_handler(&model) {
        Ok(h) => h,
        Err(e) => {
            return Err(e);
        },
    };
    handler.create_one(db, &record)
}

/// Creates one record of the named model out of a request body, exactly as
/// `spec_create_one` describes: the model name must be a valid singular
/// identifier naming a loaded model, the body must parse against the model,
/// and no record may yet hold the new record's primary-key value.
pub fn create_one(
    models: &Vec<ModelDefinition>,
    db: &mut Database,
    model_name: &str,
    json: &str,
) -> (r: Result<Record, GusError>)
    requires
        models_ok(models_view(models@)),
    ensures
        match spec_create_one(models_view(models@), old(db)@, model_name@, json@) {
            Ok((dbv, rec)) => r matches Ok(out) && final(db)@ == dbv && out@ == rec,
            Err(k) => r matches Err(e) && e.kind == k && final(db)@ == old(db)@,
        },
{
    match parse_json(json) {
        Some(doc) => create_one_with_doc(models, db, model_name, &doc),
        None => Err(GusError::new(ErrorKind::InvalidData, "Given JSON-String is not valid JSON")),
    }
}

// ---------------------------------------------------------------------------
// read
// ---------------------------------------------------------------------------

/// Reading: resolve the model, coerce the id, fetch the record and backfill.
pub open spec fn spec_read_one(
    models: Seq<ModelV>,
    dbv: DatabaseV,
    name: Seq<char>,
    id: Seq<char>,
) -> Result<RecordV, ErrorKind> {
    match spec_resolve(models, name) {
        Err(k) => Err(k),
        Ok(m) => match spec_parse_uri_id(id, m) {
            Err(_) => Err(ErrorKind::InvalidData),
            Ok(idv) => match read_spec(table_of(dbv, m.model_name), idv) {
                Ok(rv) => Ok(spec_add_nulls(rv, m.attributes)),
                Err(k) => Err(k),
            },
        },
    }
}

/// Reads one record of the named model by id, exactly as `spec_read_one`
/// describes: succeeds exactly when the name resolves, the id coerces to the
/// primary-key type, and a record is stored under it.
pub fn read_one(models: &Vec<ModelDefinition>, db: &Database, model_name: &str, id: &str) -> (r:
    Result<Record, GusError>)
    requires
        models_ok(models_view(models@)),
    ensures
        match spec_read_one(models_view(models@), db@, model_name@, id@) {
            Ok(rec) => r matches Ok(out) && out@ == rec,
            Err(k) => r matches Err(e) && e.kind == k,
        },
{
    let model = match resolve_model(models, model_name) {
        Ok(m) => m,
        Err(e) => {
            return Err(e);
        },
    };
    proof {
        lemma_resolved_structure(models_view(models@), model_name@);
    }
    let true_id = match parse_uri_id(id, &model) {
        Ok(v) => v,
        Err(e) => {
            return Err(e);
        },
    };
    let handler = match get_handler(&model) {
        Ok(h) => h,
        Err(e) => {
            return Err(e);
        },
    };
    match handler.read_one(db, &true_id) {
        Ok(rec) => Ok(add_null_values(rec, &model)),
        Err(e) => Err(e),
    }
}

// ---------------------------------------------------------------------------
// delete
// ---------------------------------------------------------------------------

/// Deletion: resolve the model, coerce the id, remove the record, backfill
/// the removed record for the response.
pub open spec fn spec_delete_one(
    models: Seq<ModelV>,
    dbv: DatabaseV,
    name: Seq<char>,
    id: Seq<char>,
) -> Result<(DatabaseV, RecordV), ErrorKind> {
    match spec_resolve(models, name) {
        Err(k) => Err(k),
        Ok(m) => match spec_parse_uri_id(id, m) {
            Err(_) => Err(ErrorKind::InvalidData),
            Ok(idv) => match delete_spec(table_of(dbv, m.model_name), idv) {
                Ok((t2, rv)) => Ok(
                    (upsert(dbv, m.model_name, t2), spec_add_nulls(rv, m.attributes)),
                ),
                Err(k) => Err(k),
            },
        },
    }
}

/// Deletes one record of the named model by id, exactly as `spec_delete_one`
/// describes: succeeds exactly when the name resolves, the id coerces, and a
/// record is stored under it.
pub fn delete_one(
    models: &Vec<ModelDefinition>,
    db: &mut Database,
    model_name: &str,
    id: &str,
) -> (r: Result<Record, GusError>)
    requires
        models_ok(models_view(models@)),
    ensures
        match spec_delete_one(models_view(models@), old(db)@, model_name@, id@) {
            Ok((dbv, rec)) => r matches Ok(out) && final(db)@ == dbv && out@ == rec,
            Err(k) => r matches Err(e) && e.kind == k && final(db)@ == old(db)@,
        },
{
    let model = match resolve_model(models, model_name) {
        Ok(m) => m,
        Err(e) => {
            return Err(e);
        },
    };
    proof {
        lemma_resolved_structure(models_view(models@), model_name@);
    }
    let true_id = match parse_uri_id(id, &model) {
        Ok(v) => v,
        Err(e) => {
            return Err(e);
        },
    };
    let handler = match get_handler(&model) {
        Ok(h) => h,
        Err(e) => {
            return Err(e);
        },
    };
    match handler.delete_one(db, &true_id) {
        Ok(rec) => Ok(add_null_values(rec, &model)),
        Err(e) => Err(e),
    }
}

// ---------------------------------------------------------------------------
// update
// ---------------------------------------------------------------------------

/// The required names that the caller actually supplied: the update path
/// narrows the required set to them, so partial payloads pass while every
/// supplied field is still type-checked.
pub open spec fn filter_required(req: Seq<Seq<char>>, rec: RecordV) -> Seq<Seq<char>>
    decreases req.len(),
{
    if req.len() == 0 {
        Seq::empty()
    } else {
        filter_required(req.drop_last(), rec) + (if has_key(rec, req.last()) {
            seq![req.last()]
        } else {
            Seq::empty()
        })
    }
}

/// Update against a parsed document: resolve the model, discover the supplied
/// attributes, re-check the document with the narrowed required set, inject
/// the id from the request path as the primary key, and merge-patch.
pub open spec fn spec_update_with_doc(
    models: Seq<ModelV>,
    dbv: DatabaseV,
    name: Seq<char>,
    id: Seq<char>,
    j: JsonV,
) -> Result<(DatabaseV, RecordV), ErrorKind> {
    match spec_resolve(models, name) {
        Err(k) => Err(k),
        Ok(m) => {
            let m0 = ModelV { required: Seq::empty(), ..m };
            match spec_record_from_doc(m0, j) {
                Err(_) => Err(ErrorKind::InvalidData),
                Ok(rec0) => {
                    let m1 = ModelV { required: filter_required(m.required, rec0), ..m };
                    match spec_record_from_doc(m1, j) {
                        Err(_) => Err(ErrorKind::InvalidData),
                        Ok(rec1) => match spec_parse_uri_id(id, m1) {
                            Err(_) => Err(ErrorKind::InvalidData),
                            Ok(idv) => {
                                let patch = upsert(rec1, m.primary_key, idv);
                                match update_spec(table_of(dbv, m.model_name), idv, patch) {
                                    Ok((t2, merged)) => Ok(
                                        (
                                            upsert(dbv, m.model_name, t2),
                                            spec_add_nulls(merged, m.attributes),
                                        ),
                                    ),
                                    Err(k) => Err(k),
                                }
                            },
                        },
                    }
                },
            }
        },
    }
}

/// Update against a request body text: the body must parse as JSON.
pub open spec fn spec_update_one(
    models: Seq<ModelV>,
    dbv: DatabaseV,
    name: Seq<char>,
    id: Seq<char>,
    body: Seq<char>,
) -> Result<(DatabaseV, RecordV), ErrorKind> {
    match json_of(body) {
        Some(j) => spec_update_with_doc(models, dbv, name, id, j),
        None => Err(ErrorKind::InvalidData),
    }
}

/// Merge-patches one record of the named model out of a parsed document,
/// exactly as `spec_update_with_doc` describes.
#[verifier::loop_isolation(false)]
pub fn update_one_with_doc(
    models: &Vec<ModelDefinition>,
    db: &mut Database,
    model_name: &str,
    id: &str,
    doc: &JsonValue,
) -> (r: Result<Record, GusError>)
    requires
        models_ok(models_view(models@)),
    ensures
        match spec_update_with_doc(models_view(models@), old(db)@, model_name@, id@, doc@) {
            Ok((dbv, rec)) => r matches Ok(out) && final(db)@ == dbv && out@ == rec,
            Err(k) => r matches Err(e) && e.kind == k && final(db)@ == old(db)@,
        },
{
    let model = match resolve_model(models, model_name) {
        Ok(m) => m,
        Err(e) => {
            return Err(e);
        },
    };
    proof {
        lemma_resolved_structure(models_view(models@), model_name@);
    }
    let ghost m = model@;

    // parse the record once with nothing required, to see what was supplied
    let mut model0 = model.dup();
    model0.required = Vec::new();
    proof {
        assert(model0@ =~= (ModelV { required: Seq::empty(), ..m }));
    }
    let rec0 = match record_from_document(doc, &model0) {
        Ok(rec) => rec,
        Err(e) => {
            return Err(e);
        },
    };

    // narrow the required set to the supplied attributes
    let mut required: Vec<AttrName> = Vec::new();
    let mut i: usize = 0;
    while i < model.required.len()
        invariant
            0 <= i <= model.required@.len(),
            Seq::new(required@.len(), |j: int| required@[j]@) =~= filter_required(
                m.required.subrange(0, i as int),
                rec0@,
            ),
        decreases model.required@.len() - i,
    {
        proof {
            assert(m.required[i as int] == model.required@[i as int]@);
        }
        if rec0.contains_key(&model.required[i]) {
            required.push(model.required[i].dup());
        }
        proof {
            let pre = m.required.subrange(0, i as int);
            let post = m.required.subrange(0, i + 1 as int);
            assert(post.drop_last() =~= pre);
            assert(post.last() == m.required[i as int]);
            assert(Seq::new(required@.len(), |j: int| required@[j]@) =~= filter_required(
                post,
                rec0@,
            ));
        }
        i = i + 1;
    }
    proof {
        assert(m.required.subrange(0, m.required.len() as int) =~= m.required);
    }
    let mut model1 = model.dup();
    model1.required = required;
    proof {
        assert(model1@ =~= (ModelV { required: filter_required(m.required, rec0@), ..m }));
    }

    // parse the record again, this time with the narrowed requirement check
    let mut valid_record = match record_from_document(doc, &model1) {
        Ok(rec) => rec,
        Err(e) => {
            return Err(e);
        },
    };
    let true_id = match parse_uri_id(id, &model1) {
        Ok(v) => v,
        Err(e) => {
            return Err(e);
        },
    };
    let ghost idv = true_id@;
    let ghost rec1 = valid_record@;
    valid_record.insert(model.primary_key.dup(), true_id.dup());
    proof {
        lemma_lookup_upsert(rec1, m.primary_key, idv, m.primary_key);
    }
    let handler = match get_handler(&model) {
        Ok(h) => h,
        Err(e) => {
            return Err(e);
        },
    };
    // the storage key is the injected primary-key value
    proof {
        assert(lookup(valid_record@, m.primary_key) == Some(idv));
    }
    match handler.update_one(db, &valid_record) {
        Ok(rec) => Ok(add_null_values(rec, &model)),
        Err(e) => Err(e),
    }
}

/// Merge-patches one record of the named model out of a request body, exactly
/// as `spec_update_one` describes: only the supplied attributes are
/// overwritten on the stored record; fails with NotFound where no record is
/// stored under the id.
pub fn update_one(
    models: &Vec<ModelDefinition>,
    db: &mut Database,
    model_name: &str,
    id: &str,
    json: &str,
) -> (r: Result<Record, GusError>)
    requires
        models_ok(models_view(models@)),
    ensures
        match spec_update_one(models_view(models@), old(db)@, model_name@, id@, json@) {
            Ok((dbv, rec)) => r matches Ok(out) && final(db)@ == dbv && out@ == rec,
            Err(k) => r matches Err(e) && e.kind == k && final(db)@ == old(db)@,
        },
{
    match parse_json(json) {
        Some(doc) => update_one_with_doc(models, db, model_name, id, &doc),
        None => Err(GusError::new(ErrorKind::InvalidData, "Given JSON-String is not valid JSON")),
    }
}


/// Creates one record of the named model out of the entries of a parsed JSON
/// object, exactly as `spec_create_with_doc` on an object with these entries.
pub fn create_one_with_fields(
    models: &Vec<ModelDefinition>,
    db: &mut Database,
    model_name: &str,
    fields: &Vec<(String, JsonValue)>,
) -> (r: Result<Record, GusError>)
    requires
        models_ok(models_view(models@)),
    ensures
        match spec_create_with_doc(
            models_view(models@),
            old(db)@,
            model_name@,
            JsonV::Obj(crate::json::doc_view(fields@)),
        ) {
            Ok((dbv, rec)) => r matches Ok(out) && final(db)@ == dbv && out@ == rec,
            Err(k) => r matches Err(e) && e.kind == k && final(db)@ == old(db)@,
        },
{
    let model = match resolve_model(models, model_name) {
        Ok(m) => m,
        Err(e) => {
            return Err(e);
        },
    };
    proof {
        lemma_resolved_structure(models_view(models@), model_name@);
    }
    let parsed = match crate::codec::record_from_fields(fields, &model) {
        Ok(rec) => rec,
        Err(e) => {
            return Err(e);
        },
    };
    let record = add_null_values(parsed, &model);
    proof {
        crate::codec::lemma_add_nulls_keys(parsed@, model@.attributes, model@.primary_key);
        lemma_find_key_bounds(model@.attributes, model@.primary_key);
    }
    let handler = match get_handler(&model) {
        Ok(h) => h,
        Err(e) => {
            return Err(e);
        },
    };
    handler.create_one(db, &record)
}

/// Merge-patches one record of the named model out of the entries of a parsed
/// JSON object, exactly as `spec_update_with_doc` on an object with these
/// entries.
#[verifier::loop_isolation(false)]
pub fn update_one_with_fields(
    models: &Vec<ModelDefinition>,
    db: &mut Database,
    model_name: &str,
    id: &str,
    fields: &Vec<(String, JsonValue)>,
) -> (r: Result<Record, GusError>)
    requires
        models_ok(models_view(models@)),
    ensures
        match spec_update_with_doc(
            models_view(models@),
            old(db)@,
            model_name@,
            id@,
            JsonV::Obj(crate::json::doc_view(fields@)),
        ) {
            Ok((dbv, rec)) => r matches Ok(out) && final(db)@ == dbv && out@ == rec,
            Err(k) => r matches Err(e) && e.kind == k && final(db)@ == old(db)@,
        },
{
    let model = match resolve_model(models, model_name) {
        Ok(m) => m,
        Err(e) => {
            return Err(e);
        },
    };
    proof {
        lemma_resolved_structure(models_view(models@), model_name@);
    }
    let ghost m = model@;

    // parse the record once with nothing required, to see what was supplied
    let mut model0 = model.dup();
    model0.required = Vec::new();
    proof {
        assert(model0@ =~= (ModelV { required: Seq::empty(), ..m }));
    }
    let rec0 = match crate::codec::record_from_fields(fields, &model0) {
        Ok(rec) => rec,
        Err(e) => {
            return Err(e);
        },
    };

    // narrow the required set to the supplied attributes
    let mut required: Vec<AttrName> = Vec::new();
    let mut i: usize = 0;
    while i < model.required.len()
        invariant
            0 <= i <= model.required@.len(),
            Seq::new(required@.len(), |j: int| required@[j]@) =~= filter_required(
                m.required.subrange(0, i as int),
                rec0@,
            ),
        decreases model.required@.len() - i,
    {
        proof {
            assert(m.required[i as int] == model.required@[i as int]@);
        }
        if rec0.contains_key(&model.required[i]) {
            required.push(model.required[i].dup());
        }
        proof {
            let pre = m.required.subrange(0, i as int);
            let post = m.required.subrange(0, i + 1 as int);
            assert(post.drop_last() =~= pre);
            assert(post.last() == m.required[i as int]);
            assert(Seq::new(required@.len(), |j: int| required@[j]@) =~= filter_required(
                post,
                rec0@,
            ));
        }
        i = i + 1;
    }
    proof {
        assert(m.required.subrange(0, m.required.len() as int) =~= m.required);
    }
    let mut model1 = model.dup();
    model1.required = required;
    proof {
        assert(model1@ =~= (ModelV { required: filter_required(m.required, rec0@), ..m }));
    }

    // parse the record again, this time with the narrowed requirement check
    let mut valid_record = match crate::codec::record_from_fields(fields, &model1) {
        Ok(rec) => rec,
        Err(e) => {
            return Err(e);
        },
    };
    let true_id = match parse_uri_id(id, &model1) {
        Ok(v) => v,
        Err(e) => {
            return Err(e);
        },
    };
    let ghost idv = true_id@;
    let ghost rec1 = valid_record@;
    valid_record.insert(model.primary_key.dup(), true_id.dup());
    proof {
        lemma_lookup_upsert(rec1, m.primary_key, idv, m.primary_key);
    }
    let handler = match get_handler(&model) {
        Ok(h) => h,
        Err(e) => {
            return Err(e);
        },
    };
    proof {
        assert(lookup(valid_record@, m.primary_key) == Some(idv));
    }
    match handler.update_one(db, &valid_record) {
        Ok(rec) => Ok(add_null_values(rec, &model)),
        Err(e) => Err(e),
    }
}

} // verus!
