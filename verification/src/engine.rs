use vstd::prelude::*;

use crate::api::models_ok;
use crate::api::spec_create_with_doc;
use crate::api::spec_delete_one;
use crate::api::spec_read_one;
use crate::api::spec_update_with_doc;
use crate::error::ErrorKind;
use crate::error::GusError;
use crate::gql::Data;
use crate::gql::DocumentV;
use crate::gql::FieldValue;
use crate::gql::FieldValueV;
use crate::gql::GqlDocument;
use crate::gql::GqlOperation;
use crate::gql::GqlSelection;
use crate::gql::GraphQLReturn;
use crate::gql::OpKind;
use crate::gql::OperationV;
use crate::gql::SelectionV;
use crate::gql::lemma_datas_view;
use crate::gql::lemma_sels_view;
use crate::gql::sels_view;
use crate::json::JsonV;
use crate::json::JsonValue;
use crate::model_def::ModelDefinition;
use crate::model_def::ModelV;
use crate::models::models_view;
use crate::pairs::lookup;
use crate::store::Database;
use crate::store::DatabaseV;
use crate::store::RecordV;
use crate::value::PrimV;
use crate::value::Record;
use crate::value::TruePrimitiveType;
use crate::value::TrueType;
use crate::value::ValueV;
use crate::value::quoted_str;
use crate::value::value_str;

verus! {

// ---------------------------------------------------------------------------
// Operation selection
// ---------------------------------------------------------------------------

/// The first index of an operation bearing the name, or -1.
pub open spec fn find_named_op(ops: Seq<OperationV>, n: Seq<char>) -> int
    decreases ops.len(),
{
    if ops.len() == 0 {
        -1
    } else if ops[0].name == Some(n) {
        0
    } else {
        let r = find_named_op(ops.drop_first(), n);
        if r < 0 {
            -1
        } else {
            r + 1
        }
    }
}

proof fn lemma_find_named_op(ops: Seq<OperationV>, n: Seq<char>)
    ensures
        -1 <= find_named_op(ops, n) < ops.len(),
        find_named_op(ops, n) >= 0 ==> ops[find_named_op(ops, n)].name == Some(n),
        find_named_op(ops, n) < 0 ==> (forall|i: int|
            0 <= i < ops.len() ==> (#[trigger] ops[i]).name != Some(n)),
    decreases ops.len(),
{
    if ops.len() > 0 && ops[0].name != Some(n) {
        lemma_find_named_op(ops.drop_first(), n);
        assert forall|i: int| 1 <= i < ops.len() implies (ops.drop_first())[i - 1] == ops[i] by {}
    }
}

proof fn lemma_find_named_op_first(ops: Seq<OperationV>, n: Seq<char>, i: int)
    requires
        0 <= i < ops.len(),
        ops[i].name == Some(n),
        forall|j: int| 0 <= j < i ==> (#[trigger] ops[j]).name != Some(n),
    ensures
        find_named_op(ops, n) == i,
    decreases i,
{
    if i > 0 {
        assert(ops[0].name != Some(n));
        assert forall|j: int| 0 <= j < i - 1 implies (#[trigger] ops.drop_first()[j]).name != Some(
            n,
        ) by {
            assert(ops.drop_first()[j] == ops[j + 1]);
        }
        assert(ops.drop_first()[i - 1] == ops[i]);
        lemma_find_named_op_first(ops.drop_first(), n, i - 1);
    }
}

/// Which operation a request executes: zero operations is an error; more than
/// one without an explicit name is an error; a given name must exist;
/// otherwise the sole operation runs.
pub open spec fn spec_get_operation(ops: Seq<OperationV>, name: Option<Seq<char>>) -> Result<
    OperationV,
    Seq<char>,
> {
    if ops.len() == 0 {
        Err("document does not contain any executable operations"@)
    } else if name is None && ops.len() > 1 {
        Err("document contains more than one operation, missing operation name"@)
    } else {
        match name {
            None => Ok(ops[0]),
            Some(n) => {
                if find_named_op(ops, n) >= 0 {
                    Ok(ops[find_named_op(ops, n)])
                } else {
                    Err("operation with name "@ + quoted_str(n) + " does not exist"@)
                }
            },
        }
    }
}

pub open spec fn opt_name_view(name: &Option<String>) -> Option<Seq<char>> {
    match name {
        Some(n) => Some(n@),
        None => None,
    }
}

/// Selects the operation a request executes, exactly as `spec_get_operation`
/// describes; an error becomes an error-only return with that one message.
#[verifier::loop_isolation(false)]
pub fn get_executing_operation<'a>(
    document: &'a GqlDocument,
    operation_name: &Option<String>,
) -> (r: Result<&'a GqlOperation, GraphQLReturn>)
    ensures
        match spec_get_operation(document@.operations, opt_name_view(operation_name)) {
            Ok(opv) => r matches Ok(op) && op@ == opv,
            Err(msg) => r matches Err(ret) && ret@.errors == Some(seq![msg]) && ret@.data is None,
        },
{
    let ghost ops = document@.operations;
    if document.operations.len() == 0 {
        return Err(
            GraphQLReturn::from_message("document does not contain any executable operations"),
        );
    }
    match operation_name {
        None => {
            if document.operations.len() > 1 {
                return Err(
                    GraphQLReturn::from_message(
                        "document contains more than one operation, missing operation name",
                    ),
                );
            }
            proof {
                assert(ops[0] == document.operations@[0]@);
            }
            Ok(&document.operations[0])
        },
        Some(n) => {
            let mut i: usize = 0;
            while i < document.operations.len()
                invariant
                    0 <= i <= document.operations@.len(),
                    forall|j: int| 0 <= j < i ==> (#[trigger] ops[j]).name != Some(n@),
                decreases document.operations@.len() - i,
            {
                proof {
                    assert(ops[i as int] == document.operations@[i as int]@);
                }
                let matched = match &document.operations[i].name {
                    Some(op_name) => crate::name::str_eq(op_name.as_str(), n.as_str()),
                    None => false,
                };
                if matched {
                    proof {
                        lemma_find_named_op_first(ops, n@, i as int);
                    }
                    return Ok(&document.operations[i]);
                }
                i = i + 1;
            }
            proof {
                lemma_find_named_op(ops, n@);
            }
            let mut message = String::new();
            message.append("operation with name ");
            crate::value::push_quoted(&mut message, n.as_str());
            message.append(" does not exist");
            proof {
                assert(message@ =~= "operation with name "@ + quoted_str(n@)
                    + " does not exist"@);
            }
            Err(GraphQLReturn::from_message(message.as_str()))
        },
    }
}

// ---------------------------------------------------------------------------
// Argument values
// ---------------------------------------------------------------------------

/// A GraphQL argument taken as an attribute value without a model type: null,
/// a scalar, or a list of scalars; anything else is unsupported.
pub open spec fn spec_arg_value(v: JsonV) -> Option<ValueV> {
    match v {
        JsonV::Null => Some(ValueV::Prim(None)),
        JsonV::Bool(b) => Some(ValueV::Prim(Some(PrimV::Bool(b)))),
        JsonV::Int(i) => Some(ValueV::Prim(Some(PrimV::Int(i)))),
        JsonV::Str(s) => Some(ValueV::Prim(Some(PrimV::Str(s)))),
        JsonV::Arr(es) => {
            if forall|i: int| 0 <= i < es.len() ==> (#[trigger] es[i]) matches JsonV::Int(_)
                || es[i] matches JsonV::Str(_) || es[i] matches JsonV::Bool(_) {
                Some(
                    ValueV::Arr(
                        Some(
                            Seq::new(
                                es.len(),
                                |i: int|
                                    match es[i] {
                                        JsonV::Int(n) => PrimV::Int(n),
                                        JsonV::Str(s) => PrimV::Str(s),
                                        JsonV::Bool(b) => PrimV::Bool(b),
                                        _ => PrimV::Bool(false),
                                    },
                            ),
                        ),
                    ),
                )
            } else {
                None
            }
        },
        _ => None,
    }
}

/// The string form of an argument used as a record id.
pub open spec fn spec_id_string(v: JsonV) -> Option<Seq<char>> {
    match spec_arg_value(v) {
        Some(vv) => Some(value_str(vv)),
        None => None,
    }
}

/// Reads one GraphQL argument as an attribute value, exactly as
/// `spec_arg_value` describes.
#[verifier::loop_isolation(false)]
fn arg_to_true_type(v: &JsonValue) -> (r: Option<TrueType>)
    ensures
        match r {
            Some(t) => spec_arg_value(v@) == Some(t@),
            None => spec_arg_value(v@) is None,
        },
{
    match v {
        JsonValue::Null => Some(TrueType::Primitive(None)),
        JsonValue::Bool(b) => Some(TrueType::Primitive(Some(TruePrimitiveType::Boolean(*b)))),
        JsonValue::Int(i) => Some(TrueType::Primitive(Some(TruePrimitiveType::Integer(*i)))),
        JsonValue::Str(s) => Some(
            TrueType::Primitive(Some(TruePrimitiveType::String(s.clone()))),
        ),
        JsonValue::Arr(es) => {
            proof {
                crate::json::lemma_json_seq_view(es@);
            }
            let ghost ev = crate::json::seq_view(es@);
            let mut out: Vec<TruePrimitiveType> = Vec::new();
            let mut i: usize = 0;
            while i < es.len()
                invariant
                    0 <= i <= es@.len(),
                    out@.len() == i,
                    forall|j: int| 0 <= j < i ==> ((#[trigger] ev[j]) matches JsonV::Int(_)
                        || ev[j] matches JsonV::Str(_) || ev[j] matches JsonV::Bool(_)),
                    forall|j: int| 0 <= j < i ==> (#[trigger] out@[j])@ == match ev[j] {
                        JsonV::Int(n) => PrimV::Int(n),
                        JsonV::Str(s) => PrimV::Str(s),
                        JsonV::Bool(b) => PrimV::Bool(b),
                        _ => PrimV::Bool(false),
                    },
                decreases es@.len() - i,
            {
                proof {
                    assert(ev[i as int] == es@[i as int]@);
                }
                match &es[i] {
                    JsonValue::Int(n) => {
                        out.push(TruePrimitiveType::Integer(*n));
                    },
                    JsonValue::Str(s) => {
                        out.push(TruePrimitiveType::String(s.clone()));
                    },
                    JsonValue::Bool(b) => {
                        out.push(TruePrimitiveType::Boolean(*b));
                    },
                    _ => {
                        assert(!((ev[i as int]) matches JsonV::Int(_) || ev[i as int]
                            matches JsonV::Str(_) || ev[i as int] matches JsonV::Bool(_)));
                        return None;
                    },
                }
                i = i + 1;
            }
            let r = TrueType::Array(Some(out));
            proof {
                assert(spec_arg_value(v@) is Some);
                let ghost target = spec_arg_value(v@).unwrap();
                assert(target matches ValueV::Arr(_));
                assert(r@ matches ValueV::Arr(Some(ps)) && target matches ValueV::Arr(Some(ts))
                    && ps =~= ts);
            }
            Some(r)
        },
        _ => None,
    }
}

/// The string form of an argument used as an id in a lookup.
fn arg_id_string(v: &JsonValue) -> (r: Option<String>)
    ensures
        match r {
            Some(s) => spec_id_string(v@) == Some(s@),
            None => spec_id_string(v@) is None,
        },
{
    match arg_to_true_type(v) {
        Some(t) => Some(t.to_string()),
        None => None,
    }
}

/// A prefix stripped from a string, where it starts with one.
pub open spec fn spec_strip(s: Seq<char>, p: Seq<char>) -> Option<Seq<char>> {
    if s.len() >= p.len() && s.subrange(0, p.len() as int) == p {
        Some(s.subrange(p.len() as int, s.len() as int))
    } else {
        None
    }
}

fn strip_prefix_str(s: &str, p: &str) -> (r: Option<String>)
    ensures
        match r {
            Some(rest) => spec_strip(s@, p@) == Some(rest@),
            None => spec_strip(s@, p@) is None,
        },
{
    let sn = s.unicode_len();
    let pn = p.unicode_len();
    if sn >= pn {
        let head = s.substring_char(0, pn);
        if crate::name::str_eq(head, p) {
            let tail = s.substring_char(pn, sn);
            return Some(tail.to_owned());
        }
    }
    None
}

// ---------------------------------------------------------------------------
// Introspection: the synthesized schema described in response data
// ---------------------------------------------------------------------------

/// Shorthands for the scalar field values of introspection data.
pub open spec fn fv_str(s: Seq<char>) -> FieldValueV {
    FieldValueV::Scalar(ValueV::Prim(Some(PrimV::Str(s))))
}

pub open spec fn fv_null() -> FieldValueV {
    FieldValueV::Scalar(ValueV::Prim(None))
}

pub open spec fn fv_empty_list() -> FieldValueV {
    FieldValueV::Scalar(ValueV::Arr(Some(Seq::empty())))
}

pub open spec fn fv_false() -> FieldValueV {
    FieldValueV::Scalar(ValueV::Prim(Some(PrimV::Bool(false))))
}

pub type DataV = Seq<(Seq<char>, FieldValueV)>;

fn mk_str(s: &str) -> (r: FieldValue)
    ensures
        r@ == fv_str(s@),
{
    FieldValue::Scalar(TrueType::Primitive(Some(TruePrimitiveType::String(s.to_owned()))))
}

fn mk_string(s: String) -> (r: FieldValue)
    ensures
        r@ == fv_str(s@),
{
    FieldValue::Scalar(TrueType::Primitive(Some(TruePrimitiveType::String(s))))
}

fn mk_null() -> (r: FieldValue)
    ensures
        r@ == fv_null(),
{
    FieldValue::Scalar(TrueType::Primitive(None))
}

fn mk_empty_list() -> (r: FieldValue)
    ensures
        r@ == fv_empty_list(),
{
    let r = FieldValue::Scalar(TrueType::Array(Some(Vec::new())));
    proof {
        assert(r@ matches FieldValueV::Scalar(v) && v matches ValueV::Arr(Some(es)) && es =~= Seq::<
            PrimV,
        >::empty());
    }
    r
}

fn mk_false() -> (r: FieldValue)
    ensures
        r@ == fv_false(),
{
    FieldValue::Scalar(TrueType::Primitive(Some(TruePrimitiveType::Boolean(false))))
}

/// The introspection data of a scalar type.
pub open spec fn scalar_type_data(n: Seq<char>) -> DataV {
    seq![
        ("name"@, fv_str(n)),
        ("kind"@, fv_str("SCALAR"@)),
        ("description"@, fv_null()),
        ("fields"@, fv_null()),
        ("ofType"@, fv_null()),
        ("interfaces"@, fv_empty_list()),
        ("enumValues"@, fv_empty_list()),
        ("possibleTypes"@, fv_empty_list()),
        ("inputFields"@, fv_empty_list()),
    ]
}

fn build_scalar_type_data(n: &str) -> (r: Data)
    ensures
        r@ == scalar_type_data(n@),
{
    let mut d = Data::new();
    d.insert("name".to_owned(), mk_str(n));
    d.insert("kind".to_owned(), mk_str("SCALAR"));
    d.insert("description".to_owned(), mk_null());
    d.insert("fields".to_owned(), mk_null());
    d.insert("ofType".to_owned(), mk_null());
    d.insert("interfaces".to_owned(), mk_empty_list());
    d.insert("enumValues".to_owned(), mk_empty_list());
    d.insert("possibleTypes".to_owned(), mk_empty_list());
    d.insert("inputFields".to_owned(), mk_empty_list());
    proof {
        assert(d@ =~= scalar_type_data(n@));
    }
    d
}

/// The introspection data of a List or NonNull wrapping, recursing through
/// `ofType`.
pub open spec fn wrap_type_data(kind: Seq<char>, of: FieldValueV) -> DataV {
    seq![
        ("name"@, fv_null()),
        ("description"@, fv_null()),
        ("fields"@, fv_empty_list()),
        ("interfaces"@, fv_empty_list()),
        ("possibleTypes"@, fv_empty_list()),
        ("enumValues"@, fv_empty_list()),
        ("inputFields"@, fv_empty_list()),
        ("kind"@, fv_str(kind)),
        ("ofType"@, of),
    ]
}

fn build_wrap_type_data(kind: &str, of: FieldValue) -> (r: Data)
    ensures
        r@ == wrap_type_data(kind@, of@),
{
    let mut d = Data::new();
    d.insert("name".to_owned(), mk_null());
    d.insert("description".to_owned(), mk_null());
    d.insert("fields".to_owned(), mk_empty_list());
    d.insert("interfaces".to_owned(), mk_empty_list());
    d.insert("possibleTypes".to_owned(), mk_empty_list());
    d.insert("enumValues".to_owned(), mk_empty_list());
    d.insert("inputFields".to_owned(), mk_empty_list());
    d.insert("kind".to_owned(), mk_str(kind));
    d.insert("ofType".to_owned(), of);
    proof {
        assert(d@ =~= wrap_type_data(kind@, of@));
    }
    d
}

/// The introspection value of one scalar type reference.
pub open spec fn scalar_fv(t: crate::value::PrimitiveType) -> FieldValueV {
    FieldValueV::Object(scalar_type_data(crate::schema::spec_gql_prim(t)))
}

/// The introspection value of an attribute's type, with List and NonNull
/// wrappings resolved through `ofType`.
pub open spec fn attr_type_fv(ty: crate::value::AttrType, required: bool) -> FieldValueV {
    match ty {
        crate::value::AttrType::Primitive(t) => if required {
            FieldValueV::Object(wrap_type_data("NON_NULL"@, scalar_fv(t)))
        } else {
            scalar_fv(t)
        },
        crate::value::AttrType::Array(t) => {
            let lst = FieldValueV::Object(
                wrap_type_data(
                    "LIST"@,
                    FieldValueV::Object(wrap_type_data("NON_NULL"@, scalar_fv(t))),
                ),
            );
            if required {
                FieldValueV::Object(wrap_type_data("NON_NULL"@, lst))
            } else {
                lst
            }
        },
    }
}

fn build_attr_type_fv(ty: crate::value::AttrType, required: bool) -> (r: FieldValue)
    ensures
        r@ == attr_type_fv(ty, required),
{
    match ty {
        crate::value::AttrType::Primitive(t) => {
            let name = crate::schema::to_gql_type(&t);
            let base = FieldValue::Object(build_scalar_type_data(name.as_str()));
            if required {
                FieldValue::Object(build_wrap_type_data("NON_NULL", base))
            } else {
                base
            }
        },
        crate::value::AttrType::Array(t) => {
            let name = crate::schema::to_gql_type(&t);
            let base = FieldValue::Object(build_scalar_type_data(name.as_str()));
            let nn = FieldValue::Object(build_wrap_type_data("NON_NULL", base));
            let lst = FieldValue::Object(build_wrap_type_data("LIST", nn));
            if required {
                FieldValue::Object(build_wrap_type_data("NON_NULL", lst))
            } else {
                lst
            }
        },
    }
}

/// The introspection data of one field definition.
pub open spec fn field_data(name: Seq<char>, args: Seq<DataV>, ty: FieldValueV) -> DataV {
    seq![
        ("name"@, fv_str(name)),
        ("description"@, fv_null()),
        ("args"@, FieldValueV::Objects(args)),
        ("type"@, ty),
        ("isDeprecated"@, fv_false()),
        ("deprecationReason"@, fv_null()),
    ]
}

fn build_field_data(name: &String, args: Vec<Data>, ty: FieldValue) -> (r: Data)
    ensures
        r@ == field_data(name@, crate::gql::datas_view(args@), ty@),
{
    let ghost av = crate::gql::datas_view(args@);
    let mut d = Data::new();
    d.insert("name".to_owned(), mk_string(name.clone()));
    d.insert("description".to_owned(), mk_null());
    d.insert("args".to_owned(), FieldValue::Objects(args));
    d.insert("type".to_owned(), ty);
    d.insert("isDeprecated".to_owned(), mk_false());
    d.insert("deprecationReason".to_owned(), mk_null());
    proof {
        assert(d@ =~= field_data(name@, av, ty@));
    }
    d
}

/// The introspection data of one resolver argument.
pub open spec fn arg_data(name: Seq<char>, ty: FieldValueV) -> DataV {
    seq![
        ("name"@, fv_str(name)),
        ("type"@, ty),
        ("description"@, fv_null()),
        ("defaultValue"@, fv_null()),
    ]
}

fn build_arg_data(name: &String, ty: FieldValue) -> (r: Data)
    ensures
        r@ == arg_data(name@, ty@),
{
    let mut d = Data::new();
    d.insert("name".to_owned(), mk_string(name.clone()));
    d.insert("type".to_owned(), ty);
    d.insert("description".to_owned(), mk_null());
    d.insert("defaultValue".to_owned(), mk_null());
    proof {
        assert(d@ =~= arg_data(name@, ty@));
    }
    d
}

/// The introspection data of an object type.
pub open spec fn object_type_data(name: Seq<char>, fields: Seq<DataV>) -> DataV {
    seq![
        ("name"@, fv_str(name)),
        ("kind"@, fv_str("OBJECT"@)),
        ("description"@, fv_null()),
        ("fields"@, FieldValueV::Objects(fields)),
        ("ofType"@, fv_null()),
        ("interfaces"@, fv_empty_list()),
        ("enumValues"@, fv_empty_list()),
        ("possibleTypes"@, fv_empty_list()),
        ("inputFields"@, fv_empty_list()),
    ]
}

fn build_object_type_data(name: &str, fields: Vec<Data>) -> (r: Data)
    ensures
        r@ == object_type_data(name@, crate::gql::datas_view(fields@)),
{
    let ghost fv = crate::gql::datas_view(fields@);
    let mut d = Data::new();
    d.insert("name".to_owned(), mk_str(name));
    d.insert("kind".to_owned(), mk_str("OBJECT"));
    d.insert("description".to_owned(), mk_null());
    d.insert("fields".to_owned(), FieldValue::Objects(fields));
    d.insert("ofType".to_owned(), mk_null());
    d.insert("interfaces".to_owned(), mk_empty_list());
    d.insert("enumValues".to_owned(), mk_empty_list());
    d.insert("possibleTypes".to_owned(), mk_empty_list());
    d.insert("inputFields".to_owned(), mk_empty_list());
    proof {
        assert(d@ =~= object_type_data(name@, fv));
    }
    d
}

/// The field list of one model's object type, in schema order.
pub open spec fn model_fields(m: ModelV, attrs: Seq<(Seq<char>, crate::value::AttrType)>) -> Seq<
    DataV,
>
    decreases attrs.len(),
{
    if attrs.len() == 0 {
        Seq::empty()
    } else {
        model_fields(m, attrs.drop_last()).push(
            field_data(
                attrs.last().0,
                Seq::empty(),
                attr_type_fv(attrs.last().1, m.is_required(attrs.last().0)),
            ),
        )
    }
}

/// The introspection data of one model's object type.
pub open spec fn model_object_data(m: ModelV) -> DataV {
    object_type_data(
        crate::schema::pasc_sing(m.model_name),
        model_fields(m, crate::schema::ordered_attrs(m)),
    )
}

#[verifier::loop_isolation(false)]
fn build_model_object_data(model: &ModelDefinition) -> (r: Data)
    requires
        model@.structure_ok(),
    ensures
        r@ == model_object_data(model@),
{
    let ghost m = model@;
    let attrs = crate::schema::ordered_attrs_exec(model);
    let ghost av = crate::schema::ordered_attrs(m);
    let mut fields: Vec<Data> = Vec::new();
    let mut i: usize = 0;
    while i < attrs.len()
        invariant
            0 <= i <= attrs@.len(),
            m == model@,
            m.structure_ok(),
            av == crate::schema::ordered_attrs(m),
            Seq::new(attrs@.len(), |k: int| ((attrs@[k]).0@, attrs@[k].1)) =~= av,
            crate::gql::datas_view(fields@) =~= model_fields(m, av.subrange(0, i as int)),
        decreases attrs@.len() - i,
    {
        proof {
            assert(av[i as int] == (attrs@[i as int].0@, attrs@[i as int].1));
        }
        let required = model.required_contains(&attrs[i].0);
        let ty = build_attr_type_fv(attrs[i].1, required);
        let f = build_field_data(&attrs[i].0.0, Vec::new(), ty);
        let ghost pre_vec = fields@;
        fields.push(f);
        proof {
            assert(fields@.drop_last() =~= pre_vec);
            let pre = av.subrange(0, i as int);
            let post = av.subrange(0, i + 1 as int);
            assert(post.drop_last() =~= pre);
            assert(post.last() == av[i as int]);
            assert(crate::gql::datas_view(fields@) =~= model_fields(m, post));
        }
        i = i + 1;
    }
    proof {
        assert(av.subrange(0, av.len() as int) =~= av);
    }
    let pasc = model.model_name.pascal().singular();
    build_object_type_data(pasc.0.0.as_str(), fields)
}

/// The primary-key attribute type of a model.
pub open spec fn pk_ty(m: ModelV) -> crate::value::AttrType {
    m.attr_of(m.primary_key).unwrap()
}

/// The readOne field of one model's Query entry.
pub open spec fn query_field(m: ModelV) -> DataV {
    field_data(
        "readOne"@ + crate::schema::pasc_sing(m.model_name),
        seq![arg_data(m.primary_key, attr_type_fv(pk_ty(m), true))],
        FieldValueV::Object(
            wrap_type_data("NON_NULL"@, FieldValueV::Object(model_object_data(m))),
        ),
    )
}

pub open spec fn delete_field(m: ModelV) -> DataV {
    field_data(
        "deleteOne"@ + crate::schema::pasc_sing(m.model_name),
        seq![arg_data(m.primary_key, attr_type_fv(pk_ty(m), true))],
        FieldValueV::Object(
            wrap_type_data("NON_NULL"@, FieldValueV::Object(model_object_data(m))),
        ),
    )
}

/// The updateOne arguments: every attribute, the primary key non-null.
pub open spec fn upd_arg_list(m: ModelV, attrs: Seq<(Seq<char>, crate::value::AttrType)>) -> Seq<
    DataV,
>
    decreases attrs.len(),
{
    if attrs.len() == 0 {
        Seq::empty()
    } else {
        upd_arg_list(m, attrs.drop_last()).push(
            arg_data(attrs.last().0, attr_type_fv(attrs.last().1, attrs.last().0 == m.primary_key)),
        )
    }
}

/// The addOne arguments: every attribute, required ones non-null.
pub open spec fn add_arg_list(m: ModelV, attrs: Seq<(Seq<char>, crate::value::AttrType)>) -> Seq<
    DataV,
>
    decreases attrs.len(),
{
    if attrs.len() == 0 {
        Seq::empty()
    } else {
        add_arg_list(m, attrs.drop_last()).push(
            arg_data(attrs.last().0, attr_type_fv(attrs.last().1, m.is_required(attrs.last().0))),
        )
    }
}

pub open spec fn update_field(m: ModelV) -> DataV {
    field_data(
        "updateOne"@ + crate::schema::pasc_sing(m.model_name),
        upd_arg_list(m, crate::schema::ordered_attrs(m)),
        FieldValueV::Object(
            wrap_type_data("NON_NULL"@, FieldValueV::Object(model_object_data(m))),
        ),
    )
}

pub open spec fn add_field(m: ModelV) -> DataV {
    field_data(
        "addOne"@ + crate::schema::pasc_sing(m.model_name),
        add_arg_list(m, crate::schema::ordered_attrs(m)),
        FieldValueV::Object(
            wrap_type_data("NON_NULL"@, FieldValueV::Object(model_object_data(m))),
        ),
    )
}

pub open spec fn query_fields(ms: Seq<ModelV>) -> Seq<DataV>
    decreases ms.len(),
{
    if ms.len() == 0 {
        Seq::empty()
    } else {
        query_fields(ms.drop_last()).push(query_field(ms.last()))
    }
}

pub open spec fn mutation_fields(ms: Seq<ModelV>) -> Seq<DataV>
    decreases ms.len(),
{
    if ms.len() == 0 {
        Seq::empty()
    } else {
        mutation_fields(ms.drop_last()) + seq![
            delete_field(ms.last()),
            update_field(ms.last()),
            add_field(ms.last()),
        ]
    }
}

/// A name reserved for introspection, excluded from the type table to avoid
/// the schema describing its own description.
pub open spec fn is_introspection_name(n: Seq<char>) -> bool {
    n.len() >= 2 && n[0] == '_' && n[1] == '_'
}

/// The first model whose object type bears the name, or -1.
pub open spec fn find_model_by_type(ms: Seq<ModelV>, n: Seq<char>) -> int
    decreases ms.len(),
{
    if ms.len() == 0 {
        -1
    } else if crate::schema::pasc_sing(ms[0].model_name) == n {
        0
    } else {
        let r = find_model_by_type(ms.drop_first(), n);
        if r < 0 {
            -1
        } else {
            r + 1
        }
    }
}

proof fn lemma_find_model_by_type(ms: Seq<ModelV>, n: Seq<char>)
    ensures
        -1 <= find_model_by_type(ms, n) < ms.len(),
        find_model_by_type(ms, n) >= 0 ==> crate::schema::pasc_sing(
            ms[find_model_by_type(ms, n)].model_name,
        ) == n,
        find_model_by_type(ms, n) < 0 ==> (forall|i: int|
            0 <= i < ms.len() ==> crate::schema::pasc_sing((#[trigger] ms[i]).model_name) != n),
    decreases ms.len(),
{
    if ms.len() > 0 && crate::schema::pasc_sing(ms[0].model_name) != n {
        lemma_find_model_by_type(ms.drop_first(), n);
        assert forall|i: int| 1 <= i < ms.len() implies (ms.drop_first())[i - 1] == ms[i] by {}
    }
}

proof fn lemma_find_model_by_type_first(ms: Seq<ModelV>, n: Seq<char>, i: int)
    requires
        0 <= i < ms.len(),
        crate::schema::pasc_sing(ms[i].model_name) == n,
        forall|j: int| 0 <= j < i ==> crate::schema::pasc_sing((#[trigger] ms[j]).model_name) != n,
    ensures
        find_model_by_type(ms, n) == i,
    decreases i,
{
    if i > 0 {
        assert(crate::schema::pasc_sing(ms[0].model_name) != n);
        assert forall|j: int| 0 <= j < i - 1 implies crate::schema::pasc_sing(
            (#[trigger] ms.drop_first()[j]).model_name,
        ) != n by {
            assert(ms.drop_first()[j] == ms[j + 1]);
        }
        assert(ms.drop_first()[i - 1] == ms[i]);
        lemma_find_model_by_type_first(ms.drop_first(), n, i - 1);
    }
}

/// The introspection data of the named type: a built-in scalar, a root type,
/// or a model's object type; nothing for an introspection-reserved or unknown
/// name.
pub open spec fn spec_type_def(n: Seq<char>, ms: Seq<ModelV>) -> Option<DataV> {
    if is_introspection_name(n) {
        None
    } else if n == "Int"@ || n == "Float"@ || n == "String"@ || n == "Boolean"@ || n == "ID"@ {
        Some(scalar_type_data(n))
    } else if n == "Query"@ {
        Some(object_type_data("Query"@, query_fields(ms)))
    } else if n == "Mutation"@ {
        Some(object_type_data("Mutation"@, mutation_fields(ms)))
    } else {
        if find_model_by_type(ms, n) >= 0 {
            Some(model_object_data(ms[find_model_by_type(ms, n)]))
        } else {
            None
        }
    }
}

/// Every type of the synthesized schema, in table order: the built-in
/// scalars, the model object types, then the root types.
pub open spec fn model_datas(ms: Seq<ModelV>) -> Seq<DataV>
    decreases ms.len(),
{
    if ms.len() == 0 {
        Seq::empty()
    } else {
        model_datas(ms.drop_last()).push(model_object_data(ms.last()))
    }
}

pub open spec fn all_types_data(ms: Seq<ModelV>) -> Seq<DataV> {
    seq![
        scalar_type_data("Int"@),
        scalar_type_data("Float"@),
        scalar_type_data("String"@),
        scalar_type_data("Boolean"@),
        scalar_type_data("ID"@),
    ] + model_datas(ms) + seq![
        object_type_data("Query"@, query_fields(ms)),
        object_type_data("Mutation"@, mutation_fields(ms)),
    ]
}

/// The field-value map the `__schema` root resolves against.
pub open spec fn schema_record(ms: Seq<ModelV>) -> DataV {
    seq![
        ("types"@, FieldValueV::Objects(all_types_data(ms))),
        ("queryType"@, FieldValueV::Object(object_type_data("Query"@, query_fields(ms)))),
        ("mutationType"@, FieldValueV::Object(object_type_data("Mutation"@, mutation_fields(ms)))),
        ("subscriptionType"@, fv_null()),
        ("directives"@, fv_empty_list()),
    ]
}

#[verifier::loop_isolation(false)]
fn build_query_type_data(models: &Vec<ModelDefinition>) -> (r: Data)
    requires
        models_ok(models_view(models@)),
    ensures
        r@ == object_type_data("Query"@, query_fields(models_view(models@))),
{
    let ghost ms = models_view(models@);
    let mut fields: Vec<Data> = Vec::new();
    let mut i: usize = 0;
    while i < models.len()
        invariant
            0 <= i <= models@.len(),
            ms == models_view(models@),
            crate::gql::datas_view(fields@) =~= query_fields(ms.subrange(0, i as int)),
        decreases models@.len() - i,
    {
        proof {
            assert(ms[i as int] == models@[i as int]@);
        }
        let model = &models[i];
        let ghost m = model@;
        let pasc = model.model_name.pascal().singular();
        let mut fname = String::new();
        fname.append("readOne");
        fname.append(pasc.0.0.as_str());
        let pk_type = match model.attr_get(&model.primary_key) {
            Some(t) => t,
            None => {
                proof {
                    assert(false);
                }
                crate::value::AttrType::Primitive(crate::value::PrimitiveType::String)
            },
        };
        let arg = build_arg_data(&model.primary_key.0, build_attr_type_fv(pk_type, true));
        let obj = FieldValue::Object(
            build_wrap_type_data("NON_NULL", FieldValue::Object(build_model_object_data(model))),
        );
        let mut args: Vec<Data> = Vec::new();
        args.push(arg);
        proof {
            lemma_datas_view(args@);
            assert(crate::gql::datas_view(args@) =~= seq![
                arg_data(m.primary_key, attr_type_fv(pk_ty(m), true)),
            ]);
        }
        let f = build_field_data(&fname, args, obj);
        let ghost pre_vec = fields@;
        fields.push(f);
        proof {
            assert(fields@.drop_last() =~= pre_vec);
            let pre = ms.subrange(0, i as int);
            let post = ms.subrange(0, i + 1 as int);
            assert(post.drop_last() =~= pre);
            assert(post.last() == ms[i as int]);
            assert(crate::gql::datas_view(fields@) =~= query_fields(post));
        }
        i = i + 1;
    }
    proof {
        assert(ms.subrange(0, ms.len() as int) =~= ms);
    }
    build_object_type_data("Query", fields)
}

#[verifier::loop_isolation(false)]
#[verifier::rlimit(100)]
fn build_mutation_type_data(models: &Vec<ModelDefinition>) -> (r: Data)
    requires
        models_ok(models_view(models@)),
    ensures
        r@ == object_type_data("Mutation"@, mutation_fields(models_view(models@))),
{
    let ghost ms = models_view(models@);
    let mut fields: Vec<Data> = Vec::new();
    let mut i: usize = 0;
    while i < models.len()
        invariant
            0 <= i <= models@.len(),
            ms == models_view(models@),
            crate::gql::datas_view(fields@) =~= mutation_fields(ms.subrange(0, i as int)),
        decreases models@.len() - i,
    {
        proof {
            assert(ms[i as int] == models@[i as int]@);
        }
        let model = &models[i];
        let ghost m = model@;
        let pasc = model.model_name.pascal().singular();
        let pk_type = match model.attr_get(&model.primary_key) {
            Some(t) => t,
            None => {
                proof {
                    assert(false);
                }
                crate::value::AttrType::Primitive(crate::value::PrimitiveType::String)
            },
        };

        // deleteOne
        let mut dname = String::new();
        dname.append("deleteOne");
        dname.append(pasc.0.0.as_str());
        let mut dargs: Vec<Data> = Vec::new();
        dargs.push(build_arg_data(&model.primary_key.0, build_attr_type_fv(pk_type, true)));
        proof {
            lemma_datas_view(dargs@);
            assert(crate::gql::datas_view(dargs@) =~= seq![
                arg_data(m.primary_key, attr_type_fv(pk_ty(m), true)),
            ]);
        }
        let dfield = build_field_data(
            &dname,
            dargs,
            FieldValue::Object(
                build_wrap_type_data(
                    "NON_NULL",
                    FieldValue::Object(build_model_object_data(model)),
                ),
            ),
        );

        // updateOne and addOne argument lists over the ordered attributes
        let attrs = crate::schema::ordered_attrs_exec(model);
        let ghost av = crate::schema::ordered_attrs(m);
        let mut uargs: Vec<Data> = Vec::new();
        let mut aargs: Vec<Data> = Vec::new();
        let mut j: usize = 0;
        while j < attrs.len()
            invariant
                0 <= j <= attrs@.len(),
                m == model@,
                m.structure_ok(),
                av == crate::schema::ordered_attrs(m),
                Seq::new(attrs@.len(), |k: int| ((attrs@[k]).0@, attrs@[k].1)) =~= av,
                crate::gql::datas_view(uargs@) =~= upd_arg_list(m, av.subrange(0, j as int)),
                crate::gql::datas_view(aargs@) =~= add_arg_list(m, av.subrange(0, j as int)),
            decreases attrs@.len() - j,
        {
            proof {
                assert(av[j as int] == (attrs@[j as int].0@, attrs@[j as int].1));
            }
            let is_pk = attrs[j].0.eq_name(&model.primary_key);
            let required = model.required_contains(&attrs[j].0);
            let ghost pre_u = uargs@;
            let ghost pre_a = aargs@;
            uargs.push(build_arg_data(&attrs[j].0.0, build_attr_type_fv(attrs[j].1, is_pk)));
            aargs.push(build_arg_data(&attrs[j].0.0, build_attr_type_fv(attrs[j].1, required)));
            proof {
                assert(uargs@.drop_last() =~= pre_u);
                assert(aargs@.drop_last() =~= pre_a);
                let pre = av.subrange(0, j as int);
                let post = av.subrange(0, j + 1 as int);
                assert(post.drop_last() =~= pre);
                assert(post.last() == av[j as int]);
                assert(crate::gql::datas_view(uargs@) =~= upd_arg_list(m, post));
                assert(crate::gql::datas_view(aargs@) =~= add_arg_list(m, post));
            }
            j = j + 1;
        }
        proof {
            assert(av.subrange(0, av.len() as int) =~= av);
        }
        let mut uname = String::new();
        uname.append("updateOne");
        uname.append(pasc.0.0.as_str());
        let ufield = build_field_data(
            &uname,
            uargs,
            FieldValue::Object(
                build_wrap_type_data(
                    "NON_NULL",
                    FieldValue::Object(build_model_object_data(model)),
                ),
            ),
        );
        let mut aname = String::new();
        aname.append("addOne");
        aname.append(pasc.0.0.as_str());
        let afield = build_field_data(
            &aname,
            aargs,
            FieldValue::Object(
                build_wrap_type_data(
                    "NON_NULL",
                    FieldValue::Object(build_model_object_data(model)),
                ),
            ),
        );

        let ghost pre_vec = fields@;
        fields.push(dfield);
        proof {
            assert(fields@.drop_last() =~= pre_vec);
        }
        let ghost pre_vec2 = fields@;
        fields.push(ufield);
        proof {
            assert(fields@.drop_last() =~= pre_vec2);
        }
        let ghost pre_vec3 = fields@;
        fields.push(afield);
        proof {
            assert(fields@.drop_last() =~= pre_vec3);
            lemma_datas_view(pre_vec);
            lemma_datas_view(fields@);
            let pre = ms.subrange(0, i as int);
            let post = ms.subrange(0, i + 1 as int);
            assert(post.drop_last() =~= pre);
            assert(post.last() == ms[i as int]);
            assert(mutation_fields(post) == mutation_fields(pre) + seq![
                delete_field(ms[i as int]),
                update_field(ms[i as int]),
                add_field(ms[i as int]),
            ]);
            assert(crate::gql::datas_view(fields@) =~= mutation_fields(post));
        }
        i = i + 1;
    }
    proof {
        assert(ms.subrange(0, ms.len() as int) =~= ms);
    }
    build_object_type_data("Mutation", fields)
}

/// Whether a name is reserved for introspection.
fn is_introspection_prefix(n: &str) -> (r: bool)
    ensures
        r == is_introspection_name(n@),
{
    let len = n.unicode_len();
    len >= 2 && n.get_char(0) == '_' && n.get_char(1) == '_'
}

/// Resolves one named type of the synthesized schema to its introspection
/// data, exactly as `spec_type_def` describes.
#[verifier::loop_isolation(false)]
pub fn resolve_type_definition(ty_name: &str, models: &Vec<ModelDefinition>) -> (r: Option<Data>)
    requires
        models_ok(models_view(models@)),
    ensures
        match r {
            Some(d) => spec_type_def(ty_name@, models_view(models@)) == Some(d@),
            None => spec_type_def(ty_name@, models_view(models@)) is None,
        },
{
    let ghost ms = models_view(models@);
    if is_introspection_prefix(ty_name) {
        return None;
    }
    if crate::name::str_eq(ty_name, "Int") || crate::name::str_eq(ty_name, "Float")
        || crate::name::str_eq(ty_name, "String") || crate::name::str_eq(ty_name, "Boolean")
        || crate::name::str_eq(ty_name, "ID") {
        return Some(build_scalar_type_data(ty_name));
    }
    if crate::name::str_eq(ty_name, "Query") {
        return Some(build_query_type_data(models));
    }
    if crate::name::str_eq(ty_name, "Mutation") {
        return Some(build_mutation_type_data(models));
    }
    let mut i: usize = 0;
    while i < models.len()
        invariant
            0 <= i <= models@.len(),
            ms == models_view(models@),
            forall|i2: int| 0 <= i2 < i ==> crate::schema::pasc_sing(
                (#[trigger] ms[i2]).model_name,
            ) != ty_name@,
        decreases models@.len() - i,
    {
        proof {
            assert(ms[i as int] == models@[i as int]@);
        }
        let pasc = models[i].model_name.pascal().singular();
        if crate::name::str_eq(pasc.0.0.as_str(), ty_name) {
            proof {
                lemma_find_model_by_type_first(ms, ty_name@, i as int);
            }
            return Some(build_model_object_data(&models[i]));
        }
        i = i + 1;
    }
    proof {
        lemma_find_model_by_type(ms, ty_name@);
    }
    None
}

/// The field-value map for `__schema`, exactly `schema_record` of the models.
#[verifier::loop_isolation(false)]
fn build_schema_record(models: &Vec<ModelDefinition>) -> (r: Data)
    requires
        models_ok(models_view(models@)),
    ensures
        r@ == schema_record(models_view(models@)),
{
    let ghost ms = models_view(models@);
    let mut types: Vec<Data> = Vec::new();
    types.push(build_scalar_type_data("Int"));
    types.push(build_scalar_type_data("Float"));
    types.push(build_scalar_type_data("String"));
    types.push(build_scalar_type_data("Boolean"));
    types.push(build_scalar_type_data("ID"));
    proof {
        lemma_datas_view(types@);
        assert(model_datas(ms.subrange(0, 0)) =~= Seq::<DataV>::empty());
        assert(crate::gql::datas_view(types@) =~= seq![
            scalar_type_data("Int"@),
            scalar_type_data("Float"@),
            scalar_type_data("String"@),
            scalar_type_data("Boolean"@),
            scalar_type_data("ID"@),
        ] + model_datas(ms.subrange(0, 0)));
    }
    let mut i: usize = 0;
    while i < models.len()
        invariant
            0 <= i <= models@.len(),
            ms == models_view(models@),
            crate::gql::datas_view(types@) =~= seq![
                scalar_type_data("Int"@),
                scalar_type_data("Float"@),
                scalar_type_data("String"@),
                scalar_type_data("Boolean"@),
                scalar_type_data("ID"@),
            ] + model_datas(ms.subrange(0, i as int)),
        decreases models@.len() - i,
    {
        proof {
            assert(ms[i as int] == models@[i as int]@);
        }
        let d = build_model_object_data(&models[i]);
        let ghost pre_vec = types@;
        types.push(d);
        proof {
            assert(types@.drop_last() =~= pre_vec);
            lemma_datas_view(pre_vec);
            lemma_datas_view(types@);
            let pre = ms.subrange(0, i as int);
            let post = ms.subrange(0, i + 1 as int);
            assert(post.drop_last() =~= pre);
            assert(post.last() == ms[i as int]);
            assert(crate::gql::datas_view(types@) =~= seq![
                scalar_type_data("Int"@),
                scalar_type_data("Float"@),
                scalar_type_data("String"@),
                scalar_type_data("Boolean"@),
                scalar_type_data("ID"@),
            ] + model_datas(post));
        }
        i = i + 1;
    }
    proof {
        assert(ms.subrange(0, ms.len() as int) =~= ms);
    }
    let qdata = build_query_type_data(models);
    let mdata = build_mutation_type_data(models);
    let ghost pre_vec = types@;
    types.push(qdata);
    proof {
        assert(types@.drop_last() =~= pre_vec);
    }
    let ghost pre_vec2 = types@;
    types.push(mdata);
    proof {
        assert(types@.drop_last() =~= pre_vec2);
        lemma_datas_view(pre_vec);
        lemma_datas_view(pre_vec2);
        lemma_datas_view(types@);
        assert(crate::gql::datas_view(types@) =~= all_types_data(ms));
    }
    let mut d = Data::new();
    d.insert("types".to_owned(), FieldValue::Objects(types));
    d.insert("queryType".to_owned(), FieldValue::Object(build_query_type_data(models)));
    d.insert("mutationType".to_owned(), FieldValue::Object(build_mutation_type_data(models)));
    d.insert("subscriptionType".to_owned(), mk_null());
    d.insert("directives".to_owned(), mk_empty_list());
    proof {
        assert(d@ =~= schema_record(ms));
    }
    d
}

// ---------------------------------------------------------------------------
// Selection-set resolution
// ---------------------------------------------------------------------------

/// The key under which a field's value is returned.
pub open spec fn resp_key_v(f: crate::gql::FieldV) -> Seq<char> {
    match f.alias {
        Some(a) => a,
        None => f.name,
    }
}

/// The recursion budget of selection-set resolution: a validated document has
/// acyclic fragments, so its nesting stays far below this.
pub open spec fn spec_fuel() -> nat {
    4096
}

/// The entries one selection contributes when resolved against a field-value
/// map: a scalar comes out under its response key; a nested object or object
/// list recurses with the sub-field's selection set; a field with no matching
/// entry must be `__typename`, resolved to the enclosing resolver's type
/// name; fragments resolve against the same map and splice their entries in.
pub open spec fn spec_sel_entries(
    sel: SelectionV,
    ty: Seq<char>,
    data: DataV,
    doc: DocumentV,
    fuel: nat,
) -> Result<DataV, ()>
    decreases fuel, 1int, 0int,
{
    match sel {
        SelectionV::Field(f) => match lookup(data, f.name) {
            Some(FieldValueV::Objects(ds)) => match spec_resolve_objects(
                f.selection_set,
                f.ty_name,
                ds,
                doc,
                fuel,
            ) {
                Ok(rs) => Ok(seq![(f.name, FieldValueV::Objects(rs))]),
                Err(_) => Err(()),
            },
            Some(FieldValueV::Object(d)) => if fuel == 0 {
                Err(())
            } else {
                match spec_resolve_set(f.selection_set, f.ty_name, d, doc, (fuel - 1) as nat) {
                    Ok(rd) => Ok(seq![(f.name, FieldValueV::Object(rd))]),
                    Err(_) => Err(()),
                }
            },
            Some(v) => Ok(seq![(resp_key_v(f), v)]),
            None => if f.name == "__typename"@ {
                Ok(seq![(f.name, fv_str(ty))])
            } else {
                Err(())
            },
        },
        SelectionV::FragmentSpread(n) => match lookup(doc.fragments, n) {
            Some(fsels) => if fuel == 0 {
                Err(())
            } else {
                spec_resolve_set(fsels, ty, data, doc, (fuel - 1) as nat)
            },
            None => Err(()),
        },
        SelectionV::InlineFragment(sels) => if fuel == 0 {
            Err(())
        } else {
            spec_resolve_set(sels, ty, data, doc, (fuel - 1) as nat)
        },
    }
}

/// Each object of a list resolved against the same selection set.
pub open spec fn spec_resolve_objects(
    sels: Seq<SelectionV>,
    ty: Seq<char>,
    ds: Seq<DataV>,
    doc: DocumentV,
    fuel: nat,
) -> Result<Seq<DataV>, ()>
    decreases fuel, 0int, ds.len(),
{
    if ds.len() == 0 {
        Ok(Seq::empty())
    } else {
        match spec_resolve_objects(sels, ty, ds.drop_last(), doc, fuel) {
            Ok(pre) => if fuel == 0 {
                Err(())
            } else {
                match spec_resolve_set(sels, ty, ds.last(), doc, (fuel - 1) as nat) {
                    Ok(d) => Ok(pre.push(d)),
                    Err(_) => Err(()),
                }
            },
            Err(_) => Err(()),
        }
    }
}

/// A selection set resolved against a field-value map: the concatenation of
/// its selections' entries, in order.
pub open spec fn spec_resolve_set(
    sels: Seq<SelectionV>,
    ty: Seq<char>,
    data: DataV,
    doc: DocumentV,
    fuel: nat,
) -> Result<DataV, ()>
    decreases fuel, 2int, sels.len(),
{
    if sels.len() == 0 {
        Ok(Seq::empty())
    } else {
        match spec_resolve_set(sels.drop_last(), ty, data, doc, fuel) {
            Ok(pre) => match spec_sel_entries(sels.last(), ty, data, doc, fuel) {
                Ok(es) => Ok(pre + es),
                Err(_) => Err(()),
            },
            Err(_) => Err(()),
        }
    }
}

/// An error at one selection fails the whole set.
proof fn lemma_resolve_set_err(
    sels: Seq<SelectionV>,
    ty: Seq<char>,
    data: DataV,
    doc: DocumentV,
    fuel: nat,
    i: int,
    j: int,
)
    requires
        0 <= i <= j <= sels.len(),
        spec_resolve_set(sels.subrange(0, i), ty, data, doc, fuel) is Err,
    ensures
        spec_resolve_set(sels.subrange(0, j), ty, data, doc, fuel) is Err,
    decreases j - i,
{
    if j > i {
        lemma_resolve_set_err(sels, ty, data, doc, fuel, i, j - 1);
        assert(sels.subrange(0, j).drop_last() =~= sels.subrange(0, j - 1));
    }
}

proof fn lemma_resolve_objects_err(
    sels: Seq<SelectionV>,
    ty: Seq<char>,
    ds: Seq<DataV>,
    doc: DocumentV,
    fuel: nat,
    i: int,
    j: int,
)
    requires
        0 <= i <= j <= ds.len(),
        spec_resolve_objects(sels, ty, ds.subrange(0, i), doc, fuel) is Err,
    ensures
        spec_resolve_objects(sels, ty, ds.subrange(0, j), doc, fuel) is Err,
    decreases j - i,
{
    if j > i {
        lemma_resolve_objects_err(sels, ty, ds, doc, fuel, i, j - 1);
        assert(ds.subrange(0, j).drop_last() =~= ds.subrange(0, j - 1));
    }
}

/// Resolves each object of a list against the same selection set, exactly as
/// `spec_resolve_objects` describes.
#[verifier::loop_isolation(false)]
fn resolve_objects(
    sels: &Vec<GqlSelection>,
    ty: &String,
    ds: &Vec<Data>,
    document: &GqlDocument,
    fuel: u64,
) -> (r: Result<Vec<Data>, GusError>)
    ensures
        match spec_resolve_objects(
            sels_view(sels@),
            ty@,
            crate::gql::datas_view(ds@),
            document@,
            fuel as nat,
        ) {
            Ok(rs) => r matches Ok(out) && crate::gql::datas_view(out@) == rs,
            Err(_) => r matches Err(e) && e.kind == ErrorKind::Unreachable,
        },
    decreases fuel, 0int, ds@.len(),
{
    proof {
        lemma_datas_view(ds@);
    }
    let ghost dv = crate::gql::datas_view(ds@);
    let mut out: Vec<Data> = Vec::new();
    let mut i: usize = 0;
    while i < ds.len()
        invariant
            0 <= i <= ds@.len(),
            dv == crate::gql::datas_view(ds@),
            dv.len() == ds@.len(),
            forall|j: int| 0 <= j < dv.len() ==> dv[j] == ds@[j]@,
            spec_resolve_objects(sels_view(sels@), ty@, dv.subrange(0, i as int), document@, fuel as nat)
                == Ok::<Seq<DataV>, ()>(crate::gql::datas_view(out@)),
        decreases ds@.len() - i,
    {
        if fuel == 0 {
            proof {
                assert(spec_resolve_objects(
                    sels_view(sels@),
                    ty@,
                    dv.subrange(0, i as int + 1),
                    document@,
                    fuel as nat,
                ) is Err) by {
                    assert(dv.subrange(0, i as int + 1).drop_last() =~= dv.subrange(0, i as int));
                    assert(dv.subrange(0, i as int + 1).len() > 0);
                }
                lemma_resolve_objects_err(
                    sels_view(sels@),
                    ty@,
                    dv,
                    document@,
                    fuel as nat,
                    i as int + 1,
                    dv.len() as int,
                );
                assert(dv.subrange(0, dv.len() as int) =~= dv);
            }
            return Err(GusError::new(ErrorKind::Unreachable, "invalid selections"));
        }
        let d = match resolve_selection_set(sels, ty, &ds[i], document, fuel - 1) {
            Ok(d) => d,
            Err(e) => {
                proof {
                    assert(dv.subrange(0, i as int + 1).drop_last() =~= dv.subrange(0, i as int));
                    assert(dv.subrange(0, i as int + 1).last() == dv[i as int]);
                    lemma_resolve_objects_err(
                        sels_view(sels@),
                        ty@,
                        dv,
                        document@,
                        fuel as nat,
                        i as int + 1,
                        dv.len() as int,
                    );
                    assert(dv.subrange(0, dv.len() as int) =~= dv);
                }
                return Err(e);
            },
        };
        let ghost pre_vec = out@;
        out.push(d);
        proof {
            assert(out@.drop_last() =~= pre_vec);
            lemma_datas_view(pre_vec);
            lemma_datas_view(out@);
            assert(dv.subrange(0, i as int + 1).drop_last() =~= dv.subrange(0, i as int));
            assert(dv.subrange(0, i as int + 1).last() == dv[i as int]);
            assert(crate::gql::datas_view(out@) =~= crate::gql::datas_view(pre_vec).push(d@));
        }
        i = i + 1;
    }
    proof {
        assert(dv.subrange(0, dv.len() as int) =~= dv);
    }
    Ok(out)
}

/// Resolves a selection set against a field-value map, exactly as
/// `spec_resolve_set` describes; a selection the map cannot answer is a fault
/// of the request as a whole.
#[verifier::loop_isolation(false)]
pub fn resolve_selection_set(
    selections: &Vec<GqlSelection>,
    resolver_ty: &String,
    field_data: &Data,
    document: &GqlDocument,
    fuel: u64,
) -> (r: Result<Data, GusError>)
    ensures
        match spec_resolve_set(
            sels_view(selections@),
            resolver_ty@,
            field_data@,
            document@,
            fuel as nat,
        ) {
            Ok(dv) => r matches Ok(d) && d@ == dv,
            Err(_) => r matches Err(e) && e.kind == ErrorKind::Unreachable,
        },
    decreases fuel, 2int, selections@.len(),
{
    proof {
        lemma_sels_view(selections@);
    }
    let ghost sv = sels_view(selections@);
    let mut out = Data::new();
    let mut i: usize = 0;
    while i < selections.len()
        invariant
            0 <= i <= selections@.len(),
            sv == sels_view(selections@),
            sv.len() == selections@.len(),
            forall|j: int| 0 <= j < sv.len() ==> sv[j] == selections@[j]@,
            spec_resolve_set(sv.subrange(0, i as int), resolver_ty@, field_data@, document@, fuel as nat)
                == Ok::<DataV, ()>(out@),
        decreases selections@.len() - i,
    {
        let ghost pre_out = out@;
        let ghost se = spec_sel_entries(
            sv[i as int],
            resolver_ty@,
            field_data@,
            document@,
            fuel as nat,
        );
        proof {
            assert(sv[i as int] == selections@[i as int]@);
        }
        let entries: Result<Data, GusError> = match &selections[i] {
            GqlSelection::Field(f) => {
                match field_data.get(&f.name) {
                    Some(FieldValue::Objects(ds)) => {
                        match resolve_objects(&f.selection_set, &f.ty_name, ds, document, fuel) {
                            Ok(rs) => {
                                let ghost rsv = crate::gql::datas_view(rs@);
                                let mut d = Data::new();
                                d.insert(f.name.clone(), FieldValue::Objects(rs));
                                proof {
                                    assert(d@ =~= seq![(f@.name, FieldValueV::Objects(rsv))]);
                                    assert(se == Ok::<DataV, ()>(d@));
                                }
                                Ok(d)
                            },
                            Err(e) => {
                                assert(se is Err);
                                Err(e)
                            },
                        }
                    },
                    Some(FieldValue::Object(sub)) => {
                        if fuel == 0 {
                            assert(se is Err);
                            Err(GusError::new(ErrorKind::Unreachable, "invalid selections"))
                        } else {
                            match resolve_selection_set(
                                &f.selection_set,
                                &f.ty_name,
                                sub,
                                document,
                                fuel - 1,
                            ) {
                                Ok(rd) => {
                                    let ghost rdv = rd@;
                                    let mut d = Data::new();
                                    d.insert(f.name.clone(), FieldValue::Object(rd));
                                    proof {
                                        assert(d@ =~= seq![(f@.name, FieldValueV::Object(rdv))]);
                                        assert(se == Ok::<DataV, ()>(d@));
                                    }
                                    Ok(d)
                                },
                                Err(e) => {
                                    assert(se is Err);
                                    Err(e)
                                },
                            }
                        }
                    },
                    Some(FieldValue::Scalar(v)) => {
                        let mut d = Data::new();
                        d.insert(f.response_key().clone(), FieldValue::Scalar(v.dup()));
                        proof {
                            assert(d@ =~= seq![(resp_key_v(f@), FieldValueV::Scalar(v@))]);
                            assert(se == Ok::<DataV, ()>(d@));
                        }
                        Ok(d)
                    },
                    None => {
                        if crate::name::str_eq(f.name.as_str(), "__typename") {
                            let mut d = Data::new();
                            d.insert(f.name.clone(), mk_string(resolver_ty.clone()));
                            proof {
                                assert(d@ =~= seq![(f@.name, fv_str(resolver_ty@))]);
                                assert(se == Ok::<DataV, ()>(d@));
                            }
                            Ok(d)
                        } else {
                            assert(se is Err);
                            Err(GusError::new(ErrorKind::Unreachable, "invalid selections"))
                        }
                    },
                }
            },
            GqlSelection::FragmentSpread(n) => {
                match document.fragment(n) {
                    Some(fsels) => {
                        if fuel == 0 {
                            assert(se is Err);
                            Err(GusError::new(ErrorKind::Unreachable, "invalid selections"))
                        } else {
                            let rr = resolve_selection_set(
                                fsels,
                                resolver_ty,
                                field_data,
                                document,
                                fuel - 1,
                            );
                            proof {
                                match &rr {
                                    Ok(d) => {
                                        assert(se == Ok::<DataV, ()>(d@));
                                    },
                                    Err(_) => {
                                        assert(se is Err);
                                    },
                                }
                            }
                            rr
                        }
                    },
                    None => {
                        assert(se is Err);
                        Err(GusError::new(ErrorKind::Unreachable, "invalid selections"))
                    },
                }
            },
            GqlSelection::InlineFragment(sels) => {
                if fuel == 0 {
                    assert(se is Err);
                    Err(GusError::new(ErrorKind::Unreachable, "invalid selections"))
                } else {
                    let rr = resolve_selection_set(sels, resolver_ty, field_data, document, fuel - 1);
                    proof {
                        match &rr {
                            Ok(d) => {
                                assert(se == Ok::<DataV, ()>(d@));
                            },
                            Err(_) => {
                                assert(se is Err);
                            },
                        }
                    }
                    rr
                }
            },
        };
        proof {
            assert(sv.subrange(0, i as int + 1).drop_last() =~= sv.subrange(0, i as int));
            assert(sv.subrange(0, i as int + 1).last() == sv[i as int]);
        }
        match entries {
            Ok(d) => {
                let ghost dv = d@;
                out.append(d);
                proof {
                    assert(se == Ok::<DataV, ()>(dv));
                    assert(spec_resolve_set(
                        sv.subrange(0, i as int + 1),
                        resolver_ty@,
                        field_data@,
                        document@,
                        fuel as nat,
                    ) == Ok::<DataV, ()>(out@));
                }
            },
            Err(e) => {
                proof {
                    assert(se is Err);
                    lemma_resolve_set_err(
                        sv,
                        resolver_ty@,
                        field_data@,
                        document@,
                        fuel as nat,
                        i as int + 1,
                        sv.len() as int,
                    );
                    assert(sv.subrange(0, sv.len() as int) =~= sv);
                }
                return Err(e);
            },
        }
        i = i + 1;
    }
    proof {
        assert(sv.subrange(0, sv.len() as int) =~= sv);
    }
    Ok(out)
}

// ---------------------------------------------------------------------------
// Root execution
// ---------------------------------------------------------------------------

/// The object type name answering `__typename` at the operation root.
pub open spec fn kind_name(k: OpKind) -> Seq<char> {
    match k {
        OpKind::Query => "Query"@,
        OpKind::Mutation => "Mutation"@,
        OpKind::Subscription => "Subscription"@,
    }
}

/// The GraphQL error message for a failure of the record pipeline.
pub open spec fn spec_kind_message(k: ErrorKind) -> Seq<char> {
    match k {
        ErrorKind::InvalidData => "invalid data"@,
        ErrorKind::NotFound => "not found"@,
        ErrorKind::AlreadyExists => "a record for the given key already exists"@,
        ErrorKind::PermissionDenied => "permission denied"@,
        ErrorKind::Unreachable => "internal error"@,
    }
}

fn kind_message(k: ErrorKind) -> (r: String)
    ensures
        r@ == spec_kind_message(k),
{
    match k {
        ErrorKind::InvalidData => "invalid data".to_owned(),
        ErrorKind::NotFound => "not found".to_owned(),
        ErrorKind::AlreadyExists => "a record for the given key already exists".to_owned(),
        ErrorKind::PermissionDenied => "permission denied".to_owned(),
        ErrorKind::Unreachable => "internal error".to_owned(),
    }
}

/// A record's attributes as a field-value map of scalars.
pub open spec fn spec_record_data(rv: RecordV) -> DataV {
    Seq::new(rv.len(), |i: int| (rv[i].0, FieldValueV::Scalar(rv[i].1)))
}

fn record_data(rec: &Record) -> (r: Data)
    ensures
        r@ == spec_record_data(rec@),
{
    let mut d = Data::new();
    let mut i: usize = 0;
    while i < rec.pairs.len()
        invariant
            0 <= i <= rec.pairs@.len(),
            rec@.len() == rec.pairs@.len(),
            d@ =~= spec_record_data(rec@).subrange(0, i as int),
        decreases rec.pairs@.len() - i,
    {
        proof {
            assert(rec@[i as int] == (rec.pairs@[i as int].0@, rec.pairs@[i as int].1@));
        }
        d.insert(rec.pairs[i].0.0.clone(), FieldValue::Scalar(rec.pairs[i].1.dup()));
        proof {
            assert(d@ =~= spec_record_data(rec@).subrange(0, i as int + 1));
        }
        i = i + 1;
    }
    proof {
        assert(spec_record_data(rec@).subrange(0, rec@.len() as int) =~= spec_record_data(rec@));
    }
    d
}

/// What one root selection yields: the store afterwards, and either the
/// entries it contributes or one error message. Storage failures are isolated
/// per field; a selection the engine cannot resolve is reported the same way.
pub open spec fn spec_exec_root(
    sel: SelectionV,
    kind: OpKind,
    ms: Seq<ModelV>,
    dbv: DatabaseV,
    doc: DocumentV,
) -> (DatabaseV, Result<DataV, Seq<char>>) {
    match sel {
        SelectionV::Field(f) => {
            if f.name == "__schema"@ {
                match spec_resolve_set(f.selection_set, f.ty_name, schema_record(ms), doc, spec_fuel()) {
                    Ok(d) => (dbv, Ok(seq![(resp_key_v(f), FieldValueV::Object(d))])),
                    Err(_) => (dbv, Err("invalid selections"@)),
                }
            } else if f.name == "__type"@ {
                if f.arguments.len() >= 1 && f.arguments[0].1 matches JsonV::Str(n) {
                    match spec_type_def(f.arguments[0].1->Str_0, ms) {
                        Some(td) => match spec_resolve_set(f.selection_set, f.ty_name, td, doc, spec_fuel()) {
                            Ok(d) => (dbv, Ok(seq![(f.name, FieldValueV::Object(d))])),
                            Err(_) => (dbv, Err("invalid selections"@)),
                        },
                        None => (dbv, Ok(seq![(f.name, fv_null())])),
                    }
                } else {
                    (dbv, Err("invalid arguments"@))
                }
            } else if f.name == "__typename"@ {
                (dbv, Ok(seq![(f.name, fv_str(kind_name(kind)))]))
            } else {
                match kind {
                    OpKind::Query => match spec_strip(f.name, "readOne"@) {
                        Some(model_name) => {
                            if f.arguments.len() == 0 {
                                (dbv, Err("invalid arguments"@))
                            } else {
                                match spec_id_string(f.arguments[0].1) {
                                    None => (dbv, Err("invalid arguments"@)),
                                    Some(id) => match spec_read_one(ms, dbv, model_name, id) {
                                        Ok(rec) => match spec_resolve_set(
                                            f.selection_set,
                                            f.ty_name,
                                            spec_record_data(rec),
                                            doc,
                                            spec_fuel(),
                                        ) {
                                            Ok(d) => (
                                                dbv,
                                                Ok(seq![(resp_key_v(f), FieldValueV::Object(d))]),
                                            ),
                                            Err(_) => (dbv, Err("invalid selections"@)),
                                        },
                                        Err(k) => (dbv, Err(spec_kind_message(k))),
                                    },
                                }
                            }
                        },
                        None => (dbv, Err("readMany is currently not implemented"@)),
                    },
                    OpKind::Mutation => {
                        if spec_strip(f.name, "addOne"@) is Some {
                            let model_name = spec_strip(f.name, "addOne"@).unwrap();
                            match spec_create_with_doc(ms, dbv, model_name, JsonV::Obj(f.arguments)) {
                                Ok((db2, rec)) => match spec_resolve_set(
                                    f.selection_set,
                                    f.ty_name,
                                    spec_record_data(rec),
                                    doc,
                                    spec_fuel(),
                                ) {
                                    Ok(d) => (db2, Ok(seq![(resp_key_v(f), FieldValueV::Object(d))])),
                                    Err(_) => (db2, Err("invalid selections"@)),
                                },
                                Err(k) => (dbv, Err(spec_kind_message(k))),
                            }
                        } else if spec_strip(f.name, "updateOne"@) is Some {
                            let model_name = spec_strip(f.name, "updateOne"@).unwrap();
                            if f.arguments.len() == 0 {
                                (dbv, Err("invalid arguments"@))
                            } else {
                                match spec_id_string(f.arguments[0].1) {
                                    None => (dbv, Err("invalid arguments"@)),
                                    Some(id) => match spec_update_with_doc(
                                        ms,
                                        dbv,
                                        model_name,
                                        id,
                                        JsonV::Obj(f.arguments),
                                    ) {
                                        Ok((db2, rec)) => match spec_resolve_set(
                                            f.selection_set,
                                            f.ty_name,
                                            spec_record_data(rec),
                                            doc,
                                            spec_fuel(),
                                        ) {
                                            Ok(d) => (
                                                db2,
                                                Ok(seq![(resp_key_v(f), FieldValueV::Object(d))]),
                                            ),
                                            Err(_) => (db2, Err("invalid selections"@)),
                                        },
                                        Err(k) => (dbv, Err(spec_kind_message(k))),
                                    },
                                }
                            }
                        } else {
                            match spec_strip(f.name, "deleteOne"@) {
                                Some(model_name) => {
                                    if f.arguments.len() == 0 {
                                        (dbv, Err("invalid arguments"@))
                                    } else {
                                        match spec_id_string(f.arguments[0].1) {
                                            None => (dbv, Err("invalid arguments"@)),
                                            Some(id) => match spec_delete_one(ms, dbv, model_name, id) {
                                                Ok((db2, rec)) => match spec_resolve_set(
                                                    f.selection_set,
                                                    f.ty_name,
                                                    spec_record_data(rec),
                                                    doc,
                                                    spec_fuel(),
                                                ) {
                                                    Ok(d) => (
                                                        db2,
                                                        Ok(
                                                            seq![
                                                                (
                                                                    resp_key_v(f),
                                                                    FieldValueV::Object(d),
                                                                ),
                                                            ],
                                                        ),
                                                    ),
                                                    Err(_) => (db2, Err("invalid selections"@)),
                                                },
                                                Err(k) => (dbv, Err(spec_kind_message(k))),
                                            },
                                        }
                                    }
                                },
                                None => (dbv, Err("unknown mutation"@)),
                            }
                        }
                    },
                    OpKind::Subscription => (dbv, Err("subscriptions are currently not implemented"@)),
                }
            }
        },
        _ => (dbv, Err("fragments are not supported at the operation root"@)),
    }
}

/// The root selections executed in order, each against the store the previous
/// ones left; one failed field cannot prevent its siblings' data.
pub open spec fn spec_exec_sels(
    sels: Seq<SelectionV>,
    kind: OpKind,
    ms: Seq<ModelV>,
    dbv: DatabaseV,
    doc: DocumentV,
) -> (DatabaseV, DataV, Seq<Seq<char>>)
    decreases sels.len(),
{
    if sels.len() == 0 {
        (dbv, Seq::empty(), Seq::empty())
    } else {
        let (db1, d1, e1) = spec_exec_sels(sels.drop_last(), kind, ms, dbv, doc);
        match spec_exec_root(sels.last(), kind, ms, db1, doc) {
            (db2, Ok(d)) => (db2, d1 + d, e1),
            (db2, Err(m)) => (db2, d1, e1.push(m)),
        }
    }
}

/// Error and data assembly: errors only when every field failed, data only
/// when every field succeeded, both otherwise.
pub open spec fn spec_execute_operation(
    op: OperationV,
    ms: Seq<ModelV>,
    dbv: DatabaseV,
    doc: DocumentV,
) -> (DatabaseV, crate::gql::ReturnV) {
    let (db2, d, e) = spec_exec_sels(op.selection_set, op.kind, ms, dbv, doc);
    if e.len() == 0 {
        (db2, crate::gql::ReturnV { errors: None, data: Some(d) })
    } else if d.len() == 0 {
        (db2, crate::gql::ReturnV { errors: Some(e), data: None })
    } else {
        (db2, crate::gql::ReturnV { errors: Some(e), data: Some(d) })
    }
}

/// Executes one root selection, exactly as `spec_exec_root` describes.
#[verifier::loop_isolation(false)]
#[verifier::rlimit(100)]
fn execute_root_field(
    models: &Vec<ModelDefinition>,
    db: &mut Database,
    kind: OpKind,
    sel: &GqlSelection,
    document: &GqlDocument,
) -> (r: Result<Data, crate::gql::GqlError>)
    requires
        models_ok(models_view(models@)),
    ensures
        ({
            let (db2, out) = spec_exec_root(sel@, kind, models_view(models@), old(db)@, document@);
            final(db)@ == db2 && match out {
                Ok(entries) => r matches Ok(d) && d@ == entries,
                Err(m) => r matches Err(e) && e.message@ == m,
            }
        }),
{
    let f = match sel {
        GqlSelection::Field(f) => f,
        _ => {
            return Err(
                crate::gql::GqlError {
                    message: "fragments are not supported at the operation root".to_owned(),
                },
            );
        },
    };
    if crate::name::str_eq(f.name.as_str(), "__schema") {
        let record = build_schema_record(models);
        match resolve_selection_set(&f.selection_set, &f.ty_name, &record, document, 4096) {
            Ok(d) => {
                let mut out = Data::new();
                out.insert(f.response_key().clone(), FieldValue::Object(d));
                proof {
                    assert(out@ =~= seq![(resp_key_v(f@), FieldValueV::Object(out@[0].1->Object_0))]);
                }
                Ok(out)
            },
            Err(_) => Err(crate::gql::GqlError { message: "invalid selections".to_owned() }),
        }
    } else if crate::name::str_eq(f.name.as_str(), "__type") {
        if f.arguments.len() == 0 {
            return Err(crate::gql::GqlError { message: "invalid arguments".to_owned() });
        }
        proof {
            assert(f@.arguments[0] == (f.arguments@[0].0@, f.arguments@[0].1@));
        }
        match &f.arguments[0].1 {
            JsonValue::Str(n) => {
                match resolve_type_definition(n.as_str(), models) {
                    Some(td) => {
                        match resolve_selection_set(&f.selection_set, &f.ty_name, &td, document, 4096) {
                            Ok(d) => {
                                let mut out = Data::new();
                                out.insert(f.name.clone(), FieldValue::Object(d));
                                proof {
                                    assert(out@ =~= seq![(f@.name, FieldValueV::Object(out@[0].1->Object_0))]);
                                }
                                Ok(out)
                            },
                            Err(_) => Err(
                                crate::gql::GqlError { message: "invalid selections".to_owned() },
                            ),
                        }
                    },
                    None => {
                        let mut out = Data::new();
                        out.insert(f.name.clone(), mk_null());
                        proof {
                            assert(out@ =~= seq![(f@.name, fv_null())]);
                        }
                        Ok(out)
                    },
                }
            },
            _ => Err(crate::gql::GqlError { message: "invalid arguments".to_owned() }),
        }
    } else if crate::name::str_eq(f.name.as_str(), "__typename") {
        let name = match kind {
            OpKind::Query => "Query",
            OpKind::Mutation => "Mutation",
            OpKind::Subscription => "Subscription",
        };
        let mut out = Data::new();
        out.insert(f.name.clone(), mk_str(name));
        proof {
            assert(out@ =~= seq![(f@.name, fv_str(kind_name(kind)))]);
        }
        Ok(out)
    } else {
        match kind {
            OpKind::Query => {
                match strip_prefix_str(f.name.as_str(), "readOne") {
                    Some(model_name) => {
                        if f.arguments.len() == 0 {
                            return Err(
                                crate::gql::GqlError { message: "invalid arguments".to_owned() },
                            );
                        }
                        proof {
                            assert(f@.arguments[0] == (f.arguments@[0].0@, f.arguments@[0].1@));
                        }
                        let id = match arg_id_string(&f.arguments[0].1) {
                            Some(id) => id,
                            None => {
                                return Err(
                                    crate::gql::GqlError {
                                        message: "invalid arguments".to_owned(),
                                    },
                                );
                            },
                        };
                        match crate::api::read_one(models, db, model_name.as_str(), id.as_str()) {
                            Ok(rec) => {
                                let fields_data = record_data(&rec);
                                match resolve_selection_set(
                                    &f.selection_set,
                                    &f.ty_name,
                                    &fields_data,
                                    document,
                                    4096,
                                ) {
                                    Ok(d) => {
                                        let mut out = Data::new();
                                        out.insert(f.response_key().clone(), FieldValue::Object(d));
                                        proof {
                                            assert(out@ =~= seq![
                                                (resp_key_v(f@), FieldValueV::Object(out@[0].1->Object_0)),
                                            ]);
                                        }
                                        Ok(out)
                                    },
                                    Err(_) => Err(
                                        crate::gql::GqlError {
                                            message: "invalid selections".to_owned(),
                                        },
                                    ),
                                }
                            },
                            Err(e) => Err(crate::gql::GqlError { message: kind_message(e.kind) }),
                        }
                    },
                    None => Err(
                        crate::gql::GqlError {
                            message: "readMany is currently not implemented".to_owned(),
                        },
                    ),
                }
            },
            OpKind::Mutation => {
                if let Some(model_name) = strip_prefix_str(f.name.as_str(), "addOne") {
                    match crate::api::create_one_with_fields(
                        models,
                        db,
                        model_name.as_str(),
                        &f.arguments,
                    ) {
                        Ok(rec) => {
                            let fields_data = record_data(&rec);
                            match resolve_selection_set(
                                &f.selection_set,
                                &f.ty_name,
                                &fields_data,
                                document,
                                4096,
                            ) {
                                Ok(d) => {
                                    let mut out = Data::new();
                                    out.insert(f.response_key().clone(), FieldValue::Object(d));
                                    proof {
                                        assert(out@ =~= seq![
                                            (resp_key_v(f@), FieldValueV::Object(out@[0].1->Object_0)),
                                        ]);
                                    }
                                    Ok(out)
                                },
                                Err(_) => Err(
                                    crate::gql::GqlError {
                                        message: "invalid selections".to_owned(),
                                    },
                                ),
                            }
                        },
                        Err(e) => Err(crate::gql::GqlError { message: kind_message(e.kind) }),
                    }
                } else if let Some(model_name) = strip_prefix_str(f.name.as_str(), "updateOne") {
                    if f.arguments.len() == 0 {
                        return Err(crate::gql::GqlError { message: "invalid arguments".to_owned() });
                    }
                    proof {
                        assert(f@.arguments[0] == (f.arguments@[0].0@, f.arguments@[0].1@));
                    }
                    let id = match arg_id_string(&f.arguments[0].1) {
                        Some(id) => id,
                        None => {
                            return Err(
                                crate::gql::GqlError { message: "invalid arguments".to_owned() },
                            );
                        },
                    };
                    match crate::api::update_one_with_fields(
                        models,
                        db,
                        model_name.as_str(),
                        id.as_str(),
                        &f.arguments,
                    ) {
                        Ok(rec) => {
                            let fields_data = record_data(&rec);
                            match resolve_selection_set(
                                &f.selection_set,
                                &f.ty_name,
                                &fields_data,
                                document,
                                4096,
                            ) {
                                Ok(d) => {
                                    let mut out = Data::new();
                                    out.insert(f.response_key().clone(), FieldValue::Object(d));
                                    proof {
                                        assert(out@ =~= seq![
                                            (resp_key_v(f@), FieldValueV::Object(out@[0].1->Object_0)),
                                        ]);
                                    }
                                    Ok(out)
                                },
                                Err(_) => Err(
                                    crate::gql::GqlError {
                                        message: "invalid selections".to_owned(),
                                    },
                                ),
                            }
                        },
                        Err(e) => Err(crate::gql::GqlError { message: kind_message(e.kind) }),
                    }
                } else {
                    match strip_prefix_str(f.name.as_str(), "deleteOne") {
                        Some(model_name) => {
                            if f.arguments.len() == 0 {
                                return Err(
                                    crate::gql::GqlError {
                                        message: "invalid arguments".to_owned(),
                                    },
                                );
                            }
                            proof {
                                assert(f@.arguments[0] == (f.arguments@[0].0@, f.arguments@[0].1@));
                            }
                            let id = match arg_id_string(&f.arguments[0].1) {
                                Some(id) => id,
                                None => {
                                    return Err(
                                        crate::gql::GqlError {
                                            message: "invalid arguments".to_owned(),
                                        },
                                    );
                                },
                            };
                            match crate::api::delete_one(models, db, model_name.as_str(), id.as_str()) {
                                Ok(rec) => {
                                    let fields_data = record_data(&rec);
                                    match resolve_selection_set(
                                        &f.selection_set,
                                        &f.ty_name,
                                        &fields_data,
                                        document,
                                        4096,
                                    ) {
                                        Ok(d) => {
                                            let mut out = Data::new();
                                            out.insert(f.response_key().clone(), FieldValue::Object(d));
                                            proof {
                                                assert(out@ =~= seq![
                                                    (
                                                        resp_key_v(f@),
                                                        FieldValueV::Object(out@[0].1->Object_0),
                                                    ),
                                                ]);
                                            }
                                            Ok(out)
                                        },
                                        Err(_) => Err(
                                            crate::gql::GqlError {
                                                message: "invalid selections".to_owned(),
                                            },
                                        ),
                                    }
                                },
                                Err(e) => Err(
                                    crate::gql::GqlError { message: kind_message(e.kind) },
                                ),
                            }
                        },
                        None => Err(crate::gql::GqlError { message: "unknown mutation".to_owned() }),
                    }
                }
            },
            OpKind::Subscription => Err(
                crate::gql::GqlError {
                    message: "subscriptions are currently not implemented".to_owned(),
                },
            ),
        }
    }
}

/// Executes the chosen operation: dispatches every root selection, then
/// assembles data and errors exactly as `spec_execute_operation` describes.
#[verifier::loop_isolation(false)]
pub fn execute_operation(
    op: &GqlOperation,
    models: &Vec<ModelDefinition>,
    db: &mut Database,
    document: &GqlDocument,
) -> (r: GraphQLReturn)
    requires
        models_ok(models_view(models@)),
    ensures
        spec_execute_operation(op@, models_view(models@), old(db)@, document@) == (
            final(db)@,
            r@,
        ),
{
    proof {
        lemma_sels_view(op.selection_set@);
    }
    let ghost sv = sels_view(op.selection_set@);
    let ghost ms = models_view(models@);
    let mut data = Data::new();
    let mut errors: Vec<crate::gql::GqlError> = Vec::new();
    let mut i: usize = 0;
    while i < op.selection_set.len()
        invariant
            0 <= i <= op.selection_set@.len(),
            sv == sels_view(op.selection_set@),
            sv.len() == op.selection_set@.len(),
            forall|j: int| 0 <= j < sv.len() ==> sv[j] == op.selection_set@[j]@,
            models_ok(ms),
            ms == models_view(models@),
            ({
                let (db1, d1, e1) = spec_exec_sels(sv.subrange(0, i as int), op.kind, ms, old(db)@, document@);
                db@ == db1 && data@ == d1 && Seq::new(errors@.len(), |j: int| errors@[j].message@)
                    =~= e1
            }),
        decreases op.selection_set@.len() - i,
    {
        proof {
            assert(sv[i as int] == op.selection_set@[i as int]@);
        }
        let ghost pre_errors = errors@;
        match execute_root_field(models, db, op.kind, &op.selection_set[i], document) {
            Ok(d) => {
                data.append(d);
            },
            Err(e) => {
                errors.push(e);
                proof {
                    assert(errors@.drop_last() =~= pre_errors);
                }
            },
        }
        proof {
            assert(sv.subrange(0, i as int + 1).drop_last() =~= sv.subrange(0, i as int));
            assert(sv.subrange(0, i as int + 1).last() == sv[i as int]);
            let (db1, d1, e1) = spec_exec_sels(sv.subrange(0, i as int + 1), op.kind, ms, old(db)@, document@);
            assert(Seq::new(errors@.len(), |j: int| errors@[j].message@) =~= e1);
        }
        i = i + 1;
    }
    proof {
        assert(sv.subrange(0, sv.len() as int) =~= sv);
    }
    if errors.len() == 0 {
        let r = GraphQLReturn { errors: None, data: Some(data) };
        proof {
            assert(spec_execute_operation(op@, ms, old(db)@, document@) == (db@, r@));
        }
        r
    } else if data.is_empty() {
        let r = GraphQLReturn { errors: Some(errors), data: None };
        proof {
            assert(spec_execute_operation(op@, ms, old(db)@, document@) == (db@, r@));
        }
        r
    } else {
        let r = GraphQLReturn { errors: Some(errors), data: Some(data) };
        proof {
            assert(spec_execute_operation(op@, ms, old(db)@, document@) == (db@, r@));
        }
        r
    }
}

// ---------------------------------------------------------------------------
// Request handling
// ---------------------------------------------------------------------------

/// What a whole GraphQL request yields: the schema is synthesized from the
/// models and the query parsed and validated against it; parse or validation
/// diagnostics are surfaced verbatim as errors with no data; then one
/// operation is chosen and executed.
pub open spec fn spec_handle_post(
    ms: Seq<ModelV>,
    dbv: DatabaseV,
    query: Seq<char>,
    opname: Option<Seq<char>>,
) -> (DatabaseV, crate::gql::ReturnV) {
    match crate::apollo::document_of(crate::schema::spec_create_schema(ms), query) {
        Err(msgs) => (dbv, crate::gql::ReturnV { errors: Some(msgs), data: None }),
        Ok(doc) => match spec_get_operation(doc.operations, opname) {
            Err(m) => (dbv, crate::gql::ReturnV { errors: Some(seq![m]), data: None }),
            Ok(op) => spec_execute_operation(op, ms, dbv, doc),
        },
    }
}

/// Handles one GraphQL request, exactly as `spec_handle_post` describes.
#[verifier::loop_isolation(false)]
pub fn handle_gql_post(
    body: crate::gql::GraphQLPost,
    models: &Vec<ModelDefinition>,
    db: &mut Database,
) -> (r: GraphQLReturn)
    requires
        models_ok(models_view(models@)),
    ensures
        spec_handle_post(
            models_view(models@),
            old(db)@,
            body.query@,
            opt_name_view(&body.operationName),
        ) == (final(db)@, r@),
{
    let schema_text = crate::schema::create_schema(models);
    match crate::apollo::parse_document(schema_text.as_str(), body.query.as_str()) {
        Err(msgs) => {
            let ghost mv = crate::apollo::strings_view(msgs@);
            let mut errors: Vec<crate::gql::GqlError> = Vec::new();
            let mut rest = msgs;
            while rest.len() > 0
                invariant
                    errors@.len() + rest@.len() == mv.len(),
                    forall|j: int| 0 <= j < rest@.len() ==> (#[trigger] rest@[j])@ == mv[j + errors@.len()],
                    forall|j: int| 0 <= j < errors@.len() ==> (#[trigger] errors@[j]).message@
                        == mv[j],
                decreases rest@.len(),
            {
                let ghost pre_rest = rest@;
                let m = rest.remove(0);
                errors.push(crate::gql::GqlError { message: m });
                proof {
                    assert forall|j: int| 0 <= j < rest@.len() implies (#[trigger] rest@[j])@
                        == mv[j + errors@.len()] by {
                        assert(rest@[j] == pre_rest[j + 1]);
                    }
                }
            }
            let r = GraphQLReturn { errors: Some(errors), data: None };
            proof {
                assert(r@.errors.unwrap() =~= mv);
            }
            r
        },
        Ok(doc) => match get_executing_operation(&doc, &body.operationName) {
            Ok(op) => execute_operation(op, models, db, &doc),
            Err(ret) => ret,
        },
    }
}

/// The request carried by a POST body: an object holding the query text, an
/// optional operation name, and optional string-valued variables.
pub open spec fn spec_opname_ok(on: Option<JsonV>) -> bool {
    match on {
        None => true,
        Some(JsonV::Null) => true,
        Some(JsonV::Str(_)) => true,
        Some(_) => false,
    }
}

pub open spec fn spec_vars_ok(vars: Option<JsonV>) -> bool {
    match vars {
        None => true,
        Some(JsonV::Null) => true,
        Some(JsonV::Obj(vs)) => forall|i: int|
            0 <= i < vs.len() ==> (#[trigger] vs[i]).1 matches JsonV::Str(_),
        Some(_) => false,
    }
}

pub open spec fn spec_post_of(j: JsonV) -> Option<(Seq<char>, Option<Seq<char>>)> {
    match j {
        JsonV::Obj(fields) => {
            let q = lookup(fields, "query"@);
            let on = lookup(fields, "operationName"@);
            let vars = lookup(fields, "variables"@);
            if {
                &&& q matches Some(JsonV::Str(_))
                &&& spec_opname_ok(on)
                &&& spec_vars_ok(vars)
            } {
                Some(
                    (
                        crate::model_def::str_of(q.unwrap()),
                        match on {
                            Some(JsonV::Str(n)) => Some(n),
                            _ => None,
                        },
                    ),
                )
            } else {
                None
            }
        },
        _ => None,
    }
}

/// Handles the body of a GraphQL POST: the body must be a JSON object in the
/// request shape, else an `invalid body` error; then as `spec_handle_post`.
#[verifier::loop_isolation(false)]
pub fn handle_gql_post_body(
    body: &str,
    models: &Vec<ModelDefinition>,
    db: &mut Database,
) -> (r: GraphQLReturn)
    requires
        models_ok(models_view(models@)),
    ensures
        ({
            let post = match crate::json::json_of(body@) {
                Some(j) => spec_post_of(j),
                None => None,
            };
            match post {
                Some((q, on)) => spec_handle_post(models_view(models@), old(db)@, q, on) == (
                    final(db)@,
                    r@,
                ),
                None => final(db)@ == old(db)@ && r@.errors == Some(seq!["invalid body"@])
                    && r@.data is None,
            }
        }),
{
    let doc = match crate::json::parse_json(body) {
        Some(doc) => doc,
        None => {
            return GraphQLReturn::from_message("invalid body");
        },
    };
    let fields = match &doc {
        JsonValue::Obj(fields) => fields,
        _ => {
            return GraphQLReturn::from_message("invalid body");
        },
    };
    proof {
        crate::json::lemma_json_obj_view(fields@);
    }
    let query: String = match crate::json::doc_get(fields, "query") {
        Some(JsonValue::Str(q)) => q.clone(),
        _ => {
            return GraphQLReturn::from_message("invalid body");
        },
    };
    let operation_name: Option<String> = match crate::json::doc_get(fields, "operationName") {
        None => None,
        Some(JsonValue::Null) => None,
        Some(JsonValue::Str(n)) => Some(n.clone()),
        Some(_) => {
            return GraphQLReturn::from_message("invalid body");
        },
    };
    match crate::json::doc_get(fields, "variables") {
        None => {},
        Some(JsonValue::Null) => {},
        Some(JsonValue::Obj(vs)) => {
            proof {
                crate::json::lemma_json_obj_view(vs@);
            }
            let ghost vv = crate::json::doc_view(vs@);
            let mut i: usize = 0;
            while i < vs.len()
                invariant
                    0 <= i <= vs@.len(),
                    vv == crate::json::doc_view(vs@),
                    vv.len() == vs@.len(),
                    forall|j: int| 0 <= j < i ==> (#[trigger] vv[j]).1 matches JsonV::Str(_),
                decreases vs@.len() - i,
            {
                proof {
                    assert(vv[i as int] == (vs@[i as int].0@, vs@[i as int].1@));
                }
                match &vs[i].1 {
                    JsonValue::Str(_) => {},
                    _ => {
                        proof {
                            let svs = crate::json::json_obj_view(vs@);
                            assert(svs == vv);
                            assert(!((svs[i as int]).1 matches JsonV::Str(_)));
                            assert(!(forall|jj: int|
                                0 <= jj < svs.len() ==> (#[trigger] svs[jj]).1 matches JsonV::Str(
                                    _,
                                )));
                            assert(!spec_vars_ok(Some(JsonV::Obj(svs))));
                            assert(doc@ matches JsonV::Obj(df) && lookup(df, "variables"@)
                                == Some(JsonV::Obj(svs)));
                            assert(spec_post_of(doc@) is None);
                        }
                        return GraphQLReturn::from_message("invalid body");
                    },
                }
                i = i + 1;
            }
        },
        Some(_) => {
            return GraphQLReturn::from_message("invalid body");
        },
    }
    let post = crate::gql::GraphQLPost { query, operationName: operation_name, variables: None };
    handle_gql_post(post, models, db)
}

/// Handles a GraphQL query handed over as a bare query text, as on a GET.
pub fn handle_gql_query_arg(query: &str, models: &Vec<ModelDefinition>, db: &mut Database) -> (r:
    GraphQLReturn)
    requires
        models_ok(models_view(models@)),
    ensures
        spec_handle_post(models_view(models@), old(db)@, query@, None) == (final(db)@, r@),
{
    handle_gql_post(crate::gql::GraphQLPost::from_query(query.to_owned()), models, db)
}

} // verus!
