use vstd::prelude::*;

use crate::model_def::ModelDefinition;
use crate::model_def::ModelV;
use crate::models::models_view;
use crate::name::pascal_of;
use crate::name::singular_of;
use crate::value::AttrType;
use crate::value::PrimitiveType;

verus! {

/// The PascalCase singular form of a model name: the GraphQL object type name
/// and the suffix of the model's resolver names.
pub open spec fn pasc_sing(n: Seq<char>) -> Seq<char> {
    singular_of(pascal_of(n))
}

/// The GraphQL scalar naming a primitive type.
pub open spec fn spec_gql_prim(t: PrimitiveType) -> Seq<char> {
    match t {
        PrimitiveType::Integer => "Int"@,
        PrimitiveType::String => "String"@,
        PrimitiveType::Boolean => "Boolean"@,
    }
}

/// Names the GraphQL scalar for a primitive type.
pub fn to_gql_type(prim_type: &PrimitiveType) -> (r: String)
    ensures
        r@ == spec_gql_prim(*prim_type),
{
    match prim_type {
        PrimitiveType::Integer => "Int".to_owned(),
        PrimitiveType::String => "String".to_owned(),
        PrimitiveType::Boolean => "Boolean".to_owned(),
    }
}

/// The textual GraphQL type of an attribute: the scalar, or a list of
/// non-null elements for an array.
pub open spec fn spec_attr_type_text(ty: AttrType) -> Seq<char> {
    match ty {
        AttrType::Primitive(t) => spec_gql_prim(t),
        AttrType::Array(t) => "["@ + spec_gql_prim(t) + "!]"@,
    }
}

/// The model's attributes in schema order: the primary key forced first, the
/// others in attribute order.
pub open spec fn non_pk_attrs(attrs: Seq<(Seq<char>, AttrType)>, pk: Seq<char>) -> Seq<
    (Seq<char>, AttrType),
>
    decreases attrs.len(),
{
    if attrs.len() == 0 {
        Seq::empty()
    } else {
        non_pk_attrs(attrs.drop_last(), pk) + (if attrs.last().0 == pk {
            Seq::empty()
        } else {
            seq![attrs.last()]
        })
    }
}

pub open spec fn ordered_attrs(m: ModelV) -> Seq<(Seq<char>, AttrType)> {
    seq![(m.primary_key, m.attr_of(m.primary_key).unwrap())] + non_pk_attrs(
        m.attributes,
        m.primary_key,
    )
}

/// The object-type field list text: one ` name:Type` per attribute, non-null
/// when required.
pub open spec fn fields_text(m: ModelV, attrs: Seq<(Seq<char>, AttrType)>) -> Seq<char>
    decreases attrs.len(),
{
    if attrs.len() == 0 {
        Seq::empty()
    } else {
        fields_text(m, attrs.drop_last()) + " "@ + attrs.last().0 + ":"@ + spec_attr_type_text(
            attrs.last().1,
        ) + (if m.is_required(attrs.last().0) {
            "!"@
        } else {
            Seq::empty()
        })
    }
}

/// The updateOne argument list text: every attribute, only the primary key
/// non-null.
pub open spec fn upd_args_text(m: ModelV, attrs: Seq<(Seq<char>, AttrType)>) -> Seq<char>
    decreases attrs.len(),
{
    if attrs.len() == 0 {
        Seq::empty()
    } else {
        upd_args_text(m, attrs.drop_last()) + " "@ + attrs.last().0 + ":"@ + spec_attr_type_text(
            attrs.last().1,
        ) + (if attrs.last().0 == m.primary_key {
            "!"@
        } else {
            Seq::empty()
        })
    }
}

/// The addOne argument list text: every attribute, required ones non-null.
pub open spec fn add_args_text(m: ModelV, attrs: Seq<(Seq<char>, AttrType)>) -> Seq<char>
    decreases attrs.len(),
{
    if attrs.len() == 0 {
        Seq::empty()
    } else {
        add_args_text(m, attrs.drop_last()) + " "@ + attrs.last().0 + ":"@ + spec_attr_type_text(
            attrs.last().1,
        ) + (if m.is_required(attrs.last().0) {
            "!"@
        } else {
            Seq::empty()
        })
    }
}

pub open spec fn pk_type_text(m: ModelV) -> Seq<char> {
    spec_attr_type_text(m.attr_of(m.primary_key).unwrap())
}

pub open spec fn type_def_text(m: ModelV) -> Seq<char> {
    "type "@ + pasc_sing(m.model_name) + " {"@ + fields_text(m, ordered_attrs(m)) + "}"@
}

pub open spec fn read_one_text(m: ModelV) -> Seq<char> {
    " readOne"@ + pasc_sing(m.model_name) + "("@ + m.primary_key + ":"@ + pk_type_text(m) + "!):"@
        + pasc_sing(m.model_name) + "!"@
}

pub open spec fn delete_one_text(m: ModelV) -> Seq<char> {
    " deleteOne"@ + pasc_sing(m.model_name) + "("@ + m.primary_key + ":"@ + pk_type_text(m)
        + "!):"@ + pasc_sing(m.model_name) + "!"@
}

pub open spec fn update_one_text(m: ModelV) -> Seq<char> {
    " updateOne"@ + pasc_sing(m.model_name) + "("@ + upd_args_text(m, ordered_attrs(m)) + "):"@
        + pasc_sing(m.model_name) + "!"@
}

pub open spec fn add_one_text(m: ModelV) -> Seq<char> {
    " addOne"@ + pasc_sing(m.model_name) + "("@ + add_args_text(m, ordered_attrs(m)) + "):"@
        + pasc_sing(m.model_name) + "!"@
}

/// One model's mutation resolvers, joined by one space: deleteOne, updateOne,
/// addOne.
pub open spec fn mutations_text(m: ModelV) -> Seq<char> {
    delete_one_text(m) + " "@ + update_one_text(m) + " "@ + add_one_text(m)
}

pub open spec fn all_type_defs(ms: Seq<ModelV>) -> Seq<char>
    decreases ms.len(),
{
    if ms.len() == 0 {
        Seq::empty()
    } else {
        all_type_defs(ms.drop_last()) + type_def_text(ms.last())
    }
}

pub open spec fn all_queries(ms: Seq<ModelV>) -> Seq<char>
    decreases ms.len(),
{
    if ms.len() == 0 {
        Seq::empty()
    } else if ms.len() == 1 {
        read_one_text(ms[0])
    } else {
        all_queries(ms.drop_last()) + " "@ + read_one_text(ms.last())
    }
}

pub open spec fn all_mutations(ms: Seq<ModelV>) -> Seq<char>
    decreases ms.len(),
{
    if ms.len() == 0 {
        Seq::empty()
    } else if ms.len() == 1 {
        mutations_text(ms[0])
    } else {
        all_mutations(ms.drop_last()) + " "@ + mutations_text(ms.last())
    }
}

/// The whole schema text: every model's object type, then the Query and
/// Mutation root types, each emitted only when at least one resolver exists.
pub open spec fn spec_create_schema(ms: Seq<ModelV>) -> Seq<char> {
    all_type_defs(ms) + (if ms.len() == 0 {
        Seq::<char>::empty()
    } else {
        "type Query{"@ + all_queries(ms) + "}"@ + "type Mutation{"@ + all_mutations(ms) + "}"@
    })
}

/// The model's attributes in schema order, as data.
#[verifier::loop_isolation(false)]
pub(crate) fn ordered_attrs_exec(model: &ModelDefinition) -> (r: Vec<(crate::name::AttrName, AttrType)>)
    requires
        model@.structure_ok(),
    ensures
        Seq::new(r@.len(), |i: int| ((r@[i]).0@, r@[i].1)) =~= ordered_attrs(model@),
{
    let ghost m = model@;
    let mut out: Vec<(crate::name::AttrName, AttrType)> = Vec::new();
    let pk_ty = match model.attr_get(&model.primary_key) {
        Some(t) => t,
        None => {
            proof {
                assert(false);
            }
            AttrType::Primitive(PrimitiveType::String)
        },
    };
    out.push((model.primary_key.dup(), pk_ty));
    let ghost mut ov: Seq<(Seq<char>, AttrType)> = seq![
        (m.primary_key, m.attr_of(m.primary_key).unwrap()),
    ];
    let mut i: usize = 0;
    while i < model.attributes.len()
        invariant
            0 <= i <= model.attributes@.len(),
            m == model@,
            out@.len() == ov.len(),
            forall|j: int| 0 <= j < ov.len() ==> ((#[trigger] out@[j]).0@, out@[j].1) == ov[j],
            ov == seq![(m.primary_key, m.attr_of(m.primary_key).unwrap())] + non_pk_attrs(
                m.attributes.subrange(0, i as int),
                m.primary_key,
            ),
        decreases model.attributes@.len() - i,
    {
        proof {
            assert(m.attributes[i as int] == (
                model.attributes@[i as int].0@,
                model.attributes@[i as int].1,
            ));
        }
        if !model.attributes[i].0.eq_name(&model.primary_key) {
            out.push((model.attributes[i].0.dup(), model.attributes[i].1));
            proof {
                ov = ov.push(m.attributes[i as int]);
            }
        }
        proof {
            let pre = m.attributes.subrange(0, i as int);
            let post = m.attributes.subrange(0, i + 1 as int);
            assert(post.drop_last() =~= pre);
            assert(post.last() == m.attributes[i as int]);
            assert(ov =~= seq![(m.primary_key, m.attr_of(m.primary_key).unwrap())] + non_pk_attrs(
                post,
                m.primary_key,
            ));
        }
        i = i + 1;
    }
    proof {
        assert(m.attributes.subrange(0, m.attributes.len() as int) =~= m.attributes);
        assert(Seq::new(out@.len(), |j: int| ((out@[j]).0@, out@[j].1)) =~= ov);
    }
    out
}

fn push_attr_type_text(s: &mut String, ty: AttrType)
    ensures
        final(s)@ == old(s)@ + spec_attr_type_text(ty),
{
    match ty {
        AttrType::Primitive(t) => {
            let n = to_gql_type(&t);
            s.append(n.as_str());
        },
        AttrType::Array(t) => {
            s.append("[");
            let n = to_gql_type(&t);
            s.append(n.as_str());
            s.append("!]");
            proof {
                assert(s@ =~= old(s)@ + spec_attr_type_text(ty));
            }
        },
    }
}

/// The three schema-text pieces of one model: its object type definition,
/// its readOne query resolver, and its three mutation resolvers.
#[verifier::loop_isolation(false)]
#[verifier::rlimit(100)]
/// Appends one attribute's ` name:Type` piece.
fn push_attr_piece(s: &mut String, name: &crate::name::AttrName, ty: AttrType)
    ensures
        final(s)@ == old(s)@ + " "@ + name@ + ":"@ + spec_attr_type_text(ty),
{
    s.append(" ");
    s.append(name.0.as_str());
    s.append(":");
    push_attr_type_text(s, ty);
    proof {
        assert(s@ =~= old(s)@ + " "@ + name@ + ":"@ + spec_attr_type_text(ty));
    }
}

/// Appends the object-type field list of a model.
#[verifier::rlimit(60)]
fn append_fields_text(model: &ModelDefinition, s: &mut String)
    requires
        model@.structure_ok(),
    ensures
        final(s)@ == old(s)@ + fields_text(model@, ordered_attrs(model@)),
{
    let ghost m = model@;
    let attrs = ordered_attrs_exec(model);
    let ghost av = ordered_attrs(m);
    let ghost s0 = s@;
    let mut j: usize = 0;
    while j < attrs.len()
        invariant
            0 <= j <= attrs@.len(),
            m == model@,
            m.structure_ok(),
            av == ordered_attrs(m),
            Seq::new(attrs@.len(), |k: int| ((attrs@[k]).0@, attrs@[k].1)) =~= av,
            s@ == s0 + fields_text(m, av.subrange(0, j as int)),
        decreases attrs@.len() - j,
    {
        proof {
            assert(av[j as int] == (attrs@[j as int].0@, attrs@[j as int].1));
        }
        push_attr_piece(s, &attrs[j].0, attrs[j].1);
        if model.required_contains(&attrs[j].0) {
            s.append("!");
        }
        proof {
            let pre = av.subrange(0, j as int);
            let post = av.subrange(0, j + 1 as int);
            assert(post.drop_last() =~= pre);
            assert(post.last() == av[j as int]);
            assert(s@ =~= s0 + fields_text(m, post));
        }
        j = j + 1;
    }
    proof {
        assert(av.subrange(0, av.len() as int) =~= av);
    }
}

/// Appends the updateOne argument list of a model.
#[verifier::rlimit(60)]
fn append_upd_args_text(model: &ModelDefinition, s: &mut String)
    requires
        model@.structure_ok(),
    ensures
        final(s)@ == old(s)@ + upd_args_text(model@, ordered_attrs(model@)),
{
    let ghost m = model@;
    let attrs = ordered_attrs_exec(model);
    let ghost av = ordered_attrs(m);
    let ghost s0 = s@;
    let mut j: usize = 0;
    while j < attrs.len()
        invariant
            0 <= j <= attrs@.len(),
            m == model@,
            m.structure_ok(),
            av == ordered_attrs(m),
            Seq::new(attrs@.len(), |k: int| ((attrs@[k]).0@, attrs@[k].1)) =~= av,
            s@ == s0 + upd_args_text(m, av.subrange(0, j as int)),
        decreases attrs@.len() - j,
    {
        proof {
            assert(av[j as int] == (attrs@[j as int].0@, attrs@[j as int].1));
        }
        push_attr_piece(s, &attrs[j].0, attrs[j].1);
        if attrs[j].0.eq_name(&model.primary_key) {
            s.append("!");
        }
        proof {
            let pre = av.subrange(0, j as int);
            let post = av.subrange(0, j + 1 as int);
            assert(post.drop_last() =~= pre);
            assert(post.last() == av[j as int]);
            assert(s@ =~= s0 + upd_args_text(m, post));
        }
        j = j + 1;
    }
    proof {
        assert(av.subrange(0, av.len() as int) =~= av);
    }
}

/// Appends the addOne argument list of a model.
#[verifier::rlimit(60)]
fn append_add_args_text(model: &ModelDefinition, s: &mut String)
    requires
        model@.structure_ok(),
    ensures
        final(s)@ == old(s)@ + add_args_text(model@, ordered_attrs(model@)),
{
    let ghost m = model@;
    let attrs = ordered_attrs_exec(model);
    let ghost av = ordered_attrs(m);
    let ghost s0 = s@;
    let mut j: usize = 0;
    while j < attrs.len()
        invariant
            0 <= j <= attrs@.len(),
            m == model@,
            m.structure_ok(),
            av == ordered_attrs(m),
            Seq::new(attrs@.len(), |k: int| ((attrs@[k]).0@, attrs@[k].1)) =~= av,
            s@ == s0 + add_args_text(m, av.subrange(0, j as int)),
        decreases attrs@.len() - j,
    {
        proof {
            assert(av[j as int] == (attrs@[j as int].0@, attrs@[j as int].1));
        }
        push_attr_piece(s, &attrs[j].0, attrs[j].1);
        if model.required_contains(&attrs[j].0) {
            s.append("!");
        }
        proof {
            let pre = av.subrange(0, j as int);
            let post = av.subrange(0, j + 1 as int);
            assert(post.drop_last() =~= pre);
            assert(post.last() == av[j as int]);
            assert(s@ =~= s0 + add_args_text(m, post));
        }
        j = j + 1;
    }
    proof {
        assert(av.subrange(0, av.len() as int) =~= av);
    }
}

/// The three schema-text pieces of one model: its object type definition,
/// its readOne query resolver, and its three mutation resolvers.
#[verifier::loop_isolation(false)]
#[verifier::rlimit(100)]
fn model_texts(model: &ModelDefinition) -> (r: (String, String, String))
    requires
        model@.structure_ok(),
    ensures
        r.0@ == type_def_text(model@),
        r.1@ == read_one_text(model@),
        r.2@ == mutations_text(model@),
{
    let ghost m = model@;
    let pasc = model.model_name.pascal().singular();

    // the object type definition
    let mut type_def = String::new();
    type_def.append("type ");
    type_def.append(pasc.0.0.as_str());
    type_def.append(" {");

    // the argument lists of updateOne and addOne
    let mut update_one = String::new();
    update_one.append(" updateOne");
    update_one.append(pasc.0.0.as_str());
    update_one.append("(");
    let mut create_one = String::new();
    create_one.append(" addOne");
    create_one.append(pasc.0.0.as_str());
    create_one.append("(");

    append_fields_text(model, &mut type_def);
    append_upd_args_text(model, &mut update_one);
    append_add_args_text(model, &mut create_one);
    type_def.append("}");
    proof {
        assert(type_def@ =~= type_def_text(m));
    }

    let (read_res, mutations) = resolver_texts(model, &pasc, &update_one, &create_one);
    (type_def, read_res, mutations)
}

/// The readOne resolver text and the three mutation resolvers text of one
/// model, given its finished updateOne and addOne argument-list prefixes.
#[verifier::loop_isolation(false)]
#[verifier::rlimit(100)]
fn resolver_texts(model: &ModelDefinition, pasc: &crate::name::ModelName, update_one: &String, create_one: &String) -> (r: (String, String))
    requires
        model@.structure_ok(),
        pasc@ == pasc_sing(model@.model_name),
        update_one@ == " updateOne"@ + pasc_sing(model@.model_name) + "("@ + upd_args_text(
            model@,
            ordered_attrs(model@),
        ),
        create_one@ == " addOne"@ + pasc_sing(model@.model_name) + "("@ + add_args_text(
            model@,
            ordered_attrs(model@),
        ),
    ensures
        r.0@ == read_one_text(model@),
        r.1@ == mutations_text(model@),
{
    let ghost m = model@;

    let pk_ty = match model.attr_get(&model.primary_key) {
        Some(t) => t,
        None => {
            proof {
                assert(false);
            }
            AttrType::Primitive(PrimitiveType::String)
        },
    };
    let mut read_res = String::new();
    read_res.append(" readOne");
    read_res.append(pasc.0.0.as_str());
    read_res.append("(");
    read_res.append(model.primary_key.0.as_str());
    read_res.append(":");
    push_attr_type_text(&mut read_res, pk_ty);
    read_res.append("!):");
    read_res.append(pasc.0.0.as_str());
    read_res.append("!");
    proof {
        assert(read_res@ =~= read_one_text(m));
    }
    let mut mutations = String::new();
    mutations.append(" deleteOne");
    mutations.append(pasc.0.0.as_str());
    mutations.append("(");
    mutations.append(model.primary_key.0.as_str());
    mutations.append(":");
    push_attr_type_text(&mut mutations, pk_ty);
    mutations.append("!):");
    mutations.append(pasc.0.0.as_str());
    mutations.append("!");
    proof {
        assert(mutations@ =~= delete_one_text(m));
    }
    mutations.append(" ");
    mutations.append(update_one.as_str());
    mutations.append("):");
    mutations.append(pasc.0.0.as_str());
    mutations.append("!");
    proof {
        assert(mutations@ =~= delete_one_text(m) + " "@ + update_one_text(m));
    }
    mutations.append(" ");
    mutations.append(create_one.as_str());
    mutations.append("):");
    mutations.append(pasc.0.0.as_str());
    mutations.append("!");
    proof {
        assert(mutations@ =~= mutations_text(m));
    }
    (read_res, mutations)
}
/// Builds a schema document text from the loaded model definitions, exactly
/// as `spec_create_schema` describes: a pure function of the models, with
/// object types in model order and root resolver fields named by convention.
#[verifier::loop_isolation(false)]
pub fn create_schema(models: &Vec<ModelDefinition>) -> (r: String)
    requires
        crate::api::models_ok(models_view(models@)),
    ensures
        r@ == spec_create_schema(models_view(models@)),
{
    let ghost ms = models_view(models@);
    let mut type_defs = String::new();
    let mut queries = String::new();
    let mut mutations = String::new();
    let mut i: usize = 0;
    while i < models.len()
        invariant
            0 <= i <= models@.len(),
            ms == models_view(models@),
            type_defs@ == all_type_defs(ms.subrange(0, i as int)),
            queries@ == all_queries(ms.subrange(0, i as int)),
            mutations@ == all_mutations(ms.subrange(0, i as int)),
        decreases models@.len() - i,
    {
        proof {
            assert(ms[i as int] == models@[i as int]@);
        }
        let pieces = model_texts(&models[i]);
        if i > 0 {
            queries.append(" ");
            mutations.append(" ");
        }
        type_defs.append(pieces.0.as_str());
        queries.append(pieces.1.as_str());
        mutations.append(pieces.2.as_str());
        proof {
            let pre = ms.subrange(0, i as int);
            let post = ms.subrange(0, i + 1 as int);
            assert(post.drop_last() =~= pre);
            assert(post.last() == ms[i as int]);
            assert(type_defs@ =~= all_type_defs(post));
            assert(queries@ =~= all_queries(post));
            assert(mutations@ =~= all_mutations(post));
        }
        i = i + 1;
    }
    proof {
        assert(ms.subrange(0, ms.len() as int) =~= ms);
    }
    let mut out = type_defs;
    if models.len() > 0 {
        out.append("type Query{");
        out.append(queries.as_str());
        out.append("}");
        out.append("type Mutation{");
        out.append(mutations.as_str());
        out.append("}");
    }
    proof {
        assert(out@ =~= spec_create_schema(ms));
    }
    out
}

} // verus!
