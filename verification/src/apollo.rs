use vstd::prelude::*;

use crate::gql::DocumentV;
use crate::gql::GqlDocument;
use crate::gql::GqlField;
use crate::gql::GqlFragment;
use crate::gql::GqlOperation;
use crate::gql::GqlSelection;
use crate::gql::OpKind;
use crate::json::JsonValue;

verus! {

use apollo_compiler::ast::Value as AstValue;

#[verifier::external_type_specification]
#[verifier::external_body]
pub struct ExExecutableDocument(apollo_compiler::ExecutableDocument);

#[verifier::external_type_specification]
#[verifier::external_body]
pub struct ExOperation(apollo_compiler::executable::Operation);

#[verifier::external_type_specification]
#[verifier::external_body]
pub struct ExSelectionSet(apollo_compiler::executable::SelectionSet);

#[verifier::external_type_specification]
#[verifier::external_body]
pub struct ExField(apollo_compiler::executable::Field);

#[verifier::external_type_specification]
#[verifier::external_body]
pub struct ExAstValue(apollo_compiler::ast::Value);

#[verifier::external_type_specification]
#[verifier::external_body]
pub struct ExSchema(apollo_compiler::Schema);

#[verifier::external_type_specification]
#[verifier::external_body]
#[verifier::reject_recursive_types(T)]
pub struct ExValid<T>(apollo_compiler::validation::Valid<T>);

/// What parsing and validating a query against a schema text yields, as the
/// library's document model: a function of the two texts alone.
pub uninterp spec fn document_of(schema: Seq<char>, query: Seq<char>) -> Result<
    DocumentV,
    Seq<Seq<char>>,
>;

pub open spec fn strings_view(v: Seq<String>) -> Seq<Seq<char>> {
    Seq::new(v.len(), |i: int| v[i]@)
}

/// Relies on apollo_compiler::ast::Value: translates one GraphQL literal into
/// the library's JSON data model, arm by arm; an int is held exactly when it
/// parses as an `i64`; floats, enum values and variables are unsupported.
#[verifier::external_body]
fn convert_value(v: &AstValue) -> JsonValue {
    match v {
        AstValue::Null => JsonValue::Null,
        AstValue::Boolean(b) => JsonValue::Bool(*b),
        AstValue::Int(i) => i.as_str().parse::<i64>().map_or(JsonValue::Other, JsonValue::Int),
        AstValue::Float(_) | AstValue::Enum(_) | AstValue::Variable(_) => JsonValue::Other,
        AstValue::String(s) => JsonValue::Str(s.clone()),
        AstValue::List(es) => JsonValue::Arr(es.iter().map(|e| convert_value(e)).collect()),
        AstValue::Object(fs) => JsonValue::Obj(
            fs.iter().map(|(n, val)| (n.to_string(), convert_value(val))).collect(),
        ),
    }
}

/// Relies on apollo_compiler::executable::Field: carries a field selection
/// over, with the schema-resolved type reduced to its inner named type.
#[verifier::external_body]
fn convert_field(f: &apollo_compiler::executable::Field) -> GqlField {
    GqlField {
        name: f.name.to_string(),
        alias: f.alias.as_ref().map(|a| a.to_string()),
        ty_name: f.ty().inner_named_type().to_string(),
        arguments: f.arguments.iter().map(
            |a| (a.name.to_string(), convert_value(&a.value)),
        ).collect(),
        selection_set: convert_selection_set(&f.selection_set),
    }
}

/// Relies on apollo_compiler::executable::SelectionSet: carries the
/// selections over, arm by arm.
#[verifier::external_body]
fn convert_selection_set(ss: &apollo_compiler::executable::SelectionSet) -> Vec<GqlSelection> {
    ss.selections.iter().map(
        |sel|
            match sel {
                apollo_compiler::executable::Selection::Field(f) => GqlSelection::Field(
                    convert_field(f),
                ),
                apollo_compiler::executable::Selection::FragmentSpread(fs) => {
                    GqlSelection::FragmentSpread(fs.fragment_name.to_string())
                },
                apollo_compiler::executable::Selection::InlineFragment(inl) => {
                    GqlSelection::InlineFragment(convert_selection_set(&inl.selection_set))
                },
            },
    ).collect()
}

/// Relies on apollo_compiler::executable::Operation: carries the kind, name
/// and selections over.
#[verifier::external_body]
fn convert_operation(op: &apollo_compiler::executable::Operation) -> GqlOperation {
    GqlOperation {
        name: op.name.as_ref().map(|n| n.to_string()),
        kind: match op.operation_type {
            apollo_compiler::ast::OperationType::Query => OpKind::Query,
            apollo_compiler::ast::OperationType::Mutation => OpKind::Mutation,
            apollo_compiler::ast::OperationType::Subscription => OpKind::Subscription,
        },
        selection_set: convert_selection_set(&op.selection_set),
    }
}

/// Relies on apollo_compiler::ExecutableDocument: carries the operations, in
/// document order with an anonymous operation first, and the named fragments
/// over.
#[verifier::external_body]
fn convert_document(doc: &apollo_compiler::ExecutableDocument) -> GqlDocument {
    GqlDocument {
        operations: doc.operations.iter().map(|op| convert_operation(op)).collect(),
        fragments: doc.fragments.iter().map(
            |(n, frag)| GqlFragment {
                name: n.to_string(),
                selection_set: convert_selection_set(&frag.selection_set),
            },
        ).collect(),
    }
}

/// Relies on apollo_compiler's Parser::parse_schema: parses the synthesized
/// schema text, taken as valid since the library built it from validated
/// models; on failure, the diagnostics as messages.
#[verifier::external_body]
fn parse_schema_text(schema_text: &str) -> Result<
    apollo_compiler::validation::Valid<apollo_compiler::Schema>,
    Vec<String>,
> {
    let mut parser = apollo_compiler::parser::Parser::new();
    match parser.parse_schema(schema_text, "schema") {
        Ok(s) => Ok(apollo_compiler::validation::Valid::assume_valid(s)),
        Err(e) => Err(e.errors.iter().map(|d| d.to_string()).collect()),
    }
}

/// Relies on apollo_compiler's Parser::parse_executable and
/// ExecutableDocument::validate: parses and validates the query against the
/// schema; on failure, the diagnostics as messages.
#[verifier::external_body]
fn parse_query(
    schema: &apollo_compiler::validation::Valid<apollo_compiler::Schema>,
    query: &str,
) -> Result<GqlDocument, Vec<String>> {
    let mut parser = apollo_compiler::parser::Parser::new();
    let document = match parser.parse_executable(schema, query, "query") {
        Ok(d) => d,
        Err(e) => return Err(e.errors.iter().map(|d| d.to_string()).collect()),
    };
    match document.validate(schema) {
        Ok(valid_doc) => Ok(convert_document(&valid_doc.into_inner())),
        Err(e) => Err(e.errors.iter().map(|d| d.to_string()).collect()),
    }
}

/// Relies on apollo_compiler: parses the schema text, parses and validates
/// the query against it, and hands the validated document over in the
/// library's document model; on failure, the diagnostics as messages.
#[verifier::external_body]
pub fn parse_document(schema_text: &str, query: &str) -> (r: Result<GqlDocument, Vec<String>>)
    ensures
        match r {
            Ok(doc) => document_of(schema_text@, query@) == Ok::<DocumentV, Seq<Seq<char>>>(doc@),
            Err(msgs) => document_of(schema_text@, query@) == Err::<DocumentV, Seq<Seq<char>>>(
                strings_view(msgs@),
            ),
        },
{
    match parse_schema_text(schema_text) {
        Ok(schema) => parse_query(&schema, query),
        Err(msgs) => Err(msgs),
    }
}

} // verus!
