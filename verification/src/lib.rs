//! A schema-driven data backend: model definitions (name, typed attributes,
//! primary key, required set) are loaded from declarative JSON texts and turned
//! into a CRUD surface and a dynamically generated GraphQL schema with a
//! query-execution engine, backed by an in-memory record store that callers
//! persist as they see fit.

pub mod api;
pub mod apollo;
pub mod codec;
pub mod engine;
pub mod error;
pub mod gql;
pub mod json;
pub mod model_def;
pub mod models;
pub mod name;
pub mod pairs;
pub mod schema;
pub mod store;
pub mod value;

pub use error::ErrorKind;
pub use error::GusError;

pub use name::AttrName;
pub use name::ModelName;
pub use name::validate_attr_name;

pub use value::AttrType;
pub use value::PrimitiveType;
pub use value::Record;
pub use value::TruePrimitiveType;
pub use value::TrueType;
pub use value::eq_prim;
pub use value::eq_true_type;

pub use json::JsonValue;
pub use json::parse_json;

pub use model_def::ArrayConstraint;
pub use model_def::BoolConstraint;
pub use model_def::Constraints;
pub use model_def::FloatConstraint;
pub use model_def::IntConstraint;
pub use model_def::ModelDefinition;
pub use model_def::StorageType;
pub use model_def::StrConstraint;
pub use model_def::validate_model_definition;

pub use codec::add_null_values;
pub use codec::check_constraints;
pub use codec::coerce_value;
pub use codec::parse_record;
pub use codec::record_from_document;
pub use codec::record_from_fields;
pub use codec::record_to_document;
pub use codec::to_true_prim_type;

pub use store::Database;
pub use store::JsonStorageConfig;
pub use store::JsonStorageHandler;
pub use store::StorageHandler;
pub use store::Table;
pub use store::get_handler;

pub use models::parse_model;
pub use models::parse_models;

pub use api::create_one;
pub use api::create_one_with_doc;
pub use api::create_one_with_fields;
pub use api::delete_one;
pub use api::read_one;
pub use api::update_one;
pub use api::update_one_with_doc;
pub use api::update_one_with_fields;

pub use schema::create_schema;
pub use schema::to_gql_type;

pub use gql::Data;
pub use gql::FieldValue;
pub use gql::GqlDocument;
pub use gql::GqlError;
pub use gql::GqlField;
pub use gql::GqlFragment;
pub use gql::GqlOperation;
pub use gql::GqlSelection;
pub use gql::GraphQLPost;
pub use gql::GraphQLReturn;
pub use gql::OpKind;

pub use apollo::parse_document;

pub use engine::execute_operation;
pub use engine::get_executing_operation;
pub use engine::handle_gql_post;
pub use engine::handle_gql_post_body;
pub use engine::handle_gql_query_arg;
pub use engine::resolve_selection_set;
pub use engine::resolve_type_definition;
