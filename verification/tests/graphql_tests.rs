use gus::Data;
use gus::Database;
use gus::FieldValue;
use gus::GraphQLPost;
use gus::GraphQLReturn;
use gus::TruePrimitiveType;
use gus::TrueType;
use gus::create_one;
use gus::create_schema;
use gus::delete_one;
use gus::parse_models;
use gus::read_one;
use gus::to_gql_type;
use gus::update_one;
use gus::ModelDefinition;
use gus::PrimitiveType;
use gus::handle_gql_post;
use gus::handle_gql_post_body;
use gus::handle_gql_query_arg;

const MOVIE_TEXT: &str = r#"{
    "model_name": "movie",
    "storage_type": "json",
    "attributes": {
        "id": "Integer",
        "name": "String",
        "year": "Integer",
        "actors": ["String"],
        "recommended": "Boolean"
    },
    "primary_key": "id",
    "required": ["id", "name", "recommended"]
}"#;

const MOVIE_BODY: &str = r#"{
    "id": 1,
    "name": "Natural Born Killers",
    "year": 1994,
    "actors": ["Woody Harrelson", "Juliette Lewis"],
    "recommended": true
}"#;

fn setup() -> (Vec<ModelDefinition>, Database) {
    let texts = vec![MOVIE_TEXT.to_string()];
    let models = parse_models(&texts).unwrap();
    let mut db = Database::new();
    create_one(&models, &mut db, "movie", MOVIE_BODY).unwrap();
    (models, db)
}

fn data_field<'a>(data: &'a Data, key: &str) -> &'a FieldValue {
    let entries = data.entries();
    for (k, v) in entries.iter() {
        if k == key {
            return v;
        }
    }
    panic!("field {} not found", key);
}

fn expect_string(v: &FieldValue, expected: &str) {
    match v {
        FieldValue::Scalar(TrueType::Primitive(Some(TruePrimitiveType::String(s)))) => {
            assert_eq!(s, expected);
        },
        _ => panic!("expected the string {}", expected),
    }
}

fn expect_bool(v: &FieldValue, expected: bool) {
    match v {
        FieldValue::Scalar(TrueType::Primitive(Some(TruePrimitiveType::Boolean(b)))) => {
            assert_eq!(*b, expected);
        },
        _ => panic!("expected the boolean {}", expected),
    }
}

fn run(models: &Vec<ModelDefinition>, db: &mut Database, query: &str) -> GraphQLReturn {
    handle_gql_query_arg(query, models, db)
}

// a read through the engine returns exactly the selected fields
#[test]
fn read_one_movie_selects_fields() {
    let (models, mut db) = setup();
    let ret = run(&models, &mut db, "{ readOneMovie(id: 1) { name recommended } }");
    assert!(ret.errors.is_none(), "unexpected errors");
    let data = ret.data.expect("expected data");
    let movie = match data_field(&data, "readOneMovie") {
        FieldValue::Object(d) => d,
        _ => panic!("expected an object"),
    };
    assert_eq!(movie.entries().len(), 2);
    expect_string(data_field(movie, "name"), "Natural Born Killers");
    expect_bool(data_field(movie, "recommended"), true);
}

// __typename on a readOneMovie selection is the PascalCase singular model name
#[test]
fn typename_is_the_static_type_name() {
    let (models, mut db) = setup();
    let ret = run(&models, &mut db, "{ readOneMovie(id: 1) { __typename } }");
    assert!(ret.errors.is_none(), "unexpected errors");
    let data = ret.data.expect("expected data");
    let movie = match data_field(&data, "readOneMovie") {
        FieldValue::Object(d) => d,
        _ => panic!("expected an object"),
    };
    expect_string(data_field(movie, "__typename"), "Movie");
}

// a document with two named operations and no operationName fails with the
// missing-operation-name error and no data
#[test]
fn two_operations_without_a_name_fail() {
    let (models, mut db) = setup();
    let ret = run(
        &models,
        &mut db,
        "query A { readOneMovie(id: 1) { name } } query B { readOneMovie(id: 1) { year } }",
    );
    assert!(ret.data.is_none(), "expected no data");
    let errors = ret.errors.expect("expected errors");
    assert_eq!(errors.len(), 1);
    assert_eq!(
        errors[0].message,
        "document contains more than one operation, missing operation name"
    );
}

// with an operationName the named operation runs
#[test]
fn operation_name_selects_the_operation() {
    let (models, mut db) = setup();
    let post = GraphQLPost {
        query: "query A { readOneMovie(id: 1) { name } } query B { readOneMovie(id: 1) { year } }"
            .to_string(),
        operationName: Some("A".to_string()),
        variables: None,
    };
    let ret = handle_gql_post(post, &models, &mut db);
    assert!(ret.errors.is_none(), "unexpected errors");
    let data = ret.data.expect("expected data");
    let movie = match data_field(&data, "readOneMovie") {
        FieldValue::Object(d) => d,
        _ => panic!("expected an object"),
    };
    expect_string(data_field(movie, "name"), "Natural Born Killers");

    let post = GraphQLPost {
        query: "query A { readOneMovie(id: 1) { name } } query B { readOneMovie(id: 1) { year } }"
            .to_string(),
        operationName: Some("C".to_string()),
        variables: None,
    };
    let ret = handle_gql_post(post, &models, &mut db);
    assert!(ret.data.is_none());
    let errors = ret.errors.expect("expected errors");
    assert_eq!(errors[0].message, "operation with name \"C\" does not exist");
}

// aliases name the response keys; fragments splice their fields in
#[test]
fn aliases_and_fragments_resolve() {
    let (models, mut db) = setup();
    let ret = run(
        &models,
        &mut db,
        "{ film: readOneMovie(id: 1) { ...basics } } fragment basics on Movie { name }",
    );
    assert!(ret.errors.is_none(), "unexpected errors");
    let data = ret.data.expect("expected data");
    let movie = match data_field(&data, "film") {
        FieldValue::Object(d) => d,
        _ => panic!("expected an object"),
    };
    expect_string(data_field(movie, "name"), "Natural Born Killers");
}

// a mutation writes through to the store; reading it back agrees
#[test]
fn add_one_movie_creates_a_record() {
    let (models, mut db) = setup();
    let ret = run(
        &models,
        &mut db,
        "mutation { addOneMovie(id: 2 name: \"Heat\" recommended: false) { name year } }",
    );
    assert!(ret.errors.is_none(), "unexpected errors: {:?}", ret.errors);
    let data = ret.data.expect("expected data");
    let movie = match data_field(&data, "addOneMovie") {
        FieldValue::Object(d) => d,
        _ => panic!("expected an object"),
    };
    expect_string(data_field(movie, "name"), "Heat");
    // the optional year was backfilled with null
    match data_field(movie, "year") {
        FieldValue::Scalar(TrueType::Primitive(None)) => {},
        _ => panic!("expected a null year"),
    }
    assert!(read_one(&models, &db, "movie", "2").is_ok());

    // creating the same key again fails AlreadyExists and yields errors only
    let ret = run(
        &models,
        &mut db,
        "mutation { addOneMovie(id: 2 name: \"Heat\" recommended: false) { name } }",
    );
    assert!(ret.data.is_none());
    assert!(ret.errors.is_some());
}

// the introspection roots resolve without touching storage
#[test]
fn introspection_lists_the_types() {
    let (models, mut db) = setup();
    let ret = run(
        &models,
        &mut db,
        "{ __schema { types { name } queryType { name } mutationType { name } } }",
    );
    assert!(ret.errors.is_none(), "unexpected errors: {:?}", ret.errors);
    let data = ret.data.expect("expected data");
    let schema = match data_field(&data, "__schema") {
        FieldValue::Object(d) => d,
        _ => panic!("expected an object"),
    };
    let types = match data_field(schema, "types") {
        FieldValue::Objects(ds) => ds,
        _ => panic!("expected objects"),
    };
    let mut names: Vec<String> = Vec::new();
    for t in types.iter() {
        match data_field(t, "name") {
            FieldValue::Scalar(TrueType::Primitive(Some(TruePrimitiveType::String(s)))) => {
                names.push(s.clone())
            },
            _ => panic!("expected a name"),
        }
    }
    assert!(names.contains(&"Movie".to_string()));
    assert!(names.contains(&"Int".to_string()));
    let qt = match data_field(schema, "queryType") {
        FieldValue::Object(d) => d,
        _ => panic!("expected an object"),
    };
    expect_string(data_field(qt, "name"), "Query");

    let ret = run(&models, &mut db, "{ __type(name: \"Movie\") { name kind } }");
    assert!(ret.errors.is_none(), "unexpected errors: {:?}", ret.errors);
    let data = ret.data.expect("expected data");
    let movie_ty = match data_field(&data, "__type") {
        FieldValue::Object(d) => d,
        _ => panic!("expected an object"),
    };
    expect_string(data_field(movie_ty, "name"), "Movie");
    expect_string(data_field(movie_ty, "kind"), "OBJECT");
}

// a POST body drives the same engine; a malformed body is refused
#[test]
fn post_body_parses_and_runs() {
    let (models, mut db) = setup();
    let body = r#"{"query": "{ readOneMovie(id: 1) { name } }"}"#;
    let ret = handle_gql_post_body(body, &models, &mut db);
    assert!(ret.errors.is_none(), "unexpected errors");
    assert!(ret.data.is_some());

    let ret = handle_gql_post_body("not json", &models, &mut db);
    assert!(ret.data.is_none());
    assert_eq!(ret.errors.unwrap()[0].message, "invalid body");

    let ret = handle_gql_post_body(r#"{"operationName": "A"}"#, &models, &mut db);
    assert_eq!(ret.errors.unwrap()[0].message, "invalid body");
}

// a query that does not validate against the synthesized schema is surfaced
// as errors with no data
#[test]
fn invalid_queries_fail_validation() {
    let (models, mut db) = setup();
    let ret = run(&models, &mut db, "{ readOneBook(id: 1) { name } }");
    assert!(ret.data.is_none());
    assert!(ret.errors.is_some());

    let ret = run(&models, &mut db, "{{{");
    assert!(ret.data.is_none());
    assert!(ret.errors.is_some());
}

// the REST pipeline: create, read, update with a partial body, delete
#[test]
fn rest_pipeline_round_trips() {
    let (models, mut db) = setup();
    let rec = read_one(&models, &db, "movie", "1").unwrap();
    assert_eq!(rec.len(), 5);

    // partial update keeps the unpatched attributes
    let updated = update_one(&models, &mut db, "movie", "1", r#"{"year": 2000}"#).unwrap();
    let year = updated.get(&gus::AttrName("year".to_string())).unwrap();
    assert!(gus::eq_true_type(
        year,
        &TrueType::Primitive(Some(TruePrimitiveType::Integer(2000)))
    ));
    let name = updated.get(&gus::AttrName("name".to_string())).unwrap();
    assert!(gus::eq_true_type(
        name,
        &TrueType::Primitive(Some(TruePrimitiveType::String("Natural Born Killers".to_string())))
    ));

    let deleted = delete_one(&models, &mut db, "movie", "1").unwrap();
    assert_eq!(deleted.len(), 5);
    assert!(read_one(&models, &db, "movie", "1").is_err());

    // the model name must be singular
    assert!(read_one(&models, &db, "movies", "1").is_err());
    // an unknown model is NotFound
    assert!(read_one(&models, &db, "book", "1").is_err());
}

// the synthesized schema text, exactly
#[test]
fn create_schema_emits_the_expected_text() {
    let models = vec![ModelDefinition {
        model_name: gus::ModelName(gus::AttrName("movie".to_string())),
        storage_type: gus::StorageType::json,
        attributes: vec![
            (gus::AttrName("id".to_string()), gus::AttrType::Primitive(PrimitiveType::Integer)),
            (gus::AttrName("name".to_string()), gus::AttrType::Primitive(PrimitiveType::String)),
            (gus::AttrName("year".to_string()), gus::AttrType::Primitive(PrimitiveType::Integer)),
            (gus::AttrName("actors".to_string()), gus::AttrType::Array(PrimitiveType::String)),
            (
                gus::AttrName("recommended".to_string()),
                gus::AttrType::Primitive(PrimitiveType::Boolean),
            ),
        ],
        primary_key: gus::AttrName("id".to_string()),
        required: vec![
            gus::AttrName("id".to_string()),
            gus::AttrName("name".to_string()),
            gus::AttrName("recommended".to_string()),
        ],
        constraints: None,
    }];
    let text = create_schema(&models);
    let mut expected = String::new();
    expected.push_str(
        "type Movie { id:Int! name:String! year:Int actors:[String!] recommended:Boolean!}",
    );
    expected.push_str("type Query{ readOneMovie(id:Int!):Movie!}");
    expected.push_str("type Mutation{ deleteOneMovie(id:Int!):Movie! ");
    expected.push_str(
        " updateOneMovie( id:Int! name:String year:Int actors:[String!] recommended:Boolean):Movie! ",
    );
    expected.push_str(
        " addOneMovie( id:Int! name:String! year:Int actors:[String!] recommended:Boolean!):Movie!}",
    );
    assert_eq!(text, expected);

    assert_eq!(to_gql_type(&PrimitiveType::Integer), "Int");
    assert_eq!(to_gql_type(&PrimitiveType::String), "String");
    assert_eq!(to_gql_type(&PrimitiveType::Boolean), "Boolean");

    // no models, no schema
    assert_eq!(create_schema(&Vec::new()), "");
}
