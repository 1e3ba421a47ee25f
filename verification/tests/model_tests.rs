use gus::AttrName;
use gus::AttrType;
use gus::ModelDefinition;
use gus::ModelName;
use gus::PrimitiveType;
use gus::StorageType;
use gus::parse_model;
use gus::parse_models;
use gus::validate_model_definition;

fn attr(s: &str) -> AttrName {
    AttrName(s.to_string())
}

fn test_model(
    attributes: Vec<(AttrName, AttrType)>,
    required: Vec<AttrName>,
) -> ModelDefinition {
    ModelDefinition {
        model_name: ModelName(attr("Test")),
        storage_type: StorageType::json,
        primary_key: attr("id"),
        attributes,
        required,
        constraints: None,
    }
}

#[test]
fn types_test_validate_model_definition() {
    // test primary key of type array
    let model = test_model(
        vec![(attr("id"), AttrType::Array(PrimitiveType::String))],
        vec![attr("id")],
    );
    assert!(
        validate_model_definition(&model).is_err(),
        "Expected Error for model definitions with Array as primary key type"
    );

    // test not existing primary key attribute
    let model = test_model(Vec::new(), vec![attr("id")]);
    assert!(
        validate_model_definition(&model).is_err(),
        "Expected Error for model definitions with missing primary key attribute in attributes"
    );

    // test not required primary key
    let model = test_model(
        vec![(attr("id"), AttrType::Primitive(PrimitiveType::String))],
        Vec::new(),
    );
    assert!(
        validate_model_definition(&model).is_err(),
        "Expected Error for model definitions with not required primary key"
    );

    // test not existing required attribute
    let model = test_model(
        vec![(attr("id"), AttrType::Primitive(PrimitiveType::String))],
        vec![attr("id"), attr("iDontExist")],
    );
    assert!(
        validate_model_definition(&model).is_err(),
        "Expected Error for model definitions with not existing required attributes"
    );
}

#[test]
fn model_test_validate_model_definition() {
    // the same checks, driven through a model accepted as valid first
    let model = test_model(
        vec![(attr("id"), AttrType::Primitive(PrimitiveType::String))],
        vec![attr("id")],
    );
    assert!(validate_model_definition(&model).is_ok());

    let model = test_model(
        vec![(attr("id"), AttrType::Array(PrimitiveType::String))],
        vec![attr("id")],
    );
    assert!(
        validate_model_definition(&model).is_err(),
        "Expected Error for model definitions with Array as primary key type"
    );

    let model = test_model(Vec::new(), vec![attr("id")]);
    assert!(
        validate_model_definition(&model).is_err(),
        "Expected Error for model definitions with missing primary key attribute in attributes"
    );

    let model = test_model(
        vec![(attr("id"), AttrType::Primitive(PrimitiveType::String))],
        Vec::new(),
    );
    assert!(
        validate_model_definition(&model).is_err(),
        "Expected Error for model definitions with not required primary key"
    );

    let model = test_model(
        vec![(attr("id"), AttrType::Primitive(PrimitiveType::String))],
        vec![attr("id"), attr("iDontExist")],
    );
    assert!(
        validate_model_definition(&model).is_err(),
        "Expected Error for model definitions with not existing required attributes"
    );
}

// an uncountable model name has no distinct plural form
#[test]
fn validate_rejects_uncountable_name_sheep() {
    let model = ModelDefinition {
        model_name: ModelName(attr("sheep")),
        storage_type: StorageType::json,
        primary_key: attr("id"),
        attributes: vec![(attr("id"), AttrType::Primitive(PrimitiveType::Integer))],
        required: vec![attr("id")],
        constraints: None,
    };
    assert!(
        validate_model_definition(&model).is_err(),
        "Expected Error for model names without a plural variant"
    );
}

const MOVIE_TEXT: &str = r#"{
    "model_name": "movie",
    "storage_type": "json",
    "attributes": {
        "id": "Integer",
        "name": "String",
        "year": "Integer",
        "actors": ["String"],
        "recommended": "Boolean"
    },
    "primary_key": "id",
    "required": ["id", "name", "recommended"]
}"#;

#[test]
fn test_parse_model() {
    let texts = vec![MOVIE_TEXT.to_string()];
    let models = parse_models(&texts).unwrap();

    let found = parse_model(&models, &ModelName(attr("movie"))).unwrap();
    assert_eq!(found.model_name.0.0, "movie");
    assert_eq!(found.primary_key.0, "id");
    assert_eq!(found.attributes.len(), 5);
    assert_eq!(found.required.len(), 3);

    // test errors
    assert!(
        parse_model(&models, &ModelName(attr("not_existing_model"))).is_err(),
        "Expected error for no matching model definitions"
    );
}

#[test]
fn test_parse_models() {
    let texts = vec![MOVIE_TEXT.to_string()];
    let models = parse_models(&texts).unwrap();
    assert_eq!(models.len(), 1);
    let movie = &models[0];
    assert_eq!(movie.model_name.0.0, "movie");
    assert_eq!(movie.primary_key.0, "id");
    assert!(matches!(
        movie.attr_get(&attr("year")),
        Some(AttrType::Primitive(PrimitiveType::Integer))
    ));
    assert!(matches!(
        movie.attr_get(&attr("actors")),
        Some(AttrType::Array(PrimitiveType::String))
    ));
    assert!(matches!(
        movie.attr_get(&attr("recommended")),
        Some(AttrType::Primitive(PrimitiveType::Boolean))
    ));

    // test errors: a list with no texts at all
    assert!(
        parse_models(&Vec::new()).is_err(),
        "Expected error for not existing models' path"
    );
    // a list with no valid model definitions
    let invalid = vec!["not a model".to_string(), "{}".to_string()];
    assert!(
        parse_models(&invalid).is_err(),
        "Expected error for no existing valid model definitions"
    );
}

#[test]
fn model_test_parse_models() {
    // an invalid file among valid ones is skipped, not fatal
    let texts = vec!["garbage".to_string(), MOVIE_TEXT.to_string()];
    let models = parse_models(&texts).unwrap();
    assert_eq!(models.len(), 1);
    assert_eq!(models[0].model_name.0.0, "movie");
}

// two files whose model names normalize to the same (plural, camelCase) form
// are both discarded
#[test]
fn parse_models_drops_duplicates() {
    let movie2 = MOVIE_TEXT.replace("\"movie\"", "\"movies\"");
    let texts = vec![MOVIE_TEXT.to_string(), movie2];
    assert!(
        parse_models(&texts).is_err(),
        "Expected error: both duplicates discarded leaves no models"
    );

    let book = MOVIE_TEXT.replace("\"movie\"", "\"book\"");
    let texts = vec![MOVIE_TEXT.to_string(), MOVIE_TEXT.to_string(), book];
    let models = parse_models(&texts).unwrap();
    assert_eq!(models.len(), 1);
    assert_eq!(models[0].model_name.0.0, "book");
}

#[test]
fn model_names_normalize_by_plural_and_camel() {
    // the plural of a singular name and the name itself collide
    let name = ModelName(attr("movie"));
    assert!(name.assert_singularity().is_ok());
    assert!(name.assert_plurality().is_err());
    let plural = ModelName(attr("movies"));
    assert!(plural.assert_plurality().is_ok());
    assert!(plural.assert_singularity().is_err());
    assert_eq!(name.normalized().0.0, "movies");
    assert_eq!(plural.normalized().0.0, "movies");
    // snake_case names normalize through camelCase
    let snake = ModelName(attr("movie_star"));
    assert_eq!(snake.normalized().0.0, "movieStars");
}
