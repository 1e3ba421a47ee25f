use gus::AttrName;
use gus::AttrType;
use gus::ModelDefinition;
use gus::ModelName;
use gus::PrimitiveType;
use gus::Record;
use gus::StorageType;
use gus::TruePrimitiveType;
use gus::TrueType;
use gus::add_null_values;
use gus::eq_true_type;
use gus::check_constraints;
use gus::parse_record;
use gus::record_from_document;
use gus::record_to_document;

fn attr(s: &str) -> AttrName {
    AttrName(s.to_string())
}

fn movie_model() -> ModelDefinition {
    ModelDefinition {
        model_name: ModelName(attr("movie")),
        storage_type: StorageType::json,
        attributes: vec![
            (attr("id"), AttrType::Primitive(PrimitiveType::Integer)),
            (attr("name"), AttrType::Primitive(PrimitiveType::String)),
            (attr("year"), AttrType::Primitive(PrimitiveType::Integer)),
            (attr("actors"), AttrType::Array(PrimitiveType::String)),
            (attr("recommended"), AttrType::Primitive(PrimitiveType::Boolean)),
        ],
        primary_key: attr("id"),
        required: vec![attr("id"), attr("name"), attr("recommended")],
        constraints: None,
    }
}

fn int_value(i: i64) -> TrueType {
    TrueType::Primitive(Some(TruePrimitiveType::Integer(i)))
}

fn str_value(s: &str) -> TrueType {
    TrueType::Primitive(Some(TruePrimitiveType::String(s.to_string())))
}

fn bool_value(b: bool) -> TrueType {
    TrueType::Primitive(Some(TruePrimitiveType::Boolean(b)))
}

fn str_array(items: &[&str]) -> TrueType {
    TrueType::Array(Some(
        items.iter().map(|s| TruePrimitiveType::String(s.to_string())).collect(),
    ))
}

#[test]
fn test_parse_record() {
    let valid_input = r#"
        {
            "id": 1,
            "name": "Natural Born Killers",
            "year": 1994,
            "actors": ["Woody Harrelson", "Juliette Lewis"],
            "recommended": true
        }
    "#;
    let expected_record = Record::from_pairs(vec![
        (attr("actors"), str_array(&["Woody Harrelson", "Juliette Lewis"])),
        (attr("id"), int_value(1)),
        (attr("name"), str_value("Natural Born Killers")),
        (attr("recommended"), bool_value(true)),
        (attr("year"), int_value(1994)),
    ]);

    let movie_model = movie_model();
    let parsed_record: Record = parse_record(valid_input, &movie_model).unwrap();
    assert_eq!(&parsed_record, &expected_record);

    // test null values
    let valid_input = r#"
        {
            "id": 1,
            "name": "Natural Born Killers",
            "year": null,
            "actors": null,
            "recommended": true
        }
    "#;
    assert!(
        parse_record(valid_input, &movie_model).is_ok(),
        "Unexpected Error for parsing null-values for non-required attributes"
    );

    // test errors
    // test String instead of Integer
    let invalid_input = r#"
        {
            "id": "1",
            "name": "Natural Born Killers",
            "year": "1994",
            "actors": ["Woody Harrelson", "Juliette Lewis"],
            "recommended": true
        }
    "#;
    assert!(
        parse_record(invalid_input, &movie_model).is_err(),
        "Expected Error for parsing String-Value to Integer"
    );

    // test String instead of Boolean
    let invalid_input = r#"
        {
            "id": 1,
            "name": "Natural Born Killers",
            "year": 1994,
            "actors": ["Woody Harrelson", "Juliette Lewis"],
            "recommended": "true"
        }
    "#;
    assert!(
        parse_record(invalid_input, &movie_model).is_err(),
        "Expected Error for parsing String-Value to Boolean"
    );

    // test Integer instead of String
    let invalid_input = r#"
        {
            "id": 1,
            "name": 1994,
            "year": 1994,
            "actors": ["Woody Harrelson", "Juliette Lewis"],
            "recommended": true
        }
    "#;
    assert!(
        parse_record(invalid_input, &movie_model).is_err(),
        "Expected Error for parsing Integer-Value to String"
    );

    // test Array(Integer) instead of Array(String)
    let invalid_input = r#"
        {
            "id": 1,
            "name": "Natural Born Killers",
            "year": 1994,
            "actors": [1, 2],
            "recommended": true
        }
    "#;
    assert!(
        parse_record(invalid_input, &movie_model).is_err(),
        "Expected Error for parsing Array(Integer)-Value to Array(String)"
    );

    // test missing attribute
    let invalid_input = r#"
        {
            "id": 1,
            "year": 1994,
            "actors": ["Woody Harrelson", "Juliette Lewis"],
            "recommended": true
        }
    "#;
    assert!(
        parse_record(invalid_input, &movie_model).is_err(),
        "Expected Error for missing required attributes"
    );

    // test null value for required attribute
    let invalid_input = r#"
        {
            "id": 1,
            "name": null,
            "year": 1994,
            "actors": ["Woody Harrelson", "Juliette Lewis"],
            "recommended": true
        }
    "#;
    assert!(
        parse_record(invalid_input, &movie_model).is_err(),
        "Expected Error for null-valued required attributes"
    );

    // test null values as array entries
    let invalid_input = r#"
        {
            "id": 1,
            "name": "Natural Born Killers",
            "year": 1994,
            "actors": ["Woody Harrelson", null],
            "recommended": true
        }
    "#;
    assert!(
        parse_record(invalid_input, &movie_model).is_err(),
        "Expected Error for array storing null values"
    );

    // test invalid json
    assert!(
        parse_record("invalid json", &movie_model).is_err(),
        "Expected Error for parsing invalid JSON input"
    );
}

#[test]
fn model_test_parse_record() {
    let movie_model = movie_model();
    // unknown attributes are rejected
    let invalid_input = r#"{"id": 1, "name": "x", "recommended": true, "director": "y"}"#;
    assert!(
        parse_record(invalid_input, &movie_model).is_err(),
        "Expected Error for unknown attributes"
    );
    // a non-object document is rejected
    assert!(
        parse_record("[1, 2, 3]", &movie_model).is_err(),
        "Expected Error for a document that is not an object"
    );
    // an invalidly formed attribute name is rejected
    let invalid_input = r#"{"id": 1, "name": "x", "recommended": true, "9bad": 1}"#;
    assert!(
        parse_record(invalid_input, &movie_model).is_err(),
        "Expected Error for invalidly named attributes"
    );
}

// null handling: optional nulls become the explicit "no value"
#[test]
fn parse_record_null_values_become_no_value() {
    let movie_model = movie_model();
    let input = r#"{"id": 1, "name": "N", "year": null, "actors": null, "recommended": false}"#;
    let rec = parse_record(input, &movie_model).unwrap();
    assert!(eq_true_type(rec.get(&attr("year")).unwrap(), &TrueType::Primitive(None)));
    assert!(eq_true_type(rec.get(&attr("actors")).unwrap(), &TrueType::Primitive(None)));
    assert!(eq_true_type(rec.get(&attr("recommended")).unwrap(), &bool_value(false)));
}

// the key set after null backfill is exactly the model's attribute set
#[test]
fn add_null_values_backfills_every_attribute() {
    let movie_model = movie_model();
    let input = r#"{"id": 1, "name": "N", "recommended": true}"#;
    let rec = parse_record(input, &movie_model).unwrap();
    assert_eq!(rec.len(), 3);
    let full = add_null_values(rec, &movie_model);
    assert_eq!(full.len(), 5);
    assert!(eq_true_type(full.get(&attr("year")).unwrap(), &TrueType::Primitive(None)));
    assert!(eq_true_type(full.get(&attr("actors")).unwrap(), &TrueType::Primitive(None)));
    assert!(eq_true_type(full.get(&attr("id")).unwrap(), &int_value(1)));
    assert!(check_constraints(&full).is_ok());
}

// re-serializing and re-parsing a conforming record yields an equal record
#[test]
fn record_round_trips_through_its_document() {
    let movie_model = movie_model();
    let input = r#"
        {
            "id": 7,
            "name": "Heat",
            "year": 1995,
            "actors": ["Al Pacino", "Robert De Niro"],
            "recommended": true
        }
    "#;
    let rec = parse_record(input, &movie_model).unwrap();
    let doc = record_to_document(&rec);
    let again = record_from_document(&doc, &movie_model).unwrap();
    assert_eq!(rec, again);

    // and once more with backfilled nulls in the record
    let partial = parse_record(r#"{"id": 7, "name": "Heat", "recommended": true}"#, &movie_model)
        .unwrap();
    let full = add_null_values(partial, &movie_model);
    let doc = record_to_document(&full);
    let again = record_from_document(&doc, &movie_model).unwrap();
    assert_eq!(full, again);
}

#[test]
fn to_string_projects_values_canonically() {
    assert_eq!(int_value(1994).to_string(), "1994");
    assert_eq!(int_value(0).to_string(), "0");
    assert_eq!(int_value(-27).to_string(), "-27");
    assert_eq!(int_value(i64::MIN).to_string(), "-9223372036854775808");
    assert_eq!(str_value("Natural Born Killers").to_string(), "Natural Born Killers");
    assert_eq!(bool_value(true).to_string(), "true");
    assert_eq!(bool_value(false).to_string(), "false");
    assert_eq!(TrueType::Primitive(None).to_string(), "null");
    assert_eq!(TrueType::Array(None).to_string(), "null");
    assert_eq!(
        str_array(&["Woody Harrelson", "Juliette Lewis"]).to_string(),
        "[\"Woody Harrelson\", \"Juliette Lewis\"]"
    );
    assert_eq!(
        TrueType::Array(Some(vec![
            TruePrimitiveType::Integer(1),
            TruePrimitiveType::Boolean(false),
        ]))
        .to_string(),
        "[\"1\", \"false\"]"
    );
    // quotes and backslashes in elements are escaped
    assert_eq!(
        str_array(&["say \"hi\"", "a\\b"]).to_string(),
        "[\"say \\\"hi\\\"\", \"a\\\\b\"]"
    );
}

#[test]
fn attr_names_accept_the_four_case_conventions() {
    assert!(AttrName::try_from("PascalCase").is_ok());
    assert!(AttrName::try_from("camelCase").is_ok());
    assert!(AttrName::try_from("snake_case").is_ok());
    assert!(AttrName::try_from("spinal-case").is_ok());
    assert!(AttrName::try_from("a").is_ok());
    assert!(AttrName::try_from("").is_err());
    assert!(AttrName::try_from("9starts_with_digit").is_err());
    assert!(AttrName::try_from("has space").is_err());
    assert!(AttrName::try_from("double__underscore").is_err());
    assert!(AttrName::try_from("trailing_").is_err());
    assert!(AttrName::try_from("_leading").is_err());
    assert!(AttrName::try_from("mixed_Case").is_err());
    assert!(AttrName::try_from("snake_and-spinal").is_err());
}
