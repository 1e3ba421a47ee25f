use gus::AttrName;
use gus::Database;
use gus::JsonStorageConfig;
use gus::JsonStorageHandler;
use gus::ModelName;
use gus::Record;
use gus::StorageHandler;
use gus::TruePrimitiveType;
use gus::TrueType;

fn attr(s: &str) -> AttrName {
    AttrName(s.to_string())
}

fn handler() -> JsonStorageHandler {
    JsonStorageHandler {
        model_name: ModelName(attr("movie")),
        key_attr: attr("id"),
        config: JsonStorageConfig { storage_file: None },
    }
}

fn movie_record(id: TrueType) -> Record {
    Record::from_pairs(vec![
        (attr("id"), id),
        (
            attr("name"),
            TrueType::Primitive(Some(TruePrimitiveType::String(
                "Natural Born Killers".to_string(),
            ))),
        ),
        (attr("year"), TrueType::Primitive(Some(TruePrimitiveType::Integer(1994)))),
        (
            attr("actors"),
            TrueType::Array(Some(vec![
                TruePrimitiveType::String("Woody Harrelson".to_string()),
                TruePrimitiveType::String("Juliette Lewis".to_string()),
            ])),
        ),
        (attr("recommended"), TrueType::Primitive(Some(TruePrimitiveType::Boolean(true)))),
    ])
}

fn int_id(i: i64) -> TrueType {
    TrueType::Primitive(Some(TruePrimitiveType::Integer(i)))
}

fn str_id(s: &str) -> TrueType {
    TrueType::Primitive(Some(TruePrimitiveType::String(s.to_string())))
}

fn bool_id(b: bool) -> TrueType {
    TrueType::Primitive(Some(TruePrimitiveType::Boolean(b)))
}

#[test]
fn test_json_create_one() {
    let handler = handler();
    let mut db = Database::new();
    let record = movie_record(int_id(1));
    assert_eq!(
        handler.create_one(&mut db, &record).unwrap(),
        record,
        "Creating a valid new record failed"
    );
    assert!(
        handler.create_one(&mut db, &record).is_err(),
        "Created a new record with already existing id"
    );
}

#[test]
fn json_test_create_one() {
    let handler = handler();
    let mut db = Database::new();
    let record = movie_record(int_id(1));
    assert_eq!(
        handler.create_one(&mut db, &record).unwrap(),
        record,
        "Creating a valid new record failed"
    );
    assert!(
        handler.create_one(&mut db, &record).is_err(),
        "Created a new record with already existing id"
    );
}

#[test]
fn mod_test_create_one() {
    // integer, string and boolean keys occupy disjoint key spaces
    let handler = handler();
    let mut db = Database::new();
    for key in [int_id(1), str_id("1"), bool_id(true)] {
        let record = movie_record(key);
        assert_eq!(
            handler.create_one(&mut db, &record).unwrap(),
            record,
            "Creating a valid new record failed"
        );
        assert!(
            handler.create_one(&mut db, &record).is_err(),
            "Created a new record with already existing id"
        );
    }
}

#[test]
fn test_read_one() {
    let handler = handler();
    let mut db = Database::new();
    for key in [int_id(1), str_id("1"), bool_id(true)] {
        let record = Record::from_pairs(vec![(attr("id"), key.dup())]);
        handler.create_one(&mut db, &record).unwrap();
        assert_eq!(
            handler.read_one(&db, &key).unwrap(),
            record,
            "Reading a valid new record failed"
        );
    }
    assert!(
        handler.read_one(&db, &str_id("not existing")).is_err(),
        "Expected error when reading a not existing record"
    );
}

#[test]
fn test_update_one() {
    let handler = handler();
    for key in [int_id(1), str_id("1"), bool_id(true)] {
        let mut db = Database::new();
        let stored = Record::from_pairs(vec![
            (attr("id"), key.dup()),
            (attr("name"), str_id("old name")),
        ]);
        handler.create_one(&mut db, &stored).unwrap();

        // a patch holding only the id overwrites nothing else
        let patch = Record::from_pairs(vec![(attr("id"), key.dup())]);
        let merged = handler.update_one(&mut db, &patch).unwrap();
        assert_eq!(merged.len(), 2, "Updating an existing record failed");
        assert_eq!(
            handler.read_one(&db, &key).unwrap(),
            merged,
            "The merged record was not stored"
        );

        let missing = Record::from_pairs(vec![(attr("id"), str_id("not existing"))]);
        assert!(
            handler.update_one(&mut db, &missing).is_err(),
            "Expected an error when updating a not existing record"
        );
    }
}

// update preserves all previously stored attributes not present in the patch
#[test]
fn update_preserves_unpatched_attributes() {
    let handler = handler();
    let mut db = Database::new();
    let record = movie_record(int_id(1));
    handler.create_one(&mut db, &record).unwrap();

    let patch = Record::from_pairs(vec![
        (attr("id"), int_id(1)),
        (attr("year"), int_id(2001)),
    ]);
    let merged = handler.update_one(&mut db, &patch).unwrap();
    assert_eq!(merged.len(), 5);
    let expected = Record::from_pairs(vec![
        (attr("id"), int_id(1)),
        (
            attr("name"),
            TrueType::Primitive(Some(TruePrimitiveType::String(
                "Natural Born Killers".to_string(),
            ))),
        ),
        (attr("year"), int_id(2001)),
        (
            attr("actors"),
            TrueType::Array(Some(vec![
                TruePrimitiveType::String("Woody Harrelson".to_string()),
                TruePrimitiveType::String("Juliette Lewis".to_string()),
            ])),
        ),
        (attr("recommended"), TrueType::Primitive(Some(TruePrimitiveType::Boolean(true)))),
    ]);
    assert_eq!(merged, expected);
}

#[test]
fn test_delete_one() {
    let handler = handler();
    for key in [int_id(1), str_id("1"), bool_id(true)] {
        let mut db = Database::new();
        let record = Record::from_pairs(vec![(attr("id"), key.dup())]);
        handler.create_one(&mut db, &record).unwrap();
        assert_eq!(
            handler.delete_one(&mut db, &key).unwrap(),
            record,
            "Deleting a valid new record failed"
        );
        // delete then read fails NotFound
        assert!(
            handler.read_one(&db, &key).is_err(),
            "Expected error when reading a deleted record"
        );
    }
    let mut db = Database::new();
    assert!(
        handler.delete_one(&mut db, &str_id("not existing")).is_err(),
        "Expected error when deleting a not existing record"
    );
}
