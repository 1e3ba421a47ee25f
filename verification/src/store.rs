use vstd::prelude::*;

use crate::error::ErrorKind;
use crate::error::GusError;
use crate::model_def::ModelDefinition;
use crate::model_def::StorageType;
use crate::name::AttrName;
use crate::name::ModelName;
use crate::pairs::find_key;
use crate::pairs::has_key;
use crate::pairs::lemma_find_key_bounds;
use crate::pairs::lemma_find_key_first;
use crate::pairs::lookup;
use crate::pairs::unique_keys;
use crate::pairs::upsert;
use crate::value::Record;
use crate::value::TrueType;
use crate::value::ValueV;
use crate::value::eq_true_type;

verus! {

/// The pairs of one stored record.
pub type RecordV = Seq<(Seq<char>, ValueV)>;

/// One model's stored records, keyed by the primary-key value.
pub type TableV = Seq<(ValueV, RecordV)>;

/// The whole store, keyed by model name.
pub type DatabaseV = Seq<(Seq<char>, TableV)>;

/// Configures the JSON storage backend; the path of the storage file, where
/// the caller keeps one.
#[derive(Clone, Debug)]
pub struct JsonStorageConfig {
    pub storage_file: Option<String>,
}

/// The records of one model, keyed by the primary-key value; a mapping when
/// keys are unique, which every operation preserves.
#[derive(Debug)]
pub struct Table {
    pub rows: Vec<(TrueType, Record)>,
}

impl View for Table {
    type V = TableV;

    open spec fn view(&self) -> TableV {
        Seq::new(self.rows@.len(), |i: int| (self.rows@[i].0@, self.rows@[i].1@))
    }
}

impl Table {
    pub fn new() -> (r: Table)
        ensures
            r@ =~= Seq::<(ValueV, RecordV)>::empty(),
    {
        Table { rows: Vec::new() }
    }

    /// The first row index holding the key, if any.
    fn index_of(&self, key: &TrueType) -> (r: Option<usize>)
        ensures
            match r {
                Some(i) => 0 <= i < self@.len() && find_key(self@, key@) == i as int,
                None => find_key(self@, key@) < 0,
            },
    {
        let mut i: usize = 0;
        while i < self.rows.len()
            invariant
                0 <= i <= self.rows@.len(),
                self@.len() == self.rows@.len(),
                forall|j: int| 0 <= j < i ==> (#[trigger] self@[j]).0 != key@,
            decreases self.rows@.len() - i,
        {
            proof {
                assert(self@[i as int] == (self.rows@[i as int].0@, self.rows@[i as int].1@));
            }
            if eq_true_type(&self.rows[i].0, key) {
                proof {
                    lemma_find_key_first(self@, key@, i as int);
                }
                return Some(i);
            }
            i = i + 1;
        }
        proof {
            lemma_find_key_bounds(self@, key@);
        }
        None
    }

    /// A copy with the same view.
    pub fn dup(&self) -> (r: Table)
        ensures
            r@ == self@,
    {
        let mut out: Vec<(TrueType, Record)> = Vec::new();
        let mut i: usize = 0;
        while i < self.rows.len()
            invariant
                0 <= i <= self.rows@.len(),
                out@.len() == i,
                forall|j: int| 0 <= j < i ==> ((#[trigger] out@[j]).0@, out@[j].1@) == (
                    self.rows@[j].0@,
                    self.rows@[j].1@,
                ),
            decreases self.rows@.len() - i,
        {
            out.push((self.rows[i].0.dup(), self.rows[i].1.dup()));
            i = i + 1;
        }
        let r = Table { rows: out };
        proof {
            assert(r@ =~= self@);
        }
        r
    }
}

/// The in-memory store: every model's records, keyed by model name. Callers
/// that persist it read it in before a request and write it back after.
#[derive(Debug)]
pub struct Database {
    pub tables: Vec<(ModelName, Table)>,
}

impl View for Database {
    type V = DatabaseV;

    open spec fn view(&self) -> DatabaseV {
        Seq::new(self.tables@.len(), |i: int| (self.tables@[i].0@, self.tables@[i].1@))
    }
}

impl Database {
    pub fn new() -> (r: Database)
        ensures
            r@ =~= Seq::<(Seq<char>, TableV)>::empty(),
    {
        Database { tables: Vec::new() }
    }

    /// The first table index under the model name, if any.
    fn index_of(&self, name: &ModelName) -> (r: Option<usize>)
        ensures
            match r {
                Some(i) => 0 <= i < self@.len() && find_key(self@, name@) == i as int,
                None => find_key(self@, name@) < 0,
            },
    {
        let mut i: usize = 0;
        while i < self.tables.len()
            invariant
                0 <= i <= self.tables@.len(),
                self@.len() == self.tables@.len(),
                forall|j: int| 0 <= j < i ==> (#[trigger] self@[j]).0 != name@,
            decreases self.tables@.len() - i,
        {
            proof {
                assert(self@[i as int] == (self.tables@[i as int].0@, self.tables@[i as int].1@));
            }
            if self.tables[i].0.eq_name(name) {
                proof {
                    lemma_find_key_first(self@, name@, i as int);
                }
                return Some(i);
            }
            i = i + 1;
        }
        proof {
            lemma_find_key_bounds(self@, name@);
        }
        None
    }

    /// A copy of the model's table, empty where the store has none.
    fn table_copy(&self, name: &ModelName) -> (r: Table)
        ensures
            r@ == table_of(self@, name@),
    {
        proof {
            lemma_find_key_bounds(self@, name@);
        }
        match self.index_of(name) {
            Some(i) => self.tables[i].1.dup(),
            None => {
                let t = Table::new();
                proof {
                    assert(t@ =~= table_of(self@, name@));
                }
                t
            },
        }
    }

    /// Puts a table under the model name, replacing any previous one.
    fn put_table(&mut self, name: &ModelName, table: Table)
        ensures
            final(self)@ =~= upsert(old(self)@, name@, table@),
    {
        match self.index_of(name) {
            Some(i) => {
                self.tables.set(i, (name.dup(), table));
            },
            None => {
                self.tables.push((name.dup(), table));
            },
        }
    }
}

/// The model's table in the store, treating an absent model as empty.
pub open spec fn table_of(db: DatabaseV, name: Seq<char>) -> TableV {
    match lookup(db, name) {
        Some(t) => t,
        None => Seq::empty(),
    }
}

// ---------------------------------------------------------------------------
// What the four operations do, as functions on table values
// ---------------------------------------------------------------------------

/// Creation: fails when the key is already taken, else appends the record.
pub open spec fn create_spec(t: TableV, k: ValueV, rec: RecordV) -> Result<TableV, ErrorKind> {
    if has_key(t, k) {
        Err(ErrorKind::AlreadyExists)
    } else {
        Ok(t.push((k, rec)))
    }
}

/// Reading: the record under the key, or NotFound.
pub open spec fn read_spec(t: TableV, k: ValueV) -> Result<RecordV, ErrorKind> {
    match lookup(t, k) {
        Some(rec) => Ok(rec),
        None => Err(ErrorKind::NotFound),
    }
}

/// Merge-patch: only the attributes present in the patch are overwritten on
/// the stored record; all others are preserved.
pub open spec fn merge_spec(orig: RecordV, patch: RecordV) -> RecordV
    decreases patch.len(),
{
    if patch.len() == 0 {
        orig
    } else {
        upsert(merge_spec(orig, patch.drop_last()), patch.last().0, patch.last().1)
    }
}

/// Update: fails when the key is absent, else merge-patches the stored record
/// and yields the merged record.
pub open spec fn update_spec(t: TableV, k: ValueV, patch: RecordV) -> Result<
    (TableV, RecordV),
    ErrorKind,
> {
    match lookup(t, k) {
        Some(orig) => {
            let merged = merge_spec(orig, patch);
            Ok((upsert(t, k, merged), merged))
        },
        None => Err(ErrorKind::NotFound),
    }
}

/// Deletion: fails when the key is absent, else removes the row and yields
/// the removed record.
pub open spec fn delete_spec(t: TableV, k: ValueV) -> Result<(TableV, RecordV), ErrorKind> {
    match lookup(t, k) {
        Some(rec) => Ok((t.remove(find_key(t, k)), rec)),
        None => Err(ErrorKind::NotFound),
    }
}

// ---------------------------------------------------------------------------
// The storage contract and the reference backend
// ---------------------------------------------------------------------------

/// The storage contract: four operations, each on one record by key, against
/// the model the handler was built for.
pub trait StorageHandler {
    /// The name of the model the handler serves.
    spec fn spec_model_name(&self) -> Seq<char>;

    /// The name of the primary-key attribute.
    spec fn spec_key_attr(&self) -> Seq<char>;

    /// Stores a new record under its primary-key value; fails with
    /// AlreadyExists when a record with that key is present.
    fn create_one(&self, db: &mut Database, record: &Record) -> (r: Result<Record, GusError>)
        requires
            has_key(record@, self.spec_key_attr()),
        ensures
            ({
                let k = lookup(old(db)@, self.spec_model_name());
                let key = lookup(record@, self.spec_key_attr()).unwrap();
                let t = table_of(old(db)@, self.spec_model_name());
                match r {
                    Ok(out) => {
                        &&& create_spec(t, key, record@) matches Ok(t2) && final(db)@ == upsert(
                            old(db)@,
                            self.spec_model_name(),
                            t2,
                        )
                        &&& out@ == record@
                    },
                    Err(e) => {
                        &&& create_spec(t, key, record@) is Err
                        &&& e.kind == ErrorKind::AlreadyExists
                        &&& final(db)@ == old(db)@
                    },
                }
            }),
    ;

    /// Reads the record stored under the given key; fails with NotFound when
    /// there is none.
    fn read_one(&self, db: &Database, id: &TrueType) -> (r: Result<Record, GusError>)
        ensures
            ({
                let t = table_of(db@, self.spec_model_name());
                match r {
                    Ok(out) => read_spec(t, id@) == Ok::<RecordV, ErrorKind>(out@),
                    Err(e) => read_spec(t, id@) is Err && e.kind == ErrorKind::NotFound,
                }
            }),
    ;

    /// Merge-patches the record stored under the patch's primary-key value;
    /// fails with NotFound when there is none.
    fn update_one(&self, db: &mut Database, record: &Record) -> (r: Result<Record, GusError>)
        requires
            has_key(record@, self.spec_key_attr()),
        ensures
            ({
                let key = lookup(record@, self.spec_key_attr()).unwrap();
                let t = table_of(old(db)@, self.spec_model_name());
                match r {
                    Ok(out) => {
                        &&& update_spec(t, key, record@) matches Ok(pair) && final(db)@ == upsert(
                            old(db)@,
                            self.spec_model_name(),
                            pair.0,
                        ) && out@ == pair.1
                    },
                    Err(e) => {
                        &&& update_spec(t, key, record@) is Err
                        &&& e.kind == ErrorKind::NotFound
                        &&& final(db)@ == old(db)@
                    },
                }
            }),
    ;

    /// Deletes and yields the record stored under the given key; fails with
    /// NotFound when there is none.
    fn delete_one(&self, db: &mut Database, id: &TrueType) -> (r: Result<Record, GusError>)
        ensures
            ({
                let t = table_of(old(db)@, self.spec_model_name());
                match r {
                    Ok(out) => {
                        &&& delete_spec(t, id@) matches Ok(pair) && final(db)@ == upsert(
                            old(db)@,
                            self.spec_model_name(),
                            pair.0,
                        ) && out@ == pair.1
                    },
                    Err(e) => {
                        &&& delete_spec(t, id@) is Err
                        &&& e.kind == ErrorKind::NotFound
                        &&& final(db)@ == old(db)@
                    },
                }
            }),
    ;
}

/// The reference backend: one shared store nested by model name then by
/// primary-key value, with merge-patch update semantics.
#[derive(Debug)]
pub struct JsonStorageHandler {
    pub key_attr: AttrName,
    pub model_name: ModelName,
    pub config: JsonStorageConfig,
}

impl StorageHandler for JsonStorageHandler {
    open spec fn spec_model_name(&self) -> Seq<char> {
        self.model_name@
    }

    open spec fn spec_key_attr(&self) -> Seq<char> {
        self.key_attr@
    }

    fn create_one(&self, db: &mut Database, record: &Record) -> (r: Result<Record, GusError>) {
        let id = match record.get(&self.key_attr) {
            Some(v) => v.dup(),
            None => {
                proof {
                    assert(false);
                }
                TrueType::null()
            },
        };
        let mut data = db.table_copy(&self.model_name);
        match data.index_of(&id) {
            Some(_) => {
                proof {
                    lemma_find_key_bounds(data@, id@);
                }
                Err(
                    GusError::new(
                        ErrorKind::AlreadyExists,
                        "A record for the given key already exists, try to update it instead (PUT)",
                    ),
                )
            },
            None => {
                data.rows.push((id, record.dup()));
                proof {
                    assert(data@ =~= table_of(old(db)@, self.spec_model_name()).push(
                        (
                            lookup(record@, self.spec_key_attr()).unwrap(),
                            record@,
                        ),
                    ));
                }
                db.put_table(&self.model_name, data);
                Ok(record.dup())
            },
        }
    }

    fn read_one(&self, db: &Database, id: &TrueType) -> (r: Result<Record, GusError>) {
        let data = db.table_copy(&self.model_name);
        match data.index_of(id) {
            Some(i) => {
                proof {
                    lemma_find_key_bounds(data@, id@);
                }
                Ok(data.rows[i].1.dup())
            },
            None => Err(GusError::new(ErrorKind::NotFound, "No record found with the given id")),
        }
    }

    fn update_one(&self, db: &mut Database, record: &Record) -> (r: Result<Record, GusError>) {
        let id = match record.get(&self.key_attr) {
            Some(v) => v.dup(),
            None => {
                proof {
                    assert(false);
                }
                TrueType::null()
            },
        };
        let mut data = db.table_copy(&self.model_name);
        let i = match data.index_of(&id) {
            Some(i) => i,
            None => {
                proof {
                    lemma_find_key_bounds(data@, id@);
                }
                return Err(
                    GusError::new(
                        ErrorKind::NotFound,
                        "No record found for the given key, try to create it instead (POST)",
                    ),
                );
            },
        };
        proof {
            lemma_find_key_bounds(data@, id@);
        }
        let mut new_record = data.rows[i].1.dup();
        let ghost orig = new_record@;
        let mut j: usize = 0;
        while j < record.pairs.len()
            invariant
                0 <= j <= record.pairs@.len(),
                record@.len() == record.pairs@.len(),
                new_record@ == merge_spec(orig, record@.subrange(0, j as int)),
            decreases record.pairs@.len() - j,
        {
            proof {
                assert(record@[j as int] == (record.pairs@[j as int].0@, record.pairs@[j as int].1@));
            }
            new_record.insert(record.pairs[j].0.dup(), record.pairs[j].1.dup());
            proof {
                let pre = record@.subrange(0, j as int);
                let post = record@.subrange(0, j + 1 as int);
                assert(post.drop_last() =~= pre);
                assert(post.last() == record@[j as int]);
            }
            j = j + 1;
        }
        proof {
            assert(record@.subrange(0, record@.len() as int) =~= record@);
        }
        data.rows.set(i, (id, new_record.dup()));
        proof {
            let t = table_of(old(db)@, self.spec_model_name());
            let key = lookup(record@, self.spec_key_attr()).unwrap();
            assert(data@ =~= upsert(t, key, new_record@));
        }
        db.put_table(&self.model_name, data);
        Ok(new_record)
    }

    fn delete_one(&self, db: &mut Database, id: &TrueType) -> (r: Result<Record, GusError>) {
        let mut data = db.table_copy(&self.model_name);
        let i = match data.index_of(id) {
            Some(i) => i,
            None => {
                proof {
                    lemma_find_key_bounds(data@, id@);
                }
                return Err(
                    GusError::new(ErrorKind::NotFound, "No record found to remove with the given id"),
                );
            },
        };
        proof {
            lemma_find_key_bounds(data@, id@);
        }
        let removed = data.rows.remove(i);
        proof {
            let t = table_of(old(db)@, self.spec_model_name());
            assert(data@ =~= t.remove(find_key(t, id@)));
        }
        db.put_table(&self.model_name, data);
        Ok(removed.1)
    }
}

// ---------------------------------------------------------------------------
// Laws of the storage contract
// ---------------------------------------------------------------------------

/// Law: after creating a record under a key, creating under the same key
/// fails with AlreadyExists.
pub proof fn lemma_create_then_create(t: TableV, k: ValueV, r1: RecordV, r2: RecordV)
    requires
        create_spec(t, k, r1) is Ok,
    ensures
        create_spec(create_spec(t, k, r1).unwrap(), k, r2) == Err::<TableV, ErrorKind>(
            ErrorKind::AlreadyExists,
        ),
{
    crate::pairs::lemma_lookup_push(t, k, r1, k);
}

/// Law: after creating a record under a key, reading that key yields the
/// created record.
pub proof fn lemma_create_then_read(t: TableV, k: ValueV, rec: RecordV)
    requires
        create_spec(t, k, rec) is Ok,
    ensures
        read_spec(create_spec(t, k, rec).unwrap(), k) == Ok::<RecordV, ErrorKind>(rec),
{
    crate::pairs::lemma_lookup_push(t, k, rec, k);
}

/// Law: a merge-patch update preserves every stored attribute that the patch
/// does not mention.
pub proof fn lemma_update_preserves(orig: RecordV, patch: RecordV, a: Seq<char>)
    requires
        !has_key(patch, a),
    ensures
        lookup(merge_spec(orig, patch), a) == lookup(orig, a),
    decreases patch.len(),
{
    if patch.len() > 0 {
        lemma_find_key_bounds(patch, a);
        assert(!has_key(patch.drop_last(), a)) by {
            lemma_find_key_bounds(patch.drop_last(), a);
            if has_key(patch.drop_last(), a) {
                let i = find_key(patch.drop_last(), a);
                assert(patch[i] == patch.drop_last()[i]);
            }
        }
        lemma_update_preserves(orig, patch.drop_last(), a);
        crate::pairs::lemma_lookup_upsert(
            merge_spec(orig, patch.drop_last()),
            patch.last().0,
            patch.last().1,
            a,
        );
    }
}

/// Law: a merge-patch update stores every attribute the patch mentions, with
/// the patch's value, when the patch names each attribute once.
pub proof fn lemma_update_applies(orig: RecordV, patch: RecordV, a: Seq<char>)
    requires
        unique_keys(patch),
        has_key(patch, a),
    ensures
        lookup(merge_spec(orig, patch), a) == lookup(patch, a),
    decreases patch.len(),
{
    lemma_find_key_bounds(patch, a);
    let last = patch.last();
    crate::pairs::lemma_lookup_upsert(merge_spec(orig, patch.drop_last()), last.0, last.1, a);
    if last.0 == a {
        assert forall|i: int| 0 <= i < patch.len() - 1 implies (#[trigger] patch[i]).0 != a by {}
        crate::pairs::lemma_find_key_first(patch, a, patch.len() - 1);
    } else {
        let i = find_key(patch, a);
        assert(patch[i].0 == a);
        assert(i < patch.len() - 1);
        assert(patch.drop_last()[i] == patch[i]);
        assert(unique_keys(patch.drop_last())) by {
            assert forall|x: int, y: int|
                0 <= x < y < patch.drop_last().len() implies (#[trigger] patch.drop_last()[x]).0
                != (#[trigger] patch.drop_last()[y]).0 by {
                assert(patch.drop_last()[x] == patch[x]);
                assert(patch.drop_last()[y] == patch[y]);
            }
        }
        assert(find_key(patch.drop_last(), a) == i) by {
            assert forall|j: int| 0 <= j < i implies (#[trigger] patch.drop_last()[j]).0 != a by {
                assert(patch.drop_last()[j] == patch[j]);
            }
            crate::pairs::lemma_find_key_first(patch.drop_last(), a, i);
        }
        lemma_update_applies(orig, patch.drop_last(), a);
    }
}

/// Law: after deleting a key from a table whose keys are unique, reading that
/// key fails with NotFound.
pub proof fn lemma_delete_then_read(t: TableV, k: ValueV)
    requires
        unique_keys(t),
        delete_spec(t, k) is Ok,
    ensures
        read_spec(delete_spec(t, k).unwrap().0, k) == Err::<RecordV, ErrorKind>(
            ErrorKind::NotFound,
        ),
{
    crate::pairs::lemma_lookup_remove(t, k, k);
}

/// Selects the storage backend for a model: the JSON backend keyed by the
/// model's primary key, with a default configuration.
pub fn get_handler(model: &ModelDefinition) -> (r: Result<JsonStorageHandler, GusError>)
    ensures
        r matches Ok(h) && h.spec_model_name() == model@.model_name && h.spec_key_attr()
            == model@.primary_key,
{
    match model.storage_type {
        StorageType::json => Ok(
            JsonStorageHandler {
                model_name: model.model_name.dup(),
                key_attr: model.primary_key.dup(),
                config: JsonStorageConfig { storage_file: None },
            },
        ),
    }
}

} // verus!
