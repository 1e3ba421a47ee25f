use vstd::prelude::*;

use crate::json::JsonV;
use crate::json::JsonValue;
use crate::name::str_eq;
use crate::pairs::lemma_find_key_bounds;
use crate::pairs::lemma_find_key_first;
use crate::pairs::lookup;
use crate::value::TrueType;
use crate::value::ValueV;

verus! {

// ---------------------------------------------------------------------------
// The executable document, as the engine reads it
// ---------------------------------------------------------------------------

/// The kind of an operation.
#[derive(Clone, Copy, Debug, PartialEq, Eq, Structural)]
pub enum OpKind {
    Query,
    Mutation,
    Subscription,
}

/// One field selection, with its arguments translated into the library's JSON
/// data model and its schema type reduced to the inner named type.
#[derive(Debug)]
pub struct GqlField {
    pub name: String,
    pub alias: Option<String>,
    pub ty_name: String,
    pub arguments: Vec<(String, JsonValue)>,
    pub selection_set: Vec<GqlSelection>,
}

/// One selection of a selection set.
#[derive(Debug)]
pub enum GqlSelection {
    Field(GqlField),
    FragmentSpread(String),
    InlineFragment(Vec<GqlSelection>),
}

/// One executable operation.
#[derive(Debug)]
pub struct GqlOperation {
    pub name: Option<String>,
    pub kind: OpKind,
    pub selection_set: Vec<GqlSelection>,
}

/// One named fragment definition.
#[derive(Debug)]
pub struct GqlFragment {
    pub name: String,
    pub selection_set: Vec<GqlSelection>,
}

/// A validated executable document.
#[derive(Debug)]
pub struct GqlDocument {
    pub operations: Vec<GqlOperation>,
    pub fragments: Vec<GqlFragment>,
}

/// The mathematical shape of a field selection.
#[verifier::ext_equal]
pub struct FieldV {
    pub name: Seq<char>,
    pub alias: Option<Seq<char>>,
    pub ty_name: Seq<char>,
    pub arguments: Seq<(Seq<char>, JsonV)>,
    pub selection_set: Seq<SelectionV>,
}

/// The mathematical shape of a selection.
#[verifier::ext_equal]
pub enum SelectionV {
    Field(FieldV),
    FragmentSpread(Seq<char>),
    InlineFragment(Seq<SelectionV>),
}

#[verifier::ext_equal]
pub struct OperationV {
    pub name: Option<Seq<char>>,
    pub kind: OpKind,
    pub selection_set: Seq<SelectionV>,
}

#[verifier::ext_equal]
pub struct DocumentV {
    pub operations: Seq<OperationV>,
    pub fragments: Seq<(Seq<char>, Seq<SelectionV>)>,
}

impl View for GqlField {
    type V = FieldV;

    open spec fn view(&self) -> FieldV
        decreases self,
    {
        FieldV {
            name: self.name@,
            alias: match &self.alias {
                Some(a) => Some(a@),
                None => None,
            },
            ty_name: self.ty_name@,
            arguments: crate::json::doc_view(self.arguments@),
            selection_set: sels_view(self.selection_set@),
        }
    }
}

impl View for GqlSelection {
    type V = SelectionV;

    open spec fn view(&self) -> SelectionV
        decreases self,
    {
        match self {
            GqlSelection::Field(f) => SelectionV::Field(f@),
            GqlSelection::FragmentSpread(n) => SelectionV::FragmentSpread(n@),
            GqlSelection::InlineFragment(sels) => SelectionV::InlineFragment(sels_view(sels@)),
        }
    }
}

/// The views of a sequence of selections.
pub open spec fn sels_view(s: Seq<GqlSelection>) -> Seq<SelectionV>
    decreases s,
{
    if s.len() == 0 {
        Seq::empty()
    } else {
        sels_view(s.drop_last()).push(s.last()@)
    }
}

pub broadcast proof fn lemma_sels_view(s: Seq<GqlSelection>)
    ensures
        (#[trigger] sels_view(s)).len() == s.len(),
        forall|i: int| 0 <= i < s.len() ==> sels_view(s)[i] == s[i]@,
    decreases s.len(),
{
    if s.len() > 0 {
        lemma_sels_view(s.drop_last());
        assert(sels_view(s) == sels_view(s.drop_last()).push(s.last()@));
        assert forall|i: int| 0 <= i < s.len() implies sels_view(s)[i] == s[i]@ by {
            if i < s.len() - 1 {
                assert(s.drop_last()[i] == s[i]);
            }
        }
    }
}

impl View for GqlOperation {
    type V = OperationV;

    open spec fn view(&self) -> OperationV {
        OperationV {
            name: match &self.name {
                Some(n) => Some(n@),
                None => None,
            },
            kind: self.kind,
            selection_set: sels_view(self.selection_set@),
        }
    }
}

impl View for GqlDocument {
    type V = DocumentV;

    open spec fn view(&self) -> DocumentV {
        DocumentV {
            operations: Seq::new(self.operations@.len(), |i: int| self.operations@[i]@),
            fragments: Seq::new(
                self.fragments@.len(),
                |i: int| (self.fragments@[i].name@, sels_view(self.fragments@[i].selection_set@)),
            ),
        }
    }
}

impl GqlField {
    /// The key under which the field's value is returned: the alias when one
    /// was requested, else the field name.
    pub open spec fn spec_response_key(&self) -> Seq<char> {
        match self@.alias {
            Some(a) => a,
            None => self@.name,
        }
    }

    pub fn response_key(&self) -> (r: &String)
        ensures
            r@ == self.spec_response_key(),
    {
        match &self.alias {
            Some(a) => a,
            None => &self.name,
        }
    }
}

impl GqlDocument {
    /// The selection set of the named fragment, if the document defines one.
    pub fn fragment(&self, name: &String) -> (r: Option<&Vec<GqlSelection>>)
        ensures
            match r {
                Some(sels) => lookup(self@.fragments, name@) == Some(sels_view(sels@)),
                None => lookup(self@.fragments, name@) is None,
            },
    {
        let ghost fv = self@.fragments;
        let mut i: usize = 0;
        while i < self.fragments.len()
            invariant
                0 <= i <= self.fragments@.len(),
                fv == self@.fragments,
                fv.len() == self.fragments@.len(),
                forall|j: int| 0 <= j < i ==> (#[trigger] fv[j]).0 != name@,
            decreases self.fragments@.len() - i,
        {
            proof {
                assert(fv[i as int] == (
                    self.fragments@[i as int].name@,
                    sels_view(self.fragments@[i as int].selection_set@),
                ));
            }
            if str_eq(self.fragments[i].name.as_str(), name.as_str()) {
                proof {
                    lemma_find_key_first(fv, name@, i as int);
                }
                return Some(&self.fragments[i].selection_set);
            }
            i = i + 1;
        }
        proof {
            lemma_find_key_bounds(fv, name@);
        }
        None
    }
}

// ---------------------------------------------------------------------------
// Resolved field data
// ---------------------------------------------------------------------------

/// The value of one resolved field: a scalar, one object, or a list of
/// objects.
#[derive(Debug)]
pub enum FieldValue {
    Scalar(TrueType),
    Objects(Vec<Data>),
    Object(Data),
}

/// An ordered field-name-to-value map: one resolved object.
#[derive(Debug)]
pub struct Data {
    map: Vec<(String, FieldValue)>,
}

/// The mathematical shape of a resolved field value.
#[verifier::ext_equal]
pub enum FieldValueV {
    Scalar(ValueV),
    Objects(Seq<Seq<(Seq<char>, FieldValueV)>>),
    Object(Seq<(Seq<char>, FieldValueV)>),
}

impl View for FieldValue {
    type V = FieldValueV;

    open spec fn view(&self) -> FieldValueV
        decreases self,
    {
        match self {
            FieldValue::Scalar(v) => FieldValueV::Scalar(v@),
            FieldValue::Objects(ds) => FieldValueV::Objects(datas_view(ds@)),
            FieldValue::Object(d) => FieldValueV::Object(d@),
        }
    }
}

impl View for Data {
    type V = Seq<(Seq<char>, FieldValueV)>;

    closed spec fn view(&self) -> Seq<(Seq<char>, FieldValueV)>
        decreases self,
    {
        data_map_view(self.map@)
    }
}

pub open spec fn data_map_view(s: Seq<(String, FieldValue)>) -> Seq<(Seq<char>, FieldValueV)>
    decreases s,
{
    if s.len() == 0 {
        Seq::empty()
    } else {
        data_map_view(s.drop_last()).push((s.last().0@, s.last().1@))
    }
}

pub open spec fn datas_view(s: Seq<Data>) -> Seq<Seq<(Seq<char>, FieldValueV)>>
    decreases s,
{
    if s.len() == 0 {
        Seq::empty()
    } else {
        datas_view(s.drop_last()).push(s.last()@)
    }
}

pub broadcast proof fn lemma_data_map_view(s: Seq<(String, FieldValue)>)
    ensures
        (#[trigger] data_map_view(s)).len() == s.len(),
        forall|i: int| 0 <= i < s.len() ==> data_map_view(s)[i] == (s[i].0@, s[i].1@),
    decreases s.len(),
{
    if s.len() > 0 {
        lemma_data_map_view(s.drop_last());
        assert(data_map_view(s) == data_map_view(s.drop_last()).push((s.last().0@, s.last().1@)));
        assert forall|i: int| 0 <= i < s.len() implies data_map_view(s)[i] == (s[i].0@, s[i].1@) by {
            if i < s.len() - 1 {
                assert(s.drop_last()[i] == s[i]);
            }
        }
    }
}

pub broadcast proof fn lemma_datas_view(s: Seq<Data>)
    ensures
        (#[trigger] datas_view(s)).len() == s.len(),
        forall|i: int| 0 <= i < s.len() ==> datas_view(s)[i] == s[i]@,
    decreases s.len(),
{
    if s.len() > 0 {
        lemma_datas_view(s.drop_last());
        assert(datas_view(s) == datas_view(s.drop_last()).push(s.last()@));
        assert forall|i: int| 0 <= i < s.len() implies datas_view(s)[i] == s[i]@ by {
            if i < s.len() - 1 {
                assert(s.drop_last()[i] == s[i]);
            }
        }
    }
}

impl Data {
    pub fn new() -> (r: Data)
        ensures
            r@ =~= Seq::<(Seq<char>, FieldValueV)>::empty(),
    {
        Data { map: Vec::new() }
    }

    /// Appends one field entry; entries are never overwritten.
    pub fn insert(&mut self, key: String, value: FieldValue)
        ensures
            final(self)@ == old(self)@.push((key@, value@)),
    {
        let ghost pre = self.map@;
        self.map.push((key, value));
        proof {
            assert(self.map@.drop_last() =~= pre);
        }
    }

    /// The value under a field name; first occurrence wins.
    pub fn get(&self, key: &String) -> (r: Option<&FieldValue>)
        ensures
            match r {
                Some(v) => lookup(self@, key@) == Some(v@),
                None => lookup(self@, key@) is None,
            },
    {
        proof {
            lemma_data_map_view(self.map@);
        }
        let ghost dv = self@;
        let mut i: usize = 0;
        while i < self.map.len()
            invariant
                0 <= i <= self.map@.len(),
                dv == self@,
                dv.len() == self.map@.len(),
                forall|j: int| 0 <= j < dv.len() ==> dv[j] == (self.map@[j].0@, self.map@[j].1@),
                forall|j: int| 0 <= j < i ==> (#[trigger] dv[j]).0 != key@,
            decreases self.map@.len() - i,
        {
            if str_eq(self.map[i].0.as_str(), key.as_str()) {
                proof {
                    lemma_find_key_first(dv, key@, i as int);
                }
                return Some(&self.map[i].1);
            }
            i = i + 1;
        }
        proof {
            lemma_find_key_bounds(dv, key@);
        }
        None
    }

    pub fn is_empty(&self) -> (r: bool)
        ensures
            r == (self@.len() == 0),
    {
        proof {
            lemma_data_map_view(self.map@);
        }
        self.map.len() == 0
    }

    /// Splices another object's entries onto this one, in order.
    pub fn append(&mut self, other: Data)
        ensures
            final(self)@ == old(self)@ + other@,
    {
        let ghost ov = data_map_view(other.map@);
        proof {
            lemma_data_map_view(other.map@);
        }
        let mut rest = other.map;
        let ghost total: int = ov.len() as int;
        while rest.len() > 0
            invariant
                total == ov.len(),
                rest@.len() <= total,
                forall|j: int| 0 <= j < rest@.len() ==> ((#[trigger] rest@[j]).0@, rest@[j].1@)
                    == ov[j + (total - rest@.len())],
                self@ =~= old(self)@ + ov.subrange(0, total - rest@.len()),
            decreases rest@.len(),
        {
            let ghost pre_self = self.map@;
            let ghost k = total - rest@.len();
            let ghost pre_rest = rest@;
            let pair = rest.remove(0);
            self.map.push(pair);
            proof {
                assert forall|j: int| 0 <= j < rest@.len() implies ((#[trigger] rest@[j]).0@,
                rest@[j].1@) == ov[j + (total - rest@.len())] by {
                    assert(rest@[j] == pre_rest[j + 1]);
                }
                assert(self.map@.drop_last() =~= pre_self);
                assert((pre_rest[0].0@, pre_rest[0].1@) == ov[k]);
                assert(self.map@.last() == pre_rest[0]);
                assert(self@ == data_map_view(pre_self).push(
                    (self.map@.last().0@, self.map@.last().1@),
                ));
                assert(ov.subrange(0, k + 1).drop_last() =~= ov.subrange(0, k));
                assert(ov.subrange(0, k + 1).last() == ov[k]);
                assert(self@ =~= old(self)@ + ov.subrange(0, k + 1));
            }
        }
        proof {
            assert(ov.subrange(0, total) =~= ov);
        }
    }

    /// The entries, for callers that shape a response.
    pub fn entries(&self) -> (r: &Vec<(String, FieldValue)>)
        ensures
            data_map_view(r@) == self@,
    {
        &self.map
    }

    /// Builds an object from entries.
    pub fn from_entries(map: Vec<(String, FieldValue)>) -> (r: Data)
        ensures
            r@ == data_map_view(map@),
    {
        Data { map }
    }
}

impl FieldValue {
    /// Takes the value out, leaving a null scalar: how entries move between
    /// objects without a deep copy.
    pub fn take(&mut self) -> (r: FieldValue)
        ensures
            r@ == old(self)@,
    {
        let mut out = FieldValue::Scalar(TrueType::Primitive(None));
        core::mem::swap(&mut out, self);
        out
    }
}

// ---------------------------------------------------------------------------
// The request and response shells
// ---------------------------------------------------------------------------

/// One GraphQL error, shaped for the response.
#[derive(Debug)]
pub struct GqlError {
    pub message: String,
}

/// What a GraphQL request returns: data, errors, or both.
#[derive(Debug)]
pub struct GraphQLReturn {
    pub errors: Option<Vec<GqlError>>,
    pub data: Option<Data>,
}

/// The mathematical shape of a GraphQL response.
#[verifier::ext_equal]
pub struct ReturnV {
    pub errors: Option<Seq<Seq<char>>>,
    pub data: Option<Seq<(Seq<char>, FieldValueV)>>,
}

impl View for GraphQLReturn {
    type V = ReturnV;

    open spec fn view(&self) -> ReturnV {
        ReturnV {
            errors: match &self.errors {
                Some(es) => Some(Seq::new(es@.len(), |i: int| es@[i].message@)),
                None => None,
            },
            data: match &self.data {
                Some(d) => Some(d@),
                None => None,
            },
        }
    }
}

impl GraphQLReturn {
    /// An error-only response with one message.
    pub fn from_message(message: &str) -> (r: GraphQLReturn)
        ensures
            r@.errors == Some(seq![message@]),
            r@.data is None,
    {
        let r = GraphQLReturn {
            errors: Some(vec![GqlError { message: message.to_owned() }]),
            data: None,
        };
        proof {
            assert(r@.errors.unwrap() =~= seq![message@]);
        }
        r
    }
}

/// A GraphQL request: the query text, an optional operation name, and
/// optional variables (accepted, currently unused by the engine).
#[allow(non_snake_case)]
#[derive(Debug)]
pub struct GraphQLPost {
    pub query: String,
    pub operationName: Option<String>,
    pub variables: Option<Vec<(String, String)>>,
}

impl GraphQLPost {
    /// A request carrying only a query text.
    pub fn from_query(value: String) -> (r: GraphQLPost)
        ensures
            r.query@ == value@,
            r.operationName is None,
            r.variables is None,
    {
        GraphQLPost { query: value, operationName: None, variables: None }
    }
}

} // verus!
