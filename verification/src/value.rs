use vstd::prelude::*;

use crate::name::AttrName;
use crate::pairs::find_key;
use crate::pairs::has_key;
use crate::pairs::lemma_find_key_bounds;
use crate::pairs::lemma_find_key_first;
use crate::pairs::lookup;
use crate::pairs::unique_keys;
use crate::pairs::upsert;

verus! {

// ---------------------------------------------------------------------------
// Attribute types
// ---------------------------------------------------------------------------

/// The closed set of primitive attribute types.
#[derive(Clone, Copy, Debug, PartialEq, Eq, Structural)]
pub enum PrimitiveType {
    Integer,
    String,
    Boolean,
}

/// The type of an attribute: a primitive, or an array of exactly one
/// primitive element type.
#[derive(Clone, Copy, Debug, PartialEq, Eq, Structural)]
pub enum AttrType {
    Primitive(PrimitiveType),
    Array(PrimitiveType),
}

// ---------------------------------------------------------------------------
// Runtime values and their mathematical views
// ---------------------------------------------------------------------------

/// A concrete primitive value.
#[derive(Clone, Debug)]
pub enum TruePrimitiveType {
    Integer(i64),
    String(String),
    Boolean(bool),
}

/// The mathematical shape of a primitive value.
#[verifier::ext_equal]
pub enum PrimV {
    Int(int),
    Str(Seq<char>),
    Bool(bool),
}

impl View for TruePrimitiveType {
    type V = PrimV;

    open spec fn view(&self) -> PrimV {
        match self {
            TruePrimitiveType::Integer(i) => PrimV::Int(*i as int),
            TruePrimitiveType::String(s) => PrimV::Str(s@),
            TruePrimitiveType::Boolean(b) => PrimV::Bool(*b),
        }
    }
}

/// A concrete attribute value. The outer `Option` encodes "attribute present
/// but null"; array elements themselves are never null.
#[derive(Clone, Debug)]
pub enum TrueType {
    Primitive(Option<TruePrimitiveType>),
    Array(Option<Vec<TruePrimitiveType>>),
}

/// The mathematical shape of an attribute value.
#[verifier::ext_equal]
pub enum ValueV {
    Prim(Option<PrimV>),
    Arr(Option<Seq<PrimV>>),
}

impl View for TrueType {
    type V = ValueV;

    open spec fn view(&self) -> ValueV {
        match self {
            TrueType::Primitive(None) => ValueV::Prim(None),
            TrueType::Primitive(Some(p)) => ValueV::Prim(Some(p@)),
            TrueType::Array(None) => ValueV::Arr(None),
            TrueType::Array(Some(v)) => ValueV::Arr(Some(Seq::new(v@.len(), |i: int| v@[i]@))),
        }
    }
}

impl TrueType {
    /// The explicit "no value": how an absent or null attribute is stored.
    pub fn null() -> (r: TrueType)
        ensures
            r@ == ValueV::Prim(None::<PrimV>),
    {
        TrueType::Primitive(None)
    }
}

impl TruePrimitiveType {
    /// A copy with the same view.
    pub fn dup(&self) -> (r: TruePrimitiveType)
        ensures
            r@ == self@,
    {
        match self {
            TruePrimitiveType::Integer(i) => TruePrimitiveType::Integer(*i),
            TruePrimitiveType::String(s) => TruePrimitiveType::String(s.clone()),
            TruePrimitiveType::Boolean(b) => TruePrimitiveType::Boolean(*b),
        }
    }
}

impl TrueType {
    /// A copy with the same view.
    pub fn dup(&self) -> (r: TrueType)
        ensures
            r@ == self@,
    {
        match self {
            TrueType::Primitive(None) => TrueType::Primitive(None),
            TrueType::Primitive(Some(p)) => TrueType::Primitive(Some(p.dup())),
            TrueType::Array(None) => TrueType::Array(None),
            TrueType::Array(Some(v)) => {
                let mut out: Vec<TruePrimitiveType> = Vec::new();
                let mut i: usize = 0;
                while i < v.len()
                    invariant
                        0 <= i <= v@.len(),
                        out@.len() == i,
                        forall|j: int| 0 <= j < i ==> (#[trigger] out@[j])@ == v@[j]@,
                    decreases v@.len() - i,
                {
                    out.push(v[i].dup());
                    i = i + 1;
                }
                let r = TrueType::Array(Some(out));
                proof {
                    assert(Seq::new(out@.len(), |j: int| out@[j]@) =~= Seq::new(
                        v@.len(),
                        |j: int| v@[j]@,
                    ));
                }
                r
            },
        }
    }
}

// ---------------------------------------------------------------------------
// Equality of values
// ---------------------------------------------------------------------------

/// Compares two primitive values; equality of the views.
pub fn eq_prim(a: &TruePrimitiveType, b: &TruePrimitiveType) -> (r: bool)
    ensures
        r <==> a@ == b@,
{
    match (a, b) {
        (TruePrimitiveType::Integer(x), TruePrimitiveType::Integer(y)) => *x == *y,
        (TruePrimitiveType::String(x), TruePrimitiveType::String(y)) => *x == *y,
        (TruePrimitiveType::Boolean(x), TruePrimitiveType::Boolean(y)) => *x == *y,
        _ => false,
    }
}

/// Compares two attribute values; equality of the views.
pub fn eq_true_type(a: &TrueType, b: &TrueType) -> (r: bool)
    ensures
        r <==> a@ == b@,
{
    match (a, b) {
        (TrueType::Primitive(None), TrueType::Primitive(None)) => true,
        (TrueType::Primitive(Some(x)), TrueType::Primitive(Some(y))) => eq_prim(x, y),
        (TrueType::Array(None), TrueType::Array(None)) => true,
        (TrueType::Array(Some(x)), TrueType::Array(Some(y))) => {
            if x.len() != y.len() {
                assert(a@ !== b@) by {
                    assert(Seq::new(x@.len(), |i: int| x@[i]@).len() != Seq::new(
                        y@.len(),
                        |i: int| y@[i]@,
                    ).len());
                }
                false
            } else {
                let ghost xs = Seq::new(x@.len(), |i: int| x@[i]@);
                let ghost ys = Seq::new(y@.len(), |i: int| y@[i]@);
                let mut i: usize = 0;
                let mut same = true;
                while i < x.len()
                    invariant
                        0 <= i <= x.len(),
                        x.len() == y.len(),
                        xs == Seq::new(x@.len(), |j: int| x@[j]@),
                        ys == Seq::new(y@.len(), |j: int| y@[j]@),
                        same <==> (forall|j: int| 0 <= j < i ==> xs[j] == ys[j]),
                    decreases x.len() - i,
                {
                    let e = eq_prim(&x[i], &y[i]);
                    proof {
                        assert(xs[i as int] == x@[i as int]@);
                        assert(ys[i as int] == y@[i as int]@);
                    }
                    if !e {
                        same = false;
                    }
                    i = i + 1;
                }
                if same {
                    assert(xs =~= ys);
                } else {
                    assert(xs !== ys);
                }
                same
            }
        },
        _ => false,
    }
}

// ---------------------------------------------------------------------------
// The canonical string projection
// ---------------------------------------------------------------------------

/// The character for one decimal digit.
pub open spec fn digit_char(d: nat) -> char {
    if d == 0 {
        '0'
    } else if d == 1 {
        '1'
    } else if d == 2 {
        '2'
    } else if d == 3 {
        '3'
    } else if d == 4 {
        '4'
    } else if d == 5 {
        '5'
    } else if d == 6 {
        '6'
    } else if d == 7 {
        '7'
    } else if d == 8 {
        '8'
    } else {
        '9'
    }
}

/// The decimal digits of a natural number, most significant first.
pub open spec fn dec_digits(n: nat) -> Seq<char>
    decreases n,
{
    if n < 10 {
        seq![digit_char(n)]
    } else {
        dec_digits(n / 10) + seq![digit_char(n % 10)]
    }
}

/// The decimal rendering of an integer, with a leading minus when negative.
pub open spec fn int_str(i: int) -> Seq<char> {
    if i < 0 {
        seq!['-'] + dec_digits((-i) as nat)
    } else {
        dec_digits(i as nat)
    }
}

/// The rendering of a boolean.
pub open spec fn bool_str(b: bool) -> Seq<char> {
    if b {
        "true"@
    } else {
        "false"@
    }
}

/// The projection of one primitive value: a string is taken verbatim, an
/// integer in decimal, a boolean as `true` or `false`.
pub open spec fn prim_str(p: PrimV) -> Seq<char> {
    match p {
        PrimV::Str(s) => s,
        PrimV::Int(i) => int_str(i),
        PrimV::Bool(b) => bool_str(b),
    }
}

/// One character of a quoted string, with `"`, `\`, newline, carriage return
/// and tab escaped.
pub open spec fn escape_char(c: char) -> Seq<char> {
    if c == '"' {
        seq!['\\', '"']
    } else if c == '\\' {
        seq!['\\', '\\']
    } else if c == '\n' {
        seq!['\\', 'n']
    } else if c == '\r' {
        seq!['\\', 'r']
    } else if c == '\t' {
        seq!['\\', 't']
    } else {
        seq![c]
    }
}

/// A string with every character escaped.
pub open spec fn escape_str(s: Seq<char>) -> Seq<char>
    decreases s.len(),
{
    if s.len() == 0 {
        Seq::empty()
    } else {
        escape_str(s.drop_last()) + escape_char(s.last())
    }
}

/// A string escaped and wrapped in double quotes.
pub open spec fn quoted_str(s: Seq<char>) -> Seq<char> {
    seq!['"'] + escape_str(s) + seq!['"']
}

/// The comma-joined quoted projections of array elements.
pub open spec fn array_inner_str(es: Seq<PrimV>) -> Seq<char>
    decreases es.len(),
{
    if es.len() == 0 {
        Seq::empty()
    } else if es.len() == 1 {
        quoted_str(prim_str(es[0]))
    } else {
        array_inner_str(es.drop_last()) + ", "@ + quoted_str(prim_str(es.last()))
    }
}

/// The bracketed projection of an array value.
pub open spec fn array_str(es: Seq<PrimV>) -> Seq<char> {
    "["@ + array_inner_str(es) + "]"@
}

/// The canonical string projection of an attribute value: used as an
/// argument-value stringification for lookups. Null projects as the literal
/// `null`; arrays as a bracketed, comma-joined projection of their elements.
pub open spec fn value_str(v: ValueV) -> Seq<char> {
    match v {
        ValueV::Prim(Some(p)) => prim_str(p),
        ValueV::Arr(Some(es)) => array_str(es),
        _ => "null"@,
    }
}

/// Relies on std's String::push: appends the given character to the end of
/// the string.
pub assume_specification[ std::string::String::push ](s: &mut std::string::String, ch: char)
    ensures
        final(s)@ == old(s)@.push(ch),
;

fn push_digit(s: &mut String, d: u64)
    requires
        d < 10,
    ensures
        final(s)@ == old(s)@ + seq![digit_char(d as nat)],
{
    if d == 0 {
        s.append("0");
        proof {
            reveal_strlit("0");
            assert("0"@ =~= seq![digit_char(d as nat)]);
        }
    } else if d == 1 {
        s.append("1");
        proof {
            reveal_strlit("1");
            assert("1"@ =~= seq![digit_char(d as nat)]);
        }
    } else if d == 2 {
        s.append("2");
        proof {
            reveal_strlit("2");
            assert("2"@ =~= seq![digit_char(d as nat)]);
        }
    } else if d == 3 {
        s.append("3");
        proof {
            reveal_strlit("3");
            assert("3"@ =~= seq![digit_char(d as nat)]);
        }
    } else if d == 4 {
        s.append("4");
        proof {
            reveal_strlit("4");
            assert("4"@ =~= seq![digit_char(d as nat)]);
        }
    } else if d == 5 {
        s.append("5");
        proof {
            reveal_strlit("5");
            assert("5"@ =~= seq![digit_char(d as nat)]);
        }
    } else if d == 6 {
        s.append("6");
        proof {
            reveal_strlit("6");
            assert("6"@ =~= seq![digit_char(d as nat)]);
        }
    } else if d == 7 {
        s.append("7");
        proof {
            reveal_strlit("7");
            assert("7"@ =~= seq![digit_char(d as nat)]);
        }
    } else if d == 8 {
        s.append("8");
        proof {
            reveal_strlit("8");
            assert("8"@ =~= seq![digit_char(d as nat)]);
        }
    } else {
        s.append("9");
        proof {
            reveal_strlit("9");
            assert("9"@ =~= seq![digit_char(d as nat)]);
        }
    }
}

/// Appends the decimal digits of `n`.
fn push_decimal(s: &mut String, n: u64)
    ensures
        final(s)@ == old(s)@ + dec_digits(n as nat),
    decreases n,
{
    if n >= 10 {
        push_decimal(s, n / 10);
        push_digit(s, n % 10);
        proof {
            assert(s@ =~= old(s)@ + dec_digits(n as nat));
        }
    } else {
        push_digit(s, n);
        proof {
            assert(s@ =~= old(s)@ + dec_digits(n as nat));
        }
    }
}

/// Appends the decimal rendering of a signed integer.
fn push_i64(s: &mut String, i: i64)
    ensures
        final(s)@ == old(s)@ + int_str(i as int),
{
    if i < 0 {
        s.append("-");
        let mag: u64 = if i == i64::MIN {
            9223372036854775808u64
        } else {
            (-i) as u64
        };
        assert(mag as nat == (-(i as int)) as nat);
        push_decimal(s, mag);
        proof {
            reveal_strlit("-");
            assert("-"@ =~= seq!['-']);
            assert(s@ =~= old(s)@ + int_str(i as int));
        }
    } else {
        push_decimal(s, i as u64);
    }
}

/// Appends the characters of `t` with escaping.
fn push_escaped(s: &mut String, t: &str)
    ensures
        final(s)@ == old(s)@ + escape_str(t@),
{
    let n = t.unicode_len();
    let mut i: usize = 0;
    proof {
        assert(t@.subrange(0, 0) =~= Seq::<char>::empty());
    }
    while i < n
        invariant
            0 <= i <= n,
            n == t@.len(),
            s@ == old(s)@ + escape_str(t@.subrange(0, i as int)),
        decreases n - i,
    {
        let c = t.get_char(i);
        if c == '"' {
            s.append("\\\"");
            proof {
                reveal_strlit("\\\"");
                assert("\\\""@ =~= escape_char(c));
            }
        } else if c == '\\' {
            s.append("\\\\");
            proof {
                reveal_strlit("\\\\");
                assert("\\\\"@ =~= escape_char(c));
            }
        } else if c == '\n' {
            s.append("\\n");
            proof {
                reveal_strlit("\\n");
                assert("\\n"@ =~= escape_char(c));
            }
        } else if c == '\r' {
            s.append("\\r");
            proof {
                reveal_strlit("\\r");
                assert("\\r"@ =~= escape_char(c));
            }
        } else if c == '\t' {
            s.append("\\t");
            proof {
                reveal_strlit("\\t");
                assert("\\t"@ =~= escape_char(c));
            }
        } else {
            let mut one = String::new();
            one.push(c);
            s.append(one.as_str());
            proof {
                assert(one@ =~= escape_char(c));
            }
        }
        proof {
            let pre = t@.subrange(0, i as int);
            let post = t@.subrange(0, i + 1 as int);
            assert(post.drop_last() =~= pre);
            assert(post.last() == t@[i as int]);
            assert(s@ =~= old(s)@ + escape_str(post));
        }
        i = i + 1;
    }
    proof {
        assert(t@.subrange(0, n as int) =~= t@);
    }
}

/// Appends the quoted, escaped form of `t`.
pub fn push_quoted(s: &mut String, t: &str)
    ensures
        final(s)@ == old(s)@ + quoted_str(t@),
{
    s.append("\"");
    push_escaped(s, t);
    s.append("\"");
    proof {
        reveal_strlit("\"");
        assert("\""@ =~= seq!['"']);
        assert(s@ =~= old(s)@ + quoted_str(t@));
    }
}

/// Appends the projection of one primitive value.
fn push_prim(s: &mut String, p: &TruePrimitiveType)
    ensures
        final(s)@ == old(s)@ + prim_str(p@),
{
    match p {
        TruePrimitiveType::String(t) => {
            s.append(t.as_str());
        },
        TruePrimitiveType::Integer(i) => {
            push_i64(s, *i);
        },
        TruePrimitiveType::Boolean(b) => {
            if *b {
                s.append("true");
            } else {
                s.append("false");
            }
        },
    }
}

impl TrueType {
    /// The canonical string projection, exactly `value_str` of the view.
    pub fn to_string(&self) -> (r: String)
        ensures
            r@ == value_str(self@),
    {
        match self {
            TrueType::Array(Some(arr)) => {
                let ghost es = Seq::new(arr@.len(), |i: int| arr@[i]@);
                let mut s = String::new();
                s.append("[");
                let mut i: usize = 0;
                while i < arr.len()
                    invariant
                        0 <= i <= arr.len(),
                        es == Seq::new(arr@.len(), |j: int| arr@[j]@),
                        s@ == "["@ + array_inner_str(es.subrange(0, i as int)),
                    decreases arr.len() - i,
                {
                    if i > 0 {
                        s.append(", ");
                        proof {
                            reveal_strlit(", ");
                        }
                    }
                    let mut q = String::new();
                    push_prim(&mut q, &arr[i]);
                    push_quoted(&mut s, q.as_str());
                    proof {
                        let pre = es.subrange(0, i as int);
                        let post = es.subrange(0, i + 1 as int);
                        assert(post.drop_last() =~= pre);
                        assert(post.last() == es[i as int]);
                        if i == 0 {
                            assert(s@ =~= "["@ + array_inner_str(post));
                        } else {
                            assert(s@ =~= "["@ + array_inner_str(post));
                        }
                    }
                    i = i + 1;
                }
                s.append("]");
                proof {
                    assert(es.subrange(0, arr@.len() as int) =~= es);
                    assert(s@ =~= value_str(self@));
                }
                s
            },
            TrueType::Primitive(Some(prim)) => {
                let mut s = String::new();
                push_prim(&mut s, prim);
                proof {
                    assert(s@ =~= value_str(self@));
                }
                s
            },
            _ => {
                let s = "null".to_owned();
                s
            },
        }
    }
}

// ---------------------------------------------------------------------------
// Records: order-irrelevant mappings from attribute names to values
// ---------------------------------------------------------------------------

/// One stored entity instance: a mapping from attribute names to values,
/// held as a list of pairs.
#[derive(Clone, Debug)]
pub struct Record {
    pub pairs: Vec<(AttrName, TrueType)>,
}

impl View for Record {
    type V = Seq<(Seq<char>, ValueV)>;

    open spec fn view(&self) -> Seq<(Seq<char>, ValueV)> {
        Seq::new(self.pairs@.len(), |i: int| (self.pairs@[i].0@, self.pairs@[i].1@))
    }
}

impl Record {
    /// The record as a mapping; meaningful when keys are unique.
    pub open spec fn spec_lookup(&self, k: Seq<char>) -> Option<ValueV> {
        lookup(self@, k)
    }

    pub open spec fn wf(&self) -> bool {
        unique_keys(self@)
    }

    pub fn new() -> (r: Record)
        ensures
            r@ =~= Seq::<(Seq<char>, ValueV)>::empty(),
    {
        Record { pairs: Vec::new() }
    }

    pub fn from_pairs(pairs: Vec<(AttrName, TrueType)>) -> (r: Record)
        ensures
            r.pairs == pairs,
    {
        Record { pairs }
    }

    pub fn len(&self) -> (n: usize)
        ensures
            n == self@.len(),
    {
        self.pairs.len()
    }

    /// The first index holding the key, if any.
    fn index_of(&self, key: &AttrName) -> (r: Option<usize>)
        ensures
            match r {
                Some(i) => 0 <= i < self@.len() && find_key(self@, key@) == i as int,
                None => find_key(self@, key@) < 0,
            },
{
        let mut i: usize = 0;
        while i < self.pairs.len()
            invariant
                0 <= i <= self@.len(),
                self@.len() == self.pairs@.len(),
                forall|j: int| 0 <= j < i ==> (#[trigger] self@[j]).0 != key@,
            decreases self@.len() - i,
        {
            if self.pairs[i].0.eq_name(key) {
                proof {
                    lemma_find_key_first(self@, key@, i as int);
                }
                return Some(i);
            }
            i = i + 1;
        }
        proof {
            lemma_find_key_bounds(self@, key@);
            if find_key(self@, key@) >= 0 {
                assert(self@[find_key(self@, key@)].0 == key@);
            }
        }
        None
    }

    /// Looks an attribute up; first occurrence wins.
    pub fn get(&self, key: &AttrName) -> (r: Option<&TrueType>)
        ensures
            match r {
                Some(v) => self.spec_lookup(key@) == Some(v@),
                None => self.spec_lookup(key@) is None,
            },
    {
        match self.index_of(key) {
            Some(i) => Some(&self.pairs[i].1),
            None => None,
        }
    }

    pub fn contains_key(&self, key: &AttrName) -> (r: bool)
        ensures
            r == has_key(self@, key@),
    {
        match self.index_of(key) {
            Some(_) => true,
            None => false,
        }
    }

    /// Inserts or replaces the value under the key.
    pub fn insert(&mut self, key: AttrName, value: TrueType)
        ensures
            final(self)@ =~= upsert(old(self)@, key@, value@),
    {
        match self.index_of(&key) {
            Some(i) => {
                self.pairs.set(i, (key, value));
            },
            None => {
                self.pairs.push((key, value));
            },
        }
    }

    /// A copy with the same view.
    pub fn dup(&self) -> (r: Record)
        ensures
            r@ == self@,
    {
        let mut out: Vec<(AttrName, TrueType)> = Vec::new();
        let mut i: usize = 0;
        while i < self.pairs.len()
            invariant
                0 <= i <= self.pairs@.len(),
                out@.len() == i,
                forall|j: int| 0 <= j < i ==> ((#[trigger] out@[j]).0@, out@[j].1@) == (
                    self.pairs@[j].0@,
                    self.pairs@[j].1@,
                ),
            decreases self.pairs@.len() - i,
        {
            out.push((self.pairs[i].0.dup(), self.pairs[i].1.dup()));
            i = i + 1;
        }
        let r = Record { pairs: out };
        proof {
            assert(r@ =~= self@);
        }
        r
    }
}

/// Record equality: same length and, in both directions, every pair is found
/// in the other record under its key. On records with unique keys this is
/// equality of the underlying mappings, regardless of pair order.
impl PartialEq for Record {
    fn eq(&self, other: &Record) -> (r: bool) {
        if self.pairs.len() != other.pairs.len() {
            return false;
        }
        let mut i: usize = 0;
        while i < self.pairs.len()
            invariant
                0 <= i <= self.pairs@.len(),
                self@.len() == self.pairs@.len(),
                forall|j: int| 0 <= j < i ==> lookup(other@, (#[trigger] self@[j]).0) == Some(
                    self@[j].1,
                ),
            decreases self.pairs@.len() - i,
        {
            proof {
                assert(self@[i as int] == (self.pairs@[i as int].0@, self.pairs@[i as int].1@));
            }
            let found = other.get(&self.pairs[i].0);
            match found {
                Some(v) => {
                    if !eq_true_type(v, &self.pairs[i].1) {
                        assert(lookup(other@, self@[i as int].0) !== Some(self@[i as int].1));
                        return false;
                    }
                },
                None => {
                    assert(lookup(other@, self@[i as int].0) !== Some(self@[i as int].1));
                    return false;
                },
            }
            i = i + 1;
        }
        let mut i: usize = 0;
        while i < other.pairs.len()
            invariant
                0 <= i <= other.pairs@.len(),
                other@.len() == other.pairs@.len(),
                self@.len() == other@.len(),
                forall|j: int| 0 <= j < self@.len() ==> lookup(other@, (#[trigger] self@[j]).0)
                    == Some(self@[j].1),
                forall|j: int| 0 <= j < i ==> lookup(self@, (#[trigger] other@[j]).0) == Some(
                    other@[j].1,
                ),
            decreases other.pairs@.len() - i,
        {
            proof {
                assert(other@[i as int] == (other.pairs@[i as int].0@, other.pairs@[i as int].1@));
            }
            let found = self.get(&other.pairs[i].0);
            match found {
                Some(v) => {
                    if !eq_true_type(v, &other.pairs[i].1) {
                        assert(lookup(self@, other@[i as int].0) !== Some(other@[i as int].1));
                        return false;
                    }
                },
                None => {
                    assert(lookup(self@, other@[i as int].0) !== Some(other@[i as int].1));
                    return false;
                },
            }
            i = i + 1;
        }
        true
    }
}

impl vstd::std_specs::cmp::PartialEqSpecImpl for Record {
    open spec fn obeys_eq_spec() -> bool {
        true
    }

    open spec fn eq_spec(&self, other: &Record) -> bool {
        &&& self@.len() == other@.len()
        &&& forall|j: int|
            0 <= j < self@.len() ==> lookup(other@, (#[trigger] self@[j]).0) == Some(self@[j].1)
        &&& forall|j: int|
            0 <= j < other@.len() ==> lookup(self@, (#[trigger] other@[j]).0) == Some(other@[j].1)
    }
}

} // verus!
