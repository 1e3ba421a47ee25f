use vstd::prelude::*;

use crate::error::ErrorKind;
use crate::error::GusError;

verus! {

// ---------------------------------------------------------------------------
// Character classes and the four accepted case conventions
// ---------------------------------------------------------------------------

pub open spec fn is_upper_alpha(c: char) -> bool {
    65 <= (c as u32) && (c as u32) <= 90
}

pub open spec fn is_lower_alpha(c: char) -> bool {
    97 <= (c as u32) && (c as u32) <= 122
}

pub open spec fn is_alpha(c: char) -> bool {
    is_upper_alpha(c) || is_lower_alpha(c)
}

/// PascalCase: an upper-case letter followed by letters only.
pub open spec fn is_pascal_case(s: Seq<char>) -> bool {
    &&& s.len() > 0
    &&& is_upper_alpha(s[0])
    &&& forall|i: int| 1 <= i < s.len() ==> is_alpha(#[trigger] s[i])
}

/// camelCase: a lower-case letter followed by letters only.
pub open spec fn is_camel_case(s: Seq<char>) -> bool {
    &&& s.len() > 0
    &&& is_lower_alpha(s[0])
    &&& forall|i: int| 1 <= i < s.len() ==> is_alpha(#[trigger] s[i])
}

/// Non-empty lower-case words joined by single separators: every character is
/// a lower-case letter, or the separator immediately followed by a lower-case
/// letter; the first character is a lower-case letter.
pub open spec fn is_sep_case(s: Seq<char>, sep: char) -> bool {
    &&& s.len() > 0
    &&& is_lower_alpha(s[0])
    &&& forall|i: int|
        0 <= i < s.len() ==> (is_lower_alpha(#[trigger] s[i]) || (s[i] == sep && i + 1 < s.len()
            && is_lower_alpha(s[i + 1])))
}

/// The identifier invariant: exactly the strings accepted as attribute or
/// model names, matching one of PascalCase, camelCase, snake_case or
/// spinal-case.
pub open spec fn is_valid_name(s: Seq<char>) -> bool {
    ||| is_pascal_case(s)
    ||| is_camel_case(s)
    ||| is_sep_case(s, '_')
    ||| is_sep_case(s, '-')
}

/// Relies on std's str equality: string slices compare by their characters.
#[verifier::external_body]
pub fn str_eq(a: &str, b: &str) -> (r: bool)
    ensures
        r == (a@ == b@),
{
    a == b
}

fn char_is_upper(c: char) -> (r: bool)
    ensures
        r == is_upper_alpha(c),
{
    let u = c as u32;
    65 <= u && u <= 90
}

fn char_is_lower(c: char) -> (r: bool)
    ensures
        r == is_lower_alpha(c),
{
    let u = c as u32;
    97 <= u && u <= 122
}

/// Checks whether a string is a valid name: the only gate through which
/// attribute and model names enter the system.
pub fn validate_attr_name(name: &str) -> (r: Result<(), GusError>)
    ensures
        r is Ok <==> is_valid_name(name@),
        r matches Err(e) ==> e.kind == ErrorKind::InvalidData,
{
    let n = name.unicode_len();
    if n == 0 {
        return Err(
            GusError::new(
                ErrorKind::InvalidData,
                "Name is not alphabetic in camelCase, PascalCase, snake_case or spinal-case",
            ),
        );
    }
    let first = name.get_char(0);
    let first_upper = char_is_upper(first);
    let first_lower = char_is_lower(first);
    let mut tail_alpha = true;
    let mut snake_ok = true;
    let mut spinal_ok = true;
    let mut i: usize = 0;
    while i < n
        invariant
            0 <= i <= n,
            n == name@.len(),
            tail_alpha <==> (forall|j: int| 1 <= j < i ==> is_alpha(#[trigger] name@[j])),
            snake_ok <==> (forall|j: int|
                0 <= j < i ==> (is_lower_alpha(#[trigger] name@[j]) || (name@[j] == '_' && j + 1
                    < n && is_lower_alpha(name@[j + 1])))),
            spinal_ok <==> (forall|j: int|
                0 <= j < i ==> (is_lower_alpha(#[trigger] name@[j]) || (name@[j] == '-' && j + 1
                    < n && is_lower_alpha(name@[j + 1])))),
        decreases n - i,
    {
        let c = name.get_char(i);
        if i > 0 && !(char_is_upper(c) || char_is_lower(c)) {
            tail_alpha = false;
        }
        if !char_is_lower(c) {
            if c == '_' && i + 1 < n && char_is_lower(name.get_char(i + 1)) {
                spinal_ok = false;
            } else if c == '-' && i + 1 < n && char_is_lower(name.get_char(i + 1)) {
                snake_ok = false;
            } else {
                snake_ok = false;
                spinal_ok = false;
            }
        }
        i = i + 1;
    }
    if (first_upper && tail_alpha) || (first_lower && tail_alpha) || (first_lower && snake_ok) || (
    first_lower && spinal_ok) {
        Ok(())
    } else {
        Err(
            GusError::new(
                ErrorKind::InvalidData,
                "Name is not alphabetic in camelCase, PascalCase, snake_case or spinal-case",
            ),
        )
    }
}

// ---------------------------------------------------------------------------
// AttrName
// ---------------------------------------------------------------------------

/// A validated identifier; `AttrName::try_from` is the only entry point that
/// checks the invariant, construction through the public field bypasses it.
#[derive(Clone, Debug, Hash)]
pub struct AttrName(pub String);

impl View for AttrName {
    type V = Seq<char>;

    open spec fn view(&self) -> Seq<char> {
        self.0@
    }
}

impl AttrName {
    /// Validates and wraps a string as an attribute name.
    pub fn try_from(s: &str) -> (r: Result<AttrName, GusError>)
        ensures
            r matches Ok(a) ==> a@ == s@ && is_valid_name(s@),
            r is Ok <==> is_valid_name(s@),
            r matches Err(e) ==> e.kind == ErrorKind::InvalidData,
    {
        match validate_attr_name(s) {
            Ok(_) => Ok(AttrName(s.to_owned())),
            Err(e) => Err(e),
        }
    }

    /// Compares two names by their characters.
    pub fn eq_name(&self, other: &AttrName) -> (r: bool)
        ensures
            r <==> self@ == other@,
    {
        self.0 == other.0
    }

    /// A copy with the same characters.
    pub fn dup(&self) -> (r: AttrName)
        ensures
            r@ == self@,
    {
        AttrName(self.0.clone())
    }
}

// ---------------------------------------------------------------------------
// ModelName and its derived inflected forms
// ---------------------------------------------------------------------------

/// The singular form of a word, as the inflection rules of `cruet` define it.
pub uninterp spec fn singular_of(s: Seq<char>) -> Seq<char>;

/// The plural form of a word, as the inflection rules of `cruet` define it.
pub uninterp spec fn plural_of(s: Seq<char>) -> Seq<char>;

/// The camelCase form of a word, as `cruet` defines it.
pub uninterp spec fn camel_of(s: Seq<char>) -> Seq<char>;

/// The PascalCase form of a word, as `cruet` defines it.
pub uninterp spec fn pascal_of(s: Seq<char>) -> Seq<char>;

/// Relies on cruet::string::singularize::to_singular: the result depends on
/// the input characters alone.
#[verifier::external_body]
fn to_singular_str(s: &str) -> (r: String)
    ensures
        r@ == singular_of(s@),
{
    cruet::string::singularize::to_singular(s)
}

/// Relies on cruet::string::pluralize::to_plural: the result depends on the
/// input characters alone.
#[verifier::external_body]
fn to_plural_str(s: &str) -> (r: String)
    ensures
        r@ == plural_of(s@),
{
    cruet::string::pluralize::to_plural(s)
}

/// Relies on cruet::case::camel::to_camel_case: the result depends on the
/// input characters alone.
#[verifier::external_body]
fn to_camel_str(s: &str) -> (r: String)
    ensures
        r@ == camel_of(s@),
{
    cruet::case::camel::to_camel_case(s)
}

/// Relies on cruet::case::pascal::to_pascal_case: the result depends on the
/// input characters alone.
#[verifier::external_body]
fn to_pascal_str(s: &str) -> (r: String)
    ensures
        r@ == pascal_of(s@),
{
    cruet::case::pascal::to_pascal_case(s)
}

/// The name of a model, with derived singular, plural, camelCase and
/// PascalCase forms.
#[derive(Clone, Debug, Hash)]
pub struct ModelName(pub AttrName);

impl View for ModelName {
    type V = Seq<char>;

    open spec fn view(&self) -> Seq<char> {
        self.0@
    }
}

/// The normalized form under which model names are compared and deduplicated:
/// the camelCase of the plural.
pub open spec fn normal_of(s: Seq<char>) -> Seq<char> {
    camel_of(plural_of(s))
}

impl ModelName {
    pub fn singular(&self) -> (r: ModelName)
        ensures
            r@ == singular_of(self@),
    {
        ModelName(AttrName(to_singular_str(self.0.0.as_str())))
    }

    /// Accepts exactly the names that are their own singular form.
    pub fn assert_singularity(&self) -> (r: Result<(), GusError>)
        ensures
            r is Ok <==> self@ == singular_of(self@),
            r matches Err(e) ==> e.kind == ErrorKind::InvalidData,
    {
        let s = self.singular();
        if self.0.0 == s.0.0 {
            Ok(())
        } else {
            Err(
                GusError::new(
                    ErrorKind::InvalidData,
                    "Expected singular model name, got plural variant",
                ),
            )
        }
    }

    pub fn plural(&self) -> (r: ModelName)
        ensures
            r@ == plural_of(self@),
    {
        ModelName(AttrName(to_plural_str(self.0.0.as_str())))
    }

    /// Accepts exactly the names that are their own plural form.
    pub fn assert_plurality(&self) -> (r: Result<(), GusError>)
        ensures
            r is Ok <==> self@ == plural_of(self@),
            r matches Err(e) ==> e.kind == ErrorKind::InvalidData,
    {
        let s = self.plural();
        if self.0.0 == s.0.0 {
            Ok(())
        } else {
            Err(
                GusError::new(
                    ErrorKind::InvalidData,
                    "Expected plural model name, got singular variant",
                ),
            )
        }
    }

    pub fn camel(&self) -> (r: ModelName)
        ensures
            r@ == camel_of(self@),
    {
        ModelName(AttrName(to_camel_str(self.0.0.as_str())))
    }

    pub fn pascal(&self) -> (r: ModelName)
        ensures
            r@ == pascal_of(self@),
    {
        ModelName(AttrName(to_pascal_str(self.0.0.as_str())))
    }

    /// The camelCase of the plural: the form under which models are compared.
    pub fn normalized(&self) -> (r: ModelName)
        ensures
            r@ == normal_of(self@),
    {
        self.plural().camel()
    }

    /// Compares two model names by their characters.
    pub fn eq_name(&self, other: &ModelName) -> (r: bool)
        ensures
            r <==> self@ == other@,
    {
        self.0.0 == other.0.0
    }

    /// A copy with the same characters.
    pub fn dup(&self) -> (r: ModelName)
        ensures
            r@ == self@,
    {
        ModelName(self.0.dup())
    }
}

} // verus!
