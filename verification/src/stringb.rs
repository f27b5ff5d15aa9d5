//! The owned text payload of a `Value`.
//!
//! `StringB` wraps a `String` and offers the manipulation surface the
//! value model uses: length and emptiness in bytes, case mapping,
//! trimming, replacement, concatenation, and construction from UTF-8
//! bytes.  Case mapping, trimming and replacement delegate to the
//! standard library; their results are named rather than restated.

use vstd::prelude::*;

verus! {

use vstd::string::StrSliceExecFns;
use vstd::utf8::{decode_utf8, encode_utf8, valid_utf8};

/// An owned string payload with additional manipulation methods.
#[derive(Debug)]
pub struct StringB {
    pub value: String,
}

impl View for StringB {
    type V = Seq<char>;

    open spec fn view(&self) -> Seq<char> {
        self.value@
    }
}

impl Clone for StringB {
    fn clone(&self) -> (r: StringB)
        ensures
            r@ == self@,
    {
        StringB { value: self.value.clone() }
    }
}

impl PartialEq for StringB {
    /// Texts are equal when their character sequences are equal.
    fn eq(&self, other: &StringB) -> (r: bool) {
        self.value == other.value
    }
}

impl vstd::std_specs::cmp::PartialEqSpecImpl for StringB {
    open spec fn obeys_eq_spec() -> bool {
        true
    }

    open spec fn eq_spec(&self, other: &StringB) -> bool {
        self@ == other@
    }
}

/// What `str::to_uppercase` returns for a given character sequence.
pub uninterp spec fn upper_of(s: Seq<char>) -> Seq<char>;

/// What `str::to_lowercase` returns for a given character sequence.
pub uninterp spec fn lower_of(s: Seq<char>) -> Seq<char>;

/// What `str::trim` returns for a given character sequence.
pub uninterp spec fn trimmed_of(s: Seq<char>) -> Seq<char>;

/// What `str::replace` returns for a haystack, a pattern and its
/// replacement.
pub uninterp spec fn replaced_of(s: Seq<char>, from: Seq<char>, to: Seq<char>) -> Seq<char>;

/// Relies on str::to_uppercase: the result depends on the characters
/// alone, and an empty string stays empty.
#[verifier::external_body]
fn str_upper(s: &str) -> (r: String)
    ensures
        r@ == upper_of(s@),
        s@.len() == 0 ==> r@.len() == 0,
{
    s.to_uppercase()
}

/// Relies on str::to_lowercase: the result depends on the characters
/// alone, and an empty string stays empty.
#[verifier::external_body]
fn str_lower(s: &str) -> (r: String)
    ensures
        r@ == lower_of(s@),
        s@.len() == 0 ==> r@.len() == 0,
{
    s.to_lowercase()
}

/// Relies on str::trim: the result depends on the characters alone and
/// is never longer than the input.
#[verifier::external_body]
fn str_trim(s: &str) -> (r: String)
    ensures
        r@ == trimmed_of(s@),
        r@.len() <= s@.len(),
{
    s.trim().to_owned()
}

/// Relies on str::replace: the result depends on the three character
/// sequences alone.
#[verifier::external_body]
fn str_replace(s: &str, from: &str, to: &str) -> (r: String)
    ensures
        r@ == replaced_of(s@, from@, to@),
{
    s.replace(from, to)
}

/// Relies on String::from_utf8: yields the decoded character sequence
/// exactly when the bytes are valid UTF-8, and nothing otherwise.
#[verifier::external_body]
fn string_from_utf8(bytes: Vec<u8>) -> (r: Option<String>)
    ensures
        match r {
            Some(s) => valid_utf8(bytes@) && s@ == decode_utf8(bytes@),
            None => !valid_utf8(bytes@),
        },
{
    String::from_utf8(bytes).ok()
}

impl StringB {
    /// A text payload owning the given string.
    pub fn new(value: String) -> (r: StringB)
        ensures
            r@ == value@,
    {
        StringB { value }
    }

    /// A text payload owning a copy of the given slice.
    pub fn from_str(value: &str) -> (r: StringB)
        ensures
            r@ == value@,
    {
        StringB { value: value.to_owned() }
    }

    /// The string slice representation of the value.
    pub fn as_str(&self) -> (r: &str)
        ensures
            r@ == self@,
    {
        self.value.as_str()
    }

    /// The UTF-8 byte representation of the value.
    pub fn as_bytes(&self) -> (r: &[u8])
        ensures
            r@ == encode_utf8(self@),
    {
        self.value.as_str().as_bytes()
    }

    /// A copy of the value as a `String`.
    pub fn to_string(&self) -> (r: String)
        ensures
            r@ == self@,
    {
        self.value.clone()
    }

    /// A copy of the value as a `String`.
    pub fn to_string_lossy(&self) -> (r: String)
        ensures
            r@ == self@,
    {
        self.value.clone()
    }

    /// The length of the text in UTF-8 bytes.
    pub fn len(&self) -> (r: usize)
        ensures
            r == encode_utf8(self@).len(),
    {
        self.value.as_str().as_bytes().len()
    }

    /// True when the text holds no characters.
    pub fn is_empty(&self) -> (r: bool)
        ensures
            r == (self@.len() == 0),
    {
        self.value.as_str().is_empty()
    }

    /// The text mapped to uppercase.
    pub fn to_uppercase(&self) -> (r: StringB)
        ensures
            r@ == upper_of(self@),
    {
        StringB { value: str_upper(self.value.as_str()) }
    }

    /// The text mapped to lowercase.
    pub fn to_lowercase(&self) -> (r: StringB)
        ensures
            r@ == lower_of(self@),
    {
        StringB { value: str_lower(self.value.as_str()) }
    }

    /// The text with leading and trailing whitespace removed.
    pub fn trim(&self) -> (r: StringB)
        ensures
            r@ == trimmed_of(self@),
    {
        StringB { value: str_trim(self.value.as_str()) }
    }

    /// The text with every occurrence of `from` replaced by `to`.
    pub fn replace(&self, from: &str, to: &str) -> (r: StringB)
        ensures
            r@ == replaced_of(self@, from@, to@),
    {
        StringB { value: str_replace(self.value.as_str(), from, to) }
    }

    /// The text followed by the given slice.
    pub fn concat(&self, other: &str) -> (r: StringB)
        ensures
            r@ == self@ + other@,
    {
        StringB { value: self.value.clone().concat(other) }
    }

    /// The text the given UTF-8 bytes spell, when they are valid UTF-8.
    pub fn from_utf8(value: Vec<u8>) -> (r: Option<StringB>)
        ensures
            match r {
                Some(s) => valid_utf8(value@) && s@ == decode_utf8(value@),
                None => !valid_utf8(value@),
            },
    {
        match string_from_utf8(value) {
            Some(s) => Some(StringB { value: s }),
            None => None,
        }
    }
}

impl From<String> for StringB {
    fn from(value: String) -> (r: StringB) {
        StringB { value }
    }
}

impl vstd::std_specs::convert::FromSpecImpl<String> for StringB {
    open spec fn obeys_from_spec() -> bool {
        true
    }

    open spec fn from_spec(value: String) -> StringB {
        StringB { value }
    }
}

} // verus!
