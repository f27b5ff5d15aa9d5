//! The conversion surface between domain types and the value tree.
//!
//! `ToValueTrait` and `FromValueTrait` are the contracts generated
//! conversion code satisfies; the shape builders below are the fixed
//! aggregate rules that generated code for each type shape calls into:
//! a named-field aggregate becomes an object keyed by field name, a
//! positional aggregate becomes an array of its values in order, a
//! field-less aggregate becomes null, and an enum variant carries its
//! name under the reserved `"type"` key (named fields beside it, or
//! positional values under the reserved `"values"` key), while a
//! field-less variant is its bare name as text.

use vstd::prelude::*;

verus! {

use crate::array::Array;
use crate::key::ValueKey;
use crate::number::Number;
use crate::object::{keys_distinct, lemma_lookup_at, lookup, Object};
use crate::stringb::StringB;
use crate::value::Value;

/// The contract of conversion into a `Value`.
pub trait ToValueTrait {
    /// Converts this value into a `Value`.
    fn to_value(&self) -> Value;
}

/// The contract of reconstruction from a `Value`: nothing comes back
/// when the shape does not match.
pub trait FromValueTrait: Sized {
    /// Rebuilds a value of this type from a `Value`, when the shape
    /// matches.
    fn from_value(value: Value) -> Option<Self>;
}

/// The contract of rendering through the textual JSON form.
pub trait ToJsonTrait {
    /// Renders this value as JSON text.
    fn to_json(&self) -> String;
}

/// The contract of rendering through a textual YAML form.
pub trait ToYamlTrait {
    /// Renders this value as YAML text.
    fn to_yaml(&self) -> String;
}

/// The contract of rendering through a textual XML form.
pub trait ToXmlTrait {
    /// Renders this value as XML text.
    fn to_xml(&self) -> String;
}

impl ToValueTrait for u8 {
    fn to_value(&self) -> (r: Value)
        ensures
            r == Value::Number(Number::U8(*self)),
    {
        Value::Number(Number::U8(*self))
    }
}

impl ToValueTrait for u16 {
    fn to_value(&self) -> (r: Value)
        ensures
            r == Value::Number(Number::U16(*self)),
    {
        Value::Number(Number::U16(*self))
    }
}

impl ToValueTrait for u32 {
    fn to_value(&self) -> (r: Value)
        ensures
            r == Value::Number(Number::U32(*self)),
    {
        Value::Number(Number::U32(*self))
    }
}

impl ToValueTrait for u64 {
    fn to_value(&self) -> (r: Value)
        ensures
            r == Value::Number(Number::U64(*self)),
    {
        Value::Number(Number::U64(*self))
    }
}

impl ToValueTrait for u128 {
    fn to_value(&self) -> (r: Value)
        ensures
            r == Value::Number(Number::U128(*self)),
    {
        Value::Number(Number::U128(*self))
    }
}

impl ToValueTrait for i8 {
    fn to_value(&self) -> (r: Value)
        ensures
            r == Value::Number(Number::I8(*self)),
    {
        Value::Number(Number::I8(*self))
    }
}

impl ToValueTrait for i16 {
    fn to_value(&self) -> (r: Value)
        ensures
            r == Value::Number(Number::I16(*self)),
    {
        Value::Number(Number::I16(*self))
    }
}

impl ToValueTrait for i32 {
    fn to_value(&self) -> (r: Value)
        ensures
            r == Value::Number(Number::I32(*self)),
    {
        Value::Number(Number::I32(*self))
    }
}

impl ToValueTrait for i64 {
    fn to_value(&self) -> (r: Value)
        ensures
            r == Value::Number(Number::I64(*self)),
    {
        Value::Number(Number::I64(*self))
    }
}

impl ToValueTrait for i128 {
    fn to_value(&self) -> (r: Value)
        ensures
            r == Value::Number(Number::I128(*self)),
    {
        Value::Number(Number::I128(*self))
    }
}

impl ToValueTrait for bool {
    fn to_value(&self) -> (r: Value)
        ensures
            r == Value::Boolean(*self),
    {
        Value::Boolean(*self)
    }
}

impl ToValueTrait for String {
    fn to_value(&self) -> (r: Value)
        ensures
            r is String && r->String_0@ == self@,
    {
        Value::String(StringB::new(self.clone()))
    }
}

impl ToValueTrait for StringB {
    fn to_value(&self) -> (r: Value)
        ensures
            r is String && r->String_0@ == self@,
    {
        Value::String(self.clone())
    }
}

impl ToValueTrait for Number {
    fn to_value(&self) -> (r: Value)
        ensures
            r == Value::Number(*self),
    {
        Value::Number(*self)
    }
}

impl ToValueTrait for Object {
    /// An object is already a value payload.
    fn to_value(&self) -> (r: Value)
        ensures
            r is Object,
            r->Object_0.ordered == self.ordered,
            r->Object_0.entries@.len() == self@.len(),
            forall|i: int| 0 <= i < self@.len() ==> (#[trigger] r->Object_0.entries@[i]).0@
                == self@[i].0@,
            forall|i: int|
                0 <= i < self@.len() ==> (#[trigger] r->Object_0.entries@[i]).1.deep_view()
                    == self@[i].1.deep_view(),
    {
        Value::Object(self.clone())
    }
}

impl ToValueTrait for Array {
    /// An array is already a value payload.
    fn to_value(&self) -> (r: Value)
        ensures
            r is Array,
            r->Array_0.elements@.len() == self@.len(),
            forall|i: int| 0 <= i < self@.len() ==> (#[trigger] r->Array_0.elements@[i]).deep_view()
                == self@[i].deep_view(),
    {
        Value::Array(self.clone())
    }
}

impl FromValueTrait for bool {
    fn from_value(value: Value) -> (r: Option<bool>)
        ensures
            r == match value {
                Value::Boolean(b) => Some(b),
                _ => None::<bool>,
            },
    {
        match value {
            Value::Boolean(b) => Some(b),
            _ => None,
        }
    }
}

impl FromValueTrait for String {
    fn from_value(value: Value) -> (r: Option<String>)
        ensures
            match r {
                Some(s) => value is String && s@ == value->String_0@,
                None => !(value is String),
            },
    {
        match value {
            Value::String(s) => Some(s.to_string()),
            _ => None,
        }
    }
}

impl FromValueTrait for u8 {
    /// A number that fits the width losslessly, at whatever origin tag.
    fn from_value(value: Value) -> (r: Option<u8>)
        ensures
            r == match value {
                Value::Number(n) => match n.read_as(crate::NumberType::U8) {
                    Some(v) => Some(v as u8),
                    None => None::<u8>,
                },
                _ => None::<u8>,
            },
    {
        match value {
            Value::Number(n) => n.get_u8(),
            _ => None,
        }
    }
}

impl FromValueTrait for u32 {
    /// A number that fits the width losslessly, at whatever origin tag.
    fn from_value(value: Value) -> (r: Option<u32>)
        ensures
            r == match value {
                Value::Number(n) => match n.read_as(crate::NumberType::U32) {
                    Some(v) => Some(v as u32),
                    None => None::<u32>,
                },
                _ => None::<u32>,
            },
    {
        match value {
            Value::Number(n) => n.get_u32(),
            _ => None,
        }
    }
}

impl FromValueTrait for u64 {
    /// A number that fits the width losslessly, at whatever origin tag.
    fn from_value(value: Value) -> (r: Option<u64>)
        ensures
            r == match value {
                Value::Number(n) => match n.read_as(crate::NumberType::U64) {
                    Some(v) => Some(v as u64),
                    None => None::<u64>,
                },
                _ => None::<u64>,
            },
    {
        match value {
            Value::Number(n) => n.get_u64(),
            _ => None,
        }
    }
}

impl FromValueTrait for i32 {
    /// A number that fits the width losslessly, at whatever origin tag.
    fn from_value(value: Value) -> (r: Option<i32>)
        ensures
            r == match value {
                Value::Number(n) => match n.read_as(crate::NumberType::I32) {
                    Some(v) => Some(v as i32),
                    None => None::<i32>,
                },
                _ => None::<i32>,
            },
    {
        match value {
            Value::Number(n) => n.get_i32(),
            _ => None,
        }
    }
}

impl FromValueTrait for i64 {
    /// A number that fits the width losslessly, at whatever origin tag.
    fn from_value(value: Value) -> (r: Option<i64>)
        ensures
            r == match value {
                Value::Number(n) => match n.read_as(crate::NumberType::I64) {
                    Some(v) => Some(v as i64),
                    None => None::<i64>,
                },
                _ => None::<i64>,
            },
    {
        match value {
            Value::Number(n) => n.get_i64(),
            _ => None,
        }
    }
}

/// True when the field names are pairwise distinct.
pub open spec fn names_distinct(fields: Seq<(String, Value)>) -> bool {
    forall|i: int, j: int|
        0 <= i < j < fields.len() ==> (#[trigger] fields[i]).0@ != (#[trigger] fields[j]).0@
}

/// The object a named-field aggregate converts to: one entry per field,
/// keyed by the field's name, in field order, over the hash-indexed
/// backend.
pub fn to_value_named(fields: Vec<(String, Value)>) -> (r: Value)
    requires
        names_distinct(fields@),
        forall|i: int| 0 <= i < fields@.len() ==> (#[trigger] fields@[i]).1.wf(),
    ensures
        r is Object,
        r.wf(),
        !r->Object_0.ordered,
        r->Object_0.entries@.len() == fields@.len(),
        forall|i: int| 0 <= i < fields@.len() ==> (#[trigger] r->Object_0.entries@[i]).0@
            == fields@[i].0@,
        forall|i: int| 0 <= i < fields@.len() ==> (#[trigger] r->Object_0.entries@[i]).1
            == fields@[i].1,
        forall|i: int|
            0 <= i < fields@.len() ==> lookup(r->Object_0.entries@, (#[trigger] fields@[i]).0@)
                == Some(fields@[i].1),
{
    let ghost fs = fields@;
    let mut entries: Vec<(ValueKey, Value)> = Vec::new();
    let mut fields = fields;
    let ghost n = fs.len();
    while fields.len() > 0
        invariant
            n == fs.len(),
            entries@.len() + fields@.len() == n,
            fields@ == fs.skip(entries@.len() as int),
            forall|i: int| 0 <= i < entries@.len() ==> (#[trigger] entries@[i]).0@ == fs[i].0@,
            forall|i: int| 0 <= i < entries@.len() ==> (#[trigger] entries@[i]).1 == fs[i].1,
        decreases fields@.len(),
    {
        let ghost k = entries@.len() as int;
        proof {
            assert(fields@[0] == fs.skip(k)[0]);
            assert(fs.skip(k)[0] == fs[k]);
        }
        let f = fields.remove(0);
        proof {
            assert(fields@ =~= fs.skip(k + 1));
        }
        let key = ValueKey::new(f.0);
        entries.push((key, f.1));
    }
    let o = Object { ordered: false, entries };
    proof {
        assert(keys_distinct(o.entries@)) by {
            assert forall|i: int, j: int|
                0 <= i < j < o.entries@.len() implies (#[trigger] o.entries@[i]).0@ != (
            #[trigger] o.entries@[j]).0@ by {
                assert(fs[i].0@ != fs[j].0@);
            }
        }
        crate::value::lemma_wf_entries(o.entries@);
        assert forall|i: int|
            0 <= i < fs.len() implies lookup(o.entries@, (#[trigger] fs[i]).0@) == Some(
            fs[i].1,
        ) by {
            lemma_lookup_at(o.entries@, i);
        }
    }
    Value::Object(o)
}

/// The value a positional-field aggregate converts to: an array of the
/// field values, in field order.  This is the one fixed rule this
/// library uses for positional shapes.
pub fn to_value_positional(values: Vec<Value>) -> (r: Value)
    requires
        forall|i: int| 0 <= i < values@.len() ==> (#[trigger] values@[i]).wf(),
    ensures
        r is Array,
        r.wf(),
        r->Array_0.elements@ == values@,
{
    proof {
        crate::value::lemma_wf_seq(values@);
    }
    Value::Array(Array { elements: values })
}

/// The value a field-less aggregate converts to.
pub fn to_value_unit() -> (r: Value)
    ensures
        r == Value::Null,
{
    Value::Null
}

/// The object a named-field enum variant converts to: the variant's
/// name under the reserved `"type"` key, then one entry per field in
/// field order.
pub fn to_value_enum_named(variant: &str, fields: Vec<(String, Value)>) -> (r: Value)
    requires
        names_distinct(fields@),
        forall|i: int| 0 <= i < fields@.len() ==> (#[trigger] fields@[i]).0@ != "type"@,
        forall|i: int| 0 <= i < fields@.len() ==> (#[trigger] fields@[i]).1.wf(),
    ensures
        r is Object,
        r.wf(),
        !r->Object_0.ordered,
        r->Object_0.entries@.len() == fields@.len() + 1,
        r->Object_0.entries@[0].0@ == "type"@,
        r->Object_0.entries@[0].1 is String && r->Object_0.entries@[0].1->String_0@ == variant@,
        forall|i: int| 0 <= i < fields@.len() ==> (#[trigger] r->Object_0.entries@[i + 1]).0@
            == fields@[i].0@,
        forall|i: int| 0 <= i < fields@.len() ==> (#[trigger] r->Object_0.entries@[i + 1]).1
            == fields@[i].1,
        lookup(r->Object_0.entries@, "type"@) == Some(r->Object_0.entries@[0].1),
{
    let ghost fs = fields@;
    let mut tagged: Vec<(String, Value)> = Vec::new();
    let tag_value = Value::String(StringB::from_str(variant));
    tagged.push(("type".to_owned(), tag_value));
    let mut fields = fields;
    let ghost n = fs.len();
    while fields.len() > 0
        invariant
            n == fs.len(),
            tagged@.len() == n - fields@.len() + 1,
            tagged@.len() >= 1,
            fields@ == fs.skip(tagged@.len() - 1),
            tagged@[0].0@ == "type"@,
            tagged@[0].1 is String && tagged@[0].1->String_0@ == variant@,
            tagged@[0].1.wf(),
            forall|i: int| 1 <= i < tagged@.len() ==> (#[trigger] tagged@[i]).0@ == fs[i - 1].0@,
            forall|i: int| 1 <= i < tagged@.len() ==> (#[trigger] tagged@[i]).1 == fs[i - 1].1,
        decreases fields@.len(),
    {
        let ghost k = tagged@.len() - 1;
        proof {
            assert(fields@[0] == fs.skip(k)[0]);
            assert(fs.skip(k)[0] == fs[k]);
        }
        let f = fields.remove(0);
        proof {
            assert(fields@ =~= fs.skip(k + 1));
        }
        tagged.push(f);
    }
    let ghost ts = tagged@;
    proof {
        assert(names_distinct(ts)) by {
            assert forall|i: int, j: int|
                0 <= i < j < ts.len() implies (#[trigger] ts[i]).0@ != (#[trigger] ts[j]).0@ by {
                if i == 0 {
                    assert(fs[j - 1].0@ != "type"@);
                } else {
                    assert(fs[i - 1].0@ != fs[j - 1].0@);
                }
            }
        }
        assert forall|i: int| 0 <= i < ts.len() implies (#[trigger] ts[i]).1.wf() by {
            if i > 0 {
                assert(ts[i].1 == fs[i - 1].1);
            }
        }
    }
    let r = build_object_from_fields(tagged);
    proof {
        lemma_lookup_at(r->Object_0.entries@, 0);
    }
    r
}

/// Builds a hash-backed object from already-distinct name/value pairs.
fn build_object_from_fields(fields: Vec<(String, Value)>) -> (r: Value)
    requires
        names_distinct(fields@),
        forall|i: int| 0 <= i < fields@.len() ==> (#[trigger] fields@[i]).1.wf(),
    ensures
        r is Object,
        r.wf(),
        !r->Object_0.ordered,
        r->Object_0.entries@.len() == fields@.len(),
        forall|i: int| 0 <= i < fields@.len() ==> (#[trigger] r->Object_0.entries@[i]).0@
            == fields@[i].0@,
        forall|i: int| 0 <= i < fields@.len() ==> (#[trigger] r->Object_0.entries@[i]).1
            == fields@[i].1,
{
    to_value_named(fields)
}

/// The object a positional-field enum variant converts to: the
/// variant's name under the reserved `"type"` key and the values, in
/// order, as an array under the reserved `"values"` key.  This is the
/// one fixed rule this library uses for positional variants.
pub fn to_value_enum_positional(variant: &str, values: Vec<Value>) -> (r: Value)
    requires
        forall|i: int| 0 <= i < values@.len() ==> (#[trigger] values@[i]).wf(),
    ensures
        r is Object,
        r.wf(),
        !r->Object_0.ordered,
        r->Object_0.entries@.len() == 2,
        r->Object_0.entries@[0].0@ == "type"@,
        r->Object_0.entries@[0].1 is String && r->Object_0.entries@[0].1->String_0@ == variant@,
        r->Object_0.entries@[1].0@ == "values"@,
        r->Object_0.entries@[1].1 is Array && r->Object_0.entries@[1].1->Array_0.elements@
            == values@,
{
    let arr = to_value_positional(values);
    let mut fields: Vec<(String, Value)> = Vec::new();
    fields.push(("type".to_owned(), Value::String(StringB::from_str(variant))));
    fields.push(("values".to_owned(), arr));
    proof {
        assert(names_distinct(fields@)) by {
            assert(fields@.len() == 2);
            assert("type"@.len() == 4 && "values"@.len() == 6) by {
                reveal_strlit("type");
                reveal_strlit("values");
            }
            assert(fields@[0].0@ != fields@[1].0@);
        }
    }
    build_object_from_fields(fields)
}

/// The value a field-less enum variant converts to: its bare name as
/// text.
pub fn to_value_enum_unit(variant: &str) -> (r: Value)
    ensures
        r is String,
        r->String_0@ == variant@,
{
    Value::String(StringB::from_str(variant))
}

/// Reads the named fields of an object-shaped value back, in name
/// order: the reconstruction succeeds exactly when the value is an
/// object and every name is present, and then yields each name's
/// value (as a deep copy of the same shape).
pub fn from_value_named(names: &Vec<String>, value: &Value) -> (r: Option<Vec<Value>>)
    ensures
        match r {
            Some(vals) => *value is Object && vals@.len() == names@.len() && (forall|i: int|
                0 <= i < names@.len() ==> {
                    let found = lookup(value->Object_0.entries@, (#[trigger] names@[i])@);
                    found is Some && found->0.deep_view() == vals@[i].deep_view()
                }),
            None => !(*value is Object) || exists|i: int|
                0 <= i < names@.len() && lookup(
                    value->Object_0.entries@,
                    (#[trigger] names@[i])@,
                ) is None,
        },
{
    match value {
        Value::Object(o) => {
            let mut vals: Vec<Value> = Vec::new();
            let mut i: usize = 0;
            while i < names.len()
                invariant
                    *value is Object,
                    value->Object_0 == *o,
                    0 <= i <= names@.len(),
                    vals@.len() == i,
                    forall|j: int|
                        0 <= j < i ==> {
                            let found = lookup(o.entries@, (#[trigger] names@[j])@);
                            found is Some && found->0.deep_view() == vals@[j].deep_view()
                        },
                decreases names@.len() - i,
            {
                match o.get(names[i].as_str()) {
                    Some(v) => {
                        let c = crate::value::deep_copy(v);
                        vals.push(c);
                    },
                    None => {
                        return None;
                    },
                }
                i = i + 1;
            }
            Some(vals)
        },
        _ => None,
    }
}

/// Round-trip: an object built with exactly the given distinct field
/// names and values answers every field's lookup with that field's
/// original value, so a named-field reconstruction from a named-field
/// conversion succeeds and yields the original fields.
pub proof fn lemma_named_round_trip(entries: Seq<(ValueKey, Value)>, fields: Seq<(String, Value)>)
    requires
        names_distinct(fields),
        entries.len() == fields.len(),
        forall|i: int| 0 <= i < fields.len() ==> (#[trigger] entries[i]).0@ == fields[i].0@,
        forall|i: int| 0 <= i < fields.len() ==> (#[trigger] entries[i]).1 == fields[i].1,
    ensures
        forall|i: int|
            0 <= i < fields.len() ==> lookup(entries, (#[trigger] fields[i]).0@) == Some(
                fields[i].1,
            ),
{
    assert(keys_distinct(entries)) by {
        assert forall|i: int, j: int|
            0 <= i < j < entries.len() implies (#[trigger] entries[i]).0@ != (
        #[trigger] entries[j]).0@ by {
            assert(fields[i].0@ != fields[j].0@);
        }
    }
    assert forall|i: int|
        0 <= i < fields.len() implies lookup(entries, (#[trigger] fields[i]).0@) == Some(
        fields[i].1,
    ) by {
        lemma_lookup_at(entries, i);
    }
}

} // verus!
