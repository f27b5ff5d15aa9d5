//! The aggregate surface of `Value`: container access delegated to the
//! active variant, with absent results on variant mismatch where the
//! operation is recoverable and a precondition where it is a caller
//! contract violation.

use vstd::prelude::*;

verus! {

use crate::array::Array;
use crate::key::{parse_index, parsed_index, ValueKey};
use crate::datetime::DateTime;
use crate::number::Number;
use crate::object::{insert_effect, lookup, remove_effect, Object};
use crate::NumberType;
use crate::value::{
    clean_owned, cleaned_entries, cleaned_seq, deep_view_entries, deep_view_seq,
    lemma_deep_view_entries, lemma_deep_view_seq, lemma_cleaned_entries, lemma_cleaned_seq,
    lemma_wf_entries, lemma_wf_seq, wf_entries, wf_seq, Value,
};

impl Value {
    /// The map model of generic access: an object looks the key up; an
    /// array reads the position the key spells as a decimal numeral;
    /// every other variant holds nothing.
    pub open spec fn get_spec(self, k: Seq<char>) -> Option<Value> {
        match self {
            Value::Object(o) => lookup(o.entries@, k),
            Value::Array(a) => match parsed_index(k) {
                Some(i) => if i < a.elements@.len() {
                    Some(a.elements@[i as int])
                } else {
                    None
                },
                None => None,
            },
            _ => None,
        }
    }

    /// How many direct children the value holds: entries of an object,
    /// elements of an array, zero for every other variant.
    pub open spec fn len_spec(self) -> int {
        match self {
            Value::Object(o) => o.entries@.len() as int,
            Value::Array(a) => a.elements@.len() as int,
            _ => 0,
        }
    }

    /// The value the key denotes, by the generic access model.
    pub fn get(&self, key: &str) -> (r: Option<&Value>)
        ensures
            match r {
                Some(v) => self.get_spec(key@) == Some(*v),
                None => self.get_spec(key@) is None,
            },
    {
        match self {
            Value::Object(o) => o.get(key),
            Value::Array(a) => {
                match parse_index(key) {
                    Some(i) => a.get(i),
                    None => None,
                }
            },
            _ => None,
        }
    }

    /// Replaces the value an existing key or index denotes, reporting
    /// whether anything was replaced.  A missing key, an out-of-range
    /// index, or a non-container variant leaves the value untouched.
    pub fn set(&mut self, key: &str, value: Value) -> (r: bool)
        requires
            old(self).wf(),
            value.wf(),
        ensures
            final(self).wf(),
            r == (old(self).get_spec(key@) is Some),
            final(self).get_spec(key@) == if r {
                Some(value)
            } else {
                old(self).get_spec(key@)
            },
            final(self).len_spec() == old(self).len_spec(),
            match *old(self) {
                Value::Object(o) => *final(self) is Object
                    && final(self)->Object_0.ordered == o.ordered && (forall|k2: Seq<char>|
                    k2 != key@ ==> #[trigger] lookup(final(self)->Object_0.entries@, k2) == lookup(
                        o.entries@,
                        k2,
                    )),
                Value::Array(a) => *final(self) is Array && (forall|j: int|
                    0 <= j < a.elements@.len() && parsed_index(key@) != Some(j as usize)
                        ==> #[trigger] final(self)->Array_0.elements@[j] == a.elements@[j]),
                _ => *final(self) == *old(self) && !r,
            },
    {
        let ghost pre = *self;
        match self {
            Value::Object(o) => {
                let ghost opre = o.entries@;
                if o.contains_key(key) {
                    let prev = o.insert(key, value);
                    proof {
                        lemma_wf_entries(opre);
                        lemma_wf_entries(o.entries@);
                        assert forall|j: int|
                            0 <= j < o.entries@.len() implies (#[trigger] o.entries@[j]).1.wf() by {
                            if o.entries@[j].1 != value {
                                let t = choose|t: int|
                                    0 <= t < opre.len() && #[trigger] opre[t] == o.entries@[j];
                                assert(opre[t].1.wf());
                            }
                        }
                    }
                    true
                } else {
                    false
                }
            },
            Value::Array(a) => {
                match parse_index(key) {
                    Some(i) => {
                        let hit = a.set(i, value);
                        proof {
                            if hit {
                                lemma_wf_seq(a.elements@);
                                lemma_wf_seq(pre->Array_0.elements@);
                            }
                        }
                        hit
                    },
                    None => false,
                }
            },
            _ => false,
        }
    }

    /// The number of direct children: entries of an object, elements
    /// of an array, zero otherwise.
    pub fn len(&self) -> (r: usize)
        ensures
            r == self.len_spec(),
    {
        match self {
            Value::Object(o) => o.len(),
            Value::Array(a) => a.len(),
            _ => 0,
        }
    }

    /// True when the value holds no direct children; true of every
    /// non-container variant.
    pub fn is_empty(&self) -> (r: bool)
        ensures
            r == (self.len_spec() == 0),
    {
        match self {
            Value::Object(o) => o.is_empty(),
            Value::Array(a) => a.is_empty(),
            _ => true,
        }
    }

    /// Appends to an array; a no-op on every other variant.
    pub fn push(&mut self, value: Value)
        ensures
            match *old(self) {
                Value::Array(a) => *final(self) is Array && final(self)->Array_0.elements@
                    == a.elements@.push(value),
                _ => *final(self) == *old(self),
            },
    {
        match self {
            Value::Array(a) => {
                a.push(value);
            },
            _ => {},
        }
    }

    /// Removes and returns an array's last element; nothing, and a
    /// no-op, on every other variant.
    pub fn pop(&mut self) -> (r: Option<Value>)
        ensures
            match *old(self) {
                Value::Array(a) => if a.elements@.len() > 0 {
                    r == Some(a.elements@.last()) && *final(self) is Array
                        && final(self)->Array_0.elements@ == a.elements@.drop_last()
                } else {
                    r is None && *final(self) is Array && final(self)->Array_0.elements@
                        == a.elements@
                },
                _ => r is None && *final(self) == *old(self),
            },
    {
        match self {
            Value::Array(a) => a.pop(),
            _ => None,
        }
    }

    /// Maps `key` to `value` in an object, returning the previous
    /// value, if any.  Calling this on any other variant is a caller
    /// contract violation, so the precondition forbids it.
    pub fn insert(&mut self, key: &str, value: Value) -> (r: Option<Value>)
        requires
            *old(self) is Object,
            old(self).wf(),
            value.wf(),
        ensures
            *final(self) is Object,
            final(self).wf(),
            final(self)->Object_0.ordered == old(self)->Object_0.ordered,
            r == lookup(old(self)->Object_0.entries@, key@),
            insert_effect(
                old(self)->Object_0.entries@,
                final(self)->Object_0.entries@,
                key@,
                value,
            ),
    {
        match self {
            Value::Object(o) => {
                let ghost opre = o.entries@;
                let r = o.insert(key, value);
                proof {
                    lemma_wf_entries(opre);
                    lemma_wf_entries(o.entries@);
                    assert forall|j: int|
                        0 <= j < o.entries@.len() implies (#[trigger] o.entries@[j]).1.wf() by {
                        if o.entries@[j].1 != value {
                            let t = choose|t: int|
                                0 <= t < opre.len() && #[trigger] opre[t] == o.entries@[j];
                            assert(opre[t].1.wf());
                        }
                    }
                }
                r
            },
            _ => None,
        }
    }

    /// Unbinds `key` in an object, returning the value it mapped to,
    /// if any.  Calling this on any other variant is a caller contract
    /// violation, so the precondition forbids it.
    pub fn remove(&mut self, key: &str) -> (r: Option<Value>)
        requires
            *old(self) is Object,
            old(self).wf(),
        ensures
            *final(self) is Object,
            final(self).wf(),
            final(self)->Object_0.ordered == old(self)->Object_0.ordered,
            r == lookup(old(self)->Object_0.entries@, key@),
            remove_effect(old(self)->Object_0.entries@, final(self)->Object_0.entries@, key@),
    {
        match self {
            Value::Object(o) => {
                let ghost opre = o.entries@;
                let r = o.remove(key);
                proof {
                    lemma_wf_entries(opre);
                    lemma_wf_entries(o.entries@);
                    assert forall|j: int|
                        0 <= j < o.entries@.len() implies (#[trigger] o.entries@[j]).1.wf() by {
                        let t = choose|t: int|
                            0 <= t < opre.len() && #[trigger] opre[t] == o.entries@[j];
                        assert(opre[t].1.wf());
                    }
                }
                r
            },
            _ => None,
        }
    }

    /// Whether an object holds the key.  Calling this on any other
    /// variant is a caller contract violation, so the precondition
    /// forbids it.
    pub fn contains_key(&self, key: &str) -> (r: bool)
        requires
            self is Object,
        ensures
            r == (lookup(self->Object_0.entries@, key@) is Some),
    {
        match self {
            Value::Object(o) => o.contains_key(key),
            _ => false,
        }
    }

    /// References to an object's keys, in its entry order.  Calling
    /// this on any other variant is a caller contract violation, so
    /// the precondition forbids it.
    pub fn keys(&self) -> (r: Vec<&ValueKey>)
        requires
            self is Object,
        ensures
            r@.len() == self->Object_0.entries@.len(),
            forall|i: int|
                0 <= i < r@.len() ==> (#[trigger] r@[i])@ == self->Object_0.entries@[i].0@,
    {
        match self {
            Value::Object(o) => o.keys(),
            _ => Vec::new(),
        }
    }

    /// References to an object's values, in its entry order.  Calling
    /// this on any other variant is a caller contract violation, so
    /// the precondition forbids it.
    pub fn values(&self) -> (r: Vec<&Value>)
        requires
            self is Object,
        ensures
            r@.len() == self->Object_0.entries@.len(),
            forall|i: int|
                0 <= i < r@.len() ==> *(#[trigger] r@[i]) == self->Object_0.entries@[i].1,
    {
        match self {
            Value::Object(o) => o.values(),
            _ => Vec::new(),
        }
    }
}

impl Value {
    /// The held number, to delegate the numeric surface to.
    pub open spec fn number_spec(self) -> Number {
        self->Number_0
    }

    pub fn set_u8(&mut self, value: u8)
        ensures
            match *old(self) {
                Value::Number(_) => *final(self) == Value::Number(Number::U8(value)),
                _ => *final(self) == *old(self),
            },
    {
        match self {
            Value::Number(n) => n.set_u8(value),
            _ => {},
        }
    }

    pub fn set_u16(&mut self, value: u16)
        ensures
            match *old(self) {
                Value::Number(_) => *final(self) == Value::Number(Number::U16(value)),
                _ => *final(self) == *old(self),
            },
    {
        match self {
            Value::Number(n) => n.set_u16(value),
            _ => {},
        }
    }

    pub fn set_u32(&mut self, value: u32)
        ensures
            match *old(self) {
                Value::Number(_) => *final(self) == Value::Number(Number::U32(value)),
                _ => *final(self) == *old(self),
            },
    {
        match self {
            Value::Number(n) => n.set_u32(value),
            _ => {},
        }
    }

    pub fn set_u64(&mut self, value: u64)
        ensures
            match *old(self) {
                Value::Number(_) => *final(self) == Value::Number(Number::U64(value)),
                _ => *final(self) == *old(self),
            },
    {
        match self {
            Value::Number(n) => n.set_u64(value),
            _ => {},
        }
    }

    pub fn set_u128(&mut self, value: u128)
        ensures
            match *old(self) {
                Value::Number(_) => *final(self) == Value::Number(Number::U128(value)),
                _ => *final(self) == *old(self),
            },
    {
        match self {
            Value::Number(n) => n.set_u128(value),
            _ => {},
        }
    }

    pub fn set_i8(&mut self, value: i8)
        ensures
            match *old(self) {
                Value::Number(_) => *final(self) == Value::Number(Number::I8(value)),
                _ => *final(self) == *old(self),
            },
    {
        match self {
            Value::Number(n) => n.set_i8(value),
            _ => {},
        }
    }

    pub fn set_i16(&mut self, value: i16)
        ensures
            match *old(self) {
                Value::Number(_) => *final(self) == Value::Number(Number::I16(value)),
                _ => *final(self) == *old(self),
            },
    {
        match self {
            Value::Number(n) => n.set_i16(value),
            _ => {},
        }
    }

    pub fn set_i32(&mut self, value: i32)
        ensures
            match *old(self) {
                Value::Number(_) => *final(self) == Value::Number(Number::I32(value)),
                _ => *final(self) == *old(self),
            },
    {
        match self {
            Value::Number(n) => n.set_i32(value),
            _ => {},
        }
    }

    pub fn set_i64(&mut self, value: i64)
        ensures
            match *old(self) {
                Value::Number(_) => *final(self) == Value::Number(Number::I64(value)),
                _ => *final(self) == *old(self),
            },
    {
        match self {
            Value::Number(n) => n.set_i64(value),
            _ => {},
        }
    }

    pub fn set_i128(&mut self, value: i128)
        ensures
            match *old(self) {
                Value::Number(_) => *final(self) == Value::Number(Number::I128(value)),
                _ => *final(self) == *old(self),
            },
    {
        match self {
            Value::Number(n) => n.set_i128(value),
            _ => {},
        }
    }

    /// Stores an `f32` payload, given as its IEEE-754 bit pattern, in
    /// a held number; a no-op on every other variant.
    pub fn set_f32_bits(&mut self, bits: u32)
        ensures
            match *old(self) {
                Value::Number(_) => *final(self) == Value::Number(Number::F32Bits(bits)),
                _ => *final(self) == *old(self),
            },
    {
        match self {
            Value::Number(n) => n.set_f32_bits(bits),
            _ => {},
        }
    }

    /// Stores an `f64` payload, given as its IEEE-754 bit pattern, in
    /// a held number; a no-op on every other variant.
    pub fn set_f64_bits(&mut self, bits: u64)
        ensures
            match *old(self) {
                Value::Number(_) => *final(self) == Value::Number(Number::F64Bits(bits)),
                _ => *final(self) == *old(self),
            },
    {
        match self {
            Value::Number(n) => n.set_f64_bits(bits),
            _ => {},
        }
    }

    pub fn get_u8(&self) -> (r: Option<u8>)
        ensures
            r == match *self {
                Value::Number(n) => match n.read_as(NumberType::U8) {
                    Some(v) => Some(v as u8),
                    None => None::<u8>,
                },
                _ => None::<u8>,
            },
    {
        match self {
            Value::Number(n) => n.get_u8(),
            _ => None,
        }
    }

    pub fn get_u16(&self) -> (r: Option<u16>)
        ensures
            r == match *self {
                Value::Number(n) => match n.read_as(NumberType::U16) {
                    Some(v) => Some(v as u16),
                    None => None::<u16>,
                },
                _ => None::<u16>,
            },
    {
        match self {
            Value::Number(n) => n.get_u16(),
            _ => None,
        }
    }

    pub fn get_u32(&self) -> (r: Option<u32>)
        ensures
            r == match *self {
                Value::Number(n) => match n.read_as(NumberType::U32) {
                    Some(v) => Some(v as u32),
                    None => None::<u32>,
                },
                _ => None::<u32>,
            },
    {
        match self {
            Value::Number(n) => n.get_u32(),
            _ => None,
        }
    }

    pub fn get_u64(&self) -> (r: Option<u64>)
        ensures
            r == match *self {
                Value::Number(n) => match n.read_as(NumberType::U64) {
                    Some(v) => Some(v as u64),
                    None => None::<u64>,
                },
                _ => None::<u64>,
            },
    {
        match self {
            Value::Number(n) => n.get_u64(),
            _ => None,
        }
    }

    pub fn get_u128(&self) -> (r: Option<u128>)
        ensures
            r == match *self {
                Value::Number(n) => match n.read_as(NumberType::U128) {
                    Some(v) => Some(v as u128),
                    None => None::<u128>,
                },
                _ => None::<u128>,
            },
    {
        match self {
            Value::Number(n) => n.get_u128(),
            _ => None,
        }
    }

    pub fn get_i8(&self) -> (r: Option<i8>)
        ensures
            r == match *self {
                Value::Number(n) => match n.read_as(NumberType::I8) {
                    Some(v) => Some(v as i8),
                    None => None::<i8>,
                },
                _ => None::<i8>,
            },
    {
        match self {
            Value::Number(n) => n.get_i8(),
            _ => None,
        }
    }

    pub fn get_i16(&self) -> (r: Option<i16>)
        ensures
            r == match *self {
                Value::Number(n) => match n.read_as(NumberType::I16) {
                    Some(v) => Some(v as i16),
                    None => None::<i16>,
                },
                _ => None::<i16>,
            },
    {
        match self {
            Value::Number(n) => n.get_i16(),
            _ => None,
        }
    }

    pub fn get_i32(&self) -> (r: Option<i32>)
        ensures
            r == match *self {
                Value::Number(n) => match n.read_as(NumberType::I32) {
                    Some(v) => Some(v as i32),
                    None => None::<i32>,
                },
                _ => None::<i32>,
            },
    {
        match self {
            Value::Number(n) => n.get_i32(),
            _ => None,
        }
    }

    pub fn get_i64(&self) -> (r: Option<i64>)
        ensures
            r == match *self {
                Value::Number(n) => match n.read_as(NumberType::I64) {
                    Some(v) => Some(v as i64),
                    None => None::<i64>,
                },
                _ => None::<i64>,
            },
    {
        match self {
            Value::Number(n) => n.get_i64(),
            _ => None,
        }
    }

    pub fn get_i128(&self) -> (r: Option<i128>)
        ensures
            r == match *self {
                Value::Number(n) => match n.read_as(NumberType::I128) {
                    Some(v) => Some(v as i128),
                    None => None::<i128>,
                },
                _ => None::<i128>,
            },
    {
        match self {
            Value::Number(n) => n.get_i128(),
            _ => None,
        }
    }

    /// The held `f32` bit pattern, when a number with an `f32` tag is
    /// held.
    pub fn get_f32_bits(&self) -> (r: Option<u32>)
        ensures
            r == match *self {
                Value::Number(n) => n.f32_bits_spec(),
                _ => None::<u32>,
            },
    {
        match self {
            Value::Number(n) => n.get_f32_bits(),
            _ => None,
        }
    }

    /// The held `f64` bit pattern, when a number with an `f64` tag is
    /// held.
    pub fn get_f64_bits(&self) -> (r: Option<u64>)
        ensures
            r == match *self {
                Value::Number(n) => n.f64_bits_spec(),
                _ => None::<u64>,
            },
    {
        match self {
            Value::Number(n) => n.get_f64_bits(),
            _ => None,
        }
    }

    pub fn get_u8_unsafe(&self) -> (r: u8)
        requires
            *self is Number,
            self.number_spec().read_as(NumberType::U8) is Some,
        ensures
            Some(r as int) == self.number_spec().read_as(NumberType::U8),
    {
        match self {
            Value::Number(n) => n.get_u8_unsafe(),
            _ => 0,
        }
    }

    pub fn get_u16_unsafe(&self) -> (r: u16)
        requires
            *self is Number,
            self.number_spec().read_as(NumberType::U16) is Some,
        ensures
            Some(r as int) == self.number_spec().read_as(NumberType::U16),
    {
        match self {
            Value::Number(n) => n.get_u16_unsafe(),
            _ => 0,
        }
    }

    pub fn get_u32_unsafe(&self) -> (r: u32)
        requires
            *self is Number,
            self.number_spec().read_as(NumberType::U32) is Some,
        ensures
            Some(r as int) == self.number_spec().read_as(NumberType::U32),
    {
        match self {
            Value::Number(n) => n.get_u32_unsafe(),
            _ => 0,
        }
    }

    pub fn get_u64_unsafe(&self) -> (r: u64)
        requires
            *self is Number,
            self.number_spec().read_as(NumberType::U64) is Some,
        ensures
            Some(r as int) == self.number_spec().read_as(NumberType::U64),
    {
        match self {
            Value::Number(n) => n.get_u64_unsafe(),
            _ => 0,
        }
    }

    pub fn get_u128_unsafe(&self) -> (r: u128)
        requires
            *self is Number,
            self.number_spec().read_as(NumberType::U128) is Some,
        ensures
            Some(r as int) == self.number_spec().read_as(NumberType::U128),
    {
        match self {
            Value::Number(n) => n.get_u128_unsafe(),
            _ => 0,
        }
    }

    pub fn get_i8_unsafe(&self) -> (r: i8)
        requires
            *self is Number,
            self.number_spec().read_as(NumberType::I8) is Some,
        ensures
            Some(r as int) == self.number_spec().read_as(NumberType::I8),
    {
        match self {
            Value::Number(n) => n.get_i8_unsafe(),
            _ => 0,
        }
    }

    pub fn get_i16_unsafe(&self) -> (r: i16)
        requires
            *self is Number,
            self.number_spec().read_as(NumberType::I16) is Some,
        ensures
            Some(r as int) == self.number_spec().read_as(NumberType::I16),
    {
        match self {
            Value::Number(n) => n.get_i16_unsafe(),
            _ => 0,
        }
    }

    pub fn get_i32_unsafe(&self) -> (r: i32)
        requires
            *self is Number,
            self.number_spec().read_as(NumberType::I32) is Some,
        ensures
            Some(r as int) == self.number_spec().read_as(NumberType::I32),
    {
        match self {
            Value::Number(n) => n.get_i32_unsafe(),
            _ => 0,
        }
    }

    pub fn get_i64_unsafe(&self) -> (r: i64)
        requires
            *self is Number,
            self.number_spec().read_as(NumberType::I64) is Some,
        ensures
            Some(r as int) == self.number_spec().read_as(NumberType::I64),
    {
        match self {
            Value::Number(n) => n.get_i64_unsafe(),
            _ => 0,
        }
    }

    pub fn get_i128_unsafe(&self) -> (r: i128)
        requires
            *self is Number,
            self.number_spec().read_as(NumberType::I128) is Some,
        ensures
            Some(r as int) == self.number_spec().read_as(NumberType::I128),
    {
        match self {
            Value::Number(n) => n.get_i128_unsafe(),
            _ => 0,
        }
    }

    /// The held `f32` bit pattern; demanding one of any other variant
    /// or tag is a caller contract violation, so the precondition
    /// forbids it.
    pub fn get_f32_bits_unsafe(&self) -> (r: u32)
        requires
            *self is Number,
            self.number_spec().f32_bits_spec() is Some,
        ensures
            Some(r) == self.number_spec().f32_bits_spec(),
    {
        match self {
            Value::Number(n) => n.get_f32_bits_unsafe(),
            _ => 0,
        }
    }

    /// The held `f64` bit pattern; demanding one of any other variant
    /// or tag is a caller contract violation, so the precondition
    /// forbids it.
    pub fn get_f64_bits_unsafe(&self) -> (r: u64)
        requires
            *self is Number,
            self.number_spec().f64_bits_spec() is Some,
        ensures
            Some(r) == self.number_spec().f64_bits_spec(),
    {
        match self {
            Value::Number(n) => n.get_f64_bits_unsafe(),
            _ => 0,
        }
    }

    pub fn is_u8(&self) -> (r: bool)
        ensures
            r == (*self is Number && self.number_spec().number_type_spec() == NumberType::U8),
    {
        match self {
            Value::Number(n) => n.is_u8(),
            _ => false,
        }
    }

    pub fn is_u16(&self) -> (r: bool)
        ensures
            r == (*self is Number && self.number_spec().number_type_spec() == NumberType::U16),
    {
        match self {
            Value::Number(n) => n.is_u16(),
            _ => false,
        }
    }

    pub fn is_u32(&self) -> (r: bool)
        ensures
            r == (*self is Number && self.number_spec().number_type_spec() == NumberType::U32),
    {
        match self {
            Value::Number(n) => n.is_u32(),
            _ => false,
        }
    }

    pub fn is_u64(&self) -> (r: bool)
        ensures
            r == (*self is Number && self.number_spec().number_type_spec() == NumberType::U64),
    {
        match self {
            Value::Number(n) => n.is_u64(),
            _ => false,
        }
    }

    pub fn is_u128(&self) -> (r: bool)
        ensures
            r == (*self is Number && self.number_spec().number_type_spec() == NumberType::U128),
    {
        match self {
            Value::Number(n) => n.is_u128(),
            _ => false,
        }
    }

    pub fn is_i8(&self) -> (r: bool)
        ensures
            r == (*self is Number && self.number_spec().number_type_spec() == NumberType::I8),
    {
        match self {
            Value::Number(n) => n.is_i8(),
            _ => false,
        }
    }

    pub fn is_i16(&self) -> (r: bool)
        ensures
            r == (*self is Number && self.number_spec().number_type_spec() == NumberType::I16),
    {
        match self {
            Value::Number(n) => n.is_i16(),
            _ => false,
        }
    }

    pub fn is_i32(&self) -> (r: bool)
        ensures
            r == (*self is Number && self.number_spec().number_type_spec() == NumberType::I32),
    {
        match self {
            Value::Number(n) => n.is_i32(),
            _ => false,
        }
    }

    pub fn is_i64(&self) -> (r: bool)
        ensures
            r == (*self is Number && self.number_spec().number_type_spec() == NumberType::I64),
    {
        match self {
            Value::Number(n) => n.is_i64(),
            _ => false,
        }
    }

    pub fn is_i128(&self) -> (r: bool)
        ensures
            r == (*self is Number && self.number_spec().number_type_spec() == NumberType::I128),
    {
        match self {
            Value::Number(n) => n.is_i128(),
            _ => false,
        }
    }

    pub fn is_f32(&self) -> (r: bool)
        ensures
            r == (*self is Number && self.number_spec().number_type_spec() == NumberType::F32),
    {
        match self {
            Value::Number(n) => n.is_f32(),
            _ => false,
        }
    }

    pub fn is_f64(&self) -> (r: bool)
        ensures
            r == (*self is Number && self.number_spec().number_type_spec() == NumberType::F64),
    {
        match self {
            Value::Number(n) => n.is_f64(),
            _ => false,
        }
    }

    /// Whether a number is held at all.
    pub fn is_number(&self) -> (r: bool)
        ensures
            r == (*self is Number),
    {
        matches!(self, Value::Number(_))
    }

    pub fn is_integer(&self) -> (r: bool)
        ensures
            r == (*self is Number && self.number_spec().is_integer_spec()),
    {
        match self {
            Value::Number(n) => n.is_integer(),
            _ => false,
        }
    }

    pub fn is_float(&self) -> (r: bool)
        ensures
            r == (*self is Number && self.number_spec().is_float_spec()),
    {
        match self {
            Value::Number(n) => n.is_float(),
            _ => false,
        }
    }

    pub fn is_signed(&self) -> (r: bool)
        ensures
            r == (*self is Number && self.number_spec().is_signed_spec()),
    {
        match self {
            Value::Number(n) => n.is_signed(),
            _ => false,
        }
    }

    pub fn is_unsigned(&self) -> (r: bool)
        ensures
            r == (*self is Number && self.number_spec().is_unsigned_spec()),
    {
        match self {
            Value::Number(n) => n.is_unsigned(),
            _ => false,
        }
    }

    pub fn is_zero(&self) -> (r: bool)
        ensures
            r == (*self is Number && self.number_spec().is_zero_spec()),
    {
        match self {
            Value::Number(n) => n.is_zero(),
            _ => false,
        }
    }

    pub fn is_positive(&self) -> (r: bool)
        ensures
            r == (*self is Number && self.number_spec().is_positive_spec()),
    {
        match self {
            Value::Number(n) => n.is_positive(),
            _ => false,
        }
    }

    pub fn is_negative(&self) -> (r: bool)
        ensures
            r == (*self is Number && self.number_spec().is_negative_spec()),
    {
        match self {
            Value::Number(n) => n.is_negative(),
            _ => false,
        }
    }

    /// The held number's tag; `NumberType::Unknown` for every other
    /// variant, as for an unset number.
    pub fn number_type(&self) -> (r: NumberType)
        ensures
            r == match *self {
                Value::Number(n) => n.number_type_spec(),
                _ => NumberType::Unknown,
            },
    {
        match self {
            Value::Number(n) => n.number_type(),
            _ => NumberType::Unknown,
        }
    }

    /// The year, when a date or date-time is held.
    pub fn year(&self) -> (r: Option<i32>)
        ensures
            r == match *self {
                Value::DateTime(DateTime::Date(d)) => Some(d.year),
                Value::DateTime(DateTime::DateTime(dt)) => Some(dt.date.year),
                _ => None::<i32>,
            },
    {
        match self {
            Value::DateTime(dt) => dt.year(),
            _ => None,
        }
    }

    /// The month, when a date or date-time is held.
    pub fn month(&self) -> (r: Option<u32>)
        ensures
            r == match *self {
                Value::DateTime(DateTime::Date(d)) => Some(d.month),
                Value::DateTime(DateTime::DateTime(dt)) => Some(dt.date.month),
                _ => None::<u32>,
            },
    {
        match self {
            Value::DateTime(dt) => dt.month(),
            _ => None,
        }
    }

    /// The day of the month, when a date or date-time is held.
    pub fn day(&self) -> (r: Option<u32>)
        ensures
            r == match *self {
                Value::DateTime(DateTime::Date(d)) => Some(d.day),
                Value::DateTime(DateTime::DateTime(dt)) => Some(dt.date.day),
                _ => None::<u32>,
            },
    {
        match self {
            Value::DateTime(dt) => dt.day(),
            _ => None,
        }
    }

    /// The hour, when a time or date-time is held.
    pub fn hour(&self) -> (r: Option<u32>)
        ensures
            r == match *self {
                Value::DateTime(DateTime::Time(t)) => Some(t.hour),
                Value::DateTime(DateTime::DateTime(dt)) => Some(dt.time.hour),
                _ => None::<u32>,
            },
    {
        match self {
            Value::DateTime(dt) => dt.hour(),
            _ => None,
        }
    }

    /// The minute, when a time or date-time is held.
    pub fn minute(&self) -> (r: Option<u32>)
        ensures
            r == match *self {
                Value::DateTime(DateTime::Time(t)) => Some(t.minute),
                Value::DateTime(DateTime::DateTime(dt)) => Some(dt.time.minute),
                _ => None::<u32>,
            },
    {
        match self {
            Value::DateTime(dt) => dt.minute(),
            _ => None,
        }
    }

    /// The second, when a time or date-time is held.
    pub fn second(&self) -> (r: Option<u32>)
        ensures
            r == match *self {
                Value::DateTime(DateTime::Time(t)) => Some(t.second),
                Value::DateTime(DateTime::DateTime(dt)) => Some(dt.time.second),
                _ => None::<u32>,
            },
    {
        match self {
            Value::DateTime(dt) => dt.second(),
            _ => None,
        }
    }

    /// The held date, when a bare date is held.
    pub fn as_date(&self) -> (r: Option<&crate::datetime::CalendarDate>)
        ensures
            match r {
                Some(d) => *self is DateTime && self->DateTime_0 is Date && *d
                    == self->DateTime_0->Date_0,
                None => !(*self is DateTime) || !(self->DateTime_0 is Date),
            },
    {
        match self {
            Value::DateTime(dt) => dt.as_date(),
            _ => None,
        }
    }

    /// The held time, when a bare time is held.
    pub fn as_time(&self) -> (r: Option<&crate::datetime::ClockTime>)
        ensures
            match r {
                Some(t) => *self is DateTime && self->DateTime_0 is Time && *t
                    == self->DateTime_0->Time_0,
                None => !(*self is DateTime) || !(self->DateTime_0 is Time),
            },
    {
        match self {
            Value::DateTime(dt) => dt.as_time(),
            _ => None,
        }
    }

    /// The held date-time, when a full date-time is held.
    pub fn as_date_time(&self) -> (r: Option<&crate::datetime::CivilDateTime>)
        ensures
            match r {
                Some(c) => *self is DateTime && self->DateTime_0 is DateTime && *c
                    == self->DateTime_0->DateTime_0,
                None => !(*self is DateTime) || !(self->DateTime_0 is DateTime),
            },
    {
        match self {
            Value::DateTime(dt) => dt.as_date_time(),
            _ => None,
        }
    }

    /// The UTC epoch seconds, when a date-time is held.
    pub fn timestamp(&self) -> (r: Option<i64>)
        requires
            self.wf(),
        ensures
            r == match *self {
                Value::DateTime(d) => crate::datetime::timestamp_spec(d),
                _ => None::<i64>,
            },
    {
        match self {
            Value::DateTime(dt) => dt.timestamp(),
            _ => None,
        }
    }

    /// The ISO-8601 text of held date/time data; empty text for every
    /// other variant.
    pub fn to_iso8601(&self) -> (r: String)
        requires
            *self is DateTime ==> crate::datetime::iso_formattable(self->DateTime_0),
        ensures
            r@ == match *self {
                Value::DateTime(d) => crate::datetime::iso_of(d),
                _ => Seq::<char>::empty(),
            },
    {
        match self {
            Value::DateTime(dt) => dt.to_iso8601(),
            _ => String::new(),
        }
    }

    /// The RFC-3339 text of a held UTC date-time; empty text
    /// otherwise.
    pub fn to_rfc3339(&self) -> (r: String)
        requires
            *self is DateTime ==> crate::datetime::iso_formattable(self->DateTime_0),
        ensures
            r@ == match *self {
                Value::DateTime(DateTime::DateTime(c)) => crate::datetime::civil_iso_of(c)
                    + "+00:00"@,
                _ => Seq::<char>::empty(),
            },
    {
        match self {
            Value::DateTime(dt) => dt.to_rfc3339(),
            _ => String::new(),
        }
    }

    /// Moves held date/time data forward by the span.
    pub fn add_duration(&self, duration: crate::datetime::Duration) -> (r: Option<DateTime>)
        requires
            self.wf(),
        ensures
            r == match *self {
                Value::DateTime(d) => crate::datetime::add_duration_spec(d, duration),
                _ => None::<DateTime>,
            },
            r is Some ==> r->0.wf(),
    {
        match self {
            Value::DateTime(dt) => dt.add_duration(duration),
            _ => None,
        }
    }

    /// Moves held date/time data backward by the span.
    pub fn subtract_duration(&self, duration: crate::datetime::Duration) -> (r: Option<DateTime>)
        requires
            self.wf(),
            duration.wf(),
        ensures
            r == match *self {
                Value::DateTime(d) => crate::datetime::subtract_duration_spec(d, duration),
                _ => None::<DateTime>,
            },
            r is Some ==> r->0.wf(),
    {
        match self {
            Value::DateTime(dt) => dt.subtract_duration(duration),
            _ => None,
        }
    }

    /// The span from held date/time data to the other value.
    pub fn duration_between(&self, other: &DateTime) -> (r: Option<crate::datetime::Duration>)
        requires
            self.wf(),
            other.wf(),
        ensures
            r == match *self {
                Value::DateTime(d) => crate::datetime::duration_between_spec(d, *other),
                _ => None::<crate::datetime::Duration>,
            },
    {
        match self {
            Value::DateTime(dt) => dt.duration_between(other),
            _ => None,
        }
    }
}

impl Array {
    /// Normalizes every number held anywhere under this array's
    /// elements to its canonical narrowed width; length, order and
    /// every other part of each element's shape are untouched.
    pub fn clean(&mut self)
        ensures
            deep_view_seq(final(self)@) == cleaned_seq(deep_view_seq(old(self)@)),
            final(self)@.len() == old(self)@.len(),
            wf_seq(old(self)@) ==> wf_seq(final(self)@),
    {
        let ghost pre = self.elements@;
        let mut elems: Vec<Value> = Vec::new();
        core::mem::swap(&mut self.elements, &mut elems);
        let v = clean_owned(Value::Array(Array { elements: elems }));
        match v {
            Value::Array(a) => {
                self.elements = a.elements;
            },
            _ => {
                proof {
                    assert(false);
                }
            },
        }
        proof {
            lemma_deep_view_seq(pre);
            lemma_deep_view_seq(self.elements@);
            lemma_cleaned_seq(deep_view_seq(pre));
        }
    }
}

impl Object {
    /// Normalizes every number held anywhere under this object's
    /// values to its canonical narrowed width; the backend, the keys,
    /// their order and every other part of each value's shape are
    /// untouched.
    pub fn clean(&mut self)
        ensures
            final(self).ordered == old(self).ordered,
            final(self)@.len() == old(self)@.len(),
            forall|i: int| 0 <= i < old(self)@.len() ==> (#[trigger] final(self)@[i]).0@ == old(
                self,
            )@[i].0@,
            forall|i: int|
                0 <= i < old(self)@.len() ==> (#[trigger] final(self)@[i]).1.deep_view() == old(
                    self,
                )@[i].1.deep_view().cleaned(),
            old(self).wf() && wf_entries(old(self)@) ==> final(self).wf() && wf_entries(
                final(self)@,
            ),
    {
        let ghost pre = self.entries@;
        let ghost vpre = Value::Object(Object { ordered: self.ordered, entries: self.entries });
        let mut ents: Vec<(ValueKey, Value)> = Vec::new();
        core::mem::swap(&mut self.entries, &mut ents);
        let v = clean_owned(Value::Object(Object { ordered: self.ordered, entries: ents }));
        match v {
            Value::Object(o) => {
                self.entries = o.entries;
            },
            _ => {
                proof {
                    assert(false);
                }
            },
        }
        proof {
            lemma_deep_view_entries(pre);
            lemma_deep_view_entries(self.entries@);
            lemma_cleaned_entries(deep_view_entries(pre));
            assert forall|i: int| 0 <= i < pre.len() implies (#[trigger] self.entries@[i]).0@
                == pre[i].0@ by {
                assert(deep_view_entries(self.entries@)[i] == cleaned_entries(
                    deep_view_entries(pre),
                )[i]);
            }
            assert forall|i: int| 0 <= i < pre.len() implies (
            #[trigger] self.entries@[i]).1.deep_view() == pre[i].1.deep_view().cleaned() by {
                assert(deep_view_entries(self.entries@)[i] == cleaned_entries(
                    deep_view_entries(pre),
                )[i]);
            }
            if old(self).wf() && wf_entries(pre) {
                lemma_wf_entries(pre);
                lemma_wf_entries(self.entries@);
                assert(crate::object::keys_distinct(self.entries@)) by {
                    assert forall|x: int, y: int|
                        0 <= x < y < self.entries@.len() implies (
                    #[trigger] self.entries@[x]).0@ != (#[trigger] self.entries@[y]).0@ by {
                        assert(pre[x].0@ != pre[y].0@);
                    }
                }
                if self.ordered {
                    assert(crate::object::keys_sorted(self.entries@)) by {
                        assert forall|x: int, y: int|
                            0 <= x < y < self.entries@.len() implies crate::key::bytes_lt(
                            crate::key::key_bytes((#[trigger] self.entries@[x]).0@),
                            crate::key::key_bytes((#[trigger] self.entries@[y]).0@),
                        ) by {
                            assert(crate::key::bytes_lt(
                                crate::key::key_bytes(pre[x].0@),
                                crate::key::key_bytes(pre[y].0@),
                            ));
                        }
                    }
                }
            }
        }
    }
}

} // verus!
