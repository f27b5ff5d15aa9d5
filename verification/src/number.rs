//! The polymorphic numeric cell of the value model.
//!
//! A `Number` holds exactly one active representation among the twelve
//! standard widths, tagged by which representation is active, or no
//! representation at all (an unset `Number` reports `NumberType::Unknown`).
//! The ten integer widths are held directly; the two float widths are held
//! as their IEEE-754 bit patterns, so that the verified core never touches
//! a floating-point type.  Cross-width reads follow one value-based rule:
//! a read at width `W` succeeds exactly when the logical integer value fits
//! in `W`'s range.  Reads never cross the integer/float divide.

use vstd::prelude::*;

verus! {

use crate::NumberType;

/// A numeric scalar remembering its origin width and signedness.
///
/// Exactly one variant is active at a time; setters replace the whole
/// variant, so two representations can never be "set" at once.
#[derive(Debug, Clone, Copy)]
pub enum Number {
    /// A valid but uninitialized cell; reports `NumberType::Unknown`.
    Unset,
    I8(i8),
    I16(i16),
    I32(i32),
    I64(i64),
    I128(i128),
    U8(u8),
    U16(u16),
    U32(u32),
    U64(u64),
    U128(u128),
    /// An `f32` payload, held as its IEEE-754 bit pattern.
    F32Bits(u32),
    /// An `f64` payload, held as its IEEE-754 bit pattern.
    F64Bits(u64),
}

/// True of the ten tags whose payload is an integer.
pub open spec fn is_integer_tag(t: NumberType) -> bool {
    match t {
        NumberType::I8 | NumberType::I16 | NumberType::I32 | NumberType::I64
        | NumberType::I128 | NumberType::U8 | NumberType::U16 | NumberType::U32
        | NumberType::U64 | NumberType::U128 => true,
        _ => false,
    }
}

/// Smallest logical value an integer tag can hold (0 for non-integer tags).
pub open spec fn tag_min(t: NumberType) -> int {
    match t {
        NumberType::I8 => i8::MIN as int,
        NumberType::I16 => i16::MIN as int,
        NumberType::I32 => i32::MIN as int,
        NumberType::I64 => i64::MIN as int,
        NumberType::I128 => i128::MIN as int,
        _ => 0,
    }
}

/// Largest logical value an integer tag can hold (-1 for non-integer tags,
/// so that nothing fits them).
pub open spec fn tag_max(t: NumberType) -> int {
    match t {
        NumberType::I8 => i8::MAX as int,
        NumberType::I16 => i16::MAX as int,
        NumberType::I32 => i32::MAX as int,
        NumberType::I64 => i64::MAX as int,
        NumberType::I128 => i128::MAX as int,
        NumberType::U8 => u8::MAX as int,
        NumberType::U16 => u16::MAX as int,
        NumberType::U32 => u32::MAX as int,
        NumberType::U64 => u64::MAX as int,
        NumberType::U128 => u128::MAX as int,
        _ => -1,
    }
}

impl Number {
    /// The tag of the active representation.
    pub open spec fn number_type_spec(self) -> NumberType {
        match self {
            Number::Unset => NumberType::Unknown,
            Number::I8(_) => NumberType::I8,
            Number::I16(_) => NumberType::I16,
            Number::I32(_) => NumberType::I32,
            Number::I64(_) => NumberType::I64,
            Number::I128(_) => NumberType::I128,
            Number::U8(_) => NumberType::U8,
            Number::U16(_) => NumberType::U16,
            Number::U32(_) => NumberType::U32,
            Number::U64(_) => NumberType::U64,
            Number::U128(_) => NumberType::U128,
            Number::F32Bits(_) => NumberType::F32,
            Number::F64Bits(_) => NumberType::F64,
        }
    }

    /// The logical value, when the active representation is an integer.
    pub open spec fn int_value(self) -> Option<int> {
        match self {
            Number::I8(v) => Some(v as int),
            Number::I16(v) => Some(v as int),
            Number::I32(v) => Some(v as int),
            Number::I64(v) => Some(v as int),
            Number::I128(v) => Some(v as int),
            Number::U8(v) => Some(v as int),
            Number::U16(v) => Some(v as int),
            Number::U32(v) => Some(v as int),
            Number::U64(v) => Some(v as int),
            Number::U128(v) => Some(v as int),
            _ => None,
        }
    }

    /// The `Number` an integer tag and an in-range value make.
    pub open spec fn from_tag(t: NumberType, v: int) -> Number
        recommends
            is_integer_tag(t),
            tag_min(t) <= v <= tag_max(t),
    {
        match t {
            NumberType::I8 => Number::I8(v as i8),
            NumberType::I16 => Number::I16(v as i16),
            NumberType::I32 => Number::I32(v as i32),
            NumberType::I64 => Number::I64(v as i64),
            NumberType::I128 => Number::I128(v as i128),
            NumberType::U8 => Number::U8(v as u8),
            NumberType::U16 => Number::U16(v as u16),
            NumberType::U32 => Number::U32(v as u32),
            NumberType::U64 => Number::U64(v as u64),
            _ => Number::U128(v as u128),
        }
    }

    /// What a read at integer tag `t` yields: the logical value when it is
    /// an integer that fits `t`'s range, and nothing otherwise.
    pub open spec fn read_as(self, t: NumberType) -> Option<int> {
        if is_integer_tag(t) {
            match self.int_value() {
                Some(v) => if tag_min(t) <= v && v <= tag_max(t) {
                    Some(v)
                } else {
                    None
                },
                None => None,
            }
        } else {
            None
        }
    }

    /// Logical equality: two integer payloads are the same number, two
    /// float payloads carry the same tag and bit pattern, two unset cells
    /// are the same; nothing crosses the integer/float/unset divide.
    pub open spec fn same_value(self, other: Number) -> bool {
        match (self.int_value(), other.int_value()) {
            (Some(a), Some(b)) => a == b,
            (None, None) => match (self, other) {
                (Number::Unset, Number::Unset) => true,
                (Number::F32Bits(a), Number::F32Bits(b)) => a == b,
                (Number::F64Bits(a), Number::F64Bits(b)) => a == b,
                _ => false,
            },
            _ => false,
        }
    }

    /// A fresh, unset cell.
    pub fn new() -> (r: Number)
        ensures
            r == Number::Unset,
    {
        Number::Unset
    }

    /// The sign and magnitude of the logical integer value, when one is
    /// active.  A zero magnitude never reports a negative sign.
    pub(crate) fn sign_mag(&self) -> (r: Option<(bool, u128)>)
        ensures
            match r {
                Some(p) => {
                    &&& self.int_value() == Some(
                        if p.0 { -(p.1 as int) } else { p.1 as int },
                    )
                    &&& (p.0 ==> p.1 >= 1)
                },
                None => self.int_value() is None,
            },
    {
        match self {
            Number::Unset => None,
            Number::I8(v) => Some(Number::i128_sign_mag(*v as i128)),
            Number::I16(v) => Some(Number::i128_sign_mag(*v as i128)),
            Number::I32(v) => Some(Number::i128_sign_mag(*v as i128)),
            Number::I64(v) => Some(Number::i128_sign_mag(*v as i128)),
            Number::I128(v) => Some(Number::i128_sign_mag(*v)),
            Number::U8(v) => Some((false, *v as u128)),
            Number::U16(v) => Some((false, *v as u128)),
            Number::U32(v) => Some((false, *v as u128)),
            Number::U64(v) => Some((false, *v as u128)),
            Number::U128(v) => Some((false, *v)),
            Number::F32Bits(_) => None,
            Number::F64Bits(_) => None,
        }
    }

    fn i128_sign_mag(v: i128) -> (r: (bool, u128))
        ensures
            v as int == if r.0 { -(r.1 as int) } else { r.1 as int },
            r.0 ==> r.1 >= 1,
    {
        if v >= 0 {
            (false, v as u128)
        } else {
            (true, ((-(v + 1)) as u128) + 1)
        }
    }

    /// Rebuilds the cell holding the given sign and magnitude at the
    /// narrowest tag that fits it: unsigned for non-negative values,
    /// signed for negative ones.
    fn from_sign_mag_narrow(neg: bool, mag: u128) -> (r: Number)
        requires
            neg ==> mag >= 1,
            neg ==> mag <= i128::MIN as int * -1,
        ensures
            r == Number::narrowed(if neg { -(mag as int) } else { mag as int }),
    {
        if !neg {
            if mag <= u8::MAX as u128 {
                Number::U8(mag as u8)
            } else if mag <= u16::MAX as u128 {
                Number::U16(mag as u16)
            } else if mag <= u32::MAX as u128 {
                Number::U32(mag as u32)
            } else if mag <= u64::MAX as u128 {
                Number::U64(mag as u64)
            } else {
                Number::U128(mag)
            }
        } else {
            if mag <= 128 {
                Number::I8((-((mag as i128) - 1) - 1) as i8)
            } else if mag <= 32768 {
                Number::I16((-((mag as i128) - 1) - 1) as i16)
            } else if mag <= 2147483648 {
                Number::I32((-((mag as i128) - 1) - 1) as i32)
            } else if mag <= 9223372036854775808 {
                Number::I64((-((mag as i128) - 1) - 1) as i64)
            } else if mag <= i128::MAX as u128 {
                Number::I128(-(mag as i128))
            } else {
                Number::I128(i128::MIN)
            }
        }
    }

    /// The canonical narrowed form of an integer value: the narrowest
    /// unsigned tag for a non-negative value, the narrowest signed tag
    /// for a negative one.
    pub open spec fn narrowed(v: int) -> Number
        recommends
            i128::MIN <= v <= u128::MAX,
    {
        if v >= 0 {
            if v <= u8::MAX as int {
                Number::U8(v as u8)
            } else if v <= u16::MAX as int {
                Number::U16(v as u16)
            } else if v <= u32::MAX as int {
                Number::U32(v as u32)
            } else if v <= u64::MAX as int {
                Number::U64(v as u64)
            } else {
                Number::U128(v as u128)
            }
        } else {
            if v >= i8::MIN as int {
                Number::I8(v as i8)
            } else if v >= i16::MIN as int {
                Number::I16(v as i16)
            } else if v >= i32::MIN as int {
                Number::I32(v as i32)
            } else if v >= i64::MIN as int {
                Number::I64(v as i64)
            } else {
                Number::I128(v as i128)
            }
        }
    }

    /// What `clean` leaves behind: integer payloads move to their
    /// canonical narrowed tag; float payloads and unset cells are kept
    /// as they are.
    pub open spec fn cleaned(self) -> Number {
        match self.int_value() {
            Some(v) => Number::narrowed(v),
            None => self,
        }
    }

    /// Normalizes the stored representation without changing the logical
    /// value: an integer payload is re-tagged at the narrowest width that
    /// holds it (unsigned when non-negative, signed when negative); float
    /// payloads and unset cells are left untouched.  The rule is
    /// deterministic and idempotent.
    pub fn clean(&mut self)
        ensures
            *final(self) == old(self).cleaned(),
            final(self).int_value() == old(self).int_value(),
    {
        match self.sign_mag() {
            Some(p) => {
                *self = Number::from_sign_mag_narrow(p.0, p.1);
            },
            None => {},
        }
    }

    /// The bit pattern held, when the active representation is `f32`.
    pub open spec fn f32_bits_spec(self) -> Option<u32> {
        match self {
            Number::F32Bits(b) => Some(b),
            _ => None,
        }
    }

    /// The bit pattern held, when the active representation is `f64`.
    pub open spec fn f64_bits_spec(self) -> Option<u64> {
        match self {
            Number::F64Bits(b) => Some(b),
            _ => None,
        }
    }

    /// Reads the logical value clamped to an unsigned range `0..=max`.
    fn get_unsigned_max(&self, max: u128) -> (r: Option<u128>)
        ensures
            match self.int_value() {
                Some(v) => if 0 <= v && v <= max as int {
                    r == Some(v as u128)
                } else {
                    r is None
                },
                None => r is None,
            },
    {
        match self.sign_mag() {
            Some(p) => if !p.0 && p.1 <= max {
                Some(p.1)
            } else {
                None
            },
            None => None,
        }
    }

    /// Reads the logical value clamped to a signed range
    /// `-(neg_mag)..=max_pos`.
    fn get_signed_in(&self, neg_mag: u128, max_pos: u128) -> (r: Option<i128>)
        requires
            neg_mag as int <= i128::MIN as int * -1,
            max_pos <= i128::MAX as u128,
        ensures
            match self.int_value() {
                Some(v) => if -(neg_mag as int) <= v && v <= max_pos as int {
                    r is Some && r->0 as int == v
                } else {
                    r is None
                },
                None => r is None,
            },
    {
        match self.sign_mag() {
            Some(p) => {
                if p.0 {
                    if p.1 <= neg_mag {
                        if p.1 <= i128::MAX as u128 {
                            Some(-(p.1 as i128))
                        } else {
                            Some(i128::MIN)
                        }
                    } else {
                        None
                    }
                } else {
                    if p.1 <= max_pos {
                        Some(p.1 as i128)
                    } else {
                        None
                    }
                }
            },
            None => None,
        }
    }

    pub fn get_u8(&self) -> (r: Option<u8>)
        ensures
            r == match self.read_as(NumberType::U8) {
                Some(v) => Some(v as u8),
                None => None::<u8>,
            },
    {
        match self.get_unsigned_max(u8::MAX as u128) {
            Some(m) => Some(m as u8),
            None => None,
        }
    }

    pub fn get_u16(&self) -> (r: Option<u16>)
        ensures
            r == match self.read_as(NumberType::U16) {
                Some(v) => Some(v as u16),
                None => None::<u16>,
            },
    {
        match self.get_unsigned_max(u16::MAX as u128) {
            Some(m) => Some(m as u16),
            None => None,
        }
    }

    pub fn get_u32(&self) -> (r: Option<u32>)
        ensures
            r == match self.read_as(NumberType::U32) {
                Some(v) => Some(v as u32),
                None => None::<u32>,
            },
    {
        match self.get_unsigned_max(u32::MAX as u128) {
            Some(m) => Some(m as u32),
            None => None,
        }
    }

    pub fn get_u64(&self) -> (r: Option<u64>)
        ensures
            r == match self.read_as(NumberType::U64) {
                Some(v) => Some(v as u64),
                None => None::<u64>,
            },
    {
        match self.get_unsigned_max(u64::MAX as u128) {
            Some(m) => Some(m as u64),
            None => None,
        }
    }

    pub fn get_u128(&self) -> (r: Option<u128>)
        ensures
            r == match self.read_as(NumberType::U128) {
                Some(v) => Some(v as u128),
                None => None::<u128>,
            },
    {
        self.get_unsigned_max(u128::MAX)
    }

    pub fn get_i8(&self) -> (r: Option<i8>)
        ensures
            r == match self.read_as(NumberType::I8) {
                Some(v) => Some(v as i8),
                None => None::<i8>,
            },
    {
        match self.get_signed_in(128, 127) {
            Some(m) => Some(m as i8),
            None => None,
        }
    }

    pub fn get_i16(&self) -> (r: Option<i16>)
        ensures
            r == match self.read_as(NumberType::I16) {
                Some(v) => Some(v as i16),
                None => None::<i16>,
            },
    {
        match self.get_signed_in(32768, 32767) {
            Some(m) => Some(m as i16),
            None => None,
        }
    }

    pub fn get_i32(&self) -> (r: Option<i32>)
        ensures
            r == match self.read_as(NumberType::I32) {
                Some(v) => Some(v as i32),
                None => None::<i32>,
            },
    {
        match self.get_signed_in(2147483648, 2147483647) {
            Some(m) => Some(m as i32),
            None => None,
        }
    }

    pub fn get_i64(&self) -> (r: Option<i64>)
        ensures
            r == match self.read_as(NumberType::I64) {
                Some(v) => Some(v as i64),
                None => None::<i64>,
            },
    {
        match self.get_signed_in(9223372036854775808, 9223372036854775807) {
            Some(m) => Some(m as i64),
            None => None,
        }
    }

    pub fn get_i128(&self) -> (r: Option<i128>)
        ensures
            r == match self.read_as(NumberType::I128) {
                Some(v) => Some(v as i128),
                None => None::<i128>,
            },
    {
        self.get_signed_in(170141183460469231731687303715884105728, 170141183460469231731687303715884105727)
    }

    /// The `f32` payload's bit pattern, only when the active tag is `f32`.
    pub fn get_f32_bits(&self) -> (r: Option<u32>)
        ensures
            r == self.f32_bits_spec(),
    {
        match self {
            Number::F32Bits(b) => Some(*b),
            _ => None,
        }
    }

    /// The `f64` payload's bit pattern, only when the active tag is `f64`.
    pub fn get_f64_bits(&self) -> (r: Option<u64>)
        ensures
            r == self.f64_bits_spec(),
    {
        match self {
            Number::F64Bits(b) => Some(*b),
            _ => None,
        }
    }

    pub fn get_u8_unsafe(&self) -> (r: u8)
        requires
            self.read_as(NumberType::U8) is Some,
        ensures
            Some(r as int) == self.read_as(NumberType::U8),
    {
        self.get_u8().unwrap()
    }

    pub fn get_u16_unsafe(&self) -> (r: u16)
        requires
            self.read_as(NumberType::U16) is Some,
        ensures
            Some(r as int) == self.read_as(NumberType::U16),
    {
        self.get_u16().unwrap()
    }

    pub fn get_u32_unsafe(&self) -> (r: u32)
        requires
            self.read_as(NumberType::U32) is Some,
        ensures
            Some(r as int) == self.read_as(NumberType::U32),
    {
        self.get_u32().unwrap()
    }

    pub fn get_u64_unsafe(&self) -> (r: u64)
        requires
            self.read_as(NumberType::U64) is Some,
        ensures
            Some(r as int) == self.read_as(NumberType::U64),
    {
        self.get_u64().unwrap()
    }

    pub fn get_u128_unsafe(&self) -> (r: u128)
        requires
            self.read_as(NumberType::U128) is Some,
        ensures
            Some(r as int) == self.read_as(NumberType::U128),
    {
        self.get_u128().unwrap()
    }

    pub fn get_i8_unsafe(&self) -> (r: i8)
        requires
            self.read_as(NumberType::I8) is Some,
        ensures
            Some(r as int) == self.read_as(NumberType::I8),
    {
        self.get_i8().unwrap()
    }

    pub fn get_i16_unsafe(&self) -> (r: i16)
        requires
            self.read_as(NumberType::I16) is Some,
        ensures
            Some(r as int) == self.read_as(NumberType::I16),
    {
        self.get_i16().unwrap()
    }

    pub fn get_i32_unsafe(&self) -> (r: i32)
        requires
            self.read_as(NumberType::I32) is Some,
        ensures
            Some(r as int) == self.read_as(NumberType::I32),
    {
        self.get_i32().unwrap()
    }

    pub fn get_i64_unsafe(&self) -> (r: i64)
        requires
            self.read_as(NumberType::I64) is Some,
        ensures
            Some(r as int) == self.read_as(NumberType::I64),
    {
        self.get_i64().unwrap()
    }

    pub fn get_i128_unsafe(&self) -> (r: i128)
        requires
            self.read_as(NumberType::I128) is Some,
        ensures
            Some(r as int) == self.read_as(NumberType::I128),
    {
        self.get_i128().unwrap()
    }

    pub fn get_f32_bits_unsafe(&self) -> (r: u32)
        requires
            self.f32_bits_spec() is Some,
        ensures
            Some(r) == self.f32_bits_spec(),
    {
        self.get_f32_bits().unwrap()
    }

    pub fn get_f64_bits_unsafe(&self) -> (r: u64)
        requires
            self.f64_bits_spec() is Some,
        ensures
            Some(r) == self.f64_bits_spec(),
    {
        self.get_f64_bits().unwrap()
    }

    pub fn set_u8(&mut self, value: u8)
        ensures
            *final(self) == Number::U8(value),
    {
        *self = Number::U8(value);
    }

    pub fn set_u16(&mut self, value: u16)
        ensures
            *final(self) == Number::U16(value),
    {
        *self = Number::U16(value);
    }

    pub fn set_u32(&mut self, value: u32)
        ensures
            *final(self) == Number::U32(value),
    {
        *self = Number::U32(value);
    }

    pub fn set_u64(&mut self, value: u64)
        ensures
            *final(self) == Number::U64(value),
    {
        *self = Number::U64(value);
    }

    pub fn set_u128(&mut self, value: u128)
        ensures
            *final(self) == Number::U128(value),
    {
        *self = Number::U128(value);
    }

    pub fn set_i8(&mut self, value: i8)
        ensures
            *final(self) == Number::I8(value),
    {
        *self = Number::I8(value);
    }

    pub fn set_i16(&mut self, value: i16)
        ensures
            *final(self) == Number::I16(value),
    {
        *self = Number::I16(value);
    }

    pub fn set_i32(&mut self, value: i32)
        ensures
            *final(self) == Number::I32(value),
    {
        *self = Number::I32(value);
    }

    pub fn set_i64(&mut self, value: i64)
        ensures
            *final(self) == Number::I64(value),
    {
        *self = Number::I64(value);
    }

    pub fn set_i128(&mut self, value: i128)
        ensures
            *final(self) == Number::I128(value),
    {
        *self = Number::I128(value);
    }

    /// Stores an `f32` payload given as its IEEE-754 bit pattern.
    pub fn set_f32_bits(&mut self, bits: u32)
        ensures
            *final(self) == Number::F32Bits(bits),
    {
        *self = Number::F32Bits(bits);
    }

    /// Stores an `f64` payload given as its IEEE-754 bit pattern.
    pub fn set_f64_bits(&mut self, bits: u64)
        ensures
            *final(self) == Number::F64Bits(bits),
    {
        *self = Number::F64Bits(bits);
    }

    pub fn is_u8(&self) -> (r: bool)
        ensures
            r == (self.number_type_spec() == NumberType::U8),
    {
        matches!(self, Number::U8(_))
    }

    pub fn is_u16(&self) -> (r: bool)
        ensures
            r == (self.number_type_spec() == NumberType::U16),
    {
        matches!(self, Number::U16(_))
    }

    pub fn is_u32(&self) -> (r: bool)
        ensures
            r == (self.number_type_spec() == NumberType::U32),
    {
        matches!(self, Number::U32(_))
    }

    pub fn is_u64(&self) -> (r: bool)
        ensures
            r == (self.number_type_spec() == NumberType::U64),
    {
        matches!(self, Number::U64(_))
    }

    pub fn is_u128(&self) -> (r: bool)
        ensures
            r == (self.number_type_spec() == NumberType::U128),
    {
        matches!(self, Number::U128(_))
    }

    pub fn is_i8(&self) -> (r: bool)
        ensures
            r == (self.number_type_spec() == NumberType::I8),
    {
        matches!(self, Number::I8(_))
    }

    pub fn is_i16(&self) -> (r: bool)
        ensures
            r == (self.number_type_spec() == NumberType::I16),
    {
        matches!(self, Number::I16(_))
    }

    pub fn is_i32(&self) -> (r: bool)
        ensures
            r == (self.number_type_spec() == NumberType::I32),
    {
        matches!(self, Number::I32(_))
    }

    pub fn is_i64(&self) -> (r: bool)
        ensures
            r == (self.number_type_spec() == NumberType::I64),
    {
        matches!(self, Number::I64(_))
    }

    pub fn is_i128(&self) -> (r: bool)
        ensures
            r == (self.number_type_spec() == NumberType::I128),
    {
        matches!(self, Number::I128(_))
    }

    pub fn is_f32(&self) -> (r: bool)
        ensures
            r == (self.number_type_spec() == NumberType::F32),
    {
        matches!(self, Number::F32Bits(_))
    }

    pub fn is_f64(&self) -> (r: bool)
        ensures
            r == (self.number_type_spec() == NumberType::F64),
    {
        matches!(self, Number::F64Bits(_))
    }

    /// True of the ten integer tags.
    pub open spec fn is_integer_spec(self) -> bool {
        is_integer_tag(self.number_type_spec())
    }

    /// True of the two float tags.
    pub open spec fn is_float_spec(self) -> bool {
        self.number_type_spec() == NumberType::F32
            || self.number_type_spec() == NumberType::F64
    }

    /// True of the signed tags: the five signed integer widths and the
    /// two float widths.
    pub open spec fn is_signed_spec(self) -> bool {
        match self.number_type_spec() {
            NumberType::I8 | NumberType::I16 | NumberType::I32 | NumberType::I64
            | NumberType::I128 | NumberType::F32 | NumberType::F64 => true,
            _ => false,
        }
    }

    /// True of the five unsigned integer tags.
    pub open spec fn is_unsigned_spec(self) -> bool {
        match self.number_type_spec() {
            NumberType::U8 | NumberType::U16 | NumberType::U32 | NumberType::U64
            | NumberType::U128 => true,
            _ => false,
        }
    }

    pub fn is_integer(&self) -> (r: bool)
        ensures
            r == self.is_integer_spec(),
    {
        match self {
            Number::Unset | Number::F32Bits(_) | Number::F64Bits(_) => false,
            _ => true,
        }
    }

    pub fn is_float(&self) -> (r: bool)
        ensures
            r == self.is_float_spec(),
    {
        matches!(self, Number::F32Bits(_) | Number::F64Bits(_))
    }

    pub fn is_signed(&self) -> (r: bool)
        ensures
            r == self.is_signed_spec(),
    {
        matches!(
            self,
            Number::I8(_) | Number::I16(_) | Number::I32(_) | Number::I64(_)
            | Number::I128(_) | Number::F32Bits(_) | Number::F64Bits(_)
        )
    }

    pub fn is_unsigned(&self) -> (r: bool)
        ensures
            r == self.is_unsigned_spec(),
    {
        matches!(
            self,
            Number::U8(_) | Number::U16(_) | Number::U32(_) | Number::U64(_)
            | Number::U128(_)
        )
    }

    /// True when the logical value is zero.  A float payload counts as
    /// zero exactly when its magnitude bits are all clear, so both IEEE
    /// zeroes qualify; an unset cell does not.
    pub open spec fn is_zero_spec(self) -> bool {
        match self.int_value() {
            Some(v) => v == 0,
            None => match self {
                Number::F32Bits(b) => b & 0x7fff_ffff == 0,
                Number::F64Bits(b) => b & 0x7fff_ffff_ffff_ffff == 0,
                _ => false,
            },
        }
    }

    /// True when the logical value is strictly positive.  A float payload
    /// counts as positive when its sign bit is clear and it is not a
    /// zero; an unset cell is neither positive nor negative.
    pub open spec fn is_positive_spec(self) -> bool {
        match self.int_value() {
            Some(v) => v > 0,
            None => match self {
                Number::F32Bits(b) => b & 0x8000_0000 == 0 && b & 0x7fff_ffff != 0,
                Number::F64Bits(b) => b & 0x8000_0000_0000_0000 == 0
                    && b & 0x7fff_ffff_ffff_ffff != 0,
                _ => false,
            },
        }
    }

    /// True when the logical value is strictly negative.  A float payload
    /// counts as negative when its sign bit is set and it is not a zero.
    pub open spec fn is_negative_spec(self) -> bool {
        match self.int_value() {
            Some(v) => v < 0,
            None => match self {
                Number::F32Bits(b) => b & 0x8000_0000 != 0 && b & 0x7fff_ffff != 0,
                Number::F64Bits(b) => b & 0x8000_0000_0000_0000 != 0
                    && b & 0x7fff_ffff_ffff_ffff != 0,
                _ => false,
            },
        }
    }

    pub fn is_zero(&self) -> (r: bool)
        ensures
            r == self.is_zero_spec(),
    {
        match self {
            Number::Unset => false,
            Number::I8(v) => *v == 0,
            Number::I16(v) => *v == 0,
            Number::I32(v) => *v == 0,
            Number::I64(v) => *v == 0,
            Number::I128(v) => *v == 0,
            Number::U8(v) => *v == 0,
            Number::U16(v) => *v == 0,
            Number::U32(v) => *v == 0,
            Number::U64(v) => *v == 0,
            Number::U128(v) => *v == 0,
            Number::F32Bits(b) => *b & 0x7fff_ffff == 0,
            Number::F64Bits(b) => *b & 0x7fff_ffff_ffff_ffff == 0,
        }
    }

    pub fn is_positive(&self) -> (r: bool)
        ensures
            r == self.is_positive_spec(),
    {
        match self {
            Number::Unset => false,
            Number::I8(v) => *v > 0,
            Number::I16(v) => *v > 0,
            Number::I32(v) => *v > 0,
            Number::I64(v) => *v > 0,
            Number::I128(v) => *v > 0,
            Number::U8(v) => *v > 0,
            Number::U16(v) => *v > 0,
            Number::U32(v) => *v > 0,
            Number::U64(v) => *v > 0,
            Number::U128(v) => *v > 0,
            Number::F32Bits(b) => *b & 0x8000_0000 == 0 && *b & 0x7fff_ffff != 0,
            Number::F64Bits(b) => *b & 0x8000_0000_0000_0000 == 0
                && *b & 0x7fff_ffff_ffff_ffff != 0,
        }
    }

    pub fn is_negative(&self) -> (r: bool)
        ensures
            r == self.is_negative_spec(),
    {
        match self {
            Number::Unset => false,
            Number::I8(v) => *v < 0,
            Number::I16(v) => *v < 0,
            Number::I32(v) => *v < 0,
            Number::I64(v) => *v < 0,
            Number::I128(v) => *v < 0,
            Number::U8(_) | Number::U16(_) | Number::U32(_) | Number::U64(_)
            | Number::U128(_) => false,
            Number::F32Bits(b) => *b & 0x8000_0000 != 0 && *b & 0x7fff_ffff != 0,
            Number::F64Bits(b) => *b & 0x8000_0000_0000_0000 != 0
                && *b & 0x7fff_ffff_ffff_ffff != 0,
        }
    }

    /// The active tag, or `NumberType::Unknown` for an unset cell.
    pub fn number_type(&self) -> (r: NumberType)
        ensures
            r == self.number_type_spec(),
    {
        match self {
            Number::Unset => NumberType::Unknown,
            Number::I8(_) => NumberType::I8,
            Number::I16(_) => NumberType::I16,
            Number::I32(_) => NumberType::I32,
            Number::I64(_) => NumberType::I64,
            Number::I128(_) => NumberType::I128,
            Number::U8(_) => NumberType::U8,
            Number::U16(_) => NumberType::U16,
            Number::U32(_) => NumberType::U32,
            Number::U64(_) => NumberType::U64,
            Number::U128(_) => NumberType::U128,
            Number::F32Bits(_) => NumberType::F32,
            Number::F64Bits(_) => NumberType::F64,
        }
    }
}

impl PartialEq for Number {
    /// Logical equality: an `i32` holding 3 equals a `u8` holding 3.
    fn eq(&self, other: &Number) -> (r: bool) {
        match (self, other) {
            (Number::Unset, Number::Unset) => true,
            (Number::F32Bits(a), Number::F32Bits(b)) => a == b,
            (Number::F64Bits(a), Number::F64Bits(b)) => a == b,
            _ => match (self.sign_mag(), other.sign_mag()) {
                (Some(p), Some(q)) => p.0 == q.0 && p.1 == q.1,
                _ => false,
            },
        }
    }
}

impl vstd::std_specs::cmp::PartialEqSpecImpl for Number {
    open spec fn obeys_eq_spec() -> bool {
        true
    }

    open spec fn eq_spec(&self, other: &Number) -> bool {
        self.same_value(*other)
    }
}

impl Default for Number {
    /// A fresh, unset cell.
    fn default() -> (r: Number)
        ensures
            r == Number::Unset,
    {
        Number::Unset
    }
}

impl From<u8> for Number {
    fn from(value: u8) -> (r: Number) {
        Number::U8(value)
    }
}

impl vstd::std_specs::convert::FromSpecImpl<u8> for Number {
    open spec fn obeys_from_spec() -> bool {
        true
    }

    open spec fn from_spec(value: u8) -> Number {
        Number::U8(value)
    }
}

impl From<u16> for Number {
    fn from(value: u16) -> (r: Number) {
        Number::U16(value)
    }
}

impl vstd::std_specs::convert::FromSpecImpl<u16> for Number {
    open spec fn obeys_from_spec() -> bool {
        true
    }

    open spec fn from_spec(value: u16) -> Number {
        Number::U16(value)
    }
}

impl From<u32> for Number {
    fn from(value: u32) -> (r: Number) {
        Number::U32(value)
    }
}

impl vstd::std_specs::convert::FromSpecImpl<u32> for Number {
    open spec fn obeys_from_spec() -> bool {
        true
    }

    open spec fn from_spec(value: u32) -> Number {
        Number::U32(value)
    }
}

impl From<u64> for Number {
    fn from(value: u64) -> (r: Number) {
        Number::U64(value)
    }
}

impl vstd::std_specs::convert::FromSpecImpl<u64> for Number {
    open spec fn obeys_from_spec() -> bool {
        true
    }

    open spec fn from_spec(value: u64) -> Number {
        Number::U64(value)
    }
}

impl From<u128> for Number {
    fn from(value: u128) -> (r: Number) {
        Number::U128(value)
    }
}

impl vstd::std_specs::convert::FromSpecImpl<u128> for Number {
    open spec fn obeys_from_spec() -> bool {
        true
    }

    open spec fn from_spec(value: u128) -> Number {
        Number::U128(value)
    }
}

impl From<i8> for Number {
    fn from(value: i8) -> (r: Number) {
        Number::I8(value)
    }
}

impl vstd::std_specs::convert::FromSpecImpl<i8> for Number {
    open spec fn obeys_from_spec() -> bool {
        true
    }

    open spec fn from_spec(value: i8) -> Number {
        Number::I8(value)
    }
}

impl From<i16> for Number {
    fn from(value: i16) -> (r: Number) {
        Number::I16(value)
    }
}

impl vstd::std_specs::convert::FromSpecImpl<i16> for Number {
    open spec fn obeys_from_spec() -> bool {
        true
    }

    open spec fn from_spec(value: i16) -> Number {
        Number::I16(value)
    }
}

impl From<i32> for Number {
    fn from(value: i32) -> (r: Number) {
        Number::I32(value)
    }
}

impl vstd::std_specs::convert::FromSpecImpl<i32> for Number {
    open spec fn obeys_from_spec() -> bool {
        true
    }

    open spec fn from_spec(value: i32) -> Number {
        Number::I32(value)
    }
}

impl From<i64> for Number {
    fn from(value: i64) -> (r: Number) {
        Number::I64(value)
    }
}

impl vstd::std_specs::convert::FromSpecImpl<i64> for Number {
    open spec fn obeys_from_spec() -> bool {
        true
    }

    open spec fn from_spec(value: i64) -> Number {
        Number::I64(value)
    }
}

impl From<i128> for Number {
    fn from(value: i128) -> (r: Number) {
        Number::I128(value)
    }
}

impl vstd::std_specs::convert::FromSpecImpl<i128> for Number {
    open spec fn obeys_from_spec() -> bool {
        true
    }

    open spec fn from_spec(value: i128) -> Number {
        Number::I128(value)
    }
}

/// Cross-width lossless retrieval is width-tag-independent: a value that
/// fits two integer widths reads back identically whichever of the two
/// tags it was stored under.
pub proof fn lemma_cross_width_read(t1: NumberType, t2: NumberType, v: int)
    requires
        is_integer_tag(t1),
        is_integer_tag(t2),
        tag_min(t1) <= v <= tag_max(t1),
        tag_min(t2) <= v <= tag_max(t2),
    ensures
        Number::from_tag(t1, v).read_as(t2) == Some(v),
        Number::from_tag(t1, v).read_as(t2) == Number::from_tag(t2, v).read_as(t1),
{
}

/// `clean` is idempotent and preserves the logical value.
pub proof fn lemma_clean_idempotent(n: Number)
    ensures
        n.cleaned().cleaned() == n.cleaned(),
        n.cleaned().int_value() == n.int_value(),
        n.cleaned().same_value(n),
{
}

} // verus!
