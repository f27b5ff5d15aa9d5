//! A dynamically typed, self-describing value model: a recursive `Value`
//! tree holding text, numbers of every standard width, booleans, ordered
//! arrays, key/value objects, date/time data, and explicit null/undefined,
//! together with the conversion surface that domain types use to move
//! in and out of that tree.

use vstd::prelude::*;

pub mod array;
pub mod convert;
pub mod datetime;
pub mod impls;
pub mod json;
pub mod key;
pub mod number;
pub mod object;
pub mod render;
pub mod stringb;
pub mod value;

pub use array::Array;
pub use datetime::DateTime;
pub use key::ValueKey;
pub use number::Number;
pub use object::Object;
pub use stringb::StringB;
pub use value::Value;

verus! {

/// The tag of the representation a `Number` currently holds.
#[derive(Clone, Copy, Debug, PartialEq, Eq, Structural)]
pub enum NumberType {
    Unknown,
    I8,
    I16,
    I32,
    I64,
    I128,
    U8,
    U16,
    U32,
    U64,
    U128,
    F32,
    F64,
}

} // verus!
