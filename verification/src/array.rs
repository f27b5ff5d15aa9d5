//! The ordered sequence payload of a `Value`.

use vstd::prelude::*;

verus! {

use crate::value::Value;

/// An owned, ordered, growable sequence of `Value`.
#[derive(Debug)]
pub struct Array {
    pub elements: Vec<Value>,
}

impl View for Array {
    type V = Seq<Value>;

    open spec fn view(&self) -> Seq<Value> {
        self.elements@
    }
}

impl Array {
    /// An empty sequence.
    pub fn new() -> (r: Array)
        ensures
            r@ == Seq::<Value>::empty(),
    {
        Array { elements: Vec::new() }
    }

    /// An array owning the given values, in their order.
    pub fn from_vec(values: Vec<Value>) -> (r: Array)
        ensures
            r@ == values@,
    {
        Array { elements: values }
    }

    /// The number of values held.
    pub fn len(&self) -> (r: usize)
        ensures
            r == self@.len(),
    {
        self.elements.len()
    }

    /// True when no value is held.
    pub fn is_empty(&self) -> (r: bool)
        ensures
            r == (self@.len() == 0),
    {
        self.elements.len() == 0
    }

    /// Appends a value at the end.
    pub fn push(&mut self, value: Value)
        ensures
            final(self)@ == old(self)@.push(value),
    {
        self.elements.push(value);
    }

    /// Removes and returns the last value, when one is held.
    pub fn pop(&mut self) -> (r: Option<Value>)
        ensures
            old(self)@.len() > 0 ==> r == Some(old(self)@.last()) && final(self)@ == old(
                self,
            )@.drop_last(),
            old(self)@.len() == 0 ==> r is None && final(self)@ == old(self)@,
    {
        if self.elements.len() > 0 {
            Some(self.elements.pop().unwrap())
        } else {
            None
        }
    }

    /// The value at the given position, when it exists.
    pub fn get(&self, index: usize) -> (r: Option<&Value>)
        ensures
            match r {
                Some(v) => index < self@.len() && *v == self@[index as int],
                None => index >= self@.len(),
            },
    {
        if index < self.elements.len() {
            Some(&self.elements[index])
        } else {
            None
        }
    }

    /// Replaces the value at the given position; reports whether the
    /// position existed.
    pub fn set(&mut self, index: usize, value: Value) -> (r: bool)
        ensures
            index < old(self)@.len() ==> r && final(self)@ == old(self)@.update(
                index as int,
                value,
            ),
            index >= old(self)@.len() ==> !r && final(self)@ == old(self)@,
    {
        if index < self.elements.len() {
            self.elements[index] = value;
            true
        } else {
            false
        }
    }

    /// Removes every value.
    pub fn clear(&mut self)
        ensures
            final(self)@ == Seq::<Value>::empty(),
    {
        self.elements.clear();
    }
}

} // verus!
