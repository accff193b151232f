use crate::text::{decimal, push_decimal};
use vstd::prelude::*;

verus! {

/// A number as the machine carries it.
///
/// The library never computes with numbers itself: it moves them between
/// the constant pool and the operand stack and hands operands to the host's
/// arithmetic. A value is therefore kept in one of two encodings.
#[derive(Debug, Clone, PartialEq, Eq)]
pub enum Value {
    /// A number as the source spelled it: decimal digits, optionally a dot
    /// and further digits.
    Literal(String),
    /// A number the host computed, as the 64 bits of its binary encoding.
    Computed(u64),
}

/// A value as contracts speak of it: a literal by its characters, a
/// computed number by its bits.
pub enum Number {
    Literal(Seq<char>),
    Computed(u64),
}

impl View for Value {
    type V = Number;

    open spec fn view(&self) -> Number {
        match self {
            Value::Literal(text) => Number::Literal(text@),
            Value::Computed(bits) => Number::Computed(*bits),
        }
    }
}

impl Number {
    /// The value as a listing shows it: a literal as it was written, a
    /// computed number as `#` and its bits in decimal.
    pub open spec fn written(self) -> Seq<char> {
        match self {
            Number::Literal(text) => text,
            Number::Computed(bits) => "#"@ + decimal(bits as nat),
        }
    }
}

/// The values of a pool or a stack, each by its view.
pub open spec fn views(values: Seq<Value>) -> Seq<Number> {
    Seq::new(values.len(), |i: int| values[i]@)
}

impl Value {
    /// The value as a listing shows it.
    pub fn to_string(&self) -> (text: String)
        ensures
            text@ == self@.written(),
    {
        match self {
            Value::Literal(literal) => literal.clone(),
            Value::Computed(bits) => {
                let mut text = String::from_str("#");
                push_decimal(&mut text, *bits);
                text
            },
        }
    }

    /// A copy of this value.
    pub fn duplicate(&self) -> (copy: Value)
        ensures
            copy == *self,
    {
        match self {
            Value::Literal(text) => Value::Literal(text.clone()),
            Value::Computed(bits) => Value::Computed(*bits),
        }
    }
}

} // verus!
