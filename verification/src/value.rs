use crate::number::{equal, number_eq};
use vstd::prelude::*;

verus! {

/// A runtime value as a mathematical value.
pub enum SpecValue {
    Nil,
    Bool(bool),
    /// A number, as its binary64 pattern.
    Number(u64),
    String(Seq<char>),
}

impl SpecValue {
    /// `nil` and `false` count as false, every other value as true.
    pub open spec fn truthiness(self) -> bool {
        match self {
            SpecValue::Nil => false,
            SpecValue::Bool(b) => b,
            _ => true,
        }
    }

    /// Equality of values. Values of two variants are never equal.
    pub open spec fn equals(self, other: SpecValue) -> bool {
        match (self, other) {
            (SpecValue::Nil, SpecValue::Nil) => true,
            (SpecValue::Bool(a), SpecValue::Bool(b)) => a == b,
            (SpecValue::Number(a), SpecValue::Number(b)) => number_eq(a, b),
            (SpecValue::String(a), SpecValue::String(b)) => a == b,
            _ => false,
        }
    }
}

/// A runtime value.
#[derive(Debug, PartialEq, Eq)]
pub enum LoxValue {
    Nil,
    Bool(bool),
    /// A number, as its binary64 pattern.
    Number(u64),
    String(String),
}

impl View for LoxValue {
    type V = SpecValue;

    open spec fn view(&self) -> SpecValue {
        match self {
            LoxValue::Nil => SpecValue::Nil,
            LoxValue::Bool(b) => SpecValue::Bool(*b),
            LoxValue::Number(n) => SpecValue::Number(*n),
            LoxValue::String(s) => SpecValue::String(s@),
        }
    }
}

impl Clone for LoxValue {
    fn clone(&self) -> (r: Self)
        ensures
            r@ == self@,
    {
        match self {
            LoxValue::Nil => LoxValue::Nil,
            LoxValue::Bool(b) => LoxValue::Bool(*b),
            LoxValue::Number(n) => LoxValue::Number(*n),
            LoxValue::String(s) => LoxValue::String(s.clone()),
        }
    }
}

impl LoxValue {
    /// `nil` and `false` count as false, every other value as true.
    pub fn truthiness(&self) -> (r: bool)
        ensures
            r == self@.truthiness(),
    {
        match self {
            LoxValue::Nil => false,
            LoxValue::Bool(b) => *b,
            _ => true,
        }
    }

    /// Equality of values. Values of two variants are never equal.
    pub fn equals(&self, other: &LoxValue) -> (r: bool)
        ensures
            r == self@.equals(other@),
    {
        match (self, other) {
            (LoxValue::Nil, LoxValue::Nil) => true,
            (LoxValue::Bool(a), LoxValue::Bool(b)) => *a == *b,
            (LoxValue::Number(a), LoxValue::Number(b)) => equal(*a, *b),
            (LoxValue::String(a), LoxValue::String(b)) => {
                let same = a.eq(b);
                same
            },
            _ => false,
        }
    }
}

} // verus!
