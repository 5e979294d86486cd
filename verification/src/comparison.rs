use vstd::prelude::*;
use vstd::string::*;

use crate::document::{Document, Value, ValueModel};

verus! {

/// A condition on one field: how its value compares to a given one.
#[derive(Debug, Clone)]
pub enum Comparison<T> {
    Eq(T),
    Gt(T),
    Gte(T),
    Lt(T),
    Lte(T),
}

impl<T> Comparison<T> {
    /// The store's operator for the comparison.
    pub open spec fn operator(&self) -> Seq<char> {
        match self {
            Comparison::Eq(_) => "$eq"@,
            Comparison::Gt(_) => "$gt"@,
            Comparison::Gte(_) => "$gte"@,
            Comparison::Lt(_) => "$lt"@,
            Comparison::Lte(_) => "$lte"@,
        }
    }

    /// The value to compare with.
    pub open spec fn operand(&self) -> T {
        match self {
            Comparison::Eq(value) => *value,
            Comparison::Gt(value) => *value,
            Comparison::Gte(value) => *value,
            Comparison::Lt(value) => *value,
            Comparison::Lte(value) => *value,
        }
    }

    /// The comparison for equality with `value`.
    pub fn from(value: T) -> (r: Self)
        ensures
            r == Comparison::Eq(value),
    {
        Comparison::Eq(value)
    }
}

impl Comparison<Value> {
    /// The document that the store reads as this comparison: the operand under the operator.
    pub open spec fn value(&self) -> ValueModel {
        ValueModel::Document(seq![(self.operator(), self.operand()@)])
    }

    /// The value that the store reads as this comparison.
    pub fn into_value(self) -> (r: Value)
        ensures
            r@ == self.value(),
    {
        let mut doc = Document::new();
        match self {
            Comparison::Eq(value) => {
                doc.insert("$eq".to_owned(), value);
            },
            Comparison::Gt(value) => {
                doc.insert("$gt".to_owned(), value);
            },
            Comparison::Gte(value) => {
                doc.insert("$gte".to_owned(), value);
            },
            Comparison::Lt(value) => {
                doc.insert("$lt".to_owned(), value);
            },
            Comparison::Lte(value) => {
                doc.insert("$lte".to_owned(), value);
            },
        }
        assert(doc@ =~= seq![(self.operator(), self.operand()@)]);
        Value::Document(doc)
    }
}

} // verus!
