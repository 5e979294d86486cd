use vstd::prelude::*;

use crate::document::{Document, DocumentModel, Value, ValueModel};

verus! {

/// The order in which found records of one kind come.
pub trait EntitySorting {
    /// The sort document that the sorting stands for.
    open spec fn order(&self) -> DocumentModel {
        arbitrary()
    }

    fn to_document(&self) -> (r: Document)
        ensures
            r@ == self.order(),
    ;
}

/// No order asked for.
#[derive(Debug, Clone, Default)]
pub struct EmptySorting;

impl EntitySorting for EmptySorting {
    open spec fn order(&self) -> DocumentModel {
        DocumentModel::empty()
    }

    fn to_document(&self) -> (r: Document) {
        Document::new()
    }
}

/// The direction of a sort key.
#[derive(Debug, Clone, Copy, Hash, PartialEq, Eq, Structural)]
pub enum SortingDirection {
    Asc,
    Desc,
}

impl Default for SortingDirection {
    /// Ascending, unless asked otherwise.
    fn default() -> (r: Self)
        ensures
            r == SortingDirection::Asc,
    {
        SortingDirection::Asc
    }
}

impl SortingDirection {
    /// The value that the store reads as this direction: 1 for ascending, -1 for descending.
    pub open spec fn value(self) -> ValueModel {
        match self {
            SortingDirection::Asc => ValueModel::Int32(1),
            SortingDirection::Desc => ValueModel::Int32(-1i32),
        }
    }

    /// The value that the store reads as this direction.
    pub fn to_value(self) -> (r: Value)
        ensures
            r@ == self.value(),
    {
        match self {
            SortingDirection::Asc => Value::Int32(1),
            SortingDirection::Desc => Value::Int32(-1),
        }
    }
}

} // verus!
