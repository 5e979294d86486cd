use vstd::prelude::*;

use crate::document::{Document, DocumentModel};

verus! {

/// The conditions by which records of one kind are found.
pub trait EntityConditions {
    /// The filter document that the conditions stand for.
    open spec fn filter(&self) -> DocumentModel {
        arbitrary()
    }

    fn to_document(&self) -> (r: Document)
        ensures
            r@ == self.filter(),
    ;
}

/// No condition: every record matches.
#[derive(Debug, Clone, Default)]
pub struct EmptyConditions;

impl EntityConditions for EmptyConditions {
    open spec fn filter(&self) -> DocumentModel {
        DocumentModel::empty()
    }

    fn to_document(&self) -> (r: Document) {
        Document::new()
    }
}

} // verus!
