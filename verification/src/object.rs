use vstd::prelude::*;

use crate::document::{Document, DocumentModel};
use crate::error::Error;

verus! {

/// A value that can be written as a document and read back from one.
///
/// The two spec functions name what an implementation computes; the library claims nothing of
/// them but what a caller states as a hypothesis.
pub trait Object: Sized {
    /// The document that stands for the value, or `None` where it cannot be written.
    open spec fn encoded(&self) -> Option<DocumentModel> {
        arbitrary()
    }

    /// The value that a document stands for, or `None` where it stands for none.
    open spec fn decoded(doc: DocumentModel) -> Option<Self> {
        arbitrary()
    }

    fn to_document(&self) -> (r: Result<Document, Error>)
        ensures
            match r {
                Ok(doc) => self.encoded() == Some(doc@),
                Err(_) => self.encoded().is_none(),
            },
    ;

    fn from_document(doc: Document) -> (r: Result<Self, Error>)
        ensures
            match r {
                Ok(value) => Self::decoded(doc@) == Some(value),
                Err(_) => Self::decoded(doc@).is_none(),
            },
    ;
}

} // verus!
