use vstd::prelude::*;
use vstd::string::*;

verus! {

/// What went wrong, by the layer that found it.
#[derive(Clone, Copy, Debug, PartialEq, Eq, Structural)]
pub enum ErrorKind {
    /// A record was rejected before any store operation.
    Validation,
    /// A value could not be written as a document.
    Encode,
    /// A document could not be read as a value.
    Decode,
    /// A required single-result load matched nothing.
    NotFound,
    /// The text of an identifier is malformed.
    IdentifierFormat,
    /// A store operation failed.
    Store,
    /// A session could not be started, committed or aborted.
    Transaction,
    /// A finalizer failed after the transaction was resolved.
    Finalizer,
}

/// An error of the persistence layer: its kind, and the messages that the layers added on its
/// way up, the innermost first.
#[derive(Debug, PartialEq, Eq)]
pub struct Error {
    kind: ErrorKind,
    trail: Vec<String>,
}

/// The texts of a list of messages.
pub open spec fn texts(messages: Seq<String>) -> Seq<Seq<char>> {
    Seq::new(messages.len(), |i: int| messages[i]@)
}

impl Error {
    /// The kind of the error.
    pub closed spec fn spec_kind(&self) -> ErrorKind {
        self.kind
    }

    /// The messages of the error, the innermost first.
    pub closed spec fn trail(&self) -> Seq<Seq<char>> {
        texts(self.trail@)
    }

    /// An error of the given kind with one message.
    pub fn new(kind: ErrorKind, message: &str) -> (r: Error)
        ensures
            r.spec_kind() == kind,
            r.trail() == seq![message@],
    {
        let mut trail: Vec<String> = Vec::new();
        trail.push(message.to_owned());
        let r = Error { kind, trail };
        assert(r.trail() =~= seq![message@]);
        r
    }

    /// The same error with one more message around it. The kind and the earlier messages stay.
    pub fn context(self, message: &str) -> (r: Error)
        ensures
            r.spec_kind() == self.spec_kind(),
            r.trail() == self.trail().push(message@),
    {
        let mut trail = self.trail;
        trail.push(message.to_owned());
        let r = Error { kind: self.kind, trail };
        assert(r.trail() =~= self.trail().push(message@));
        r
    }

    /// The same error under another kind, with one more message around it. The earlier
    /// messages stay.
    pub fn reclassified(self, kind: ErrorKind, message: &str) -> (r: Error)
        ensures
            r.spec_kind() == kind,
            r.trail() == self.trail().push(message@),
    {
        let mut trail = self.trail;
        trail.push(message.to_owned());
        let r = Error { kind, trail };
        assert(r.trail() =~= self.trail().push(message@));
        r
    }

    /// The kind of the error.
    #[verifier::when_used_as_spec(spec_kind)]
    pub fn kind(&self) -> (r: ErrorKind)
        ensures
            r == self.spec_kind(),
    {
        self.kind
    }

    /// The number of messages.
    pub fn depth(&self) -> (r: usize)
        ensures
            r == self.trail().len(),
    {
        self.trail.len()
    }

    /// The message at `index`, counted from the innermost.
    pub fn message_at(&self, index: usize) -> (r: &String)
        requires
            index < self.trail().len(),
        ensures
            r@ == self.trail()[index as int],
    {
        &self.trail[index]
    }

    /// The outermost message.
    pub fn message(&self) -> (r: Option<&String>)
        ensures
            match r {
                Some(text) => self.trail().len() > 0 && text@ == self.trail().last(),
                None => self.trail().len() == 0,
            },
    {
        if self.trail.len() == 0 {
            None
        } else {
            Some(&self.trail[self.trail.len() - 1])
        }
    }
}

impl Clone for Error {
    fn clone(&self) -> (r: Error)
        ensures
            r.spec_kind() == self.spec_kind(),
            r.trail() == self.trail(),
    {
        let mut trail: Vec<String> = Vec::new();
        let mut i: usize = 0;
        while i < self.trail.len()
            invariant
                i <= self.trail.len(),
                trail.len() == i,
                forall|k: int| 0 <= k < i ==> (#[trigger] trail@[k])@ == self.trail@[k]@,
            decreases self.trail.len() - i,
        {
            trail.push(self.trail[i].clone());
            i += 1;
        }
        let r = Error { kind: self.kind, trail };
        assert(r.trail() =~= self.trail());
        r
    }
}

} // verus!
