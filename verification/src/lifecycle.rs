use vstd::prelude::*;

use crate::document::Document;
use crate::entity::{id_document, id_filter, Entity};
use crate::error::{Error, ErrorKind};
use crate::id::EntityId;
use crate::transaction::Transaction;
use crate::util::mixed_case;

verus! {

/// What is done to a record.
#[derive(Clone, Copy, Debug, PartialEq, Eq, Structural)]
pub enum Operation {
    Save,
    SaveWithoutCallbacks,
    Delete,
    DeleteWithoutCallbacks,
}

/// One step of an operation. The library says which step comes next; the application carries
/// it out and reports whether it succeeded.
#[derive(Clone, Copy, Debug, PartialEq, Eq, Structural)]
pub enum Step {
    /// Run the validation of the kind. No store operation has happened yet.
    Validate,
    /// Enter the transaction; the steps up to the end run inside it.
    Enter,
    /// Register the commit and the abort finalizer, each with a snapshot of the record.
    Register,
    /// Run the hook before the write.
    Before,
    /// Set the time of the last update to now.
    Touch,
    /// Write the record as a document.
    Encode,
    /// Send the write to the store.
    Write,
    /// Run the hook after the write.
    After,
}

/// A hook that runs once the root transaction is resolved.
#[derive(Clone, Copy, Debug, PartialEq, Eq, Structural)]
pub enum Hook {
    AfterSaveCommit,
    AfterSaveAbort,
    AfterDeleteCommit,
    AfterDeleteAbort,
}

/// The steps of an operation, in order.
pub open spec fn script(operation: Operation) -> Seq<Step> {
    match operation {
        Operation::Save => seq![
            Step::Validate,
            Step::Enter,
            Step::Register,
            Step::Before,
            Step::Touch,
            Step::Encode,
            Step::Write,
            Step::After,
        ],
        Operation::SaveWithoutCallbacks => seq![
            Step::Validate,
            Step::Encode,
            Step::Enter,
            Step::Write,
        ],
        Operation::Delete => seq![
            Step::Enter,
            Step::Register,
            Step::Before,
            Step::Write,
            Step::After,
        ],
        Operation::DeleteWithoutCallbacks => seq![Step::Enter, Step::Write],
    }
}

/// The hooks that an operation registers: the one for the commit, then the one for the
/// abort.
pub open spec fn hooks_of(operation: Operation) -> Option<(Hook, Hook)> {
    match operation {
        Operation::Save => Some((Hook::AfterSaveCommit, Hook::AfterSaveAbort)),
        Operation::Delete => Some((Hook::AfterDeleteCommit, Hook::AfterDeleteAbort)),
        _ => None,
    }
}

/// Where an operation stands.
pub struct LifecycleModel {
    pub operation: Operation,
    /// How many steps have succeeded.
    pub done: nat,
    /// Whether a step has failed.
    pub failed: bool,
}

impl LifecycleModel {
    /// The step to carry out, or `None` once the operation is over.
    pub open spec fn current(self) -> Option<Step> {
        if self.failed || self.done >= script(self.operation).len() {
            None
        } else {
            Some(script(self.operation)[self.done as int])
        }
    }

    /// Where the operation stands after the current step has ended.
    pub open spec fn after(self, succeeded: bool) -> LifecycleModel {
        if self.current().is_none() {
            self
        } else if succeeded {
            LifecycleModel { done: self.done + 1, ..self }
        } else {
            LifecycleModel { failed: true, ..self }
        }
    }
}

/// Every save validates first, so that a record that is rejected reaches no store operation;
/// and whatever registers finalizers does so before it writes, so that they wait even where
/// the write fails.
pub proof fn lemma_script_order(operation: Operation)
    ensures
        operation == Operation::Save || operation == Operation::SaveWithoutCallbacks ==> script(
            operation,
        )[0] == Step::Validate && (LifecycleModel {
            operation,
            done: 0,
            failed: false,
        }).after(false).current().is_none(),
        hooks_of(operation).is_some() ==> exists|i: int, j: int|
            0 <= i < j < script(operation).len() && script(operation)[i] == Step::Register
                && script(operation)[j] == Step::Write,
        hooks_of(operation).is_none() ==> forall|i: int|
            0 <= i < script(operation).len() ==> script(operation)[i] != Step::Register,
{
    match operation {
        Operation::Save => {
            assert(script(operation)[2] == Step::Register && script(operation)[6] == Step::Write);
        },
        Operation::Delete => {
            assert(script(operation)[1] == Step::Register && script(operation)[3] == Step::Write);
        },
        _ => {},
    }
}

/// The course of one operation on one record.
#[derive(Debug)]
pub struct Lifecycle {
    operation: Operation,
    done: usize,
    failed: bool,
}

impl View for Lifecycle {
    type V = LifecycleModel;

    closed spec fn view(&self) -> LifecycleModel {
        LifecycleModel { operation: self.operation, done: self.done as nat, failed: self.failed }
    }
}

/// The step of `operation` at `index`.
fn step_at(operation: Operation, index: usize) -> (r: Option<Step>)
    ensures
        r == if index < script(operation).len() {
            Some(script(operation)[index as int])
        } else {
            None
        },
{
    match operation {
        Operation::Save => match index {
            0 => Some(Step::Validate),
            1 => Some(Step::Enter),
            2 => Some(Step::Register),
            3 => Some(Step::Before),
            4 => Some(Step::Touch),
            5 => Some(Step::Encode),
            6 => Some(Step::Write),
            7 => Some(Step::After),
            _ => None,
        },
        Operation::SaveWithoutCallbacks => match index {
            0 => Some(Step::Validate),
            1 => Some(Step::Encode),
            2 => Some(Step::Enter),
            3 => Some(Step::Write),
            _ => None,
        },
        Operation::Delete => match index {
            0 => Some(Step::Enter),
            1 => Some(Step::Register),
            2 => Some(Step::Before),
            3 => Some(Step::Write),
            4 => Some(Step::After),
            _ => None,
        },
        Operation::DeleteWithoutCallbacks => match index {
            0 => Some(Step::Enter),
            1 => Some(Step::Write),
            _ => None,
        },
    }
}

impl Lifecycle {
    /// The operation before its first step.
    pub fn start(operation: Operation) -> (r: Lifecycle)
        ensures
            r@ == (LifecycleModel { operation, done: 0, failed: false }),
    {
        Lifecycle { operation, done: 0, failed: false }
    }

    /// The step to carry out, or `None` once the operation is over.
    pub fn current(&self) -> (r: Option<Step>)
        ensures
            r == self@.current(),
    {
        if self.failed {
            None
        } else {
            step_at(self.operation, self.done)
        }
    }

    /// Takes note that the current step has ended. After a failure no step is left.
    pub fn report(&mut self, succeeded: bool)
        ensures
            final(self)@ == old(self)@.after(succeeded),
    {
        if self.current().is_some() {
            if succeeded {
                self.done = self.done + 1;
            } else {
                self.failed = true;
            }
        }
    }

    /// Whether every step has succeeded.
    pub fn succeeded(&self) -> (r: bool)
        ensures
            r == (!self@.failed && self@.current().is_none()),
    {
        !self.failed && step_at(self.operation, self.done).is_none()
    }

    /// Whether a step has failed.
    pub fn failed(&self) -> (r: bool)
        ensures
            r == self@.failed,
    {
        self.failed
    }
}

/// The hooks that an operation registers.
pub fn hooks(operation: Operation) -> (r: Option<(Hook, Hook)>)
    ensures
        r == hooks_of(operation),
{
    match operation {
        Operation::Save => Some((Hook::AfterSaveCommit, Hook::AfterSaveAbort)),
        Operation::Delete => Some((Hook::AfterDeleteCommit, Hook::AfterDeleteAbort)),
        _ => None,
    }
}

/// Registers the finalizers of a step in the transaction: `on_commit` to run after a commit,
/// `on_abort` after an abort.
pub fn register<F>(transaction: &mut Transaction<F>, on_commit: F, on_abort: F)
    ensures
        final(transaction).commit_finalizers() == old(transaction).commit_finalizers().push(
            on_commit,
        ),
        final(transaction).abort_finalizers() == old(transaction).abort_finalizers().push(
            on_abort,
        ),
{
    transaction.on_commit(on_commit);
    transaction.on_abort(on_abort);
}

/// The error of an operation whose step `step` failed with `fault`: a failed validation is a
/// validation error, a failed encoding an encode error, each with one more message; any
/// other failure is returned as it is.
pub fn step_failure(step: Step, fault: Error) -> (r: Error)
    ensures
        match step {
            Step::Validate => r.spec_kind() == ErrorKind::Validation && r.trail()
                == fault.trail().push("validation failed"@),
            Step::Encode => r.spec_kind() == ErrorKind::Encode && r.trail() == fault.trail().push(
                "failed to serialize record"@,
            ),
            _ => r == fault,
        },
{
    match step {
        Step::Validate => fault.reclassified(ErrorKind::Validation, "validation failed"),
        Step::Encode => fault.reclassified(ErrorKind::Encode, "failed to serialize record"),
        _ => fault,
    }
}

/// A write of one document for the store to run: it replaces the document that matches the
/// filter, and inserts the replacement where none matches. It runs on the session of the
/// transaction.
#[derive(Debug, PartialEq, Eq)]
pub struct ReplaceRequest {
    pub collection: String,
    pub filter: Document,
    pub replacement: Document,
    pub upsert: bool,
}

/// A deletion of one document for the store to run, on the session of the transaction.
#[derive(Debug, PartialEq, Eq)]
pub struct DeleteRequest {
    pub collection: String,
    pub filter: Document,
}

/// The write that saves the record with the identifier `id` as `replacement`.
pub fn save_request<T: Entity>(id: EntityId<T>, replacement: Document) -> (r: ReplaceRequest)
    ensures
        r.collection@ == mixed_case(T::NAME@),
        r.filter@ == id_filter(id@),
        r.replacement@ == replacement@,
        r.upsert,
{
    ReplaceRequest {
        collection: T::collection_name(),
        filter: id_document(id),
        replacement,
        upsert: true,
    }
}

/// The deletion of the record with the identifier `id`.
pub fn delete_request<T: Entity>(id: EntityId<T>) -> (r: DeleteRequest)
    ensures
        r.collection@ == mixed_case(T::NAME@),
        r.filter@ == id_filter(id@),
{
    DeleteRequest { collection: T::collection_name(), filter: id_document(id) }
}

} // verus!
