use vstd::prelude::*;

use crate::error::{Error, ErrorKind};

verus! {

/// How the root of a call tree ends its transaction.
#[derive(Clone, Copy, Debug, PartialEq, Eq, Structural)]
pub enum Resolution {
    Commit,
    Abort,
}

/// The deferred callbacks of one transaction, in the order in which they were registered.
/// `F` is whatever the application runs as a finalizer.
#[derive(Debug)]
pub struct Transaction<F> {
    commit_finalizers: Vec<F>,
    abort_finalizers: Vec<F>,
}

/// What the root does at the end of its body: commit after success, abort after failure. A
/// nested call resolves nothing.
pub open spec fn resolution_of(is_root: bool, body_succeeded: bool) -> Option<Resolution> {
    if !is_root {
        None
    } else if body_succeeded {
        Some(Resolution::Commit)
    } else {
        Some(Resolution::Abort)
    }
}

/// The finalizers that run after a resolution: those registered for it, if the store has
/// carried it out; none if it has not.
pub open spec fn finalizers_due<F>(
    commit: Seq<F>,
    abort: Seq<F>,
    resolution: Resolution,
    carried_out: bool,
) -> Seq<F> {
    if !carried_out {
        Seq::empty()
    } else {
        match resolution {
            Resolution::Commit => commit,
            Resolution::Abort => abort,
        }
    }
}

/// The index of the first failure among `results`, or their number if all succeeded.
pub open spec fn first_failure(results: Seq<Result<(), Error>>) -> int
    decreases results.len(),
{
    if results.len() == 0 {
        0
    } else if results[0].is_err() {
        0
    } else {
        1 + first_failure(results.drop_first())
    }
}

/// `first_failure` is the one index that holds a failure with none before it.
pub proof fn lemma_first_failure_is(results: Seq<Result<(), Error>>, at: int)
    requires
        0 <= at <= results.len(),
        at < results.len() ==> results[at].is_err(),
        forall|i: int| 0 <= i < at ==> results[i].is_ok(),
    ensures
        first_failure(results) == at,
    decreases results.len(),
{
    if results.len() != 0 && at != 0 {
        assert(results[0].is_ok());
        let rest = results.drop_first();
        assert forall|i: int| 0 <= i < at - 1 implies rest[i].is_ok() by {
            assert(rest[i] == results[i + 1]);
        }
        lemma_first_failure_is(rest, at - 1);
    }
}

impl<F> Transaction<F> {
    /// The commit finalizers that wait, in the order of their registration.
    pub closed spec fn commit_finalizers(&self) -> Seq<F> {
        self.commit_finalizers@
    }

    /// The abort finalizers that wait, in the order of their registration.
    pub closed spec fn abort_finalizers(&self) -> Seq<F> {
        self.abort_finalizers@
    }

    /// A transaction without finalizers.
    pub fn new() -> (r: Self)
        ensures
            r.commit_finalizers() == Seq::<F>::empty(),
            r.abort_finalizers() == Seq::<F>::empty(),
    {
        Transaction { commit_finalizers: Vec::new(), abort_finalizers: Vec::new() }
    }

    /// Registers a finalizer to run after a commit.
    pub fn on_commit(&mut self, finalizer: F)
        ensures
            final(self).commit_finalizers() == old(self).commit_finalizers().push(finalizer),
            final(self).abort_finalizers() == old(self).abort_finalizers(),
    {
        self.commit_finalizers.push(finalizer);
    }

    /// Registers a finalizer to run after an abort.
    pub fn on_abort(&mut self, finalizer: F)
        ensures
            final(self).abort_finalizers() == old(self).abort_finalizers().push(finalizer),
            final(self).commit_finalizers() == old(self).commit_finalizers(),
    {
        self.abort_finalizers.push(finalizer);
    }

    /// The number of commit finalizers that wait.
    pub fn commit_len(&self) -> (r: usize)
        ensures
            r == self.commit_finalizers().len(),
    {
        self.commit_finalizers.len()
    }

    /// The number of abort finalizers that wait.
    pub fn abort_len(&self) -> (r: usize)
        ensures
            r == self.abort_finalizers().len(),
    {
        self.abort_finalizers.len()
    }

    /// Hands out the finalizers to run after a commit: see [`Transaction::drain`].
    pub fn commit(&mut self, carried_out: bool) -> (due: Vec<F>)
        ensures
            due@ == finalizers_due(
                old(self).commit_finalizers(),
                old(self).abort_finalizers(),
                Resolution::Commit,
                carried_out,
            ),
            carried_out ==> final(self).commit_finalizers() == Seq::<F>::empty(),
            carried_out ==> final(self).abort_finalizers() == Seq::<F>::empty(),
            !carried_out ==> final(self).commit_finalizers() == old(self).commit_finalizers(),
            !carried_out ==> final(self).abort_finalizers() == old(self).abort_finalizers(),
    {
        self.drain(Resolution::Commit, carried_out)
    }

    /// Hands out the finalizers to run after an abort: see [`Transaction::drain`].
    pub fn abort(&mut self, carried_out: bool) -> (due: Vec<F>)
        ensures
            due@ == finalizers_due(
                old(self).commit_finalizers(),
                old(self).abort_finalizers(),
                Resolution::Abort,
                carried_out,
            ),
            carried_out ==> final(self).commit_finalizers() == Seq::<F>::empty(),
            carried_out ==> final(self).abort_finalizers() == Seq::<F>::empty(),
            !carried_out ==> final(self).commit_finalizers() == old(self).commit_finalizers(),
            !carried_out ==> final(self).abort_finalizers() == old(self).abort_finalizers(),
    {
        self.drain(Resolution::Abort, carried_out)
    }

    /// Hands out the finalizers to run after `resolution`, in the order of their
    /// registration. `carried_out` says whether the store has committed or aborted. If it
    /// has, every finalizer leaves the transaction: those of the resolution to be run, the
    /// others for good. If it has not, nothing runs and nothing leaves.
    pub fn drain(&mut self, resolution: Resolution, carried_out: bool) -> (due: Vec<F>)
        ensures
            due@ == finalizers_due(
                old(self).commit_finalizers(),
                old(self).abort_finalizers(),
                resolution,
                carried_out,
            ),
            carried_out ==> final(self).commit_finalizers() == Seq::<F>::empty(),
            carried_out ==> final(self).abort_finalizers() == Seq::<F>::empty(),
            !carried_out ==> final(self).commit_finalizers() == old(self).commit_finalizers(),
            !carried_out ==> final(self).abort_finalizers() == old(self).abort_finalizers(),
    {
        if !carried_out {
            return Vec::new();
        }
        let mut commit: Vec<F> = Vec::new();
        let mut abort: Vec<F> = Vec::new();
        commit.append(&mut self.commit_finalizers);
        abort.append(&mut self.abort_finalizers);
        match resolution {
            Resolution::Commit => commit,
            Resolution::Abort => abort,
        }
    }
}

/// What the root does at the end of its body.
pub fn resolution(is_root: bool, body_succeeded: bool) -> (r: Option<Resolution>)
    ensures
        r == resolution_of(is_root, body_succeeded),
{
    if !is_root {
        None
    } else if body_succeeded {
        Some(Resolution::Commit)
    } else {
        Some(Resolution::Abort)
    }
}

/// What the root returns once its transaction is resolved.
///
/// `carried_out` is the store's answer to the commit or abort, `finalized` the results of the
/// finalizers that ran, in order. A failure of the commit or abort comes first. After a
/// commit, the first failure of a finalizer is reported although the data is committed. After
/// an abort, the body's error is returned whatever the finalizers did.
pub open spec fn concluded<T>(
    body: Result<T, Error>,
    carried_out: Result<(), Error>,
    finalized: Seq<Result<(), Error>>,
    r: Result<T, Error>,
) -> bool {
    match carried_out {
        Err(fault) => r matches Err(e) && e.spec_kind() == ErrorKind::Transaction && e.trail()
            == fault.trail().push(
            if body.is_ok() {
                "failed to commit transaction"@
            } else {
                "failed to abort transaction"@
            },
        ),
        Ok(_) => match body {
            Err(fault) => r == Err::<T, Error>(fault),
            Ok(value) => if first_failure(finalized) < finalized.len() {
                r matches Err(e) && e.spec_kind() == ErrorKind::Finalizer && e.trail()
                    == finalized[first_failure(finalized)]->Err_0.trail().push(
                    "commit finalizer failed"@,
                )
            } else {
                r == Ok::<T, Error>(value)
            },
        },
    }
}

/// What the root returns once its transaction is resolved: see [`concluded`].
pub fn conclude<T>(
    body: Result<T, Error>,
    carried_out: Result<(), Error>,
    finalized: Vec<Result<(), Error>>,
) -> (r: Result<T, Error>)
    ensures
        concluded(body, carried_out, finalized@, r),
{
    match carried_out {
        Err(fault) => {
            if body.is_ok() {
                Err(fault.reclassified(ErrorKind::Transaction, "failed to commit transaction"))
            } else {
                Err(fault.reclassified(ErrorKind::Transaction, "failed to abort transaction"))
            }
        },
        Ok(_) => match body {
            Err(fault) => Err(fault),
            Ok(value) => {
                let ghost all = finalized@;
                for result in it: finalized
                    invariant
                        it.seq() == all,
                        all == finalized@,
                        carried_out.is_ok(),
                        body.is_ok(),
                        forall|i: int| 0 <= i < it.index() ==> all[i].is_ok(),
                {
                    if let Err(fault) = result {
                        proof {
                            lemma_first_failure_is(all, it.index() as int);
                        }
                        return Err(
                            fault.reclassified(ErrorKind::Finalizer, "commit finalizer failed"),
                        );
                    }
                }
                proof {
                    lemma_first_failure_is(all, all.len() as int);
                }
                Ok(value)
            },
        },
    }
}

/// What a chain of calls resolves, each call made in the body of the one before it:
/// `outcomes` holds, outermost call first, whether each body succeeded, and `in_transaction`
/// says whether the context of the outermost call was in a transaction already.
pub open spec fn chain_resolutions(in_transaction: bool, outcomes: Seq<bool>) -> Seq<
    Option<Resolution>,
>
    decreases outcomes.len(),
{
    if outcomes.len() == 0 {
        Seq::empty()
    } else {
        seq![resolution_of(!in_transaction, outcomes[0])] + chain_resolutions(
            true,
            outcomes.drop_first(),
        )
    }
}

/// Calls nested inside a transaction resolve nothing, however deep they go.
pub proof fn lemma_nested_calls_resolve_nothing(outcomes: Seq<bool>)
    ensures
        chain_resolutions(true, outcomes).len() == outcomes.len(),
        forall|i: int|
            0 <= i < outcomes.len() ==> (#[trigger] chain_resolutions(true, outcomes)[i]).is_none(),
    decreases outcomes.len(),
{
    if outcomes.len() != 0 {
        lemma_nested_calls_resolve_nothing(outcomes.drop_first());
    }
}

/// A chain of nested calls that starts outside any transaction commits or aborts exactly
/// once, whatever its depth: the outermost call does, by the outcome of its own body, and no
/// other call does.
pub proof fn lemma_one_resolution(outcomes: Seq<bool>)
    requires
        outcomes.len() > 0,
    ensures
        chain_resolutions(false, outcomes).len() == outcomes.len(),
        chain_resolutions(false, outcomes)[0] == Some(
            if outcomes[0] {
                Resolution::Commit
            } else {
                Resolution::Abort
            },
        ),
        forall|i: int|
            1 <= i < outcomes.len() ==> (#[trigger] chain_resolutions(false, outcomes)[i]).is_none(),
{
    lemma_nested_calls_resolve_nothing(outcomes.drop_first());
}

/// The finalizers that wait after a list of registrations on a fresh transaction: those for
/// the commit (`commit`) or those for the abort, in the order of their registration. Each
/// registration is a finalizer and whether it is for the commit.
pub open spec fn registered<F>(registrations: Seq<(bool, F)>, commit: bool) -> Seq<F>
    decreases registrations.len(),
{
    if registrations.len() == 0 {
        Seq::empty()
    } else {
        let before = registered(registrations.drop_last(), commit);
        if registrations.last().0 == commit {
            before.push(registrations.last().1)
        } else {
            before
        }
    }
}

/// Whatever was registered, and in whatever order: after an abort exactly the abort
/// finalizers are due, in the order of their registration, and no commit finalizer is; after
/// a commit it is the other way round. What is due once is due no more: a resolved
/// transaction holds no finalizer.
pub proof fn lemma_finalizers_by_resolution<F>(registrations: Seq<(bool, F)>, body_succeeded: bool)
    ensures
        resolution_of(true, body_succeeded) matches Some(resolution) && finalizers_due(
            registered(registrations, true),
            registered(registrations, false),
            resolution,
            true,
        ) == registered(registrations, body_succeeded),
        finalizers_due(Seq::<F>::empty(), Seq::<F>::empty(), Resolution::Commit, true)
            == Seq::<F>::empty(),
        finalizers_due(Seq::<F>::empty(), Seq::<F>::empty(), Resolution::Abort, true)
            == Seq::<F>::empty(),
{
}

/// Registers each finalizer of `registrations` in order: for the commit where its flag is
/// set, for the abort where it is not.
pub fn register_all<F>(transaction: &mut Transaction<F>, registrations: Vec<(bool, F)>)
    ensures
        final(transaction).commit_finalizers() == old(transaction).commit_finalizers()
            + registered(registrations@, true),
        final(transaction).abort_finalizers() == old(transaction).abort_finalizers() + registered(
            registrations@,
            false,
        ),
{
    let ghost all = registrations@;
    let ghost commit = transaction.commit_finalizers();
    let ghost abort = transaction.abort_finalizers();
    for registration in it: registrations
        invariant
            it.seq() == all,
            transaction.commit_finalizers() =~= commit + registered(
                all.take(it.index() as int),
                true,
            ),
            transaction.abort_finalizers() =~= abort + registered(
                all.take(it.index() as int),
                false,
            ),
    {
        proof {
            let i = it.index() as int;
            assert(all.take(i + 1).drop_last() =~= all.take(i));
            assert(all.take(i + 1).last() == all[i]);
        }
        if registration.0 {
            transaction.on_commit(registration.1);
        } else {
            transaction.on_abort(registration.1);
        }
    }
    proof {
        assert(all.take(all.len() as int) =~= all);
    }
}

} // verus!
