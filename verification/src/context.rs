use std::sync::Arc;

use vstd::prelude::*;

use crate::services::EntityServices;

verus! {

/// `Arc::clone` makes another pointer to the same allocation: the clone is the value that
/// was cloned.
#[verifier::external_body]
fn share<X>(shared: &Arc<X>) -> (r: Arc<X>)
    ensures
        r == *shared,
{
    Arc::clone(shared)
}

/// What an operation runs in: the application's services and, inside a transaction, the
/// shared reference to it. `X` is whatever the application keeps per transaction.
#[derive(Debug)]
pub struct EntityContext<S: EntityServices, X> {
    services: S,
    transaction: Option<Arc<X>>,
}

/// A context that has entered a transaction.
#[derive(Debug)]
pub struct TransactionState<S: EntityServices, X> {
    /// The context in which the body runs.
    pub ctx: EntityContext<S, X>,
    /// The transaction that `ctx` holds.
    pub transaction: Arc<X>,
    /// Whether this call made the transaction, and so has to resolve it.
    pub is_root: bool,
}

impl<S: EntityServices, X> EntityContext<S, X> {
    /// The services of the context.
    pub closed spec fn spec_services(&self) -> S {
        self.services
    }

    /// The transaction that the context is in, if it is in one.
    pub closed spec fn spec_transaction(&self) -> Option<Arc<X>> {
        self.transaction
    }

    /// A context outside any transaction.
    pub fn new(services: S) -> (r: Self)
        ensures
            r.spec_services() == services,
            r.spec_transaction().is_none(),
    {
        EntityContext { services, transaction: None }
    }

    /// The services of the context.
    pub fn services(&self) -> (r: &S)
        ensures
            *r == self.spec_services(),
    {
        &self.services
    }

    /// The transaction that the context is in, if it is in one.
    pub fn transaction(&self) -> (r: Option<&Arc<X>>)
        ensures
            match r {
                Some(shared) => self.spec_transaction() == Some(*shared),
                None => self.spec_transaction().is_none(),
            },
    {
        self.transaction.as_ref()
    }

    /// Whether the context is in a transaction.
    pub fn in_transaction(&self) -> (r: bool)
        ensures
            r == self.spec_transaction().is_some(),
    {
        self.transaction.is_some()
    }

    /// Enters the transaction that the context is in already: the body runs in the same
    /// context, and the call is not the root. `None` outside a transaction: the caller then
    /// starts one and calls [`EntityContext::init_transaction`].
    pub fn join_transaction(&self) -> (r: Option<TransactionState<S, X>>)
        ensures
            r.is_some() == self.spec_transaction().is_some(),
            r matches Some(state) ==> {
                &&& !state.is_root
                &&& self.spec_transaction() == Some(state.transaction)
                &&& state.ctx.spec_transaction() == self.spec_transaction()
                &&& cloned(self.spec_services(), state.ctx.spec_services())
            },
    {
        match &self.transaction {
            Some(shared) => Some(
                TransactionState { ctx: self.clone(), transaction: share(shared), is_root: false },
            ),
            None => None,
        }
    }

    /// Enters a transaction. Inside one already, the call is nested: the body runs in the
    /// same context and `fresh` is not used. Outside, the call is the root: the body runs in
    /// a child context that holds `fresh`.
    pub fn init_transaction(&self, fresh: Arc<X>) -> (r: TransactionState<S, X>)
        ensures
            r.is_root == self.spec_transaction().is_none(),
            r.ctx.spec_transaction() == Some(r.transaction),
            r.transaction == match self.spec_transaction() {
                Some(shared) => shared,
                None => fresh,
            },
            cloned(self.spec_services(), r.ctx.spec_services()),
    {
        match &self.transaction {
            Some(shared) => TransactionState {
                ctx: self.clone(),
                transaction: share(shared),
                is_root: false,
            },
            None => {
                let ctx = EntityContext {
                    services: self.services.clone(),
                    transaction: Some(share(&fresh)),
                };
                TransactionState { ctx, transaction: fresh, is_root: true }
            },
        }
    }
}

impl<S: EntityServices, X> Clone for EntityContext<S, X> {
    /// The clone is in the same transaction.
    fn clone(&self) -> (r: Self)
        ensures
            r.spec_transaction() == self.spec_transaction(),
            cloned(self.spec_services(), r.spec_services()),
    {
        let transaction = match &self.transaction {
            Some(shared) => Some(share(shared)),
            None => None,
        };
        EntityContext { services: self.services.clone(), transaction }
    }
}

} // verus!
