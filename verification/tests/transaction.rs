use entrust::context::{EntityContext, TransactionState};
use entrust::error::{Error, ErrorKind};
use entrust::lifecycle::register;
use entrust::services::Services;
use entrust::transaction::{conclude, register_all, resolution, Resolution, Transaction};
use std::sync::{Arc, Mutex};

fn services() -> Services {
    let runtime = tokio::runtime::Builder::new_current_thread().enable_all().build().unwrap();
    let _guard = runtime.enter();
    let options = mongodb::options::ClientOptions::builder().build();
    let client = mongodb::Client::with_options(options).unwrap();
    let database = client.database("records");
    Services::new(database, client)
}

type Shared = Mutex<Transaction<&'static str>>;
type Context = EntityContext<Services, Shared>;

#[derive(Default)]
struct Store {
    commits: usize,
    aborts: usize,
    sessions: usize,
    ran: Vec<&'static str>,
    fail_commit: bool,
    fail_abort: bool,
}

fn enter(ctx: &Context, store: &mut Store) -> TransactionState<Services, Shared> {
    match ctx.join_transaction() {
        Some(state) => state,
        None => {
            store.sessions += 1;
            ctx.init_transaction(Arc::new(Mutex::new(Transaction::new())))
        }
    }
}

fn with_transaction<T>(
    ctx: &Context,
    store: &mut Store,
    body: &mut dyn FnMut(&Context, &mut Store) -> Result<T, Error>,
) -> Result<T, Error> {
    let state = enter(ctx, store);
    let result = body(&state.ctx, store);
    match resolution(state.is_root, result.is_ok()) {
        None => result,
        Some(step) => {
            let carried_out = match step {
                Resolution::Commit => {
                    store.commits += 1;
                    if store.fail_commit {
                        Err(Error::new(ErrorKind::Store, "commit refused"))
                    } else {
                        Ok(())
                    }
                }
                Resolution::Abort => {
                    store.aborts += 1;
                    if store.fail_abort {
                        Err(Error::new(ErrorKind::Store, "abort refused"))
                    } else {
                        Ok(())
                    }
                }
            };
            let due = state.transaction.lock().unwrap().drain(step, carried_out.is_ok());
            let mut finalized = Vec::new();
            for name in due {
                store.ran.push(name);
                if name.starts_with("bad") {
                    finalized.push(Err(Error::new(ErrorKind::Store, name)));
                } else {
                    finalized.push(Ok(()));
                }
            }
            conclude(result, carried_out, finalized)
        }
    }
}

fn add(ctx: &Context, on_commit: &'static str, on_abort: &'static str) {
    let shared = ctx.transaction().unwrap();
    register(&mut shared.lock().unwrap(), on_commit, on_abort);
}

#[test]
fn root_context_makes_the_transaction() {
    let ctx: Context = EntityContext::new(services());
    let fresh = Arc::new(Mutex::new(Transaction::new()));
    let state = ctx.init_transaction(fresh.clone());
    assert!(state.is_root);
    assert!(Arc::ptr_eq(&state.transaction, &fresh));
    assert!(state.ctx.in_transaction());
    assert!(Arc::ptr_eq(state.ctx.transaction().unwrap(), &fresh));
    assert!(!ctx.in_transaction());
}

#[test]
fn context_in_a_transaction_joins_it() {
    let ctx: Context = EntityContext::new(services());
    let fresh = Arc::new(Mutex::new(Transaction::new()));
    let root = ctx.init_transaction(fresh.clone());
    let nested = root.ctx.join_transaction().unwrap();
    assert!(!nested.is_root);
    assert!(Arc::ptr_eq(&nested.transaction, &fresh));
    assert!(Arc::ptr_eq(nested.ctx.transaction().unwrap(), &fresh));
    let other = Arc::new(Mutex::new(Transaction::new()));
    let again = nested.ctx.init_transaction(other.clone());
    assert!(!again.is_root);
    assert!(Arc::ptr_eq(&again.transaction, &fresh));
    assert!(!Arc::ptr_eq(&again.transaction, &other));
    let copy = again.ctx.clone();
    assert!(Arc::ptr_eq(copy.transaction().unwrap(), &fresh));
}

#[test]
fn only_the_root_resolves() {
    assert_eq!(resolution(true, true), Some(Resolution::Commit));
    assert_eq!(resolution(true, false), Some(Resolution::Abort));
    assert_eq!(resolution(false, true), None);
    assert_eq!(resolution(false, false), None);
}

#[test]
fn nested_calls_commit_once() {
    let ctx: Context = EntityContext::new(services());
    let mut store = Store::default();
    let result = with_transaction(&ctx, &mut store, &mut |ctx, store| {
        add(ctx, "outer commit", "outer abort");
        with_transaction(ctx, store, &mut |ctx, store| {
            add(ctx, "middle commit", "middle abort");
            with_transaction(ctx, store, &mut |ctx, _| {
                add(ctx, "inner commit", "inner abort");
                Ok(5)
            })
        })
    });
    assert_eq!(result, Ok(5));
    assert_eq!(store.sessions, 1);
    assert_eq!(store.commits, 1);
    assert_eq!(store.aborts, 0);
    assert_eq!(store.ran, vec!["outer commit", "middle commit", "inner commit"]);
}

#[test]
fn failing_body_runs_only_the_abort_finalizers() {
    let ctx: Context = EntityContext::new(services());
    let mut store = Store::default();
    let result: Result<u8, Error> = with_transaction(&ctx, &mut store, &mut |ctx, store| {
        add(ctx, "first commit", "first abort");
        let inner: Result<u8, Error> = with_transaction(ctx, store, &mut |ctx, _| {
            add(ctx, "second commit", "bad second abort");
            Err(Error::new(ErrorKind::Validation, "no"))
        });
        add(ctx, "third commit", "third abort");
        inner
    });
    assert_eq!(result, Err(Error::new(ErrorKind::Validation, "no")));
    assert_eq!(store.commits, 0);
    assert_eq!(store.aborts, 1);
    assert_eq!(store.ran, vec!["first abort", "bad second abort", "third abort"]);
}

#[test]
fn nested_failure_that_the_root_handles_still_commits() {
    let ctx: Context = EntityContext::new(services());
    let mut store = Store::default();
    let result = with_transaction(&ctx, &mut store, &mut |ctx, store| {
        let inner: Result<u8, Error> = with_transaction(ctx, store, &mut |ctx, _| {
            add(ctx, "inner commit", "inner abort");
            Err(Error::new(ErrorKind::Validation, "no"))
        });
        assert!(inner.is_err());
        Ok(1)
    });
    assert_eq!(result, Ok(1));
    assert_eq!((store.commits, store.aborts), (1, 0));
    assert_eq!(store.ran, vec!["inner commit"]);
}

#[test]
fn failed_commit_runs_no_finalizer() {
    let ctx: Context = EntityContext::new(services());
    let mut store = Store { fail_commit: true, ..Store::default() };
    let result = with_transaction(&ctx, &mut store, &mut |ctx, _| {
        add(ctx, "commit", "abort");
        Ok(1)
    });
    let fault = result.unwrap_err();
    assert_eq!(fault.kind(), ErrorKind::Transaction);
    assert_eq!(fault.message_at(0), "commit refused");
    assert_eq!(fault.message().unwrap(), "failed to commit transaction");
    assert!(store.ran.is_empty());
}

#[test]
fn failed_abort_takes_precedence() {
    let ctx: Context = EntityContext::new(services());
    let mut store = Store { fail_abort: true, ..Store::default() };
    let result: Result<u8, Error> = with_transaction(&ctx, &mut store, &mut |ctx, _| {
        add(ctx, "commit", "abort");
        Err(Error::new(ErrorKind::Validation, "no"))
    });
    let fault = result.unwrap_err();
    assert_eq!(fault.kind(), ErrorKind::Transaction);
    assert_eq!(fault.message().unwrap(), "failed to abort transaction");
    assert!(store.ran.is_empty());
}

#[test]
fn first_failing_commit_finalizer_is_surfaced() {
    let ctx: Context = EntityContext::new(services());
    let mut store = Store::default();
    let result = with_transaction(&ctx, &mut store, &mut |ctx, _| {
        add(ctx, "good", "x");
        add(ctx, "bad one", "y");
        add(ctx, "bad two", "z");
        add(ctx, "last", "w");
        Ok(1)
    });
    let fault = result.unwrap_err();
    assert_eq!(fault.kind(), ErrorKind::Finalizer);
    assert_eq!(fault.message_at(0), "bad one");
    assert_eq!(fault.message().unwrap(), "commit finalizer failed");
    assert_eq!(store.commits, 1);
    assert_eq!(store.ran, vec!["good", "bad one", "bad two", "last"]);
}

#[test]
fn drained_transaction_holds_no_finalizer() {
    let mut transaction: Transaction<u8> = Transaction::new();
    transaction.on_commit(1);
    transaction.on_abort(2);
    transaction.on_commit(3);
    assert_eq!((transaction.commit_len(), transaction.abort_len()), (2, 1));
    assert_eq!(transaction.drain(Resolution::Commit, false), Vec::<u8>::new());
    assert_eq!((transaction.commit_len(), transaction.abort_len()), (2, 1));
    assert_eq!(transaction.drain(Resolution::Commit, true), vec![1, 3]);
    assert_eq!((transaction.commit_len(), transaction.abort_len()), (0, 0));
    assert_eq!(transaction.drain(Resolution::Commit, true), Vec::<u8>::new());
    assert_eq!(transaction.drain(Resolution::Abort, true), Vec::<u8>::new());
}

#[test]
fn commit_and_abort_hand_out_their_own() {
    let mut transaction: Transaction<u8> = Transaction::new();
    transaction.on_commit(1);
    transaction.on_abort(2);
    assert_eq!(transaction.commit(false), Vec::<u8>::new());
    assert_eq!(transaction.abort(true), vec![2]);
    assert_eq!(transaction.commit(true), Vec::<u8>::new());
    let mut transaction: Transaction<u8> = Transaction::new();
    transaction.on_commit(1);
    transaction.on_abort(2);
    assert_eq!(transaction.abort(false), Vec::<u8>::new());
    assert_eq!(transaction.commit(true), vec![1]);
    assert_eq!(transaction.abort(true), Vec::<u8>::new());
}

#[test]
fn registrations_keep_their_order() {
    let mut transaction: Transaction<u8> = Transaction::new();
    transaction.on_abort(9);
    register_all(&mut transaction, vec![(true, 1), (false, 2), (false, 3), (true, 4)]);
    assert_eq!(transaction.drain(Resolution::Abort, true), vec![9, 2, 3]);
}

#[test]
fn conclusion_by_cases() {
    let store = || Error::new(ErrorKind::Store, "down");
    let body = || Error::new(ErrorKind::Validation, "no");
    assert_eq!(conclude(Ok(1), Ok(()), vec![]), Ok(1));
    assert_eq!(conclude(Ok(1), Ok(()), vec![Ok(()), Ok(())]), Ok(1));
    assert_eq!(conclude::<u8>(Err(body()), Ok(()), vec![Err(store()), Ok(())]), Err(body()));
    assert_eq!(conclude::<u8>(Err(body()), Ok(()), vec![]), Err(body()));
    let fault = conclude(Ok(1), Ok(()), vec![Ok(()), Err(store()), Err(body())]).unwrap_err();
    assert_eq!(fault, store().reclassified(ErrorKind::Finalizer, "commit finalizer failed"));
    let fault = conclude(Ok(1), Err(store()), vec![]).unwrap_err();
    assert_eq!(fault, store().reclassified(ErrorKind::Transaction, "failed to commit transaction"));
    let fault = conclude::<u8>(Err(body()), Err(store()), vec![]).unwrap_err();
    assert_eq!(fault, store().reclassified(ErrorKind::Transaction, "failed to abort transaction"));
}

#[test]
fn errors_keep_their_trail() {
    let fault = Error::new(ErrorKind::Store, "socket closed").context("find failed").context("loading user");
    assert_eq!(fault.kind(), ErrorKind::Store);
    assert_eq!(fault.depth(), 3);
    assert_eq!(fault.message_at(0), "socket closed");
    assert_eq!(fault.message_at(1), "find failed");
    assert_eq!(fault.message().unwrap(), "loading user");
    assert_eq!(fault.clone(), fault);
}
