//! A persistence layer between typed records and a document store.
//!
//! The library decides and the application acts: the query builders describe the requests to
//! send, the transaction coordinator says when to commit or abort and which finalizers are
//! due, the lifecycle names the next step of a save or a delete, and the mappers turn records
//! into documents and back. Sessions, cursors and hooks belong to the application.

pub mod aggregate;
pub mod comparison;
pub mod conditions;
pub mod context;
pub mod discardable;
pub mod document;
pub mod entity;
pub mod error;
pub mod find;
pub mod id;
pub mod lifecycle;
pub mod meta;
pub mod object;
pub mod operator;
pub mod record;
pub mod services;
pub mod sorting;
pub mod transaction;
pub mod updateable;
pub mod util;

pub use aggregate::{
    AggregateOneQuery, AggregateOneQueryInner, AggregateQuery, AggregateRequest,
    MaybeAggregateOneQuery,
};
pub use comparison::Comparison;
pub use conditions::{EmptyConditions, EntityConditions};
pub use context::{EntityContext, TransactionState};
pub use discardable::{Discardable, DiscardableView, DiscardableViewMut};
pub use document::{Document, Value};
pub use entity::Entity;
pub use error::{Error, ErrorKind};
pub use find::{
    CountOptions, CountRequest, FindOneQuery, FindOneQueryInner, FindOneRequest, FindOptions,
    FindQuery, FindRequest, MaybeFindOneQuery,
};
pub use id::{EntityId, GlobalId, IdError, ObjectId};
pub use lifecycle::{DeleteRequest, Hook, Lifecycle, Operation, ReplaceRequest, Step};
pub use meta::{EntityMeta, Timestamp};
pub use object::Object;
pub use record::Record;
pub use services::{EntityServices, Services};
pub use sorting::{EmptySorting, EntitySorting, SortingDirection};
pub use transaction::{Resolution, Transaction};
pub use updateable::{Updateable, UpdateableView, UpdateableViewMut};
