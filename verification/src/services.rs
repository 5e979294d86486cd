use vstd::prelude::*;

verus! {

/// The handle of a database of the store. It is carried, never looked into.
#[verifier::external_type_specification]
#[verifier::external_body]
pub struct ExDatabase(mongodb::Database);

/// The handle of the store's client, from which sessions start. It is carried, never looked
/// into.
#[verifier::external_type_specification]
#[verifier::external_body]
pub struct ExClient(mongodb::Client);

/// What the persistence layer needs from the application: the handles of the store.
pub trait EntityServices: Clone + Send + Sync + 'static {
    fn database(&self) -> &mongodb::Database;

    fn database_client(&self) -> &mongodb::Client;
}

/// The plain bundle of the two handles.
#[derive(Debug)]
pub struct Services {
    database: mongodb::Database,
    database_client: mongodb::Client,
}

impl Services {
    /// The bundle of the given handles.
    pub fn new(database: mongodb::Database, database_client: mongodb::Client) -> (r: Services)
        ensures
            r.spec_database() == database,
            r.spec_database_client() == database_client,
    {
        Services { database, database_client }
    }

    /// The handle of the database.
    pub closed spec fn spec_database(&self) -> mongodb::Database {
        self.database
    }

    /// The handle of the client.
    pub closed spec fn spec_database_client(&self) -> mongodb::Client {
        self.database_client
    }
}

/// Calls `mongodb::Database::clone`, which hands out another handle of the same database;
/// nothing is claimed of it.
#[verifier::external_body]
fn clone_database(database: &mongodb::Database) -> (r: mongodb::Database) {
    database.clone()
}

/// Calls `mongodb::Client::clone`, which hands out another handle of the same client; nothing
/// is claimed of it.
#[verifier::external_body]
fn clone_database_client(client: &mongodb::Client) -> (r: mongodb::Client) {
    client.clone()
}

impl Clone for Services {
    fn clone(&self) -> (r: Services) {
        Services {
            database: clone_database(&self.database),
            database_client: clone_database_client(&self.database_client),
        }
    }
}

impl EntityServices for Services {
    fn database(&self) -> (r: &mongodb::Database)
        ensures
            *r == self.spec_database(),
    {
        &self.database
    }

    fn database_client(&self) -> (r: &mongodb::Client)
        ensures
            *r == self.spec_database_client(),
    {
        &self.database_client
    }
}

} // verus!
