//! The settings that the service is started with.
use vstd::prelude::*;

verus! {

/// Where the broker is and how to log in to it.
#[derive(Debug)]
pub struct Mqtt {
    pub host: String,
    pub user: String,
    pub password: String,
}

/// Where the document store is, how to log in to it, and the names of the
/// database and of its collections.
#[derive(Debug)]
pub struct Db {
    pub host: String,
    pub user: String,
    pub password: String,
    pub database: String,
    pub users_collection: String,
    pub rooms_collection: String,
}

/// Where the service listens for HTTP requests.
#[derive(Debug)]
pub struct Runtime {
    /// Host and port, as in `127.0.0.1:3000`.
    pub server_address: String,
}

/// All the settings of the service. A value is never changed once made;
/// whoever needs the settings holds a copy.
#[derive(Debug)]
pub struct Config {
    pub mqtt: Mqtt,
    pub db: Db,
    pub runtime: Runtime,
}

impl Clone for Mqtt {
    fn clone(&self) -> (c: Self)
        ensures
            c == *self,
    {
        Mqtt {
            host: self.host.clone(),
            user: self.user.clone(),
            password: self.password.clone(),
        }
    }
}

impl Clone for Db {
    fn clone(&self) -> (c: Self)
        ensures
            c == *self,
    {
        Db {
            host: self.host.clone(),
            user: self.user.clone(),
            password: self.password.clone(),
            database: self.database.clone(),
            users_collection: self.users_collection.clone(),
            rooms_collection: self.rooms_collection.clone(),
        }
    }
}

impl Clone for Runtime {
    fn clone(&self) -> (c: Self)
        ensures
            c == *self,
    {
        Runtime { server_address: self.server_address.clone() }
    }
}

impl Clone for Config {
    fn clone(&self) -> (c: Self)
        ensures
            c == *self,
    {
        Config { mqtt: self.mqtt.clone(), db: self.db.clone(), runtime: self.runtime.clone() }
    }
}

} // verus!
