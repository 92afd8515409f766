//! Stored connection profiles.

use vstd::prelude::*;
use crate::engine::Engine;

verus! {

/// A connection profile: everything needed to reach one database.
#[derive(Debug)]
pub struct Connection {
    pub name: String,
    pub engine: Engine,
    pub host: String,
    pub port: String,
    pub username: String,
    pub password: String,
    pub database: String,
}

impl Connection {
    /// Builds a profile from its parts, unchanged.
    pub fn new(
        name: String,
        engine: Engine,
        host: String,
        port: String,
        username: String,
        password: String,
        database: String,
    ) -> (r: Connection)
        ensures
            r.name@ == name@,
            r.engine == engine,
            r.host@ == host@,
            r.port@ == port@,
            r.username@ == username@,
            r.password@ == password@,
            r.database@ == database@,
    {
        Connection { name, engine, host, port, username, password, database }
    }
}

impl Clone for Connection {
    fn clone(&self) -> (r: Self)
        ensures
            r.name@ == self.name@,
            r.engine == self.engine,
            r.host@ == self.host@,
            r.port@ == self.port@,
            r.username@ == self.username@,
            r.password@ == self.password@,
            r.database@ == self.database@,
    {
        Connection {
            name: self.name.clone(),
            engine: self.engine,
            host: self.host.clone(),
            port: self.port.clone(),
            username: self.username.clone(),
            password: self.password.clone(),
            database: self.database.clone(),
        }
    }
}

} // verus!
