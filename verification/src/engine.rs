//! The database engines a connection profile can name.

use vstd::prelude::*;

verus! {

/// A supported database engine.
#[derive(Clone, Copy, Debug, PartialEq, Eq, Structural)]
pub enum Engine {
    SqlServer,
    Postgres,
    Mysql,
}

impl From<String> for Engine {
    /// Reads an engine from its stored name; an unknown name falls back to
    /// SQL Server.
    fn from(engine: String) -> (r: Engine) {
        if engine == "sqlserver".to_owned() {
            Engine::SqlServer
        } else if engine == "postgres".to_owned() {
            Engine::Postgres
        } else if engine == "mysql".to_owned() {
            Engine::Mysql
        } else {
            Engine::SqlServer
        }
    }
}

impl vstd::std_specs::convert::FromSpecImpl<String> for Engine {
    open spec fn obeys_from_spec() -> bool {
        true
    }

    open spec fn from_spec(engine: String) -> Engine {
        if engine@ == "sqlserver"@ {
            Engine::SqlServer
        } else if engine@ == "postgres"@ {
            Engine::Postgres
        } else if engine@ == "mysql"@ {
            Engine::Mysql
        } else {
            Engine::SqlServer
        }
    }
}

/// The stored name of an engine.
pub open spec fn engine_name(engine: Engine) -> Seq<char> {
    match engine {
        Engine::SqlServer => "sqlserver"@,
        Engine::Postgres => "postgres"@,
        Engine::Mysql => "mysql"@,
    }
}

impl Engine {
    /// The name under which the engine is stored and displayed.
    pub fn name(&self) -> (r: String)
        ensures
            r@ == engine_name(*self),
    {
        match self {
            Engine::SqlServer => "sqlserver".to_owned(),
            Engine::Postgres => "postgres".to_owned(),
            Engine::Mysql => "mysql".to_owned(),
        }
    }
}

impl From<Engine> for String {
    /// The stored name of an engine; [`Engine::name`] carries the contract.
    fn from(engine: Engine) -> (r: String) {
        engine.name()
    }
}

impl vstd::std_specs::convert::FromSpecImpl<Engine> for String {
    open spec fn obeys_from_spec() -> bool {
        false
    }

    open spec fn from_spec(engine: Engine) -> String {
        choose|s: String| s@ == engine_name(engine)
    }
}

} // verus!
