//! The schema provider capability and the per-engine services.
//!
//! A schema provider answers three questions: which tables exist, which
//! columns the given tables have, and which words the engine reserves.  The
//! completion and hover logic is polymorphic over this capability and never
//! inspects engine identity.  Implementations that talk to a real database
//! live with the embedding program; the library holds the engine services'
//! construction and their static keyword lists.

use vstd::prelude::*;
use crate::column::Column;
use crate::engine::Engine;
use crate::repository::TenguRepository;
use crate::table::Table;

verus! {

/// A schema provider failure: connection refused, query error, or the
/// like.  Recovered locally by the services that see it; never fatal.
pub struct ServiceError {
    pub message: String,
}

/// The schema provider capability.
///
/// The library promises nothing about what these calls return: a provider
/// may fail or answer anything, and every caller in the library states what
/// it does with any outcome.
pub trait Service {
    /// All (schema, table) pairs of the active connection.
    fn get_tables(&self) -> Result<Vec<Table>, ServiceError>;

    /// The columns of the given tables.
    fn get_table_columns(&self, tables: Vec<Table>) -> Result<Vec<Column>, ServiceError>;

    /// The engine's reserved words.
    fn get_keywords(&self) -> Vec<String>;
}

/// Appends one keyword.
fn push_keyword(v: &mut Vec<String>, s: &str)
    ensures
        final(v).deep_view() == old(v).deep_view().push(s@),
{
    let ghost before = v.deep_view();
    v.push(s.to_owned());
    proof {
        assert(v.deep_view() =~= before.push(s@));
    }
}

/// The reserved words offered for SQL Server documents.
pub open spec fn sqlserver_keyword_list() -> Seq<Seq<char>> {
    seq![
        "SELECT"@, "FROM"@, "WHERE"@, "INSERT"@, "UPDATE"@, "DELETE"@, "JOIN"@, "INNER"@,
        "LEFT"@, "RIGHT"@, "OUTER"@, "GROUP"@, "BY"@, "ORDER"@, "HAVING"@, "UNION"@,
        "DISTINCT"@, "TOP"@, "AS"@, "AND"@, "OR"@, "NOT"@, "NULL"@, "IN"@, "EXISTS"@,
        "BETWEEN"@, "LIKE"@, "CREATE"@, "TABLE"@, "VALUES"@, "INTO"@,
    ]
}

/// The reserved words offered for PostgreSQL documents.
pub open spec fn postgres_keyword_list() -> Seq<Seq<char>> {
    seq![
        "SELECT"@, "FROM"@, "WHERE"@, "INSERT"@, "UPDATE"@, "DELETE"@, "JOIN"@, "INNER"@,
        "LEFT"@, "RIGHT"@, "OUTER"@, "GROUP"@, "BY"@, "ORDER"@, "HAVING"@, "UNION"@,
        "DISTINCT"@, "LIMIT"@, "OFFSET"@, "AS"@, "AND"@, "OR"@, "NOT"@, "NULL"@, "IN"@,
        "EXISTS"@, "BETWEEN"@, "ILIKE"@, "RETURNING"@, "CREATE"@, "TABLE"@, "VALUES"@,
    ]
}

/// The SQL Server keyword list as strings.
pub fn sqlserver_keywords() -> (r: Vec<String>)
    ensures
        r.deep_view() == sqlserver_keyword_list(),
{
    let mut v: Vec<String> = Vec::new();
    push_keyword(&mut v, "SELECT");
    push_keyword(&mut v, "FROM");
    push_keyword(&mut v, "WHERE");
    push_keyword(&mut v, "INSERT");
    push_keyword(&mut v, "UPDATE");
    push_keyword(&mut v, "DELETE");
    push_keyword(&mut v, "JOIN");
    push_keyword(&mut v, "INNER");
    push_keyword(&mut v, "LEFT");
    push_keyword(&mut v, "RIGHT");
    push_keyword(&mut v, "OUTER");
    push_keyword(&mut v, "GROUP");
    push_keyword(&mut v, "BY");
    push_keyword(&mut v, "ORDER");
    push_keyword(&mut v, "HAVING");
    push_keyword(&mut v, "UNION");
    push_keyword(&mut v, "DISTINCT");
    push_keyword(&mut v, "TOP");
    push_keyword(&mut v, "AS");
    push_keyword(&mut v, "AND");
    push_keyword(&mut v, "OR");
    push_keyword(&mut v, "NOT");
    push_keyword(&mut v, "NULL");
    push_keyword(&mut v, "IN");
    push_keyword(&mut v, "EXISTS");
    push_keyword(&mut v, "BETWEEN");
    push_keyword(&mut v, "LIKE");
    push_keyword(&mut v, "CREATE");
    push_keyword(&mut v, "TABLE");
    push_keyword(&mut v, "VALUES");
    push_keyword(&mut v, "INTO");
    proof {
        assert(v.deep_view() =~= sqlserver_keyword_list());
    }
    v
}

/// The PostgreSQL keyword list as strings.
pub fn postgres_keywords() -> (r: Vec<String>)
    ensures
        r.deep_view() == postgres_keyword_list(),
{
    let mut v: Vec<String> = Vec::new();
    push_keyword(&mut v, "SELECT");
    push_keyword(&mut v, "FROM");
    push_keyword(&mut v, "WHERE");
    push_keyword(&mut v, "INSERT");
    push_keyword(&mut v, "UPDATE");
    push_keyword(&mut v, "DELETE");
    push_keyword(&mut v, "JOIN");
    push_keyword(&mut v, "INNER");
    push_keyword(&mut v, "LEFT");
    push_keyword(&mut v, "RIGHT");
    push_keyword(&mut v, "OUTER");
    push_keyword(&mut v, "GROUP");
    push_keyword(&mut v, "BY");
    push_keyword(&mut v, "ORDER");
    push_keyword(&mut v, "HAVING");
    push_keyword(&mut v, "UNION");
    push_keyword(&mut v, "DISTINCT");
    push_keyword(&mut v, "LIMIT");
    push_keyword(&mut v, "OFFSET");
    push_keyword(&mut v, "AS");
    push_keyword(&mut v, "AND");
    push_keyword(&mut v, "OR");
    push_keyword(&mut v, "NOT");
    push_keyword(&mut v, "NULL");
    push_keyword(&mut v, "IN");
    push_keyword(&mut v, "EXISTS");
    push_keyword(&mut v, "BETWEEN");
    push_keyword(&mut v, "ILIKE");
    push_keyword(&mut v, "RETURNING");
    push_keyword(&mut v, "CREATE");
    push_keyword(&mut v, "TABLE");
    push_keyword(&mut v, "VALUES");
    proof {
        assert(v.deep_view() =~= postgres_keyword_list());
    }
    v
}

/// The SQL Server service: holds the profile store that parameterizes its
/// queries.
#[allow(dead_code)]
pub struct SqlServer<T: TenguRepository> {
    repo: T,
}

impl<T: TenguRepository> SqlServer<T> {
    /// Wraps a profile store.
    pub fn new(repo: T) -> Self {
        Self { repo }
    }

    /// The engine's reserved words.
    pub fn get_keywords(&self) -> (r: Vec<String>)
        ensures
            r.deep_view() == sqlserver_keyword_list(),
    {
        sqlserver_keywords()
    }
}

/// The PostgreSQL service: holds the profile store that parameterizes its
/// queries.
#[allow(dead_code)]
pub struct Postgres<T: TenguRepository> {
    repo: T,
}

impl<T: TenguRepository> Postgres<T> {
    /// Wraps a profile store.
    pub fn new(repo: T) -> Self {
        Self { repo }
    }

    /// The engine's reserved words.
    pub fn get_keywords(&self) -> (r: Vec<String>)
        ensures
            r.deep_view() == postgres_keyword_list(),
    {
        postgres_keywords()
    }
}

/// The service for the active connection's engine.
pub enum TenguService<R: TenguRepository> {
    SqlServer(SqlServer<R>),
    Postgres(Postgres<R>),
}

impl<R: TenguRepository> TenguService<R> {
    /// Picks the service for an engine.  No service exists yet for the
    /// MySQL engine, so it is not accepted here.
    pub fn new(engine: Engine, repo: R) -> (r: Self)
        requires
            engine != Engine::Mysql,
        ensures
            engine == Engine::SqlServer ==> r is SqlServer,
            engine == Engine::Postgres ==> r is Postgres,
    {
        match engine {
            Engine::SqlServer => Self::SqlServer(SqlServer::new(repo)),
            Engine::Postgres => Self::Postgres(Postgres::new(repo)),
            Engine::Mysql => Self::SqlServer(SqlServer::new(repo)),
        }
    }

    /// The reserved words of the engine this service speaks for.
    pub fn get_keywords(&self) -> (r: Vec<String>)
        ensures
            self is SqlServer ==> r.deep_view() == sqlserver_keyword_list(),
            self is Postgres ==> r.deep_view() == postgres_keyword_list(),
    {
        match self {
            Self::SqlServer(s) => s.get_keywords(),
            Self::Postgres(p) => p.get_keywords(),
        }
    }
}

} // verus!
