use tengu::connection::Connection;
use tengu::engine::Engine;
use tengu::entry::CompletionEntry;
use tengu::entry::CompletionKind;
use tengu::service::{Postgres, SqlServer, TenguService};
use tengu::repository::TenguRepository;
use tengu::table::Table;
use tengu::column::Column;
use tengu::util::{Concat, SetEq};

fn t(schema: &str, name: &str) -> Table {
    Table { name: name.to_string(), schema: schema.to_string() }
}

/// A profile store over nothing, for wiring services in tests.
struct NullRepository;

impl TenguRepository for NullRepository {
    fn insert(&self, _connection: &Connection) {}
    fn update(&self, _connection: &Connection) {}
    fn delete(&self, _name: String) {}
    fn activate_connection(&mut self, _connection: &Connection) {}
    fn active_connection_path(&self) -> String {
        String::new()
    }
    fn get_active_connection(&self) -> Option<Connection> {
        None
    }
    fn list(&self) -> Vec<Connection> {
        Vec::new()
    }
}

#[test]
fn engine_names_round_trip() {
    assert!(matches!(Engine::from("sqlserver".to_string()), Engine::SqlServer));
    assert!(matches!(Engine::from("postgres".to_string()), Engine::Postgres));
    assert!(matches!(Engine::from("mysql".to_string()), Engine::Mysql));
    assert!(matches!(Engine::from("unknown".to_string()), Engine::SqlServer));
    assert_eq!(String::from(Engine::Postgres), "postgres".to_string());
    assert_eq!(Engine::Mysql.name(), "mysql".to_string());
}

#[test]
fn connection_new_keeps_its_parts() {
    let conn = Connection::new(
        "local".to_string(),
        Engine::Postgres,
        "localhost".to_string(),
        "5432".to_string(),
        "admin".to_string(),
        "hunter2".to_string(),
        "shop".to_string(),
    );
    assert_eq!(conn.name, "local");
    assert_eq!(conn.host, "localhost");
    assert_eq!(conn.port, "5432");
    assert_eq!(conn.database, "shop");
    assert!(matches!(conn.engine, Engine::Postgres));
}

#[test]
fn table_identity_is_schema_and_name() {
    assert_eq!(t("public", "users"), t("public", "users"));
    assert_ne!(t("public", "users"), t("sales", "users"));
    let from_col = Table::from(Column {
        name: "id".to_string(),
        table: "users".to_string(),
        schema: "public".to_string(),
        data_type: "integer".to_string(),
        is_nullable: false,
    });
    assert_eq!(from_col, t("public", "users"));
}

#[test]
fn services_offer_their_engines_keywords() {
    let mssql = SqlServer::new(NullRepository);
    assert!(mssql.get_keywords().contains(&"TOP".to_string()));
    let pg = Postgres::new(NullRepository);
    assert!(pg.get_keywords().contains(&"ILIKE".to_string()));
    let service = TenguService::new(Engine::Postgres, NullRepository);
    let kws = service.get_keywords();
    assert_eq!(kws[0], "SELECT");
    assert!(kws.contains(&"LIMIT".to_string()));
}

#[test]
fn set_equality_ignores_order_and_sees_any_difference() {
    let a = vec![t("public", "users"), t("public", "orders")];
    let b = vec![t("public", "orders"), t("public", "users")];
    let c = vec![t("public", "orders")];
    let d = vec![t("sales", "users"), t("public", "orders")];
    assert!(a.equals(&b));
    assert!(!a.equals(&c));
    assert!(!a.equals(&d));
    let empty: Vec<Table> = Vec::new();
    assert!(empty.equals(&Vec::new()));
    assert!(!a.equals(&Vec::new()));
}

fn entry(label: &str) -> CompletionEntry {
    CompletionEntry {
        label: label.to_string(),
        detail: None,
        kind: CompletionKind::Keyword,
        insert_text: label.to_string(),
    }
}

#[test]
fn concat_appends_and_treats_missing_lists_as_empty() {
    let mut base: Option<Vec<CompletionEntry>> = Some(vec![entry("a")]);
    let merged = base.concat(&Some(vec![entry("b"), entry("c")]));
    let labels: Vec<String> = merged.unwrap().iter().map(|e| e.label.clone()).collect();
    assert_eq!(labels, vec!["a".to_string(), "b".to_string(), "c".to_string()]);

    let mut none: Option<Vec<CompletionEntry>> = None;
    let merged = none.concat(&Some(vec![entry("x")]));
    assert_eq!(merged.unwrap()[0].label, "x");

    let mut some: Option<Vec<CompletionEntry>> = Some(vec![entry("y")]);
    let merged = some.concat(&None);
    assert_eq!(merged.unwrap().len(), 1);
}
