use std::cell::{Cell, RefCell};

use tengu::cache::{reset_cache, SchemaCache};
use tengu::column::Column;
use tengu::completion::{complete, hover};
use tengu::entry::{CompletionEntry, CompletionKind};
use tengu::service::{Service, ServiceError};
use tengu::table::Table;

fn t(schema: &str, name: &str) -> Table {
    Table { name: name.to_string(), schema: schema.to_string() }
}

fn col(table: &str, name: &str, data_type: &str, nullable: bool) -> Column {
    Column {
        name: name.to_string(),
        table: table.to_string(),
        schema: "public".to_string(),
        data_type: data_type.to_string(),
        is_nullable: nullable,
    }
}

/// A provider over fixed data that records every column query.
struct FakeProvider {
    columns: Vec<Column>,
    fail_columns: bool,
    column_queries: Cell<u32>,
    last_query: RefCell<Vec<Table>>,
}

impl FakeProvider {
    fn new(columns: Vec<Column>) -> FakeProvider {
        FakeProvider {
            columns,
            fail_columns: false,
            column_queries: Cell::new(0),
            last_query: RefCell::new(Vec::new()),
        }
    }
}

impl Service for FakeProvider {
    fn get_tables(&self) -> Result<Vec<Table>, ServiceError> {
        Ok(Vec::new())
    }

    fn get_table_columns(&self, tables: Vec<Table>) -> Result<Vec<Column>, ServiceError> {
        self.column_queries.set(self.column_queries.get() + 1);
        *self.last_query.borrow_mut() = tables.clone();
        if self.fail_columns {
            return Err(ServiceError { message: "connection refused".to_string() });
        }
        let mut out = Vec::new();
        for c in &self.columns {
            if tables.iter().any(|tb| tb.name == c.table) {
                out.push(c.clone());
            }
        }
        Ok(out)
    }

    fn get_keywords(&self) -> Vec<String> {
        vec!["SELECT".to_string(), "FROM".to_string(), "WHERE".to_string()]
    }
}

fn labels_of_kind(entries: &[CompletionEntry], kind: CompletionKind) -> Vec<String> {
    entries.iter().filter(|e| e.kind == kind).map(|e| e.label.clone()).collect()
}

#[test]
fn completion_offers_tables_keywords_and_relevant_columns() {
    let provider = FakeProvider::new(vec![
        col("users", "id", "integer", false),
        col("users", "email", "text", true),
        col("orders", "total", "numeric", false),
    ]);
    let mut cache = SchemaCache::new();
    cache.add_tables(vec![t("public", "users"), t("public", "orders")]);

    let text = "SELECT * FROM users".to_string();
    let entries = complete(&provider, &mut cache, &text);

    let tables = labels_of_kind(&entries, CompletionKind::Table);
    assert!(tables.contains(&"users".to_string()));
    assert!(tables.contains(&"orders".to_string()));

    let keywords = labels_of_kind(&entries, CompletionKind::Keyword);
    assert_eq!(
        keywords,
        vec!["SELECT".to_string(), "FROM".to_string(), "WHERE".to_string()]
    );

    let columns = labels_of_kind(&entries, CompletionKind::Column);
    assert!(columns.contains(&"id".to_string()));
    assert!(columns.contains(&"email".to_string()));
    assert!(!columns.contains(&"total".to_string()));

    let queried = provider.last_query.borrow();
    assert_eq!(queried.len(), 1);
    assert_eq!(queried[0].name, "users");
}

#[test]
fn completion_column_entries_carry_their_table() {
    let provider = FakeProvider::new(vec![col("users", "id", "integer", false)]);
    let mut cache = SchemaCache::new();
    cache.add_tables(vec![t("public", "users")]);
    let entries = complete(&provider, &mut cache, &"SELECT id FROM users".to_string());
    let id_entry = entries
        .iter()
        .find(|e| e.kind == CompletionKind::Column && e.label == "id")
        .expect("column entry for id");
    assert_eq!(id_entry.detail, Some("users".to_string()));
    assert_eq!(id_entry.insert_text, "id");
}

#[test]
fn second_equal_request_does_not_query_the_provider() {
    let provider = FakeProvider::new(vec![col("users", "id", "integer", false)]);
    let mut cache = SchemaCache::new();
    cache.add_tables(vec![t("public", "users"), t("public", "orders")]);

    let first = complete(&provider, &mut cache, &"SELECT * FROM users".to_string());
    assert_eq!(provider.column_queries.get(), 1);

    // Unrelated edits keep the referenced-table set equal.
    let second = complete(&provider, &mut cache, &"SELECT id FROM users WHERE id = 1".to_string());
    assert_eq!(provider.column_queries.get(), 1);

    assert_eq!(labels_of_kind(&first, CompletionKind::Column), vec!["id".to_string()]);
    assert_eq!(labels_of_kind(&second, CompletionKind::Column), vec!["id".to_string()]);
}

#[test]
fn changed_table_set_queries_again() {
    let provider = FakeProvider::new(vec![
        col("users", "id", "integer", false),
        col("orders", "total", "numeric", false),
    ]);
    let mut cache = SchemaCache::new();
    cache.add_tables(vec![t("public", "users"), t("public", "orders")]);

    let _ = complete(&provider, &mut cache, &"SELECT * FROM users".to_string());
    let entries = complete(&provider, &mut cache, &"SELECT * FROM orders".to_string());
    assert_eq!(provider.column_queries.get(), 2);
    assert_eq!(labels_of_kind(&entries, CompletionKind::Column), vec!["total".to_string()]);
}

#[test]
fn completion_degrades_when_the_provider_fails() {
    let mut provider = FakeProvider::new(vec![col("users", "id", "integer", false)]);
    provider.fail_columns = true;
    let mut cache = SchemaCache::new();
    cache.add_tables(vec![t("public", "users")]);
    let entries = complete(&provider, &mut cache, &"SELECT * FROM users".to_string());
    assert!(labels_of_kind(&entries, CompletionKind::Column).is_empty());
    assert!(labels_of_kind(&entries, CompletionKind::Table).contains(&"users".to_string()));
    assert!(!labels_of_kind(&entries, CompletionKind::Keyword).is_empty());
}

#[test]
fn completion_with_empty_catalog_offers_keywords_only() {
    let provider = FakeProvider::new(Vec::new());
    let mut cache = SchemaCache::new();
    let entries = complete(&provider, &mut cache, &"SELECT * FROM users".to_string());
    assert!(labels_of_kind(&entries, CompletionKind::Table).is_empty());
    assert!(labels_of_kind(&entries, CompletionKind::Column).is_empty());
    assert_eq!(labels_of_kind(&entries, CompletionKind::Keyword).len(), 3);
}

#[test]
fn hover_formats_one_line_per_column() {
    let provider = FakeProvider::new(vec![
        col("tbl_person", "PersonID", "int", false),
        col("tbl_person", "Nickname", "nvarchar", true),
    ]);
    let mut cache = SchemaCache::new();
    cache.add_tables(vec![t("dbo", "tbl_person")]);

    let line = "SELECT * FROM dbo.tbl_person;".to_string();
    let hovered = hover(&provider, &cache, &line, 18);
    let lines = hovered.expect("hover over a known table");
    assert_eq!(lines.len(), 2);
    assert_eq!(lines[0], "**PersonID**: int NOT NULL");
    assert_eq!(lines[1], "**Nickname**: nvarchar NULL");
}

#[test]
fn hover_away_from_identifiers_gives_nothing() {
    let provider = FakeProvider::new(Vec::new());
    let mut cache = SchemaCache::new();
    cache.add_tables(vec![t("dbo", "tbl_person")]);
    let line = "SELECT * FROM dbo.tbl_person;".to_string();
    assert_eq!(hover(&provider, &cache, &line, 6), None);
    assert_eq!(hover(&provider, &cache, &line, 28), None);
    assert_eq!(provider.column_queries.get(), 0);
}

#[test]
fn hover_over_an_unknown_word_gives_nothing() {
    let provider = FakeProvider::new(Vec::new());
    let mut cache = SchemaCache::new();
    cache.add_tables(vec![t("dbo", "tbl_person")]);
    let line = "SELECT * FROM dbo.tbl_person;".to_string();
    assert_eq!(hover(&provider, &cache, &line, 0), None);
    assert_eq!(provider.column_queries.get(), 0);
}

#[test]
fn hover_degrades_when_the_provider_fails() {
    let mut provider = FakeProvider::new(vec![col("tbl_person", "PersonID", "int", false)]);
    provider.fail_columns = true;
    let mut cache = SchemaCache::new();
    cache.add_tables(vec![t("dbo", "tbl_person")]);
    let line = "SELECT * FROM dbo.tbl_person;".to_string();
    assert_eq!(hover(&provider, &cache, &line, 18), None);
}

#[test]
fn invalidation_forces_the_next_request_to_repopulate() {
    let provider = FakeProvider::new(vec![col("users", "id", "integer", false)]);
    let mut cache = SchemaCache::new();
    cache.add_tables(vec![t("public", "users")]);

    let text = "SELECT * FROM users".to_string();
    let _ = complete(&provider, &mut cache, &text);
    assert_eq!(provider.column_queries.get(), 1);

    // The connection marker changed: everything is discarded and the catalog
    // reloaded; relevant tables and columns stay empty until the next request.
    struct CatalogOnly;
    impl Service for CatalogOnly {
        fn get_tables(&self) -> Result<Vec<Table>, ServiceError> {
            Ok(vec![Table { name: "users".to_string(), schema: "public".to_string() }])
        }
        fn get_table_columns(&self, _tables: Vec<Table>) -> Result<Vec<Column>, ServiceError> {
            Err(ServiceError { message: "not asked here".to_string() })
        }
        fn get_keywords(&self) -> Vec<String> {
            Vec::new()
        }
    }
    reset_cache(&CatalogOnly, &mut cache, true);
    assert_eq!(cache.all_tables.len(), 1);
    assert!(cache.tables_in_file.is_empty());
    assert!(cache.all_columns.is_empty());

    let entries = complete(&provider, &mut cache, &text);
    assert_eq!(provider.column_queries.get(), 2);
    assert_eq!(labels_of_kind(&entries, CompletionKind::Column), vec!["id".to_string()]);
}
