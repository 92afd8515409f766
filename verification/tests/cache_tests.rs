use std::cell::Cell;

use tengu::cache::{initialize_cache, reset_cache, SchemaCache};
use tengu::column::Column;
use tengu::service::{Service, ServiceError};
use tengu::table::Table;

fn t(schema: &str, name: &str) -> Table {
    Table { name: name.to_string(), schema: schema.to_string() }
}

/// A provider over fixed data that counts its column queries.
struct FakeProvider {
    tables: Vec<Table>,
    columns: Vec<Column>,
    fail: bool,
    column_queries: Cell<u32>,
}

impl FakeProvider {
    fn new(tables: Vec<Table>, columns: Vec<Column>) -> FakeProvider {
        FakeProvider { tables, columns, fail: false, column_queries: Cell::new(0) }
    }
}

impl Service for FakeProvider {
    fn get_tables(&self) -> Result<Vec<Table>, ServiceError> {
        if self.fail {
            Err(ServiceError { message: "connection refused".to_string() })
        } else {
            Ok(self.tables.clone())
        }
    }

    fn get_table_columns(&self, tables: Vec<Table>) -> Result<Vec<Column>, ServiceError> {
        self.column_queries.set(self.column_queries.get() + 1);
        if self.fail {
            return Err(ServiceError { message: "connection refused".to_string() });
        }
        let mut out = Vec::new();
        for c in &self.columns {
            if tables.iter().any(|t| t.name == c.table) {
                out.push(c.clone());
            }
        }
        Ok(out)
    }

    fn get_keywords(&self) -> Vec<String> {
        vec!["SELECT".to_string(), "FROM".to_string()]
    }
}

#[test]
fn new_cache_is_empty() {
    let cache = SchemaCache::new();
    assert!(cache.all_tables.is_empty());
    assert!(cache.tables_in_file.is_empty());
    assert!(cache.all_columns.is_empty());
}

#[test]
fn resolve_hits_on_set_equality_regardless_of_order() {
    let mut cache = SchemaCache::new();
    cache.add_tables(vec![t("public", "users"), t("public", "orders")]);
    let (_, hit) = cache.resolve_relevant_tables(vec![t("public", "users"), t("public", "orders")]);
    assert!(!hit);
    let (stored, hit) =
        cache.resolve_relevant_tables(vec![t("public", "orders"), t("public", "users")]);
    assert!(hit);
    assert_eq!(stored.len(), 2);
}

#[test]
fn resolve_miss_clears_columns() {
    let mut cache = SchemaCache::new();
    cache.add_tables(vec![t("public", "users"), t("public", "orders")]);
    let (_, _) = cache.resolve_relevant_tables(vec![t("public", "users")]);
    cache.store_column_completions(Vec::new());
    let (stored, hit) = cache.resolve_relevant_tables(vec![t("public", "orders")]);
    assert!(!hit);
    assert_eq!(stored.len(), 1);
    assert_eq!(stored[0].name, "orders");
    assert!(cache.all_columns.is_empty());
}

#[test]
fn invalidate_all_clears_everything() {
    let mut cache = SchemaCache::new();
    cache.add_tables(vec![t("public", "users")]);
    let (_, _) = cache.resolve_relevant_tables(vec![t("public", "users")]);
    cache.invalidate_all();
    assert!(cache.all_tables.is_empty());
    assert!(cache.tables_in_file.is_empty());
    assert!(cache.all_columns.is_empty());
}

#[test]
fn add_tables_deduplicates() {
    let mut cache = SchemaCache::new();
    cache.add_tables(vec![t("public", "users"), t("public", "users")]);
    cache.add_tables(vec![t("public", "users"), t("sales", "users")]);
    assert_eq!(cache.all_tables.len(), 2);
}

#[test]
fn reset_cache_reloads_a_fresh_catalog() {
    let mut cache = SchemaCache::new();
    cache.add_tables(vec![t("public", "old_table")]);
    let (_, _) = cache.resolve_relevant_tables(vec![t("public", "old_table")]);

    let provider = FakeProvider::new(vec![t("public", "users")], Vec::new());
    reset_cache(&provider, &mut cache, true);
    assert_eq!(cache.all_tables.len(), 1);
    assert_eq!(cache.all_tables[0].name, "users");
    assert!(cache.tables_in_file.is_empty());
    assert!(cache.all_columns.is_empty());
}

#[test]
fn reset_cache_ignores_watch_errors() {
    let mut cache = SchemaCache::new();
    cache.add_tables(vec![t("public", "users")]);
    let provider = FakeProvider::new(vec![t("public", "other")], Vec::new());
    reset_cache(&provider, &mut cache, false);
    assert_eq!(cache.all_tables.len(), 1);
    assert_eq!(cache.all_tables[0].name, "users");
}

#[test]
fn reset_cache_with_failing_provider_leaves_catalog_empty() {
    let mut cache = SchemaCache::new();
    cache.add_tables(vec![t("public", "users")]);
    let mut provider = FakeProvider::new(Vec::new(), Vec::new());
    provider.fail = true;
    reset_cache(&provider, &mut cache, true);
    assert!(cache.all_tables.is_empty());
    assert!(cache.tables_in_file.is_empty());
    assert!(cache.all_columns.is_empty());
}

#[test]
fn initialize_cache_loads_tables() {
    let mut cache = SchemaCache::new();
    let provider = FakeProvider::new(vec![t("public", "users"), t("public", "orders")], Vec::new());
    initialize_cache(&provider, &mut cache);
    assert_eq!(cache.all_tables.len(), 2);
}

#[test]
fn initialize_cache_survives_provider_failure() {
    let mut cache = SchemaCache::new();
    let mut provider = FakeProvider::new(Vec::new(), Vec::new());
    provider.fail = true;
    initialize_cache(&provider, &mut cache);
    assert!(cache.all_tables.is_empty());
}
