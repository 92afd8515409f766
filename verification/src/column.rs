//! Column metadata returned by a schema provider.  Identity is the triple
//! (schema, table, name).

use vstd::prelude::*;
use crate::table::Table;

verus! {

/// A column of a table, as the schema provider reports it.
#[derive(Debug)]
pub struct Column {
    pub name: String,
    pub table: String,
    pub schema: String,
    pub data_type: String,
    pub is_nullable: bool,
}

/// The mathematical value of a [`Column`].
pub struct ColumnView {
    pub name: Seq<char>,
    pub table: Seq<char>,
    pub schema: Seq<char>,
    pub data_type: Seq<char>,
    pub is_nullable: bool,
}

impl View for Column {
    type V = ColumnView;

    open spec fn view(&self) -> ColumnView {
        ColumnView {
            name: self.name@,
            table: self.table@,
            schema: self.schema@,
            data_type: self.data_type@,
            is_nullable: self.is_nullable,
        }
    }
}

impl DeepView for Column {
    type V = ColumnView;

    open spec fn deep_view(&self) -> ColumnView {
        self@
    }
}

impl Clone for Column {
    fn clone(&self) -> (r: Self)
        ensures
            r@ == self@,
    {
        Column {
            name: self.name.clone(),
            table: self.table.clone(),
            schema: self.schema.clone(),
            data_type: self.data_type.clone(),
            is_nullable: self.is_nullable,
        }
    }
}

impl From<Column> for Table {
    fn from(column: Column) -> (r: Table) {
        Table { name: column.table, schema: column.schema }
    }
}

impl vstd::std_specs::convert::FromSpecImpl<Column> for Table {
    open spec fn obeys_from_spec() -> bool {
        true
    }

    open spec fn from_spec(column: Column) -> Table {
        Table { name: column.table, schema: column.schema }
    }
}

} // verus!
