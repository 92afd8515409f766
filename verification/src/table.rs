//! Tables of the schema catalog.  Identity is the pair (schema, name).

use vstd::prelude::*;

verus! {

/// A table of the catalog, a freely copyable value type.
#[derive(Debug)]
pub struct Table {
    pub name: String,
    pub schema: String,
}

/// The mathematical value of a [`Table`]: its two identifying strings.
pub struct TableView {
    pub name: Seq<char>,
    pub schema: Seq<char>,
}

impl View for Table {
    type V = TableView;

    open spec fn view(&self) -> TableView {
        TableView { name: self.name@, schema: self.schema@ }
    }
}

impl DeepView for Table {
    type V = TableView;

    open spec fn deep_view(&self) -> TableView {
        self@
    }
}

impl Clone for Table {
    fn clone(&self) -> (r: Self)
        ensures
            r@ == self@,
    {
        Table { name: self.name.clone(), schema: self.schema.clone() }
    }
}

impl PartialEq for Table {
    fn eq(&self, other: &Self) -> (r: bool) {
        self.name == other.name && self.schema == other.schema
    }
}

impl vstd::std_specs::cmp::PartialEqSpecImpl for Table {
    open spec fn obeys_eq_spec() -> bool {
        true
    }

    open spec fn eq_spec(&self, other: &Self) -> bool {
        self@ == other@
    }
}

/// The set of table values a sequence of tables stands for.
pub open spec fn table_set(s: Seq<TableView>) -> Set<TableView> {
    s.to_set()
}

/// No two entries stand for the same table.
pub open spec fn tables_dup_free(s: Seq<TableView>) -> bool {
    s.no_duplicates()
}

/// Whether a sequence of tables holds a table with the given name.
pub open spec fn has_table_named(s: Seq<TableView>, name: Seq<char>) -> bool {
    exists|i: int| 0 <= i < s.len() && s[i].name == name
}

/// Whether the table list holds this exact table.
pub fn contains_table(tables: &Vec<Table>, t: &Table) -> (b: bool)
    ensures
        b == table_set(tables.deep_view()).contains(t@),
{
    let ghost s = tables.deep_view();
    let mut i: usize = 0;
    while i < tables.len()
        invariant
            0 <= i <= tables.len(),
            s == tables.deep_view(),
            forall|j: int| 0 <= j < i ==> s[j] != t@,
        decreases tables.len() - i,
    {
        assert(s[i as int] == tables[i as int]@);
        if tables[i] == *t {
            assert(s.contains(s[i as int]));
            return true;
        }
        i += 1;
    }
    assert(forall|j: int| 0 <= j < s.len() ==> s[j] != t@);
    false
}

/// Copies a table list; the copy stands for the same sequence of tables.
pub fn clone_tables(tables: &Vec<Table>) -> (r: Vec<Table>)
    ensures
        r.deep_view() == tables.deep_view(),
{
    let mut r: Vec<Table> = Vec::new();
    let mut i: usize = 0;
    while i < tables.len()
        invariant
            0 <= i <= tables.len(),
            r@.len() == i,
            forall|j: int| 0 <= j < i ==> r.deep_view()[j] == tables.deep_view()[j],
        decreases tables.len() - i,
    {
        let t = tables[i].clone();
        assert(t@ == tables.deep_view()[i as int]);
        r.push(t);
        i += 1;
    }
    assert(r.deep_view() =~= tables.deep_view());
    r
}

/// Pushing a value a sequence does not hold keeps the sequence free of
/// duplicates.
pub proof fn lemma_table_push_no_duplicates(s: Seq<TableView>, t: TableView)
    requires
        s.no_duplicates(),
        !s.contains(t),
    ensures
        s.push(t).no_duplicates(),
{
    assert forall|i: int, j: int|
        0 <= i < s.push(t).len() && 0 <= j < s.push(t).len() && i != j
        implies s.push(t)[i] != s.push(t)[j] by {
        if i < s.len() && s.push(t)[i] == t {
            assert(s.contains(s[i]));
        }
        if j < s.len() && s.push(t)[j] == t {
            assert(s.contains(s[j]));
        }
    }
}

/// The set a pushed sequence stands for is the old set with the new value.
pub proof fn lemma_table_push_to_set(s: Seq<TableView>, t: TableView)
    ensures
        s.push(t).to_set() == s.to_set().insert(t),
{
    assert forall|x: TableView| s.push(t).to_set().contains(x)
        implies s.to_set().insert(t).contains(x) by {
        let j = choose|j: int| 0 <= j < s.push(t).len() && s.push(t)[j] == x;
        if j < s.len() {
            assert(s.contains(x));
        }
    }
    assert forall|x: TableView| s.to_set().insert(t).contains(x)
        implies s.push(t).to_set().contains(x) by {
        if s.contains(x) {
            let j = choose|j: int| 0 <= j < s.len() && s[j] == x;
            assert(s.push(t)[j] == x);
            assert(s.push(t).contains(x));
        } else {
            assert(x == t);
            assert(s.push(t)[s.len() as int] == t);
            assert(s.push(t).contains(t));
        }
    }
    assert(s.push(t).to_set() =~= s.to_set().insert(t));
}

} // verus!
