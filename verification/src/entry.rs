//! Completion entries: the labeled suggestions handed back to the editor.

use vstd::prelude::*;
use crate::column::ColumnView;
use crate::table::TableView;

verus! {

/// What a completion entry suggests: a reserved keyword, a table of the
/// catalog, or a column of a relevant table.
#[derive(Clone, Copy, Debug, PartialEq, Eq, Structural)]
pub enum CompletionKind {
    Keyword,
    Table,
    Column,
}

/// A labeled suggestion with plain-text insertion text.  Column entries
/// carry the owning table's name as their detail.
#[derive(Debug)]
pub struct CompletionEntry {
    pub label: String,
    pub detail: Option<String>,
    pub kind: CompletionKind,
    pub insert_text: String,
}

/// The mathematical value of a [`CompletionEntry`].
pub struct EntryView {
    pub label: Seq<char>,
    pub detail: Option<Seq<char>>,
    pub kind: CompletionKind,
    pub insert_text: Seq<char>,
}

impl View for CompletionEntry {
    type V = EntryView;

    open spec fn view(&self) -> EntryView {
        EntryView {
            label: self.label@,
            detail: match self.detail {
                Some(d) => Some(d@),
                None => None,
            },
            kind: self.kind,
            insert_text: self.insert_text@,
        }
    }
}

impl DeepView for CompletionEntry {
    type V = EntryView;

    open spec fn deep_view(&self) -> EntryView {
        self@
    }
}

impl Clone for CompletionEntry {
    fn clone(&self) -> (r: Self)
        ensures
            r@ == self@,
    {
        CompletionEntry {
            label: self.label.clone(),
            detail: match &self.detail {
                Some(d) => Some(d.clone()),
                None => None,
            },
            kind: self.kind,
            insert_text: self.insert_text.clone(),
        }
    }
}

/// The entry that offers a table: labeled with the table's name, inserted
/// as plain text.
pub open spec fn spec_table_entry(t: TableView) -> EntryView {
    EntryView { label: t.name, detail: None, kind: CompletionKind::Table, insert_text: t.name }
}

/// The entry that offers a keyword.
pub open spec fn spec_keyword_entry(w: Seq<char>) -> EntryView {
    EntryView { label: w, detail: None, kind: CompletionKind::Keyword, insert_text: w }
}

/// The entry that offers a column: labeled with the column's name and
/// detailed with its owning table.
pub open spec fn spec_column_entry(c: ColumnView) -> EntryView {
    EntryView {
        label: c.name,
        detail: Some(c.table),
        kind: CompletionKind::Column,
        insert_text: c.name,
    }
}

/// The table entries for a whole catalog, in catalog order.
pub open spec fn spec_table_entries(ts: Seq<TableView>) -> Seq<EntryView> {
    ts.map(|i: int, t: TableView| spec_table_entry(t))
}

/// The keyword entries for a keyword list, in list order.
pub open spec fn spec_keyword_entries(ws: Seq<Seq<char>>) -> Seq<EntryView> {
    ws.map(|i: int, w: Seq<char>| spec_keyword_entry(w))
}

/// The column entries for a column list, in list order.
pub open spec fn spec_column_entries(cs: Seq<ColumnView>) -> Seq<EntryView> {
    cs.map(|i: int, c: ColumnView| spec_column_entry(c))
}

/// Copies an entry list; the copy stands for the same entries.
pub fn clone_entries(entries: &Vec<CompletionEntry>) -> (r: Vec<CompletionEntry>)
    ensures
        r.deep_view() == entries.deep_view(),
{
    let mut r: Vec<CompletionEntry> = Vec::new();
    let mut i: usize = 0;
    while i < entries.len()
        invariant
            0 <= i <= entries.len(),
            r@.len() == i,
            forall|j: int| 0 <= j < i ==> r.deep_view()[j] == entries.deep_view()[j],
        decreases entries.len() - i,
    {
        let e = entries[i].clone();
        assert(e@ == entries.deep_view()[i as int]);
        r.push(e);
        i += 1;
    }
    assert(r.deep_view() =~= entries.deep_view());
    r
}

} // verus!
