//! The schema cache: what schema knowledge is known, which subset of it is
//! relevant to the most recently analyzed document, and the column
//! completions derived from that subset.
//!
//! The cache is an explicit object owned by the embedding server; every
//! operation takes it whole, which stands for the original's single coarse
//! lock around each operation.

use vstd::prelude::*;
use crate::entry::{CompletionEntry, EntryView};
use crate::table::{contains_table, clone_tables, lemma_table_push_no_duplicates, lemma_table_push_to_set, Table, TableView};
use crate::util::SetEq;
use crate::service::Service;

verus! {

/// The process-wide schema knowledge for the active connection.
pub struct SchemaCache {
    /// The full table catalog.
    pub all_tables: Vec<Table>,
    /// The subset of the catalog whose names appeared as words in the most
    /// recently analyzed document.
    pub tables_in_file: Vec<Table>,
    /// The column completions derived from `tables_in_file`.
    pub all_columns: Vec<CompletionEntry>,
}

impl SchemaCache {
    /// The cache's standing invariant: both table lists are sets, and the
    /// relevant tables are drawn from the catalog.
    pub open spec fn wf(self) -> bool {
        &&& self.all_tables.deep_view().no_duplicates()
        &&& self.tables_in_file.deep_view().no_duplicates()
        &&& self.tables_in_file.deep_view().to_set().subset_of(
            self.all_tables.deep_view().to_set(),
        )
    }

    /// The catalog as a set.
    pub open spec fn catalog(self) -> Set<TableView> {
        self.all_tables.deep_view().to_set()
    }

    /// The relevant-table subset as a set.
    pub open spec fn relevant(self) -> Set<TableView> {
        self.tables_in_file.deep_view().to_set()
    }

    /// The cached column completions.
    pub open spec fn columns(self) -> Seq<EntryView> {
        self.all_columns.deep_view()
    }

    /// An empty cache: nothing known, nothing relevant, nothing cached.
    pub fn new() -> (r: SchemaCache)
        ensures
            r.wf(),
            r.catalog() == Set::<TableView>::empty(),
            r.relevant() == Set::<TableView>::empty(),
            r.columns() == Seq::<EntryView>::empty(),
    {
        let r = SchemaCache {
            all_tables: Vec::new(),
            tables_in_file: Vec::new(),
            all_columns: Vec::new(),
        };
        proof {
            assert(r.catalog() =~= Set::<TableView>::empty());
            assert(r.relevant() =~= Set::<TableView>::empty());
            assert(r.columns() =~= Seq::<EntryView>::empty());
        }
        r
    }

    /// The current catalog, as a copy.
    pub fn snapshot_all_tables(&self) -> (r: Vec<Table>)
        ensures
            r.deep_view() == self.all_tables.deep_view(),
    {
        clone_tables(&self.all_tables)
    }

    /// The cached column completions, as a copy.
    pub fn snapshot_column_completions(&self) -> (r: Vec<CompletionEntry>)
        ensures
            r.deep_view() == self.columns(),
    {
        crate::entry::clone_entries(&self.all_columns)
    }

    /// Compares the candidate set to the stored relevant tables by set
    /// equality.  Equal: a cache hit, nothing changes, and the caller may
    /// reuse the cached columns.  Not equal: a miss, the candidate replaces
    /// the relevant set and the cached columns are cleared, so the caller
    /// must repopulate them.  Either way the relevant set afterwards is the
    /// candidate set, and what is returned is the stored set together with
    /// the hit flag.
    pub fn resolve_relevant_tables(&mut self, candidate: Vec<Table>) -> (r: (Vec<Table>, bool))
        requires
            old(self).wf(),
            candidate.deep_view().no_duplicates(),
            candidate.deep_view().to_set().subset_of(old(self).catalog()),
        ensures
            final(self).wf(),
            final(self).all_tables.deep_view() == old(self).all_tables.deep_view(),
            r.1 == (candidate.deep_view().to_set() == old(self).relevant()),
            final(self).relevant() == candidate.deep_view().to_set(),
            r.1 ==> final(self).tables_in_file.deep_view() == old(
                self,
            ).tables_in_file.deep_view(),
            r.1 ==> final(self).columns() == old(self).columns(),
            !r.1 ==> final(self).tables_in_file.deep_view() == candidate.deep_view(),
            !r.1 ==> final(self).columns() == Seq::<EntryView>::empty(),
            r.0.deep_view() == final(self).tables_in_file.deep_view(),
    {
        let hit = self.tables_in_file.equals(&candidate);
        if hit {
            (clone_tables(&self.tables_in_file), true)
        } else {
            self.tables_in_file = candidate;
            self.all_columns = Vec::new();
            proof {
                assert(self.columns() =~= Seq::<EntryView>::empty());
            }
            (clone_tables(&self.tables_in_file), false)
        }
    }

    /// Sets the cached column completions after a miss.
    pub fn store_column_completions(&mut self, items: Vec<CompletionEntry>)
        requires
            old(self).wf(),
        ensures
            final(self).wf(),
            final(self).all_tables.deep_view() == old(self).all_tables.deep_view(),
            final(self).tables_in_file.deep_view() == old(self).tables_in_file.deep_view(),
            final(self).columns() == items.deep_view(),
    {
        self.all_columns = items;
    }

    /// Clears everything: the catalog, the relevant subset and the cached
    /// columns.  After invalidation, catalog-dependent answers stay empty
    /// until a fresh catalog is supplied.
    pub fn invalidate_all(&mut self)
        ensures
            final(self).wf(),
            final(self).catalog() == Set::<TableView>::empty(),
            final(self).relevant() == Set::<TableView>::empty(),
            final(self).columns() == Seq::<EntryView>::empty(),
    {
        self.all_tables = Vec::new();
        self.tables_in_file = Vec::new();
        self.all_columns = Vec::new();
        proof {
            assert(self.catalog() =~= Set::<TableView>::empty());
            assert(self.relevant() =~= Set::<TableView>::empty());
            assert(self.columns() =~= Seq::<EntryView>::empty());
        }
    }

    /// Adds freshly supplied catalog tables, each once; the relevant subset
    /// and the cached columns are untouched.
    pub fn add_tables(&mut self, tables: Vec<Table>)
        requires
            old(self).wf(),
        ensures
            final(self).wf(),
            final(self).catalog() == old(self).catalog().union(
                tables.deep_view().to_set(),
            ),
            final(self).tables_in_file.deep_view() == old(self).tables_in_file.deep_view(),
            final(self).columns() == old(self).columns(),
    {
        let ghost ts = tables.deep_view();
        let mut i: usize = 0;
        while i < tables.len()
            invariant
                0 <= i <= tables.len(),
                ts == tables.deep_view(),
                self.wf(),
                self.tables_in_file.deep_view() == old(self).tables_in_file.deep_view(),
                self.columns() == old(self).columns(),
                self.catalog() == old(self).catalog().union(ts.take(i as int).to_set()),
            decreases tables.len() - i,
        {
            let ghost before = self.all_tables.deep_view();
            assert(tables[i as int]@ == ts[i as int]);
            if !contains_table(&self.all_tables, &tables[i]) {
                let t = tables[i].clone();
                self.all_tables.push(t);
                proof {
                    assert(self.all_tables.deep_view() =~= before.push(ts[i as int]));
                    lemma_table_push_no_duplicates(before, ts[i as int]);
                    lemma_table_push_to_set(before, ts[i as int]);
                }
            } else {
                proof {
                    assert(before.to_set().insert(ts[i as int]) =~= before.to_set());
                }
            }
            proof {
                assert(ts.take(i as int).push(ts[i as int]) =~= ts.take(i + 1));
                lemma_table_push_to_set(ts.take(i as int), ts[i as int]);
                assert(old(self).catalog().union(ts.take(i as int).to_set()).insert(
                    ts[i as int],
                ) =~= old(self).catalog().union(ts.take(i + 1).to_set()));
                assert(self.catalog() =~= old(self).catalog().union(ts.take(i + 1).to_set()));
            }
            i += 1;
        }
        proof {
            assert(ts.take(ts.len() as int) =~= ts);
        }
    }
}


/// Loads the catalog at server start: asks the provider for all tables and
/// adds what it answers.  A provider failure leaves the cache as it was;
/// either way the catalog only grows and the relevant subset and cached
/// columns are untouched.
pub fn initialize_cache<S: Service>(service: &S, cache: &mut SchemaCache)
    requires
        old(cache).wf(),
    ensures
        final(cache).wf(),
        old(cache).catalog().subset_of(final(cache).catalog()),
        final(cache).tables_in_file.deep_view() == old(cache).tables_in_file.deep_view(),
        final(cache).columns() == old(cache).columns(),
{
    match service.get_tables() {
        Ok(tables) => {
            cache.add_tables(tables);
        },
        Err(_) => {},
    }
}

/// Handles one notification from the watcher of the active-connection
/// marker.  A sound notification discards everything and reloads the
/// catalog from the provider: afterwards the relevant subset and the
/// cached columns are empty until the next completion request repopulates
/// them.  A notification that reports a watch error is ignored: the cache
/// keeps its last known state rather than losing it.
pub fn reset_cache<S: Service>(service: &S, cache: &mut SchemaCache, event_ok: bool)
    requires
        old(cache).wf(),
    ensures
        final(cache).wf(),
        !event_ok ==> *final(cache) == *old(cache),
        event_ok ==> final(cache).relevant() == Set::<TableView>::empty(),
        event_ok ==> final(cache).columns() == Seq::<EntryView>::empty(),
{
    if event_ok {
        cache.invalidate_all();
        match service.get_tables() {
            Ok(tables) => {
                cache.add_tables(tables);
                proof {
                    assert(cache.relevant() =~= Set::<TableView>::empty());
                }
            },
            Err(_) => {},
        }
    }
}

} // verus!
