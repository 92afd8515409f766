//! Answering completion and hover requests.
//!
//! A completion request always offers every catalog table and the engine's
//! reserved words; column completions are merged in from the cache on a
//! hit, and fetched from the schema provider on a miss.  When the provider
//! fails, the request degrades gracefully to keyword and table entries.

use vstd::prelude::*;
use vstd::string::StringExecFns;
use crate::cache::SchemaCache;
use crate::column::{Column, ColumnView};
use crate::document::{find_word, spec_find_word};
use crate::entry::{
    clone_entries, spec_column_entries, spec_column_entry, spec_keyword_entries,
    spec_keyword_entry, spec_table_entries, spec_table_entry, CompletionEntry, CompletionKind,
    EntryView,
};
use crate::service::Service;
use crate::table::{has_table_named, Table, TableView};
use crate::tokenizer::{contains_string, intersection, spec_tokenize, tokenize, Token, TokenView};

verus! {

/// The word-token texts of a document.
pub open spec fn word_texts(text: Seq<char>) -> Set<Seq<char>> {
    Set::new(|w: Seq<char>| spec_tokenize(text).contains(TokenView::Token(w)))
}

/// The candidate relevant set of a request: the catalog tables whose names
/// occur as words of the document.
pub open spec fn candidate_tables(catalog: Set<TableView>, text: Seq<char>) -> Set<TableView> {
    catalog.filter(|t: TableView| word_texts(text).contains(t.name))
}

/// The names of a table sequence, in order.
pub open spec fn spec_table_names(ts: Seq<TableView>) -> Seq<Seq<char>> {
    ts.map(|i: int, t: TableView| t.name)
}

/// Builds the entry that offers one table.
fn table_entry(t: &Table) -> (r: CompletionEntry)
    ensures
        r@ == spec_table_entry(t@),
{
    CompletionEntry {
        label: t.name.clone(),
        detail: None,
        kind: CompletionKind::Table,
        insert_text: t.name.clone(),
    }
}

/// Builds the table entries for a catalog, in catalog order.
pub fn table_entries(tables: &Vec<Table>) -> (r: Vec<CompletionEntry>)
    ensures
        r.deep_view() == spec_table_entries(tables.deep_view()),
{
    let mut r: Vec<CompletionEntry> = Vec::new();
    let mut i: usize = 0;
    while i < tables.len()
        invariant
            0 <= i <= tables.len(),
            r@.len() == i,
            forall|j: int| 0 <= j < i ==> r.deep_view()[j] == spec_table_entry(
                tables.deep_view()[j],
            ),
        decreases tables.len() - i,
    {
        let e = table_entry(&tables[i]);
        assert(e@ == spec_table_entry(tables.deep_view()[i as int]));
        let ghost before = r.deep_view();
        let ghost ev = e@;
        r.push(e);
        proof {
            assert(r.deep_view() =~= before.push(ev));
        }
        i += 1;
    }
    assert(r.deep_view() =~= spec_table_entries(tables.deep_view()));
    r
}

/// Builds the keyword entries for a reserved-word list, in list order.
pub fn keyword_entries(keywords: &Vec<String>) -> (r: Vec<CompletionEntry>)
    ensures
        r.deep_view() == spec_keyword_entries(keywords.deep_view()),
{
    let mut r: Vec<CompletionEntry> = Vec::new();
    let mut i: usize = 0;
    while i < keywords.len()
        invariant
            0 <= i <= keywords.len(),
            r@.len() == i,
            forall|j: int| 0 <= j < i ==> r.deep_view()[j] == spec_keyword_entry(
                keywords.deep_view()[j],
            ),
        decreases keywords.len() - i,
    {
        let w = keywords[i].clone();
        let e = CompletionEntry {
            label: w.clone(),
            detail: None,
            kind: CompletionKind::Keyword,
            insert_text: w,
        };
        assert(e@ == spec_keyword_entry(keywords.deep_view()[i as int]));
        let ghost before = r.deep_view();
        let ghost ev = e@;
        r.push(e);
        proof {
            assert(r.deep_view() =~= before.push(ev));
        }
        i += 1;
    }
    assert(r.deep_view() =~= spec_keyword_entries(keywords.deep_view()));
    r
}

/// Builds the column entries for a column list, in list order: each column
/// is offered under its name, detailed with its owning table.
pub fn column_entries(columns: &Vec<Column>) -> (r: Vec<CompletionEntry>)
    ensures
        r.deep_view() == spec_column_entries(columns.deep_view()),
{
    let mut r: Vec<CompletionEntry> = Vec::new();
    let mut i: usize = 0;
    while i < columns.len()
        invariant
            0 <= i <= columns.len(),
            r@.len() == i,
            forall|j: int| 0 <= j < i ==> r.deep_view()[j] == spec_column_entry(
                columns.deep_view()[j],
            ),
        decreases columns.len() - i,
    {
        let c = &columns[i];
        let e = CompletionEntry {
            label: c.name.clone(),
            detail: Some(c.table.clone()),
            kind: CompletionKind::Column,
            insert_text: c.name.clone(),
        };
        assert(e@ == spec_column_entry(columns.deep_view()[i as int]));
        let ghost before = r.deep_view();
        let ghost ev = e@;
        r.push(e);
        proof {
            assert(r.deep_view() =~= before.push(ev));
        }
        i += 1;
    }
    assert(r.deep_view() =~= spec_column_entries(columns.deep_view()));
    r
}

/// Appends entries to a completion list.
fn append_entries(list: &mut Vec<CompletionEntry>, mut more: Vec<CompletionEntry>)
    ensures
        final(list).deep_view() == old(list).deep_view() + more.deep_view(),
{
    let ghost a = list.deep_view();
    let ghost b = more.deep_view();
    list.append(&mut more);
    proof {
        assert(list.deep_view() =~= a + b);
    }
}

/// The distinct word-token texts of a token list.
fn word_strings(tokens: &Vec<Token>) -> (r: Vec<String>)
    ensures
        r.deep_view().no_duplicates(),
        forall|w: Seq<char>| #[trigger] r.deep_view().contains(w) <==> tokens.deep_view()
            .contains(TokenView::Token(w)),
{
    let ghost ts = tokens.deep_view();
    let mut r: Vec<String> = Vec::new();
    let mut i: usize = 0;
    while i < tokens.len()
        invariant
            0 <= i <= tokens.len(),
            ts == tokens.deep_view(),
            r.deep_view().no_duplicates(),
            forall|w: Seq<char>| #[trigger] r.deep_view().contains(w) <==> ts.take(
                i as int,
            ).contains(TokenView::Token(w)),
        decreases tokens.len() - i,
    {
        let ghost before = r.deep_view();
        assert(tokens[i as int]@ == ts[i as int]);
        match &tokens[i] {
            Token::Token(text) => {
                let ghost w = text@;
                assert(ts[i as int] == TokenView::Token(w));
                if !contains_string(&r, text) {
                    r.push(text.clone());
                    proof {
                        assert(r.deep_view() =~= before.push(w));
                    }
                }
                proof {
                    assert forall|x: Seq<char>| #[trigger] r.deep_view().contains(x)
                        implies ts.take(i + 1).contains(TokenView::Token(x)) by {
                        if before.contains(x) {
                            let k = choose|k: int|
                                0 <= k < i && #[trigger] ts.take(i as int)[k] == TokenView::Token(x);
                            assert(ts.take(i + 1)[k] == TokenView::Token(x));
                        } else {
                            let j = choose|j: int|
                                0 <= j < r.deep_view().len() && r.deep_view()[j] == x;
                            assert(x == w);
                            assert(ts.take(i + 1)[i as int] == TokenView::Token(w));
                        }
                    }
                    assert forall|x: Seq<char>| ts.take(i + 1).contains(TokenView::Token(x))
                        implies #[trigger] r.deep_view().contains(x) by {
                        let k = choose|k: int|
                            0 <= k < i + 1 && #[trigger] ts.take(i + 1)[k] == TokenView::Token(x);
                        if k < i {
                            assert(ts.take(i as int)[k] == TokenView::Token(x));
                            assert(ts.take(i as int).contains(TokenView::Token(x)));
                            assert(before.contains(x));
                            if before.contains(x) {
                                let j = choose|j: int|
                                    0 <= j < before.len() && before[j] == x;
                                assert(r.deep_view()[j] == x);
                            }
                        } else {
                            assert(x == w);
                            if before.contains(w) {
                                let j = choose|j: int|
                                    0 <= j < before.len() && before[j] == w;
                                assert(r.deep_view()[j] == w);
                            } else {
                                assert(r.deep_view()[before.len() as int] == w);
                            }
                        }
                    }
                }
            },
            _ => {
                proof {
                    assert forall|x: Seq<char>| ts.take(i + 1).contains(TokenView::Token(x))
                        implies ts.take(i as int).contains(TokenView::Token(x)) by {
                        let k = choose|k: int|
                            0 <= k < i + 1 && #[trigger] ts.take(i + 1)[k] == TokenView::Token(x);
                        assert(k != i);
                        assert(ts.take(i as int)[k] == TokenView::Token(x));
                    }
                    assert forall|x: Seq<char>| ts.take(i as int).contains(TokenView::Token(x))
                        implies ts.take(i + 1).contains(TokenView::Token(x)) by {
                        let k = choose|k: int|
                            0 <= k < i && #[trigger] ts.take(i as int)[k] == TokenView::Token(x);
                        assert(ts.take(i + 1)[k] == TokenView::Token(x));
                    }
                }
            },
        }
        i += 1;
    }
    proof {
        assert(ts.take(ts.len() as int) =~= ts);
    }
    r
}

/// The names of the catalog tables, in catalog order.
fn table_names(tables: &Vec<Table>) -> (r: Vec<String>)
    ensures
        r.deep_view() == spec_table_names(tables.deep_view()),
{
    let mut r: Vec<String> = Vec::new();
    let mut i: usize = 0;
    while i < tables.len()
        invariant
            0 <= i <= tables.len(),
            r@.len() == i,
            forall|j: int| 0 <= j < i ==> r.deep_view()[j] == tables.deep_view()[j].name,
        decreases tables.len() - i,
    {
        let name = tables[i].name.clone();
        assert(name@ == tables.deep_view()[i as int].name);
        let ghost before = r.deep_view();
        let ghost nv = name@;
        r.push(name);
        proof {
            assert(r.deep_view() =~= before.push(nv));
        }
        i += 1;
    }
    assert(r.deep_view() =~= spec_table_names(tables.deep_view()));
    r
}

/// The catalog tables whose name is among the given names.
pub open spec fn spec_tables_with_names(ts: Set<TableView>, names: Seq<Seq<char>>) -> Set<
    TableView,
> {
    ts.filter(|t: TableView| names.contains(t.name))
}

/// The catalog tables whose name is among the given names, each once.
fn tables_named(tables: &Vec<Table>, names: &Vec<String>) -> (r: Vec<Table>)
    ensures
        r.deep_view().no_duplicates(),
        r.deep_view().to_set() == spec_tables_with_names(
            tables.deep_view().to_set(),
            names.deep_view(),
        ),
{
    let ghost ts = tables.deep_view();
    let ghost ns = names.deep_view();
    let mut r: Vec<Table> = Vec::new();
    let mut i: usize = 0;
    while i < tables.len()
        invariant
            0 <= i <= tables.len(),
            ts == tables.deep_view(),
            ns == names.deep_view(),
            r.deep_view().no_duplicates(),
            r.deep_view().to_set() == spec_tables_with_names(ts.take(i as int).to_set(), ns),
        decreases tables.len() - i,
    {
        let ghost before = r.deep_view();
        assert(tables[i as int]@ == ts[i as int]);
        let in_names = contains_string(names, &tables[i].name);
        assert(in_names == ns.contains(ts[i as int].name));
        if in_names && !crate::table::contains_table(&r, &tables[i]) {
            let t = tables[i].clone();
            r.push(t);
            proof {
                assert(r.deep_view() =~= before.push(ts[i as int]));
                crate::table::lemma_table_push_to_set(before, ts[i as int]);
                crate::table::lemma_table_push_no_duplicates(before, ts[i as int]);
            }
        }
        proof {
            assert(ts.take(i as int).push(ts[i as int]) =~= ts.take(i + 1));
            crate::table::lemma_table_push_to_set(ts.take(i as int), ts[i as int]);
            if ns.contains(ts[i as int].name) {
                assert(spec_tables_with_names(ts.take(i + 1).to_set(), ns)
                    =~= spec_tables_with_names(ts.take(i as int).to_set(), ns).insert(
                    ts[i as int],
                ));
                if before.to_set().contains(ts[i as int]) {
                    assert(r.deep_view().to_set() =~= spec_tables_with_names(
                        ts.take(i + 1).to_set(),
                        ns,
                    ));
                } else {
                    assert(r.deep_view().to_set() =~= spec_tables_with_names(
                        ts.take(i + 1).to_set(),
                        ns,
                    ));
                }
            } else {
                assert(spec_tables_with_names(ts.take(i + 1).to_set(), ns)
                    =~= spec_tables_with_names(ts.take(i as int).to_set(), ns));
            }
        }
        i += 1;
    }
    proof {
        assert(ts.take(ts.len() as int) =~= ts);
    }
    r
}

/// Answers a completion request over the document's text.
///
/// The result always offers every catalog table and every reserved word of
/// the engine.  The candidate relevant set is computed from the document's
/// words; the cache decides hit or miss.  On a hit the cached column
/// entries are merged in and the cache is untouched.  On a miss the
/// relevant set is replaced and the provider is asked for columns: its
/// entries are cached and merged in when it answers, and the request
/// degrades to keyword and table entries when it fails.  Either way the
/// relevant set afterwards is the candidate set.
pub fn complete<S: Service>(service: &S, cache: &mut SchemaCache, text: &String) -> (r: Vec<
    CompletionEntry,
>)
    requires
        old(cache).wf(),
    ensures
        final(cache).wf(),
        final(cache).all_tables.deep_view() == old(cache).all_tables.deep_view(),
        final(cache).relevant() == candidate_tables(old(cache).catalog(), text@),
        candidate_tables(old(cache).catalog(), text@) == old(cache).relevant() ==> (
        final(cache).tables_in_file.deep_view() == old(cache).tables_in_file.deep_view()
            && final(cache).columns() == old(cache).columns()),
        candidate_tables(old(cache).catalog(), text@) != old(cache).relevant() ==> (
        final(cache).columns() == Seq::<EntryView>::empty() || exists|cols: Seq<ColumnView>|
            final(cache).columns() == spec_column_entries(cols)),
        exists|kws: Seq<Seq<char>>|
            r.deep_view() == spec_table_entries(old(cache).all_tables.deep_view())
                + spec_keyword_entries(kws) + final(cache).columns(),
{
    let ghost cand_spec = candidate_tables(old(cache).catalog(), text@);
    let tables_snapshot = cache.snapshot_all_tables();
    let mut completions = table_entries(&tables_snapshot);
    let keywords = service.get_keywords();
    let ghost kws = keywords.deep_view();
    let kw_entries = keyword_entries(&keywords);
    append_entries(&mut completions, kw_entries);
    let ghost base = spec_table_entries(tables_snapshot.deep_view()) + spec_keyword_entries(kws);
    assert(completions.deep_view() == base);
    assert(spec_table_entries(tables_snapshot.deep_view()) == spec_table_entries(
        old(cache).all_tables.deep_view(),
    ));

    let tokens = tokenize(text.clone());
    let words = word_strings(&tokens);
    let names = table_names(&tables_snapshot);
    let common = intersection(names, words);
    let cand = tables_named(&tables_snapshot, &common);
    proof {
        lemma_candidate_tables(
            tables_snapshot.deep_view(),
            words.deep_view(),
            common.deep_view(),
            cand.deep_view(),
            text@,
        );
        assert(tables_snapshot.deep_view().to_set() == old(cache).catalog());
        assert(cand.deep_view().to_set() == cand_spec);
        assert forall|t: TableView| cand_spec.contains(t)
            implies cache.catalog().contains(t) by {}
    }
    let (resolved, hit) = cache.resolve_relevant_tables(cand);
    if hit {
        let cached = cache.snapshot_column_completions();
        append_entries(&mut completions, cached);
        proof {
            assert(completions.deep_view() == base + cache.columns());
        }
        completions
    } else {
        match service.get_table_columns(resolved) {
            Ok(columns) => {
                let col_entries = column_entries(&columns);
                let stored = clone_entries(&col_entries);
                cache.store_column_completions(stored);
                append_entries(&mut completions, col_entries);
                proof {
                    assert(completions.deep_view() == base + cache.columns());
                }
                completions
            },
            Err(_) => {
                proof {
                    assert(completions.deep_view() =~= base + cache.columns());
                }
                completions
            },
        }
    }
}

/// The computed candidate list stands for exactly the candidate set of the
/// request: the catalog tables whose names are words of the document.
proof fn lemma_candidate_tables(
    catalog: Seq<TableView>,
    words: Seq<Seq<char>>,
    common: Seq<Seq<char>>,
    cand: Seq<TableView>,
    text: Seq<char>,
)
    requires
        forall|w: Seq<char>| #[trigger] words.contains(w) <==> spec_tokenize(text).contains(
            TokenView::Token(w),
        ),
        common.to_set() == spec_table_names(catalog).to_set().intersect(words.to_set()),
        cand.to_set() == spec_tables_with_names(catalog.to_set(), common),
    ensures
        cand.to_set() == candidate_tables(catalog.to_set(), text),
{
    assert forall|t: TableView| cand.to_set().contains(t)
        implies candidate_tables(catalog.to_set(), text).contains(t) by {
        assert(catalog.to_set().contains(t) && common.contains(t.name));
        assert(common.to_set().contains(t.name));
        assert(words.to_set().contains(t.name));
        assert(words.contains(t.name));
        assert(word_texts(text).contains(t.name));
    }
    assert forall|t: TableView| candidate_tables(catalog.to_set(), text).contains(t)
        implies cand.to_set().contains(t) by {
        assert(catalog.to_set().contains(t));
        assert(word_texts(text).contains(t.name));
        assert(words.contains(t.name));
        assert(words.to_set().contains(t.name));
        let j = choose|j: int| 0 <= j < catalog.len() && catalog[j] == t;
        assert(spec_table_names(catalog)[j] == t.name);
        assert(spec_table_names(catalog).contains(t.name));
        assert(spec_table_names(catalog).to_set().contains(t.name));
        assert(common.to_set().contains(t.name));
        assert(common.contains(t.name));
    }
    assert(cand.to_set() =~= candidate_tables(catalog.to_set(), text));
}


/// One hover line for a column: its name in bold, its type, and whether it
/// is nullable.
pub open spec fn spec_hover_line(c: ColumnView) -> Seq<char> {
    "**"@ + c.name + "**: "@ + c.data_type + if c.is_nullable {
        " NULL"@
    } else {
        " NOT NULL"@
    }
}

/// The hover lines for a column list, in list order.
pub open spec fn spec_hover_lines(cs: Seq<ColumnView>) -> Seq<Seq<char>> {
    cs.map(|i: int, c: ColumnView| spec_hover_line(c))
}

/// Formats one hover line per column.
pub fn hover_lines(columns: &Vec<Column>) -> (r: Vec<String>)
    ensures
        r.deep_view() == spec_hover_lines(columns.deep_view()),
{
    let mut r: Vec<String> = Vec::new();
    let mut i: usize = 0;
    while i < columns.len()
        invariant
            0 <= i <= columns.len(),
            r@.len() == i,
            forall|j: int| 0 <= j < i ==> r.deep_view()[j] == spec_hover_line(
                columns.deep_view()[j],
            ),
        decreases columns.len() - i,
    {
        let c = &columns[i];
        let mut line = String::new();
        line.append("**");
        line.append(c.name.as_str());
        line.append("**: ");
        line.append(c.data_type.as_str());
        if c.is_nullable {
            line.append(" NULL");
        } else {
            line.append(" NOT NULL");
        }
        assert(line@ == spec_hover_line(columns.deep_view()[i as int]));
        let ghost before = r.deep_view();
        let ghost lv = line@;
        r.push(line);
        proof {
            assert(r.deep_view() =~= before.push(lv));
        }
        i += 1;
    }
    assert(r.deep_view() =~= spec_hover_lines(columns.deep_view()));
    r
}

/// The first catalog table carrying this name, if any.
fn find_table_by_name(tables: &Vec<Table>, name: &String) -> (r: Option<Table>)
    ensures
        match r {
            Some(t) => tables.deep_view().to_set().contains(t@) && t@.name == name@,
            None => !has_table_named(tables.deep_view(), name@),
        },
{
    let ghost ts = tables.deep_view();
    let mut i: usize = 0;
    while i < tables.len()
        invariant
            0 <= i <= tables.len(),
            ts == tables.deep_view(),
            forall|j: int| 0 <= j < i ==> ts[j].name != name@,
        decreases tables.len() - i,
    {
        assert(tables[i as int]@ == ts[i as int]);
        if tables[i].name == *name {
            let t = tables[i].clone();
            proof {
                assert(ts.contains(ts[i as int]));
            }
            return Some(t);
        }
        i += 1;
    }
    None
}

/// Answers a hover request over one line of the document.
///
/// The identifier under the cursor must resolve and must name a catalog
/// table; the provider is then asked for that one table's columns, and each
/// column becomes one formatted line.  A provider failure degrades to no
/// hover at all.
pub fn hover<S: Service>(
    service: &S,
    cache: &SchemaCache,
    line: &String,
    character: u32,
) -> (r: Option<Vec<String>>)
    ensures
        spec_find_word(line@, character as int) is None ==> r is None,
        r is Some ==> (spec_find_word(line@, character as int) matches Some(w)
            && has_table_named(cache.all_tables.deep_view(), w)),
        r matches Some(ls) ==> exists|cols: Seq<ColumnView>| ls.deep_view() == spec_hover_lines(
            cols,
        ),
{
    let word = match find_word(line.clone(), character) {
        None => {
            return None;
        },
        Some(w) => w,
    };
    let table = match find_table_by_name(&cache.all_tables, &word) {
        None => {
            return None;
        },
        Some(t) => t,
    };
    proof {
        let ts = cache.all_tables.deep_view();
        assert(ts.to_set().contains(table@));
        let j = choose|j: int| 0 <= j < ts.len() && ts[j] == table@;
        assert(ts[j].name == word@);
    }
    let mut single: Vec<Table> = Vec::new();
    single.push(table);
    match service.get_table_columns(single) {
        Ok(columns) => {
            let lines = hover_lines(&columns);
            proof {
                assert(lines.deep_view() == spec_hover_lines(columns.deep_view()));
            }
            Some(lines)
        },
        Err(_) => None,
    }
}

/// Cache-equality gate: a completion request leaves its candidate set as
/// the relevant set, so a second request whose candidate set is set-equal
/// finds its own candidate set already stored: it meets `complete`'s hit
/// condition, under which the cache is left untouched and
/// `resolve_relevant_tables` reports the hit that spares the provider a
/// column query.
pub proof fn lemma_cache_equality_gate(
    catalog: Set<TableView>,
    text1: Seq<char>,
    text2: Seq<char>,
    relevant_after_first: Set<TableView>,
)
    requires
        relevant_after_first == candidate_tables(catalog, text1),
        candidate_tables(catalog, text2) == candidate_tables(catalog, text1),
    ensures
        candidate_tables(catalog, text2) == relevant_after_first,
{
}

} // verus!
