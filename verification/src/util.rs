//! Small collection utilities: set equality on table lists and optional
//! list concatenation.

use vstd::prelude::*;
use crate::entry::CompletionEntry;
use crate::table::{contains_table, Table, TableView};

verus! {

/// Collections compared as sets: same members, order and duplicates
/// irrelevant.
pub trait SetEq<T: DeepView>: Sized {
    /// The set of values the collection stands for.
    spec fn set_view(&self) -> Set<T::V>;

    /// No two entries stand for the same value.
    spec fn dup_free(&self) -> bool;

    /// Whether both collections stand for the same set.
    fn equals(&self, other: &Self) -> (r: bool)
        requires
            self.dup_free(),
            other.dup_free(),
        ensures
            r == (self.set_view() == other.set_view()),
    ;
}

impl SetEq<Table> for Vec<Table> {
    open spec fn set_view(&self) -> Set<TableView> {
        self.deep_view().to_set()
    }

    open spec fn dup_free(&self) -> bool {
        self.deep_view().no_duplicates()
    }

    fn equals(&self, other: &Self) -> (r: bool) {
        proof {
            broadcast use vstd::seq_lib::seq_to_set_is_finite;

            self.deep_view().unique_seq_to_set();
            other.deep_view().unique_seq_to_set();
        }
        if self.len() != other.len() {
            proof {
                if self.set_view() == other.set_view() {
                    assert(self.deep_view().to_set().len() == other.deep_view().to_set().len());
                }
            }
            return false;
        }
        let mut i: usize = 0;
        while i < self.len()
            invariant
                0 <= i <= self.len(),
                self@.len() == other@.len(),
                self.deep_view().no_duplicates(),
                other.deep_view().no_duplicates(),
                self.deep_view().to_set().len() == self.deep_view().len(),
                other.deep_view().to_set().len() == other.deep_view().len(),
                other.deep_view().to_set().finite(),
                forall|j: int| 0 <= j < i ==> other.deep_view().to_set().contains(
                    #[trigger] self.deep_view()[j],
                ),
            decreases self.len() - i,
        {
            assert(self.deep_view()[i as int] == self[i as int]@);
            if !contains_table(other, &self[i]) {
                proof {
                    assert(self.deep_view().contains(self.deep_view()[i as int]));
                    assert(self.set_view().contains(self.deep_view()[i as int]));
                }
                return false;
            }
            i += 1;
        }
        proof {
            let a = self.deep_view().to_set();
            let b = other.deep_view().to_set();
            assert forall|x: TableView| a.contains(x) implies b.contains(x) by {
                let j = choose|j: int|
                    0 <= j < self.deep_view().len() && self.deep_view()[j] == x;
                assert(b.contains(self.deep_view()[j]));
            }
            assert forall|x: TableView| b.contains(x) implies a.contains(x) by {
                if !a.contains(x) {
                    a.lemma_subset_not_in_lt(b, x);
                }
            }
            assert(a =~= b);
        }
        true
    }
}

/// Optional lists that can absorb another optional list at their end.
pub trait Concat<T: DeepView>: Sized {
    /// The sequence of values the optional list stands for; a missing list
    /// stands for the empty sequence.
    spec fn values(&self) -> Seq<T::V>;

    /// Appends the other list's values and returns a copy of the result.
    fn concat(&mut self, other: &Self) -> (r: Self)
        ensures
            final(self).values() == old(self).values() + other.values(),
            r.values() == final(self).values(),
    ;
}

impl Concat<CompletionEntry> for Option<Vec<CompletionEntry>> {
    open spec fn values(&self) -> Seq<crate::entry::EntryView> {
        match self {
            Some(v) => v.deep_view(),
            None => Seq::empty(),
        }
    }

    fn concat(&mut self, other: &Self) -> (r: Self) {
        let ghost initial = self.values();
        match other {
            Some(other_vec) => {
                match self {
                    Some(v) => {
                        let ghost before = v.deep_view();
                        let mut i: usize = 0;
                        while i < other_vec.len()
                            invariant
                                0 <= i <= other_vec.len(),
                                v.deep_view() =~= before + other_vec.deep_view().take(i as int),
                            decreases other_vec.len() - i,
                        {
                            let e = other_vec[i].clone();
                            assert(e@ == other_vec.deep_view()[i as int]);
                            let ghost pv = v.deep_view();
                            let ghost ev = e@;
                            v.push(e);
                            proof {
                                assert(v.deep_view() =~= pv.push(ev));
                                assert(other_vec.deep_view().take(i as int).push(
                                    other_vec.deep_view()[i as int],
                                ) =~= other_vec.deep_view().take(i + 1));
                                assert(v.deep_view() =~= before + other_vec.deep_view().take(
                                    i + 1,
                                ));
                            }
                            i += 1;
                        }
                        assert(other_vec.deep_view().take(other_vec@.len() as int)
                            =~= other_vec.deep_view());
                    },
                    None => {
                        *self = Some(crate::entry::clone_entries(other_vec));
                        assert(initial + other_vec.deep_view() =~= other_vec.deep_view());
                    },
                }
            },
            None => {
                assert(initial + Seq::<crate::entry::EntryView>::empty() =~= initial);
            },
        }
        let r = match self {
            Some(v) => Some(crate::entry::clone_entries(v)),
            None => None,
        };
        r
    }
}

} // verus!
