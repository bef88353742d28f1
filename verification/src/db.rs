//! The table of cartoons: one row for each item that is done, keyed by its
//! identifier.

use crate::date::Date;
use vstd::prelude::*;

verus! {

/// Why the table refused.
#[derive(Clone, Copy, Debug, PartialEq, Eq, Structural)]
pub enum Error {
    /// There is a row for the identifier already.
    Duplicate,
    /// What holds the table could not be read or written.
    Storage,
}

/// One row: an item that is done, and its date.
#[derive(Clone, Copy, Debug, PartialEq, Eq, Structural)]
pub struct IndexEntry {
    pub index: i32,
    pub date: Date,
}

impl IndexEntry {
    pub fn new(index: i32, date: Date) -> (r: IndexEntry)
        ensures
            r == (IndexEntry { index, date }),
    {
        IndexEntry { index, date }
    }
}

/// The table that the rows make up: each identifier with its date.
pub open spec fn table(rows: Seq<IndexEntry>) -> Map<i32, Date>
    decreases rows.len(),
{
    if rows.len() == 0 {
        Map::empty()
    } else {
        table(rows.drop_last()).insert(rows.last().index, rows.last().date)
    }
}

/// No two rows have the same identifier.
pub open spec fn distinct(rows: Seq<IndexEntry>) -> bool {
    forall|a: int, b: int|
        0 <= a < rows.len() && 0 <= b < rows.len() && a != b ==> (#[trigger] rows[a]).index != (
        #[trigger] rows[b]).index
}

/// Whether `i` is the lowest identifier that `m` records with `date`.
pub open spec fn is_lowest(m: Map<i32, Date>, date: Date, i: i32) -> bool {
    &&& m.contains_key(i)
    &&& m[i] == date
    &&& forall|j: i32| #[trigger] m.contains_key(j) && m[j] == date ==> i <= j
}

/// The lowest identifier that `m` records with `date`, if there is one.
pub open spec fn lowest_with_date(m: Map<i32, Date>, date: Date) -> Option<i32> {
    if exists|i: i32| is_lowest(m, date, i) {
        Some(choose|i: i32| is_lowest(m, date, i))
    } else {
        None
    }
}

/// The table holds what its rows hold, and nothing else.
pub proof fn lemma_table(rows: Seq<IndexEntry>)
    requires
        distinct(rows),
    ensures
        forall|k: int|
            0 <= k < rows.len() ==> table(rows).contains_key((#[trigger] rows[k]).index) && table(
                rows,
            )[rows[k].index] == rows[k].date,
        forall|i: i32| #[trigger]
            table(rows).contains_key(i) ==> exists|k: int|
                0 <= k < rows.len() && (#[trigger] rows[k]).index == i,
    decreases rows.len(),
{
    if rows.len() > 0 {
        let head = rows.drop_last();
        assert forall|a: int, b: int|
            0 <= a < head.len() && 0 <= b < head.len() && a != b implies (#[trigger] head[a]).index
            != (#[trigger] head[b]).index by {
            assert(head[a] == rows[a] && head[b] == rows[b]);
        }
        lemma_table(head);
        assert forall|k: int| 0 <= k < rows.len() implies table(rows).contains_key(
            (#[trigger] rows[k]).index,
        ) && table(rows)[rows[k].index] == rows[k].date by {
            if k < head.len() {
                assert(head[k] == rows[k]);
                assert(rows[k].index != rows[rows.len() - 1].index);
            }
        }
        assert forall|i: i32| #[trigger] table(rows).contains_key(i) implies exists|k: int|
            0 <= k < rows.len() && (#[trigger] rows[k]).index == i by {
            if i == rows.last().index {
                assert(rows[rows.len() - 1].index == i);
            } else {
                assert(table(head).contains_key(i));
                let k = choose|k: int| 0 <= k < head.len() && (#[trigger] head[k]).index == i;
                assert(rows[k].index == i);
            }
        }
    }
}

/// The cartoons that are done.
pub struct Database {
    rows: Vec<IndexEntry>,
}

impl View for Database {
    type V = Map<i32, Date>;

    closed spec fn view(&self) -> Map<i32, Date> {
        table(self.rows@)
    }
}

impl Database {
    /// What holds of every table that this module has made.
    pub closed spec fn wf(&self) -> bool {
        distinct(self.rows@)
    }

    /// An empty table.
    pub fn new() -> (r: Database)
        ensures
            r.wf(),
            r@ == Map::<i32, Date>::empty(),
    {
        Database { rows: Vec::new() }
    }

    /// The lowest identifier recorded with `date`, if there is one.
    pub fn cartoon_index(&self, date: &Date) -> (r: Result<Option<i32>, Error>)
        requires
            self.wf(),
        ensures
            r == Ok::<Option<i32>, Error>(lowest_with_date(self@, *date)),
    {
        let mut best: Option<i32> = None;
        let mut k: usize = 0;
        proof {
            lemma_table(self.rows@);
        }
        while k < self.rows.len()
            invariant
                k <= self.rows.len(),
                distinct(self.rows@),
                best matches Some(i) ==> exists|a: int|
                    0 <= a < k && (#[trigger] self.rows@[a]).index == i && self.rows@[a].date
                        == *date,
                forall|a: int|
                    0 <= a < k && (#[trigger] self.rows@[a]).date == *date ==> best is Some
                        && best->0 <= self.rows@[a].index,
            decreases self.rows.len() - k,
        {
            let row = self.rows[k];
            if row.date == *date {
                best = match best {
                    Some(i) => if row.index < i {
                        Some(row.index)
                    } else {
                        Some(i)
                    },
                    None => Some(row.index),
                };
            }
            k = k + 1;
        }
        proof {
            let m = self@;
            match best {
                Some(i) => {
                    assert(is_lowest(m, *date, i)) by {
                        assert forall|j: i32| #[trigger] m.contains_key(j) && m[j] == *date implies i
                            <= j by {
                            let a = choose|a: int|
                                0 <= a < self.rows@.len() && (#[trigger] self.rows@[a]).index == j;
                            assert(self.rows@[a].date == *date);
                        }
                    }
                    let c = choose|c: i32| is_lowest(m, *date, c);
                    assert(is_lowest(m, *date, c));
                    assert(c <= i && i <= c);
                },
                None => {
                    assert forall|c: i32| !is_lowest(m, *date, c) by {
                        if m.contains_key(c) && m[c] == *date {
                            let a = choose|a: int|
                                0 <= a < self.rows@.len() && (#[trigger] self.rows@[a]).index == c;
                            assert(self.rows@[a].date == *date);
                        }
                    }
                },
            }
        }
        Ok(best)
    }

    /// The date recorded for `index`, if it is done.
    pub fn cartoon_date(&self, index: i32) -> (r: Result<Option<Date>, Error>)
        requires
            self.wf(),
        ensures
            r == Ok::<Option<Date>, Error>(
                if self@.contains_key(index) {
                    Some(self@[index])
                } else {
                    None
                },
            ),
    {
        proof {
            lemma_table(self.rows@);
        }
        let mut k: usize = 0;
        while k < self.rows.len()
            invariant
                k <= self.rows.len(),
                distinct(self.rows@),
                forall|a: int| 0 <= a < k ==> (#[trigger] self.rows@[a]).index != index,
            decreases self.rows.len() - k,
        {
            let row = self.rows[k];
            if row.index == index {
                proof {
                    lemma_table(self.rows@);
                    assert(self.rows@[k as int].index == index);
                }
                return Ok(Some(row.date));
            }
            k = k + 1;
        }
        Ok(None)
    }

    /// Records `cartoon`. A row for the same identifier refuses it, and
    /// the table stays as it is.
    pub fn add_cartoon(&mut self, cartoon: &IndexEntry) -> (r: Result<(), Error>)
        requires
            old(self).wf(),
        ensures
            final(self).wf(),
            r == (if old(self)@.contains_key(cartoon.index) {
                Err::<(), Error>(Error::Duplicate)
            } else {
                Ok::<(), Error>(())
            }),
            final(self)@ == (if old(self)@.contains_key(cartoon.index) {
                old(self)@
            } else {
                old(self)@.insert(cartoon.index, cartoon.date)
            }),
    {
        match self.cartoon_date(cartoon.index) {
            Ok(None) => {
                let ghost before = self.rows@;
                self.rows.push(*cartoon);
                proof {
                    lemma_table(before);
                    assert(self.rows@.drop_last() =~= before);
                    assert forall|a: int, b: int|
                        0 <= a < self.rows@.len() && 0 <= b < self.rows@.len() && a
                            != b implies (#[trigger] self.rows@[a]).index != (
                    #[trigger] self.rows@[b]).index by {
                        if a < before.len() && b < before.len() {
                            assert(before[a] == self.rows@[a] && before[b] == self.rows@[b]);
                        } else if a < before.len() {
                            assert(before[a] == self.rows@[a]);
                        } else {
                            assert(before[b] == self.rows@[b]);
                        }
                    }
                }
                Ok(())
            },
            _ => Err(Error::Duplicate),
        }
    }
}

} // verus!
