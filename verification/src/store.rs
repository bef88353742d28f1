//! The completion index: which items are done, and the date of each.

use crate::date::day_text;
use crate::date::year_text;
use crate::date::Date;
use crate::db::Error;
use std::collections::HashMap;
use vstd::prelude::*;
use vstd::string::StringExecFns;

verus! {

broadcast use vstd::std_specs::hash::group_hash_axioms;

/// The index after the completion of `index` on `date` has come in: an
/// identifier that is recorded keeps the date it has.
pub open spec fn record(m: Map<i32, Date>, index: i32, date: Date) -> Map<i32, Date> {
    if m.contains_key(index) {
        m
    } else {
        m.insert(index, date)
    }
}

/// The index after all of `items` have come in, first to last.
pub open spec fn record_all(m: Map<i32, Date>, items: Seq<(i32, Date)>) -> Map<i32, Date>
    decreases items.len(),
{
    if items.len() == 0 {
        m
    } else {
        record(record_all(m, items.drop_last()), items.last().0, items.last().1)
    }
}

/// Every record of `before` stands unchanged in `after`.
pub open spec fn keeps(before: Map<i32, Date>, after: Map<i32, Date>) -> bool {
    forall|i: i32| #[trigger]
        before.contains_key(i) ==> after.contains_key(i) && after[i] == before[i]
}

/// Recording keeps every record that is there.
pub proof fn lemma_record_all_keeps(m: Map<i32, Date>, items: Seq<(i32, Date)>)
    ensures
        keeps(m, record_all(m, items)),
    decreases items.len(),
{
    if items.len() > 0 {
        lemma_record_all_keeps(m, items.drop_last());
    }
}

/// The items that are done, each with its date.
pub struct Contents(HashMap<i32, Date>);

impl View for Contents {
    type V = Map<i32, Date>;

    closed spec fn view(&self) -> Map<i32, Date> {
        self.0@
    }
}

impl Default for Contents {
    /// An index without records.
    fn default() -> (r: Contents)
        ensures
            r@ == Map::<i32, Date>::empty(),
    {
        Contents::new()
    }
}

impl Contents {
    /// An index without records.
    pub fn new() -> (r: Contents)
        ensures
            r@ == Map::<i32, Date>::empty(),
    {
        Contents(HashMap::new())
    }

    /// Whether `x` is done.
    pub fn contains(&self, x: &i32) -> (r: bool)
        ensures
            r == self@.contains_key(*x),
    {
        self.0.contains_key(x)
    }

    /// The date recorded for `index`, if it is done.
    pub fn lookup(&self, index: i32) -> (r: Option<Date>)
        ensures
            r == (if self@.contains_key(index) {
                Some(self@[index])
            } else {
                None
            }),
    {
        match self.0.get(&index) {
            Some(date) => Some(*date),
            None => None,
        }
    }

    /// The number of items that are done.
    pub fn len(&self) -> (r: usize)
        ensures
            r == self@.len(),
            self@.dom().finite(),
    {
        self.0.len()
    }

    /// Records that `index` is done, with its date. An identifier that is
    /// recorded already is refused, and the index stays as it is.
    pub fn insert(&mut self, index: i32, date: Date) -> (r: Result<(), Error>)
        ensures
            r is Err <==> old(self)@.contains_key(index),
            r is Err ==> r == Err::<(), Error>(Error::Duplicate),
            final(self)@ == record(old(self)@, index, date),
            keeps(old(self)@, final(self)@),
            r is Ok ==> final(self)@ == old(self)@.insert(index, date),
            r is Err ==> final(self)@ == old(self)@,
    {
        if self.0.contains_key(&index) {
            Err(Error::Duplicate)
        } else {
            self.0.insert(index, date);
            Ok(())
        }
    }

    /// Records all of `items`, first to last. Of two records for one
    /// identifier the earlier stays.
    pub fn extend(&mut self, items: Vec<(i32, Date)>)
        ensures
            final(self)@ == record_all(old(self)@, items@),
            keeps(old(self)@, final(self)@),
    {
        proof {
            lemma_record_all_keeps(old(self)@, items@);
        }
        let mut i: usize = 0;
        while i < items.len()
            invariant
                i <= items.len(),
                self@ == record_all(old(self)@, items@.take(i as int)),
            decreases items.len() - i,
        {
            let (index, date) = items[i];
            proof {
                let next = items@.take(i + 1);
                assert(next.drop_last() == items@.take(i as int));
                assert(next.last() == items@[i as int]);
            }
            let _ = self.insert(index, date);
            i = i + 1;
        }
        proof {
            assert(items@.take(items@.len() as int) == items@);
        }
    }

    /// The records, each once, in no order that can be relied on.
    pub fn into_iter(self) -> (r: Vec<(i32, Date)>)
        ensures
            r@.len() == self@.len(),
            forall|j: int| 0 <= j < r@.len() ==> self@.contains_key(#[trigger] r@[j].0) && self@[r@[j].0] == r@[j].1,
            forall|k: i32| #[trigger] self@.contains_key(k) ==> r@.contains((k, self@[k])),
            forall|a: int, b: int| 0 <= a < b < r@.len() ==> (#[trigger] r@[a]).0 != (#[trigger] r@[b]).0,
    {
        let mut out: Vec<(i32, Date)> = Vec::new();
        for entry in it: self.0.iter()
            invariant
                out@.len() == it.index(),
                forall|j: int| 0 <= j < out@.len() ==> #[trigger] out@[j] == (*it.seq()[j].0, *it.seq()[j].1),
                it.seq() == vstd::std_specs::iter::IteratorSpec::remaining(&self.0.iter()),
        {
            out.push((*entry.0, *entry.1));
        }
        proof {
            let seen = vstd::std_specs::iter::IteratorSpec::remaining(&self.0.iter());
            assert forall|k: i32| #[trigger] self@.contains_key(k) implies out@.contains((k, self@[k])) by {
                assert(seen.contains((&k, &self@[k])));
                let j = choose|j: int| 0 <= j < seen.len() && seen[j] == (&k, &self@[k]);
                assert(out@[j] == (k, self@[k]));
            }
            assert forall|a: int, b: int| 0 <= a < b < out@.len() implies (#[trigger] out@[a]).0 != (
            #[trigger] out@[b]).0 by {
                if out@[a].0 == out@[b].0 {
                    assert(self@[out@[a].0] == out@[a].1);
                    assert(self@[out@[b].0] == out@[b].1);
                    assert(seen[a] == seen[b]);
                }
            }
        }
        out
    }

    /// The index that holds `items`, recorded first to last.
    pub fn from_iter(items: Vec<(i32, Date)>) -> (r: Contents)
        ensures
            r@ == record_all(Map::<i32, Date>::empty(), items@),
    {
        let mut r = Contents::new();
        r.extend(items);
        r
    }
}

/// Where the file of an item goes: a directory for the year of its date,
/// and in it a file named by the date and the kind of file.
pub struct Storer {
    pub directory: String,
    pub file_name: String,
}

/// The name of the file for an item of the given date and kind.
pub open spec fn file_name_text(date: (int, int, int), extension: Seq<char>) -> Seq<char> {
    day_text(date.0, date.1, date.2) + seq!['.'] + extension
}

impl Storer {
    /// The place for an item of the date `target`, whose file name ends in
    /// `extension`.
    pub fn new(target: Date, extension: &str) -> (r: Storer)
        ensures
            r.directory@ == year_text(target@.0),
            r.file_name@ == file_name_text(target@, extension@),
    {
        let directory = target.year_string();
        let mut file_name = target.to_string();
        proof {
            reveal_strlit(".");
        }
        assert("."@ =~= seq!['.']);
        file_name.append(".");
        file_name.append(extension);
        Storer { directory, file_name }
    }
}

} // verus!
