//! The batch: which items to fetch, and how many at a time.
//!
//! A [`Scheduler`] owns the index while a batch runs. It hands out the
//! identifiers that are to be fetched, never more than its bound at a time,
//! and takes in how each fetch ended.

use crate::date::day_text;
use crate::date::int_string;
use crate::date::int_text;
use crate::date::Date;
use crate::fetcher::FetchError;
use crate::store::Contents;
use rand::seq::SliceRandom;
use vstd::prelude::*;
use vstd::string::StringExecFns;

verus! {

/// What a scheduler holds, as plain mathematics.
pub struct SchedulerView {
    /// The items that are done, each with its date.
    pub index: Map<i32, Date>,
    /// The identifiers that have not been looked at, in the order of the
    /// batch.
    pub waiting: Seq<i32>,
    /// The identifiers whose fetch is under way.
    pub running: Seq<i32>,
    /// How many fetches may be under way at once.
    pub bound: nat,
}

impl SchedulerView {
    /// No more fetches are under way than the bound allows, none twice, and
    /// none for an item that is done.
    pub open spec fn wf(self) -> bool {
        &&& self.running.len() <= self.bound
        &&& self.running.no_duplicates()
        &&& forall|k: int| 0 <= k < self.running.len() ==> !self.index.contains_key(#[trigger] self.running[k])
    }

    /// Whether `id` is to be fetched: it is not done, and no fetch of it is
    /// under way.
    pub open spec fn eligible(self, id: i32) -> bool {
        !self.index.contains_key(id) && !self.running.contains(id)
    }

    /// The identifiers that wait, from the first one that is to be fetched.
    pub open spec fn from_first_eligible(self) -> Seq<i32>
        decreases self.waiting.len(),
    {
        if self.waiting.len() == 0 || self.eligible(self.waiting[0]) {
            self.waiting
        } else {
            (SchedulerView { waiting: self.waiting.skip(1), ..self }).from_first_eligible()
        }
    }

    /// The rule of admission. While the bound is reached nothing happens.
    /// Otherwise the identifiers that need no fetch are passed over, and
    /// the first one that does goes under way.
    pub open spec fn start_next(self) -> (SchedulerView, Option<i32>) {
        if self.running.len() >= self.bound {
            (self, None)
        } else {
            let rest = self.from_first_eligible();
            if rest.len() == 0 {
                (SchedulerView { waiting: rest, ..self }, None)
            } else {
                (
                    SchedulerView {
                        waiting: rest.skip(1),
                        running: self.running.push(rest[0]),
                        ..self
                    },
                    Some(rest[0]),
                )
            }
        }
    }

    /// The rule of completion. The fetch of `id` is no longer under way;
    /// where it succeeded, the item is recorded with its date. The end of a
    /// fetch that is not under way changes nothing.
    pub open spec fn complete(self, id: i32, outcome: Result<Date, FetchError>) -> SchedulerView {
        if !self.running.contains(id) {
            self
        } else {
            SchedulerView {
                running: self.running.remove_value(id),
                index: match outcome {
                    Ok(date) => self.index.insert(id, date),
                    Err(_) => self.index,
                },
                ..self
            }
        }
    }

    /// What is left to do: it goes down with every admission and every
    /// completion, so a batch comes to an end.
    pub open spec fn remaining(self) -> nat {
        2 * self.waiting.len() + self.running.len()
    }
}

/// What is to be said of a fetch that has ended.
#[derive(Clone, Copy, Debug, PartialEq, Eq, Structural)]
pub enum Report {
    /// The item is done, and recorded with this date.
    Completed { index: i32, date: Date },
    /// The item failed, and is not recorded.
    Failed { index: i32, reason: FetchError },
    /// No fetch of this item was under way.
    Ignored { index: i32 },
}

/// The line that says that the fetch of `index` begins.
pub open spec fn beginning_text(index: i32) -> Seq<char> {
    "Beginning "@ + int_text(index as int)
}

/// The line that says that the fetch of `index` begins.
pub fn beginning(index: i32) -> (r: String)
    ensures
        r@ == beginning_text(index),
{
    let mut r = String::from_str("Beginning ");
    let number = int_string(index);
    r.append(number.as_str());
    r
}

impl Report {
    /// The line that says how a fetch ended. The end of a fetch that was
    /// not under way has none.
    pub open spec fn text(self) -> Option<Seq<char>> {
        match self {
            Report::Completed { index, date } => Some(
                "Completed "@ + int_text(index as int) + " ("@ + day_text(date@.0, date@.1, date@.2)
                    + ")"@,
            ),
            Report::Failed { index, reason } => Some(
                "Failed "@ + int_text(index as int) + ": "@ + reason.text(),
            ),
            Report::Ignored { index } => None,
        }
    }

    /// The line that says how a fetch ended, if there is something to say.
    pub fn line(&self) -> (r: Option<String>)
        ensures
            r is Some <==> self.text() is Some,
            r matches Some(s) ==> s@ == self.text()->0,
    {
        match self {
            Report::Completed { index, date } => {
                let mut r = String::from_str("Completed ");
                let number = int_string(*index);
                r.append(number.as_str());
                r.append(" (");
                let day = date.to_string();
                r.append(day.as_str());
                r.append(")");
                Some(r)
            },
            Report::Failed { index, reason } => {
                let mut r = String::from_str("Failed ");
                let number = int_string(*index);
                r.append(number.as_str());
                r.append(": ");
                let why = reason.to_string();
                r.append(why.as_str());
                Some(r)
            },
            Report::Ignored { .. } => None,
        }
    }
}

/// The report that goes with the end of a fetch.
pub open spec fn report_of(before: SchedulerView, id: i32, outcome: Result<Date, FetchError>) -> Report {
    if !before.running.contains(id) {
        Report::Ignored { index: id }
    } else {
        match outcome {
            Ok(date) => Report::Completed { index: id, date },
            Err(reason) => Report::Failed { index: id, reason },
        }
    }
}

/// A batch under way.
pub struct Scheduler {
    contents: Contents,
    queue: Vec<i32>,
    next: usize,
    running: Vec<i32>,
    parallel: usize,
}

impl View for Scheduler {
    type V = SchedulerView;

    closed spec fn view(&self) -> SchedulerView {
        SchedulerView {
            index: self.contents@,
            waiting: self.queue@.skip(self.next as int),
            running: self.running@,
            bound: self.parallel as nat,
        }
    }
}

/// The position of the first `id` in `items`, if it is there.
fn position(items: &Vec<i32>, id: i32) -> (r: Option<usize>)
    ensures
        r is Some <==> items@.contains(id),
        r matches Some(k) ==> k < items.len() && items@.index_of_first(id) == Some(k as int),
{
    let mut i: usize = 0;
    while i < items.len()
        invariant
            i <= items.len(),
            forall|j: int| 0 <= j < i ==> items@[j] != id,
        decreases items.len() - i,
    {
        if items[i] == id {
            proof {
                items@.index_of_first_ensures(id);
                assert(items@.contains(id));
            }
            return Some(i);
        }
        i = i + 1;
    }
    None
}

impl Scheduler {
    /// What holds of every scheduler that this module has made.
    pub closed spec fn wf(&self) -> bool {
        &&& self.next <= self.queue.len()
        &&& self@.wf()
    }

    /// A scheduler that is well formed respects its bound.
    pub proof fn lemma_wf(&self)
        requires
            self.wf(),
        ensures
            self@.wf(),
            self@.running.len() <= self@.bound,
    {
    }

    /// A batch over the identifiers `to_do`, in that order, with the items
    /// of `contents` done, and at most `parallel` fetches at a time.
    pub fn new(contents: Contents, to_do: Vec<i32>, parallel: usize) -> (r: Scheduler)
        ensures
            r@ == (SchedulerView {
                index: contents@,
                waiting: to_do@,
                running: Seq::<i32>::empty(),
                bound: parallel as nat,
            }),
            r.wf(),
    {
        let r = Scheduler { contents, queue: to_do, next: 0, running: Vec::new(), parallel };
        assert(r.queue@.skip(0) =~= r.queue@);
        r
    }

    /// Hands out the next identifier to fetch, if the bound allows one more
    /// and there is one left.
    pub fn start_next(&mut self) -> (r: Option<i32>)
        requires
            old(self).wf(),
        ensures
            (final(self)@, r) == old(self)@.start_next(),
            final(self).wf(),
            r is Some ==> final(self)@.remaining() < old(self)@.remaining(),
            r is None && old(self)@.running.len() < old(self)@.bound ==> final(self)@.waiting.len() == 0,
    {
        if self.running.len() >= self.parallel {
            return None;
        }
        while self.next < self.queue.len()
            invariant
                self.next <= self.queue.len(),
                self.next >= old(self).next,
                self.queue == old(self).queue,
                self.running == old(self).running,
                self.contents == old(self).contents,
                self.parallel == old(self).parallel,
                self@.wf(),
                self.running.len() < self.parallel,
                self@.from_first_eligible() == old(self)@.from_first_eligible(),
            decreases self.queue.len() - self.next,
        {
            let id = self.queue[self.next];
            let ghost before = self@;
            assert(before.waiting.len() > 0 && before.waiting[0] == id);
            let mut taken = self.contents.contains(&id);
            if !taken {
                taken = position(&self.running, id).is_some();
            }
            if !taken {
                assert(before.eligible(id));
                assert(before.from_first_eligible() == before.waiting);
                self.running.push(id);
                self.next = self.next + 1;
                proof {
                    assert(self@.waiting =~= before.waiting.skip(1));
                    assert(self@.running =~= before.running.push(id));
                    assert(old(self)@.running == before.running);
                    assert(old(self)@.bound == before.bound);
                    assert(old(self)@.index == before.index);
                }
                return Some(id);
            }
            self.next = self.next + 1;
            proof {
                assert(!before.eligible(id));
                assert(self@.waiting =~= before.waiting.skip(1));
                assert(self@ == (SchedulerView { waiting: before.waiting.skip(1), ..before }));
            }
        }
        proof {
            assert(self@.waiting.len() == 0);
            assert(self@.from_first_eligible() == self@.waiting);
        }
        None
    }

    /// Takes in the end of the fetch of `index`: the item is recorded where
    /// the fetch succeeded, and one more fetch may go under way.
    pub fn complete(&mut self, index: i32, outcome: Result<Date, FetchError>) -> (r: Report)
        requires
            old(self).wf(),
        ensures
            final(self)@ == old(self)@.complete(index, outcome),
            final(self).wf(),
            r == report_of(old(self)@, index, outcome),
            old(self)@.running.contains(index) ==> final(self)@.remaining() < old(self)@.remaining(),
    {
        let ghost before = self@;
        match position(&self.running, index) {
            None => Report::Ignored { index },
            Some(k) => {
                proof {
                    before.running.index_of_first_ensures(index);
                    before.running.remove_ensures(k as int);
                }
                self.running.remove(k);
                assert(self@.running == before.running.remove(k as int));
                assert(!self@.running.contains(index)) by {
                    if self@.running.contains(index) {
                        let j = choose|j: int| 0 <= j < self@.running.len() && self@.running[j] == index;
                        if j < k {
                            assert(before.running[j] == index);
                        } else {
                            assert(before.running[j + 1] == index);
                        }
                    }
                }
                match outcome {
                    Ok(date) => {
                        let _ = self.contents.insert(index, date);
                        Report::Completed { index, date }
                    },
                    Err(reason) => Report::Failed { index, reason },
                }
            },
        }
    }

    /// How many fetches are under way.
    pub fn in_flight(&self) -> (r: usize)
        requires
            self.wf(),
        ensures
            r == self@.running.len(),
            r <= self@.bound,
    {
        self.running.len()
    }

    /// Whether `index` is done.
    pub fn contains(&self, index: i32) -> (r: bool)
        ensures
            r == self@.index.contains_key(index),
    {
        self.contents.contains(&index)
    }

    /// Ends the batch and hands the index back.
    pub fn into_contents(self) -> (r: Contents)
        ensures
            r@ == self@.index,
    {
        self.contents
    }
}

/// The identifiers of a batch: those from 1 up to, but not including,
/// `end` that are not done, in rising order.
pub fn to_do(contents: &Contents, end: i32) -> (r: Vec<i32>)
    ensures
        forall|i: i32| r@.contains(i) <==> 1 <= i < end && !contents@.contains_key(i),
        forall|a: int, b: int| 0 <= a < b < r.len() ==> r@[a] < r@[b],
{
    let mut r: Vec<i32> = Vec::new();
    let mut i: i32 = 1;
    while i < end
        invariant
            1 <= i,
            i <= end || i == 1,
            forall|j: i32| r@.contains(j) <==> 1 <= j < i && !contents@.contains_key(j),
            forall|a: int, b: int| 0 <= a < b < r.len() ==> r@[a] < r@[b],
        decreases end - i,
    {
        if !contents.contains(&i) {
            let ghost before = r@;
            r.push(i);
            proof {
                assert forall|j: i32| r@.contains(j) implies 1 <= j < i + 1 && !contents@.contains_key(
                    j,
                ) by {
                    let k = choose|k: int| 0 <= k < r@.len() && r@[k] == j;
                    if k < before.len() {
                        assert(before[k] == j);
                        assert(before.contains(j));
                    }
                }
                assert forall|j: i32| 1 <= j < i + 1 && !contents@.contains_key(j) implies r@.contains(
                    j,
                ) by {
                    if j < i {
                        assert(before.contains(j));
                        let k = choose|k: int| 0 <= k < before.len() && before[k] == j;
                        assert(r@[k] == j);
                    } else {
                        assert(r@[before.len() as int] == j);
                    }
                }
                assert forall|a: int, b: int| 0 <= a < b < r.len() implies r@[a] < r@[b] by {
                    if b == before.len() {
                        assert(before[a] == r@[a]);
                        assert(before.contains(r@[a]));
                    } else {
                        assert(before[a] == r@[a] && before[b] == r@[b]);
                    }
                }
            }
        }
        i = i + 1;
    }
    r
}

/// Calls `rand::seq::SliceRandom::shuffle` with the generator of
/// `rand::thread_rng`. The contract claims what holds of every outcome: the
/// same identifiers, each as often as before.
#[verifier::external_body]
fn shuffle(items: &mut Vec<i32>)
    ensures
        final(items)@.to_multiset() == old(items)@.to_multiset(),
{
    items.shuffle(&mut rand::thread_rng());
}

/// The identifiers of `items` in an order left to chance.
pub fn shuffled(items: Vec<i32>) -> (r: Vec<i32>)
    ensures
        r@.to_multiset() == items@.to_multiset(),
        r@.len() == items@.len(),
        forall|i: i32| r@.contains(i) <==> items@.contains(i),
{
    let mut r = items;
    shuffle(&mut r);
    proof {
        r@.to_multiset_ensures();
        items@.to_multiset_ensures();
        assert forall|i: i32| r@.contains(i) <==> items@.contains(i) by {
            assert(r@.contains(i) <==> r@.to_multiset().count(i) > 0);
            assert(items@.contains(i) <==> items@.to_multiset().count(i) > 0);
        }
    }
    r
}

} // verus!
