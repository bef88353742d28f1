//! Collections that can take in what a stream yields, batch by batch.

use crate::date::Date;
use crate::store::record_all;
use crate::store::Contents;
use vstd::prelude::*;

verus! {

/// What a stream hands over when it is asked.
pub enum Polled<T> {
    /// Nothing yet.
    Pending,
    /// Its next batch.
    Ready(T),
    /// Nothing more: the stream has ended.
    Finished,
}

/// What is to be done after a stream has been asked.
#[derive(Clone, Copy, Debug, PartialEq, Eq, Structural)]
pub enum Progress {
    /// Ask the stream again at once.
    Again,
    /// Wait until the stream has something.
    Pending,
    /// All of the stream has been taken in.
    Ready,
}

/// What a collection that holds `m` holds after it has taken in all the
/// batches of `stream`, first to last, where `step` says what taking in
/// one batch does.
pub open spec fn fold_batches<M, A>(step: spec_fn(M, Seq<A>) -> M, m: M, stream: Seq<Vec<A>>) -> M
    decreases stream.len(),
{
    if stream.len() == 0 {
        m
    } else {
        fold_batches(step, step(m, stream[0]@), stream.skip(1))
    }
}

/// A collection that can be extended by the batches of a stream.
pub trait StreamExtendable<A>: Sized {
    /// What the collection holds, as plain mathematics.
    type Model;

    /// What this collection holds.
    spec fn model(&self) -> Self::Model;

    /// What a collection that holds `m` holds after it has taken in `items`.
    spec fn extended(m: Self::Model, items: Seq<A>) -> Self::Model;

    /// Takes in one batch.
    fn extend(&mut self, items: Vec<A>)
        ensures
            final(self).model() == Self::extended(old(self).model(), items@),
    ;

    /// Takes in what the stream has handed over, and says how to go on. A
    /// batch is taken in as it comes; nothing is kept back for later.
    fn poll(&mut self, polled: Polled<Vec<A>>) -> (r: Progress)
        ensures
            final(self).model() == (match polled {
                Polled::Ready(items) => Self::extended(old(self).model(), items@),
                _ => old(self).model(),
            }),
            r == (match polled {
                Polled::Ready(_) => Progress::Again,
                Polled::Pending => Progress::Pending,
                Polled::Finished => Progress::Ready,
            }),
    {
        match polled {
            Polled::Ready(items) => {
                self.extend(items);
                Progress::Again
            },
            Polled::Pending => Progress::Pending,
            Polled::Finished => Progress::Ready,
        }
    }

    /// Takes in all the batches of a stream that has ended, first to last.
    fn stream_extend(&mut self, stream: Vec<Vec<A>>)
        ensures
            final(self).model() == fold_batches(
                |m: Self::Model, items: Seq<A>| Self::extended(m, items),
                old(self).model(),
                stream@,
            ),
    {
        let mut rest = stream;
        while rest.len() > 0
            invariant
                fold_batches(|m: Self::Model, items: Seq<A>| Self::extended(m, items), self.model(), rest@) == fold_batches(
                    |m: Self::Model, items: Seq<A>| Self::extended(m, items),
                    old(self).model(),
                    stream@,
                ),
            decreases rest.len(),
        {
            let ghost before = rest@;
            let batch = rest.remove(0);
            assert(rest@ =~= before.skip(1));
            self.extend(batch);
        }
    }
}

impl StreamExtendable<(i32, Date)> for Contents {
    type Model = Map<i32, Date>;

    open spec fn model(&self) -> Map<i32, Date> {
        self@
    }

    open spec fn extended(m: Map<i32, Date>, items: Seq<(i32, Date)>) -> Map<i32, Date> {
        record_all(m, items)
    }

    fn extend(&mut self, items: Vec<(i32, Date)>) {
        Contents::extend(self, items)
    }
}

impl<A> StreamExtendable<A> for Vec<A> {
    type Model = Seq<A>;

    open spec fn model(&self) -> Seq<A> {
        self@
    }

    open spec fn extended(m: Seq<A>, items: Seq<A>) -> Seq<A> {
        m + items
    }

    fn extend(&mut self, items: Vec<A>) {
        let mut items = items;
        self.append(&mut items);
    }
}

/// All the items of the batches of `stream`, first to last.
pub open spec fn all_items<A>(stream: Seq<Vec<A>>) -> Seq<A>
    decreases stream.len(),
{
    if stream.len() == 0 {
        Seq::empty()
    } else {
        stream[0]@ + all_items(stream.skip(1))
    }
}

/// A vector that takes in a stream ends with all the items of the stream
/// behind the items it had, in the order in which they came.
pub proof fn lemma_vec_takes_all<A>(m: Seq<A>, stream: Seq<Vec<A>>)
    ensures
        fold_batches(|m: Seq<A>, items: Seq<A>| Vec::<A>::extended(m, items), m, stream) == m
            + all_items(stream),
    decreases stream.len(),
{
    let step = |m: Seq<A>, items: Seq<A>| Vec::<A>::extended(m, items);
    if stream.len() == 0 {
        assert(m + all_items(stream) =~= m);
    } else {
        lemma_vec_takes_all(m + stream[0]@, stream.skip(1));
        assert(step(m, stream[0]@) == m + stream[0]@);
        assert((m + stream[0]@) + all_items(stream.skip(1)) =~= m + all_items(stream));
    }
}

} // verus!
