//! One owner for the table: requests come in from many sides and are
//! answered one at a time, in the order in which they came.

use crate::date::Date;
use crate::db::lowest_with_date;
use crate::db::Database;
use crate::db::Error;
use crate::db::IndexEntry;
use vstd::prelude::*;

verus! {

/// What can be asked of the table.
#[derive(Clone, Copy, Debug, PartialEq, Eq, Structural)]
pub enum Commands {
    /// Record this item.
    Store(IndexEntry),
    /// Which item has this date?
    ContainsDate(Date),
    /// Is this item done, and what is its date?
    ContainsIndex(i32),
}

/// The answer to a request.
#[derive(Clone, Copy, Debug)]
pub enum Reply {
    /// To `Store`.
    Stored(Result<(), Error>),
    /// To `ContainsDate`.
    Index(Result<Option<i32>, Error>),
    /// To `ContainsIndex`.
    Date(Result<Option<Date>, Error>),
}

/// The table after `command`, and the answer to it.
pub open spec fn answer(m: Map<i32, Date>, command: Commands) -> (Map<i32, Date>, Reply) {
    match command {
        Commands::Store(entry) => if m.contains_key(entry.index) {
            (m, Reply::Stored(Err(Error::Duplicate)))
        } else {
            (m.insert(entry.index, entry.date), Reply::Stored(Ok(())))
        },
        Commands::ContainsDate(date) => (m, Reply::Index(Ok(lowest_with_date(m, date)))),
        Commands::ContainsIndex(index) => (
            m,
            Reply::Date(
                Ok(
                    if m.contains_key(index) {
                        Some(m[index])
                    } else {
                        None
                    },
                ),
            ),
        ),
    }
}

/// What the owner has made of a request before anything is written.
#[derive(Clone, Copy, Debug)]
pub enum Pending {
    /// The answer stands: nothing is to be written.
    Reply(Reply),
    /// The row is new. It is to be written to what holds the table, and how
    /// the writing went is to be told to `commit`.
    Write(IndexEntry),
}

/// The answer to a request that cannot be served because what holds the
/// table is lost: a storage error, in the form that the request waits for.
pub open spec fn refusal(command: Commands) -> Reply {
    match command {
        Commands::Store(_) => Reply::Stored(Err(Error::Storage)),
        Commands::ContainsDate(_) => Reply::Index(Err(Error::Storage)),
        Commands::ContainsIndex(_) => Reply::Date(Err(Error::Storage)),
    }
}

/// Whether `reply` is a storage error.
pub open spec fn is_storage_error(reply: Reply) -> bool {
    match reply {
        Reply::Stored(r) => r == Err::<(), Error>(Error::Storage),
        Reply::Index(r) => r == Err::<Option<i32>, Error>(Error::Storage),
        Reply::Date(r) => r == Err::<Option<Date>, Error>(Error::Storage),
    }
}

/// The table after `command` and the answer to it, by an owner whose
/// storage is usable or not. Once it is not, nothing changes and every
/// answer is a storage error.
pub open spec fn served(m: Map<i32, Date>, usable: bool, command: Commands) -> (
    Map<i32, Date>,
    Reply,
) {
    if usable {
        answer(m, command)
    } else {
        (m, refusal(command))
    }
}

/// What is made of `command` on the table `m`: a question is answered, a
/// row for an identifier that is there is refused, a new row is to be
/// written.
pub open spec fn decision(m: Map<i32, Date>, command: Commands) -> Pending {
    match command {
        Commands::Store(entry) => if m.contains_key(entry.index) {
            Pending::Reply(Reply::Stored(Err(Error::Duplicate)))
        } else {
            Pending::Write(entry)
        },
        _ => Pending::Reply(answer(m, command).1),
    }
}

/// What is made of `command` by an owner whose storage is usable or not.
/// Once it is not, nothing is to be written and the answer is a storage
/// error.
pub open spec fn decided(m: Map<i32, Date>, usable: bool, command: Commands) -> Pending {
    if usable {
        decision(m, command)
    } else {
        Pending::Reply(refusal(command))
    }
}

/// The table and the answer once the writing of `entry` has ended. A row
/// that could not be written is not in the table, and the answer says so.
pub open spec fn committed(m: Map<i32, Date>, usable: bool, entry: IndexEntry, written: bool) -> (
    Map<i32, Date>,
    Reply,
) {
    if usable && written {
        answer(m, Commands::Store(entry))
    } else {
        (m, Reply::Stored(Err(Error::Storage)))
    }
}

/// The answers to `queue` by an owner whose storage is lost.
pub open spec fn refusals(queue: Seq<Commands>) -> Seq<Reply> {
    Seq::new(queue.len(), |k: int| refusal(queue[k]))
}

/// The table after all of `queue`, first to last.
pub open spec fn table_after(m: Map<i32, Date>, queue: Seq<Commands>) -> Map<i32, Date>
    decreases queue.len(),
{
    if queue.len() == 0 {
        m
    } else {
        answer(table_after(m, queue.drop_last()), queue.last()).0
    }
}

/// The answers to `queue`: each request is answered from the table as all
/// the requests before it have left it.
pub open spec fn answers(m: Map<i32, Date>, queue: Seq<Commands>) -> Seq<Reply> {
    Seq::new(queue.len(), |k: int| answer(table_after(m, queue.take(k)), queue[k]).1)
}

/// The owner of the table.
pub struct ParDbServer {
    database: Database,
    usable: bool,
}

impl View for ParDbServer {
    type V = Map<i32, Date>;

    closed spec fn view(&self) -> Map<i32, Date> {
        self.database@
    }
}

/// The storage error in the form that `command` waits for.
fn refuse(command: Commands) -> (r: Reply)
    ensures
        r == refusal(command),
{
    match command {
        Commands::Store(_) => Reply::Stored(Err(Error::Storage)),
        Commands::ContainsDate(_) => Reply::Index(Err(Error::Storage)),
        Commands::ContainsIndex(_) => Reply::Date(Err(Error::Storage)),
    }
}

impl ParDbServer {
    /// What holds of every server that this module has made.
    pub closed spec fn wf(&self) -> bool {
        self.database.wf()
    }

    /// Whether what holds the table can still be used.
    pub closed spec fn usable(&self) -> bool {
        self.usable
    }

    /// The server that owns `database`, with its storage in use.
    pub fn new(database: Database) -> (r: ParDbServer)
        requires
            database.wf(),
        ensures
            r.wf(),
            r.usable(),
            r@ == database@,
    {
        ParDbServer { database, usable: true }
    }

    /// Whether what holds the table can still be used.
    pub fn is_usable(&self) -> (r: bool)
        ensures
            r == self.usable(),
    {
        self.usable
    }

    /// Takes note that what holds the table cannot be used any more. From
    /// now on every request is answered with a storage error.
    pub fn storage_lost(&mut self)
        requires
            old(self).wf(),
        ensures
            final(self).wf(),
            !final(self).usable(),
            final(self)@ == old(self)@,
    {
        self.usable = false;
    }

    /// Answers one request.
    pub fn serve(&mut self, command: Commands) -> (r: Reply)
        requires
            old(self).wf(),
        ensures
            final(self).wf(),
            final(self).usable() == old(self).usable(),
            (final(self)@, r) == served(old(self)@, old(self).usable(), command),
    {
        if !self.usable {
            return refuse(command);
        }
        match command {
            Commands::ContainsDate(date) => Reply::Index(self.database.cartoon_index(&date)),
            Commands::ContainsIndex(index) => Reply::Date(self.database.cartoon_date(index)),
            Commands::Store(entry) => Reply::Stored(self.database.add_cartoon(&entry)),
        }
    }

    /// Looks at one request without changing the table: gives the answer
    /// where there is one to give, and the row to write where it is new.
    pub fn decide(&self, command: Commands) -> (r: Pending)
        requires
            self.wf(),
        ensures
            r == decided(self@, self.usable(), command),
    {
        if !self.usable {
            return Pending::Reply(refuse(command));
        }
        match command {
            Commands::ContainsDate(date) => Pending::Reply(
                Reply::Index(self.database.cartoon_index(&date)),
            ),
            Commands::ContainsIndex(index) => Pending::Reply(
                Reply::Date(self.database.cartoon_date(index)),
            ),
            Commands::Store(entry) => match self.database.cartoon_date(entry.index) {
                Ok(None) => Pending::Write(entry),
                _ => Pending::Reply(Reply::Stored(Err(Error::Duplicate))),
            },
        }
    }

    /// Takes in how the writing of `entry` went. Where it was written, the
    /// row goes into the table; where not, the table stays as it is and the
    /// answer is a storage error. Either way the next request is served.
    pub fn commit(&mut self, entry: IndexEntry, written: bool) -> (r: Reply)
        requires
            old(self).wf(),
        ensures
            final(self).wf(),
            final(self).usable() == old(self).usable(),
            (final(self)@, r) == committed(old(self)@, old(self).usable(), entry, written),
    {
        if self.usable && written {
            Reply::Stored(self.database.add_cartoon(&entry))
        } else {
            Reply::Stored(Err(Error::Storage))
        }
    }

    /// Answers the requests of `queue` one at a time, first to last.
    pub fn mainloop(&mut self, queue: &Vec<Commands>) -> (r: Vec<Reply>)
        requires
            old(self).wf(),
        ensures
            final(self).wf(),
            final(self).usable() == old(self).usable(),
            old(self).usable() ==> final(self)@ == table_after(old(self)@, queue@) && r@ == answers(
                old(self)@,
                queue@,
            ),
            !old(self).usable() ==> final(self)@ == old(self)@ && r@ == refusals(queue@),
    {
        let mut replies: Vec<Reply> = Vec::new();
        let mut k: usize = 0;
        while k < queue.len()
            invariant
                k <= queue.len(),
                self.wf(),
                self.usable() == old(self).usable(),
                self.usable() ==> self@ == table_after(old(self)@, queue@.take(k as int)),
                !self.usable() ==> self@ == old(self)@,
                replies@.len() == k,
                forall|j: int|
                    0 <= j < k ==> #[trigger] replies@[j] == (if old(self).usable() {
                        answer(table_after(old(self)@, queue@.take(j)), queue@[j]).1
                    } else {
                        refusal(queue@[j])
                    }),
            decreases queue.len() - k,
        {
            let reply = self.serve(queue[k]);
            replies.push(reply);
            proof {
                let next = queue@.take(k + 1);
                assert(next.drop_last() =~= queue@.take(k as int));
                assert(next.last() == queue@[k as int]);
            }
            k = k + 1;
        }
        proof {
            assert(queue@.take(queue@.len() as int) =~= queue@);
            if old(self).usable() {
                assert(replies@ =~= answers(old(self)@, queue@));
            } else {
                assert(replies@ =~= refusals(queue@));
            }
        }
        replies
    }

    /// Gives the table back, when no more requests can come.
    pub fn into_database(self) -> (r: Database)
        requires
            self.wf(),
        ensures
            r.wf(),
            r@ == self@,
    {
        self.database
    }
}

/// A row, once there, stays as it is, whatever is asked afterwards.
pub proof fn lemma_rows_stay(m: Map<i32, Date>, queue: Seq<Commands>, i: i32)
    requires
        m.contains_key(i),
    ensures
        table_after(m, queue).contains_key(i),
        table_after(m, queue)[i] == m[i],
    decreases queue.len(),
{
    if queue.len() > 0 {
        lemma_rows_stay(m, queue.drop_last(), i);
    }
}

/// Once the recording of an item has been answered, whether with success
/// or because the item was there already, every later question for that
/// item finds it, with the date it then had.
pub proof fn lemma_lookup_after_store(
    m: Map<i32, Date>,
    entry: IndexEntry,
    queue: Seq<Commands>,
)
    ensures
        ({
            let stored = answer(m, Commands::Store(entry)).0;
            let later = table_after(stored, queue);
            &&& stored.contains_key(entry.index)
            &&& answer(later, Commands::ContainsIndex(entry.index)).1 == Reply::Date(
                Ok(Some(stored[entry.index])),
            )
            &&& !m.contains_key(entry.index) ==> stored[entry.index] == entry.date
        }),
{
    let stored = answer(m, Commands::Store(entry)).0;
    lemma_rows_stay(stored, queue, entry.index);
}

/// No item is recorded twice: a second `Store` for an item is refused and
/// leaves the table as it is.
pub proof fn lemma_no_second_store(m: Map<i32, Date>, first: IndexEntry, second: IndexEntry)
    requires
        first.index == second.index,
    ensures
        ({
            let stored = answer(m, Commands::Store(first)).0;
            answer(stored, Commands::Store(second)) == (stored, Reply::Stored(Err(Error::Duplicate)))
        }),
{
}

/// Deciding first and committing what was written comes to the same as
/// serving the request at once.
pub proof fn lemma_decide_then_commit(m: Map<i32, Date>, command: Commands)
    ensures
        match decision(m, command) {
            Pending::Reply(reply) => answer(m, command) == (m, reply),
            Pending::Write(entry) => command == Commands::Store(entry) && committed(
                m,
                true,
                entry,
                true,
            ) == answer(m, command),
        },
{
}

/// A row that could not be written is not found afterwards, and the
/// requests that follow are answered as if it had never been asked for.
pub proof fn lemma_failed_write_leaves_no_row(
    m: Map<i32, Date>,
    entry: IndexEntry,
    queue: Seq<Commands>,
)
    requires
        !m.contains_key(entry.index),
    ensures
        committed(m, true, entry, false) == (m, Reply::Stored(Err(Error::Storage))),
        answer(committed(m, true, entry, false).0, Commands::ContainsIndex(entry.index)).1 == Reply::Date(
            Ok(None),
        ),
        table_after(committed(m, true, entry, false).0, queue) == table_after(m, queue),
        answers(committed(m, true, entry, false).0, queue) == answers(m, queue),
{
}

/// Once what holds the table is lost, every request is answered with a
/// storage error and the table stays as it is.
pub proof fn lemma_lost_storage_refuses_all(m: Map<i32, Date>, command: Commands)
    ensures
        served(m, false, command).0 == m,
        is_storage_error(served(m, false, command).1),
        decided(m, false, command) == Pending::Reply(served(m, false, command).1),
        forall|entry: IndexEntry, written: bool| #[trigger]
            committed(m, false, entry, written) == (m, Reply::Stored(Err(Error::Storage))),
{
}

} // verus!
