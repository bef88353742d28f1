//! Whole batches: what holds of a scheduler whatever the order in which
//! fetches are started and come to their end.

use crate::date::Date;
use crate::fetcher::FetchError;
use crate::scheduler::SchedulerView;
use vstd::prelude::*;

verus! {

/// One thing that happens to a scheduler.
pub enum Step {
    /// It is asked for the next identifier to fetch.
    Start,
    /// The fetch of `id` has come to its end.
    End { id: i32 },
}

/// How the fetch of each identifier ends.
pub type Outcomes = spec_fn(i32) -> Result<Date, FetchError>;

/// The scheduler at the start of a batch over `ids`, with `done` recorded.
pub open spec fn initial(done: Map<i32, Date>, ids: Seq<i32>, bound: nat) -> SchedulerView {
    SchedulerView { index: done, waiting: ids, running: Seq::<i32>::empty(), bound }
}

/// The scheduler after `steps` have happened to `s`, one after the other.
pub open spec fn run(s: SchedulerView, steps: Seq<Step>, outcomes: Outcomes) -> SchedulerView
    decreases steps.len(),
{
    if steps.len() == 0 {
        s
    } else {
        let before = run(s, steps.drop_last(), outcomes);
        match steps.last() {
            Step::Start => before.start_next().0,
            Step::End { id } => before.complete(id, outcomes(id)),
        }
    }
}

/// Nothing waits and nothing is under way: the batch is over.
pub open spec fn settled(s: SchedulerView) -> bool {
    s.waiting.len() == 0 && s.running.len() == 0
}

/// The index at the end of a batch over `ids` that began with `done`: the
/// records of `done` as they were, and one more for each identifier of the
/// batch that was not done and whose fetch succeeds.
pub open spec fn index_after(done: Map<i32, Date>, ids: Seq<i32>, outcomes: Outcomes) -> Map<i32, Date> {
    Map::new(
        |i: i32| done.contains_key(i) || (ids.contains(i) && outcomes(i) is Ok),
        |i: i32|
            if done.contains_key(i) {
                done[i]
            } else {
                outcomes(i)->Ok_0
            },
    )
}

/// What holds of a scheduler at every point of a batch.
pub open spec fn on_course(
    s: SchedulerView,
    done: Map<i32, Date>,
    ids: Seq<i32>,
    outcomes: Outcomes,
) -> bool {
    &&& s.wf()
    &&& forall|i: i32| #[trigger]
        s.index.contains_key(i) ==> index_after(done, ids, outcomes).contains_key(i)
            && s.index[i] == index_after(done, ids, outcomes)[i]
    &&& forall|i: i32| #[trigger] done.contains_key(i) ==> s.index.contains_key(i)
    &&& forall|i: i32| #[trigger]
        ids.contains(i) ==> s.index.contains_key(i) || s.running.contains(i) || s.waiting.contains(
            i,
        ) || outcomes(i) is Err
    &&& forall|k: int| 0 <= k < s.running.len() ==> ids.contains(#[trigger] s.running[k])
    &&& forall|k: int| 0 <= k < s.waiting.len() ==> ids.contains(#[trigger] s.waiting[k])
}

/// Passing over the identifiers that need no fetch loses none that does.
proof fn lemma_from_first_eligible(s: SchedulerView)
    ensures
        s.from_first_eligible().len() <= s.waiting.len(),
        s.from_first_eligible() == s.waiting.skip(s.waiting.len() - s.from_first_eligible().len()),
        s.from_first_eligible().len() > 0 ==> s.eligible(s.from_first_eligible()[0]),
        forall|k: int|
            0 <= k < s.waiting.len() - s.from_first_eligible().len() ==> !s.eligible(
                #[trigger] s.waiting[k],
            ),
    decreases s.waiting.len(),
{
    if s.waiting.len() == 0 || s.eligible(s.waiting[0]) {
        assert(s.waiting.skip(0) =~= s.waiting);
    } else {
        let t = SchedulerView { waiting: s.waiting.skip(1), ..s };
        lemma_from_first_eligible(t);
        let r = t.from_first_eligible();
        assert(t.waiting.skip(t.waiting.len() - r.len()) =~= s.waiting.skip(
            s.waiting.len() - r.len(),
        ));
        assert forall|k: int| 0 <= k < s.waiting.len() - r.len() implies !s.eligible(
            #[trigger] s.waiting[k],
        ) by {
            if k > 0 {
                assert(t.waiting[k - 1] == s.waiting[k]);
                assert(!t.eligible(t.waiting[k - 1]));
            }
        }
    }
}

/// Asking for the next identifier keeps a batch on course.
proof fn lemma_start_on_course(
    s: SchedulerView,
    done: Map<i32, Date>,
    ids: Seq<i32>,
    outcomes: Outcomes,
)
    requires
        on_course(s, done, ids, outcomes),
    ensures
        on_course(s.start_next().0, done, ids, outcomes),
{
    let t = s.start_next().0;
    lemma_start_keeps_wf(s);
    if s.running.len() < s.bound {
        lemma_from_first_eligible(s);
        let rest = s.from_first_eligible();
        let cut = s.waiting.len() - rest.len();
        assert forall|i: i32| #[trigger] ids.contains(i) implies t.index.contains_key(i)
            || t.running.contains(i) || t.waiting.contains(i) || outcomes(i) is Err by {
            if s.waiting.contains(i) && !s.index.contains_key(i) && !s.running.contains(i) {
                let k = choose|k: int| 0 <= k < s.waiting.len() && s.waiting[k] == i;
                assert(s.eligible(i));
                assert(k >= cut);
                assert(rest[k - cut] == i);
                if rest.len() > 0 && k - cut > 0 {
                    assert(rest.skip(1)[k - cut - 1] == i);
                    assert(t.waiting.contains(i));
                } else {
                    assert(t.running[s.running.len() as int] == i);
                    assert(t.running.contains(i));
                }
            } else if s.running.contains(i) {
                let k = choose|k: int| 0 <= k < s.running.len() && s.running[k] == i;
                if rest.len() > 0 {
                    assert(t.running[k] == i);
                }
                assert(t.running.contains(i));
            }
        }
        if rest.len() > 0 {
            assert(rest[0] == s.waiting[cut]);
            assert forall|k: int| 0 <= k < t.waiting.len() implies ids.contains(
                #[trigger] t.waiting[k],
            ) by {
                assert(t.waiting[k] == s.waiting[cut + 1 + k]);
            }
            assert forall|k: int| 0 <= k < t.running.len() implies ids.contains(
                #[trigger] t.running[k],
            ) by {
                if k < s.running.len() {
                    assert(t.running[k] == s.running[k]);
                }
            }
        } else {
            assert(t.waiting.len() == 0);
        }
    }
}

/// Taking a value out of a sequence without repeats leaves the others, and
/// not that value.
proof fn lemma_remove_value(s: Seq<i32>, id: i32)
    requires
        s.no_duplicates(),
        s.contains(id),
    ensures
        s.remove_value(id).len() == s.len() - 1,
        s.remove_value(id).no_duplicates(),
        !s.remove_value(id).contains(id),
        forall|i: i32| i != id ==> (#[trigger] s.remove_value(id).contains(i) <==> s.contains(i)),
        forall|k: int| 0 <= k < s.remove_value(id).len() ==> s.contains(#[trigger] s.remove_value(id)[k]),
{
    s.index_of_first_ensures(id);
    let p = s.index_of_first(id)->0;
    let r = s.remove(p);
    s.remove_ensures(p);
    assert(r == s.remove_value(id));
    assert forall|k: int| 0 <= k < r.len() implies s.contains(#[trigger] r[k]) && r[k] != id by {
        if k < p {
            assert(r[k] == s[k]);
        } else {
            assert(r[k] == s[k + 1]);
        }
    }
    assert forall|i: i32| i != id && s.contains(i) implies #[trigger] r.contains(i) by {
        let k = choose|k: int| 0 <= k < s.len() && s[k] == i;
        if k < p {
            assert(r[k] == i);
        } else {
            assert(r[k - 1] == i);
        }
    }
    assert forall|a: int, b: int| 0 <= a < r.len() && 0 <= b < r.len() && a != b implies r[a]
        != r[b] by {
        let a2 = if a < p {
            a
        } else {
            a + 1
        };
        let b2 = if b < p {
            b
        } else {
            b + 1
        };
        assert(r[a] == s[a2] && r[b] == s[b2]);
    }
}

/// The end of a fetch keeps a batch on course.
proof fn lemma_end_on_course(
    s: SchedulerView,
    id: i32,
    done: Map<i32, Date>,
    ids: Seq<i32>,
    outcomes: Outcomes,
)
    requires
        on_course(s, done, ids, outcomes),
    ensures
        on_course(s.complete(id, outcomes(id)), done, ids, outcomes),
{
    let t = s.complete(id, outcomes(id));
    lemma_end_keeps_wf(s, id, outcomes(id));
    if s.running.contains(id) {
        lemma_remove_value(s.running, id);
        let k = choose|k: int| 0 <= k < s.running.len() && s.running[k] == id;
        assert(ids.contains(id));
        assert(!done.contains_key(id));
        assert forall|j: int| 0 <= j < t.running.len() implies ids.contains(
            #[trigger] t.running[j],
        ) by {
            let v = t.running[j];
            assert(s.running.contains(v));
            let m = choose|m: int| 0 <= m < s.running.len() && s.running[m] == v;
        }
    }
}

/// Every run keeps a batch on course.
proof fn lemma_run_on_course(
    s: SchedulerView,
    steps: Seq<Step>,
    done: Map<i32, Date>,
    ids: Seq<i32>,
    outcomes: Outcomes,
)
    requires
        on_course(s, done, ids, outcomes),
    ensures
        on_course(run(s, steps, outcomes), done, ids, outcomes),
    decreases steps.len(),
{
    if steps.len() > 0 {
        lemma_run_on_course(s, steps.drop_last(), done, ids, outcomes);
        let before = run(s, steps.drop_last(), outcomes);
        match steps.last() {
            Step::Start => lemma_start_on_course(before, done, ids, outcomes),
            Step::End { id } => lemma_end_on_course(before, id, done, ids, outcomes),
        }
    }
}

/// A batch starts on course.
proof fn lemma_initial_on_course(done: Map<i32, Date>, ids: Seq<i32>, bound: nat, outcomes: Outcomes)
    ensures
        on_course(initial(done, ids, bound), done, ids, outcomes),
{
}

/// At no point of a batch are more fetches under way than the bound
/// allows; none is under way twice, and none for an item that is done.
pub proof fn lemma_bound_holds(s: SchedulerView, steps: Seq<Step>, outcomes: Outcomes)
    requires
        s.wf(),
    ensures
        run(s, steps, outcomes).wf(),
        run(s, steps, outcomes).running.len() <= s.bound,
        run(s, steps, outcomes).bound == s.bound,
    decreases steps.len(),
{
    if steps.len() > 0 {
        lemma_bound_holds(s, steps.drop_last(), outcomes);
        let before = run(s, steps.drop_last(), outcomes);
        match steps.last() {
            Step::Start => {
                lemma_start_keeps_wf(before);
            },
            Step::End { id } => {
                lemma_end_keeps_wf(before, id, outcomes(id));
            },
        }
    }
}

/// Asking for the next identifier keeps a scheduler well formed.
proof fn lemma_start_keeps_wf(s: SchedulerView)
    requires
        s.wf(),
    ensures
        s.start_next().0.wf(),
        s.start_next().0.bound == s.bound,
        s.start_next().0.index == s.index,
        s.start_next().1 matches Some(id) ==> s.eligible(id),
{
    let t = s.start_next().0;
    if s.running.len() < s.bound {
        lemma_from_first_eligible(s);
        let rest = s.from_first_eligible();
        if rest.len() > 0 {
            assert forall|k: int| 0 <= k < t.running.len() implies !t.index.contains_key(
                #[trigger] t.running[k],
            ) by {
                if k < s.running.len() {
                    assert(t.running[k] == s.running[k]);
                }
            }
            assert forall|a: int, b: int|
                0 <= a < t.running.len() && 0 <= b < t.running.len() && a != b implies t.running[a]
                != t.running[b] by {
                if a < s.running.len() && b < s.running.len() {
                    assert(s.running[a] != s.running[b]);
                } else if a < s.running.len() {
                    assert(s.running.contains(s.running[a]));
                } else {
                    assert(s.running.contains(s.running[b]));
                }
            }
        }
    }
}

/// The end of a fetch keeps a scheduler well formed, and keeps every
/// record that is there. The item whose fetch ends was not recorded before.
proof fn lemma_end_keeps_wf(s: SchedulerView, id: i32, outcome: Result<Date, FetchError>)
    requires
        s.wf(),
    ensures
        s.complete(id, outcome).wf(),
        s.complete(id, outcome).bound == s.bound,
        s.running.contains(id) ==> !s.index.contains_key(id),
        forall|i: i32| #[trigger]
            s.index.contains_key(i) ==> s.complete(id, outcome).index.contains_key(i) && s.complete(
                id,
                outcome,
            ).index[i] == s.index[i],
{
    let t = s.complete(id, outcome);
    if s.running.contains(id) {
        lemma_remove_value(s.running, id);
        let k = choose|k: int| 0 <= k < s.running.len() && s.running[k] == id;
        assert(!s.index.contains_key(id));
        assert forall|j: int| 0 <= j < t.running.len() implies !t.index.contains_key(
            #[trigger] t.running[j],
        ) by {
            let v = t.running[j];
            assert(s.running.contains(v));
            let m = choose|m: int| 0 <= m < s.running.len() && s.running[m] == v;
        }
    }
}

/// A record, once made, stays as it is: whatever happens afterwards, the
/// item is found with the same date.
pub proof fn lemma_records_stay(s: SchedulerView, steps: Seq<Step>, outcomes: Outcomes, i: i32)
    requires
        s.wf(),
        s.index.contains_key(i),
    ensures
        run(s, steps, outcomes).index.contains_key(i),
        run(s, steps, outcomes).index[i] == s.index[i],
    decreases steps.len(),
{
    if steps.len() > 0 {
        lemma_records_stay(s, steps.drop_last(), outcomes, i);
        lemma_bound_holds(s, steps.drop_last(), outcomes);
        let before = run(s, steps.drop_last(), outcomes);
        match steps.last() {
            Step::Start => lemma_start_keeps_wf(before),
            Step::End { id } => lemma_end_keeps_wf(before, id, outcomes(id)),
        }
    }
}

/// When a fetch that is under way succeeds, the item is recorded with its
/// date, and every later look at the index finds it so.
pub proof fn lemma_found_after_success(
    s: SchedulerView,
    id: i32,
    date: Date,
    steps: Seq<Step>,
    outcomes: Outcomes,
)
    requires
        s.wf(),
        s.running.contains(id),
    ensures
        !s.index.contains_key(id),
        run(s.complete(id, Ok(date)), steps, outcomes).index.contains_key(id),
        run(s.complete(id, Ok(date)), steps, outcomes).index[id] == date,
{
    lemma_end_keeps_wf(s, id, Ok(date));
    lemma_records_stay(s.complete(id, Ok(date)), steps, outcomes, id);
}

/// No fetch is started for an item that is done, nor for one whose fetch
/// is under way.
pub proof fn lemma_starts_only_eligible(s: SchedulerView)
    requires
        s.wf(),
    ensures
        s.start_next().1 matches Some(id) ==> !s.index.contains_key(id) && !s.running.contains(id),
{
    lemma_start_keeps_wf(s);
}

/// A batch that has come to its end has the same index whatever the bound
/// and whatever the order in which the fetches were started and ended.
pub proof fn lemma_final_index(
    done: Map<i32, Date>,
    ids: Seq<i32>,
    bound: nat,
    steps: Seq<Step>,
    outcomes: Outcomes,
)
    requires
        settled(run(initial(done, ids, bound), steps, outcomes)),
    ensures
        run(initial(done, ids, bound), steps, outcomes).index == index_after(done, ids, outcomes),
{
    lemma_initial_on_course(done, ids, bound, outcomes);
    lemma_run_on_course(initial(done, ids, bound), steps, done, ids, outcomes);
    let t = run(initial(done, ids, bound), steps, outcomes);
    let goal = index_after(done, ids, outcomes);
    assert forall|i: i32| goal.contains_key(i) implies #[trigger] t.index.contains_key(i) by {
        if !done.contains_key(i) {
            assert(ids.contains(i));
        }
    }
    assert(t.index =~= goal);
}

/// Running a batch a second time over the same identifiers, with fetches
/// that end as they did the first time, leaves the index as the first run
/// left it.
pub proof fn lemma_second_run_changes_nothing(
    done: Map<i32, Date>,
    ids: Seq<i32>,
    outcomes: Outcomes,
)
    ensures
        index_after(index_after(done, ids, outcomes), ids, outcomes) == index_after(
            done,
            ids,
            outcomes,
        ),
{
    let once = index_after(done, ids, outcomes);
    assert(index_after(once, ids, outcomes) =~= once);
}

/// In a second run no fetch is started for an item that the first run, or
/// any earlier one, has completed.
pub proof fn lemma_second_run_skips_done(
    done: Map<i32, Date>,
    ids: Seq<i32>,
    bound: nat,
    steps: Seq<Step>,
    outcomes: Outcomes,
    i: i32,
)
    requires
        done.contains_key(i),
    ensures
        run(initial(done, ids, bound), steps, outcomes).start_next().1 != Some(i),
{
    let s = initial(done, ids, bound);
    lemma_bound_holds(s, steps, outcomes);
    lemma_records_stay(s, steps, outcomes, i);
    lemma_start_keeps_wf(run(s, steps, outcomes));
}

/// The failure of one item changes nothing for the others: two batches
/// that differ only in how the fetch of `i` ends agree, at their end, on
/// every other item.
pub proof fn lemma_failure_is_isolated(
    done: Map<i32, Date>,
    ids: Seq<i32>,
    bound: nat,
    steps_a: Seq<Step>,
    outcomes_a: Outcomes,
    steps_b: Seq<Step>,
    outcomes_b: Outcomes,
    i: i32,
    j: i32,
)
    requires
        settled(run(initial(done, ids, bound), steps_a, outcomes_a)),
        settled(run(initial(done, ids, bound), steps_b, outcomes_b)),
        forall|k: i32| k != i ==> #[trigger] outcomes_a(k) == outcomes_b(k),
        j != i,
    ensures
        run(initial(done, ids, bound), steps_a, outcomes_a).index.contains_key(j) == run(
            initial(done, ids, bound),
            steps_b,
            outcomes_b,
        ).index.contains_key(j),
        run(initial(done, ids, bound), steps_a, outcomes_a).index.contains_key(j) ==> run(
            initial(done, ids, bound),
            steps_a,
            outcomes_a,
        ).index[j] == run(initial(done, ids, bound), steps_b, outcomes_b).index[j],
{
    lemma_final_index(done, ids, bound, steps_a, outcomes_a);
    lemma_final_index(done, ids, bound, steps_b, outcomes_b);
}

} // verus!
