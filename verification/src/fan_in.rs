//! Collecting the outcomes of independent tasks.
//!
//! Tasks are launched together and report in the order in which they finish.
//! Whatever a task that succeeded produced is kept, in that order; a task that
//! failed takes nothing away from the others.

use vstd::prelude::*;

verus! {

/// What is kept of one outcome: the value of a task that succeeded.
pub open spec fn kept<T, E>() -> spec_fn(Result<T, E>) -> Option<T> {
    |outcome: Result<T, E>|
        match outcome {
            Ok(value) => Some(value),
            Err(_) => None,
        }
}

/// What is reported of one outcome: the error of a task that failed.
pub open spec fn reported<T, E>() -> spec_fn(Result<T, E>) -> Option<E> {
    |outcome: Result<T, E>|
        match outcome {
            Ok(_) => None,
            Err(error) => Some(error),
        }
}

/// The values of the tasks that succeeded, in the order of the outcomes.
pub open spec fn successes<T, E>(outcomes: Seq<Result<T, E>>) -> Seq<T> {
    outcomes.filter_map(kept::<T, E>())
}

/// The errors of the tasks that failed, in the order of the outcomes.
pub open spec fn failures<T, E>(outcomes: Seq<Result<T, E>>) -> Seq<E> {
    outcomes.filter_map(reported::<T, E>())
}

/// The accumulator at the point where the tasks' outcomes come together.
pub struct FanIn<T, E> {
    completed: Vec<T>,
    failed: Vec<E>,
}

impl<T, E> FanIn<T, E> {
    /// The values collected so far.
    pub closed spec fn completed(&self) -> Seq<T> {
        self.completed@
    }

    /// The errors set aside so far.
    pub closed spec fn failed(&self) -> Seq<E> {
        self.failed@
    }

    /// An accumulator that no outcome has reached yet.
    pub fn new() -> (fan_in: Self)
        ensures
            fan_in.completed() == Seq::<T>::empty(),
            fan_in.failed() == Seq::<E>::empty(),
    {
        FanIn { completed: Vec::new(), failed: Vec::new() }
    }

    /// Takes in the outcome of the task that finished next.
    pub fn absorb(&mut self, outcome: Result<T, E>)
        ensures
            outcome matches Ok(value) ==> final(self).completed() == old(self).completed().push(
                value,
            ) && final(self).failed() == old(self).failed(),
            outcome matches Err(error) ==> final(self).completed() == old(self).completed()
                && final(self).failed() == old(self).failed().push(error),
    {
        match outcome {
            Ok(value) => {
                self.completed.push(value);
            },
            Err(error) => {
                self.failed.push(error);
            },
        }
    }

    /// How many tasks have succeeded so far.
    pub fn completed_len(&self) -> (len: usize)
        ensures
            len == self.completed().len(),
    {
        self.completed.len()
    }

    /// How many tasks have failed so far.
    pub fn failed_len(&self) -> (len: usize)
        ensures
            len == self.failed().len(),
    {
        self.failed.len()
    }

    /// Ends the collection: the values kept and the errors set aside.
    pub fn into_parts(self) -> (parts: (Vec<T>, Vec<E>))
        ensures
            parts.0@ == self.completed(),
            parts.1@ == self.failed(),
    {
        (self.completed, self.failed)
    }

    /// Ends the collection and hands out the values kept.
    pub fn into_completed(self) -> (completed: Vec<T>)
        ensures
            completed@ == self.completed(),
    {
        self.completed
    }
}

/// Collects a whole run of outcomes, given in the order of arrival.
pub fn collect<T, E>(outcomes: Vec<Result<T, E>>) -> (fan_in: FanIn<T, E>)
    ensures
        fan_in.completed() == successes(outcomes@),
        fan_in.failed() == failures(outcomes@),
{
    let mut fan_in: FanIn<T, E> = FanIn::new();
    let ghost all = outcomes@;
    for outcome in arrivals: outcomes.into_iter()
        invariant
            arrivals.seq() == all,
            fan_in.completed() == successes(all.take(arrivals.index() as int)),
            fan_in.failed() == failures(all.take(arrivals.index() as int)),
    {
        proof {
            all.lemma_filter_map_take_succ(kept::<T, E>(), arrivals.index() as int);
            all.lemma_filter_map_take_succ(reported::<T, E>(), arrivals.index() as int);
        }
        fan_in.absorb(outcome);
    }
    proof {
        assert(all.take(all.len() as int) =~= all);
    }
    fan_in
}

/// The values of the tasks that succeeded, in the order of arrival.
pub fn collect_successes<T, E>(outcomes: Vec<Result<T, E>>) -> (values: Vec<T>)
    ensures
        values@ == successes(outcomes@),
{
    collect(outcomes).into_completed()
}

/// The items of all the lists, list after list.
pub open spec fn concatenation<T>(lists: Seq<Vec<T>>) -> Seq<T> {
    lists.map_values(|list: Vec<T>| list@).flatten()
}

/// Joins the lists that the tasks produced into one.
pub fn flatten<T>(lists: Vec<Vec<T>>) -> (items: Vec<T>)
    ensures
        items@ == concatenation(lists@),
{
    let mut items: Vec<T> = Vec::new();
    let ghost all = lists@;
    for list in arrivals: lists.into_iter()
        invariant
            arrivals.seq() == all,
            items@ == concatenation(all.take(arrivals.index() as int)),
    {
        proof {
            let done = all.take(arrivals.index() as int);
            let views = |list: Vec<T>| list@;
            assert(all.take(arrivals.index() + 1) =~= done.push(list));
            assert(done.push(list).map_values(views) =~= done.map_values(views).push(list@));
            done.map_values(views).lemma_flatten_push(list@);
        }
        let mut list = list;
        items.append(&mut list);
    }
    proof {
        assert(all.take(all.len() as int) =~= all);
    }
    items
}

/// Without tasks nothing is collected and nothing is set aside.
pub proof fn lemma_nothing_to_collect<T, E>()
    ensures
        successes(Seq::<Result<T, E>>::empty()) == Seq::<T>::empty(),
        failures(Seq::<Result<T, E>>::empty()) == Seq::<E>::empty(),
{
}

/// What is picked out of two runs of items, one behind the other, is what is
/// picked out of the first and, behind it, what is picked out of the second.
pub proof fn lemma_filter_map_of_joined<A, B>(
    first: Seq<A>,
    second: Seq<A>,
    pick: spec_fn(A) -> Option<B>,
)
    ensures
        (first + second).filter_map(pick) == first.filter_map(pick) + second.filter_map(pick),
    decreases second.len(),
{
    if second.len() == 0 {
        assert(first + second =~= first);
        assert(first.filter_map(pick) + second.filter_map(pick) =~= first.filter_map(pick));
    } else {
        let joined = first + second;
        assert(joined.drop_last() =~= first + second.drop_last());
        assert(joined.last() == second.last());
        lemma_filter_map_of_joined(first, second.drop_last(), pick);
        match pick(second.last()) {
            Some(value) => {
                assert(joined.filter_map(pick) =~= first.filter_map(pick) + second.filter_map(
                    pick,
                ));
            },
            None => {},
        }
    }
}

/// An item of which nothing is picked may as well be missing.
pub proof fn lemma_filter_map_passes_over<A, B>(
    items: Seq<A>,
    pick: spec_fn(A) -> Option<B>,
    at: int,
)
    requires
        0 <= at < items.len(),
        pick(items[at]) is None,
    ensures
        items.filter_map(pick) == items.remove(at).filter_map(pick),
{
    let before = items.take(at);
    let behind = items.skip(at + 1);
    let passed = seq![items[at]];
    assert(items =~= before + passed + behind);
    assert(items.remove(at) =~= before + behind);
    lemma_filter_map_of_joined(before + passed, behind, pick);
    lemma_filter_map_of_joined(before, passed, pick);
    lemma_filter_map_of_joined(before, behind, pick);
    Seq::lemma_filter_map_singleton(items[at], pick);
    assert(before.filter_map(pick) + passed.filter_map(pick) =~= before.filter_map(pick));
}

/// What is collected of two runs of outcomes, one behind the other, is what
/// is collected of the first and, behind it, what is collected of the second.
pub proof fn lemma_successes_of_joined<T, E>(
    first: Seq<Result<T, E>>,
    second: Seq<Result<T, E>>,
)
    ensures
        successes(first + second) == successes(first) + successes(second),
{
    lemma_filter_map_of_joined(first, second, kept::<T, E>());
}

/// A task that failed takes nothing away from the others: what is collected
/// is what would be collected had the task never been launched.
pub proof fn lemma_failure_takes_nothing_away<T, E>(outcomes: Seq<Result<T, E>>, at: int)
    requires
        0 <= at < outcomes.len(),
        outcomes[at] is Err,
    ensures
        successes(outcomes) == successes(outcomes.remove(at)),
{
    lemma_filter_map_passes_over(outcomes, kept::<T, E>(), at);
}

/// Where every task succeeded, what is collected is the value of every
/// task, in the order of the outcomes.
pub proof fn lemma_all_succeeded<T, E>(outcomes: Seq<Result<T, E>>)
    requires
        forall|i: int| 0 <= i < outcomes.len() ==> (#[trigger] outcomes[i]) is Ok,
    ensures
        successes(outcomes).len() == outcomes.len(),
        forall|i: int|
            0 <= i < outcomes.len() ==> (#[trigger] outcomes[i]) == Ok::<T, E>(
                successes(outcomes)[i],
            ),
    decreases outcomes.len(),
{
    if outcomes.len() > 0 {
        let front = outcomes.drop_last();
        lemma_all_succeeded(front);
        assert(outcomes.last() is Ok);
        assert forall|i: int| 0 <= i < outcomes.len() implies (#[trigger] outcomes[i]) == Ok::<
            T,
            E,
        >(successes(outcomes)[i]) by {
            if i < front.len() {
                assert(front[i] == outcomes[i]);
            }
        }
    }
}

/// The items of two runs of lists, one behind the other, are the items of
/// the first and, behind them, the items of the second.
pub proof fn lemma_concatenation_of_joined<T>(first: Seq<Vec<T>>, second: Seq<Vec<T>>)
    ensures
        concatenation(first + second) == concatenation(first) + concatenation(second),
{
    let views = |list: Vec<T>| list@;
    assert((first + second).map_values(views) =~= first.map_values(views) + second.map_values(
        views,
    ));
    vstd::seq_lib::lemma_flatten_concat(first.map_values(views), second.map_values(views));
}

/// Whether what is gathered from two runs of items, one behind the other,
/// is what is gathered from the first and, behind it, what is gathered from
/// the second.
pub open spec fn gathers_run_by_run<A, B>(gather: spec_fn(Seq<A>) -> Seq<B>) -> bool {
    forall|first: Seq<A>, second: Seq<A>| #[trigger]
        gather(first + second) == gather(first) + gather(second)
}

/// Where items are gathered from run by run, their order does not change
/// what is gathered from them, nor how often.
pub proof fn lemma_gathered_regardless_of_order<A, B>(
    first: Seq<A>,
    second: Seq<A>,
    gather: spec_fn(Seq<A>) -> Seq<B>,
)
    requires
        gathers_run_by_run(gather),
        first.to_multiset() == second.to_multiset(),
    ensures
        gather(first).to_multiset() == gather(second).to_multiset(),
    decreases first.len(),
{
    broadcast use vstd::seq_lib::group_to_multiset_ensures;

    if first.len() == 0 {
        assert(second.to_multiset().len() == 0);
        assert(second.len() == 0);
        assert(first =~= second);
    } else {
        let last = first.last();
        assert(first.to_multiset().count(last) > 0) by {
            assert(first.contains(last));
        }
        assert(second.contains(last));
        let at = choose|at: int| 0 <= at < second.len() && second[at] == last;
        let front = first.drop_last();
        let rest = second.remove(at);
        assert(front.to_multiset() =~= rest.to_multiset()) by {
            assert(front =~= first.remove(first.len() - 1));
            vstd::seq_lib::to_multiset_remove(first, first.len() - 1);
            vstd::seq_lib::to_multiset_remove(second, at);
        }
        lemma_gathered_regardless_of_order(front, rest, gather);
        let one = seq![last];
        let before = second.take(at);
        let behind = second.skip(at + 1);
        assert(first =~= front + one);
        assert(second =~= before + one + behind);
        assert(rest =~= before + behind);
        assert(gather(front + one) == gather(front) + gather(one));
        assert(gather(before + one + behind) == gather(before + one) + gather(behind));
        assert(gather(before + one) == gather(before) + gather(one));
        assert(gather(before + behind) == gather(before) + gather(behind));
        vstd::seq_lib::lemma_multiset_commutative(gather(front), gather(one));
        vstd::seq_lib::lemma_multiset_commutative(gather(before) + gather(one), gather(behind));
        vstd::seq_lib::lemma_multiset_commutative(gather(before), gather(one));
        vstd::seq_lib::lemma_multiset_commutative(gather(before), gather(behind));
        assert(gather(first).to_multiset() =~= gather(second).to_multiset());
    }
}

/// The order of the items does not change what is picked out of them, nor
/// how often.
pub proof fn lemma_filter_map_regardless_of_order<A, B>(
    first: Seq<A>,
    second: Seq<A>,
    pick: spec_fn(A) -> Option<B>,
)
    requires
        first.to_multiset() == second.to_multiset(),
    ensures
        first.filter_map(pick).to_multiset() == second.filter_map(pick).to_multiset(),
{
    let gather = |items: Seq<A>| items.filter_map(pick);
    assert forall|head: Seq<A>, tail: Seq<A>| #[trigger]
        gather(head + tail) == gather(head) + gather(tail) by {
        lemma_filter_map_of_joined(head, tail, pick);
    }
    lemma_gathered_regardless_of_order(first, second, gather);
}

/// The order in which the tasks finish does not change which values are
/// collected, nor how often.
pub proof fn lemma_successes_regardless_of_order<T, E>(
    first: Seq<Result<T, E>>,
    second: Seq<Result<T, E>>,
)
    requires
        first.to_multiset() == second.to_multiset(),
    ensures
        successes(first).to_multiset() == successes(second).to_multiset(),
{
    lemma_filter_map_regardless_of_order(first, second, kept::<T, E>());
}

} // verus!
