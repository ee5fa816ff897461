//! The order in which pull requests are handed out: the earliest created
//! first, and among those created at the same instant the one that arrived
//! first.

use crate::application::dtos::PullRequestDto;
use vstd::prelude::*;

verus! {

/// Whether no pull request of the list stands before one that was created
/// earlier.
pub open spec fn chronological(list: Seq<PullRequestDto>) -> bool {
    forall|i: int, j: int|
        0 <= i < j < list.len() ==> (#[trigger] list[i]).creation_date.instant() <= (
        #[trigger] list[j]).creation_date.instant()
}

/// The test for a pull request that was created at `instant`.
pub open spec fn created_at(instant: int) -> spec_fn(PullRequestDto) -> bool {
    |pull_request: PullRequestDto| pull_request.creation_date.instant() == instant
}

/// The test for a pull request that was created at `instant` or before.
pub open spec fn created_by(instant: int) -> spec_fn(PullRequestDto) -> bool {
    |pull_request: PullRequestDto| pull_request.creation_date.instant() <= instant
}

/// The test for a pull request that was created after `instant`.
pub open spec fn created_after(instant: int) -> spec_fn(PullRequestDto) -> bool {
    |pull_request: PullRequestDto| pull_request.creation_date.instant() > instant
}

/// The list with one more pull request, put behind all that were not created
/// later than it and before all that were.
pub open spec fn placed(list: Seq<PullRequestDto>, pull_request: PullRequestDto) -> Seq<
    PullRequestDto,
> {
    let instant = pull_request.creation_date.instant();
    list.filter(created_by(instant)).push(pull_request) + list.filter(created_after(instant))
}

/// The pull requests in the order of their creation. Those created at the
/// same instant keep the order in which they arrived.
pub open spec fn in_creation_order(arrivals: Seq<PullRequestDto>) -> Seq<PullRequestDto>
    decreases arrivals.len(),
{
    if arrivals.len() == 0 {
        arrivals
    } else {
        placed(in_creation_order(arrivals.drop_last()), arrivals.last())
    }
}

/// A test that every item passes keeps the whole list.
proof fn lemma_filter_keeps_all(list: Seq<PullRequestDto>, test: spec_fn(PullRequestDto) -> bool)
    requires
        forall|i: int| 0 <= i < list.len() ==> test(#[trigger] list[i]),
    ensures
        list.filter(test) == list,
    decreases list.len(),
{
    reveal(Seq::filter);
    if list.len() > 0 {
        lemma_filter_keeps_all(list.drop_last(), test);
    }
}

/// A test that no item passes keeps nothing of the list.
proof fn lemma_filter_keeps_none(list: Seq<PullRequestDto>, test: spec_fn(PullRequestDto) -> bool)
    requires
        forall|i: int| 0 <= i < list.len() ==> !test(#[trigger] list[i]),
    ensures
        list.filter(test) == Seq::<PullRequestDto>::empty(),
    decreases list.len(),
{
    reveal(Seq::filter);
    if list.len() > 0 {
        lemma_filter_keeps_none(list.drop_last(), test);
    }
}

/// A list is what stands before a cut and, behind it, what stands behind the
/// cut.
proof fn lemma_two_parts(list: Seq<PullRequestDto>, cut: int)
    requires
        0 <= cut <= list.len(),
    ensures
        list == list.take(cut) + list.skip(cut),
{
    assert(list =~= list.take(cut) + list.skip(cut));
}

/// Where a chronological list is cut so that all before the cut were created
/// by `instant` and all behind it later, the two filters are the two parts.
proof fn lemma_cut(list: Seq<PullRequestDto>, instant: int, cut: int)
    requires
        0 <= cut <= list.len(),
        forall|i: int| 0 <= i < cut ==> (#[trigger] list[i]).creation_date.instant() <= instant,
        forall|i: int|
            cut <= i < list.len() ==> (#[trigger] list[i]).creation_date.instant() > instant,
    ensures
        list.filter(created_by(instant)) == list.take(cut),
        list.filter(created_after(instant)) == list.skip(cut),
{
    let before = list.take(cut);
    let behind = list.skip(cut);
    lemma_two_parts(list, cut);
    Seq::filter_distributes_over_add(before, behind, created_by(instant));
    Seq::filter_distributes_over_add(before, behind, created_after(instant));
    lemma_filter_keeps_all(before, created_by(instant));
    lemma_filter_keeps_none(behind, created_by(instant));
    lemma_filter_keeps_none(before, created_after(instant));
    lemma_filter_keeps_all(behind, created_after(instant));
}

/// The place in a chronological list behind all that were created by
/// `instant`.
pub open spec fn cut_of(list: Seq<PullRequestDto>, instant: int) -> int {
    list.filter(created_by(instant)).len() as int
}

/// A chronological list falls into those created by `instant` and, behind
/// them, those created later.
proof fn lemma_cut_exists(list: Seq<PullRequestDto>, instant: int)
    requires
        chronological(list),
    ensures
        0 <= cut_of(list, instant) <= list.len(),
        forall|i: int|
            0 <= i < cut_of(list, instant) ==> (#[trigger] list[i]).creation_date.instant()
                <= instant,
        forall|i: int|
            cut_of(list, instant) <= i < list.len() ==> (#[trigger] list[i]).creation_date.instant()
                > instant,
    decreases list.len(),
{
    reveal(Seq::filter);
    if list.len() > 0 {
        let front = list.drop_last();
        lemma_front_is_chronological(list);
        lemma_cut_exists(front, instant);
        if list.last().creation_date.instant() <= instant {
            assert forall|i: int| 0 <= i < front.len() implies created_by(instant)(
                #[trigger] front[i],
            ) by {
            }
            lemma_filter_keeps_all(front, created_by(instant));
        } else {
            assert forall|i: int| cut_of(list, instant) <= i < list.len() implies (
            #[trigger] list[i]).creation_date.instant() > instant by {
                if i < front.len() {
                    assert(front[i] == list[i]);
                }
            }
            assert forall|i: int| 0 <= i < cut_of(list, instant) implies (
            #[trigger] list[i]).creation_date.instant() <= instant by {
                assert(front[i] == list[i]);
            }
        }
    }
}

/// Putting a pull request into a chronological list is inserting it at the
/// cut of its instant.
proof fn lemma_placed_is_insert(list: Seq<PullRequestDto>, pull_request: PullRequestDto)
    requires
        chronological(list),
    ensures
        placed(list, pull_request) == list.insert(
            cut_of(list, pull_request.creation_date.instant()),
            pull_request,
        ),
        0 <= cut_of(list, pull_request.creation_date.instant()) <= list.len(),
        chronological(placed(list, pull_request)),
{
    let instant = pull_request.creation_date.instant();
    let cut = cut_of(list, instant);
    lemma_cut_exists(list, instant);
    lemma_cut(list, instant, cut);
}

/// The pull requests in the order of their creation are chronological.
pub proof fn lemma_in_creation_order_is_chronological(arrivals: Seq<PullRequestDto>)
    ensures
        chronological(in_creation_order(arrivals)),
    decreases arrivals.len(),
{
    if arrivals.len() > 0 {
        lemma_in_creation_order_is_chronological(arrivals.drop_last());
        lemma_placed_is_insert(in_creation_order(arrivals.drop_last()), arrivals.last());
    }
}

/// Ordering by creation neither loses nor invents a pull request: each
/// occurs in the ordered list as often as among the arrivals.
pub proof fn lemma_in_creation_order_permutes(arrivals: Seq<PullRequestDto>)
    ensures
        in_creation_order(arrivals).to_multiset() == arrivals.to_multiset(),
        in_creation_order(arrivals).len() == arrivals.len(),
    decreases arrivals.len(),
{
    broadcast use vstd::seq_lib::group_to_multiset_ensures;

    if arrivals.len() > 0 {
        let front = arrivals.drop_last();
        let sorted = in_creation_order(front);
        lemma_in_creation_order_permutes(front);
        lemma_in_creation_order_is_chronological(front);
        lemma_placed_is_insert(sorted, arrivals.last());
        let cut = cut_of(sorted, arrivals.last().creation_date.instant());
        vstd::seq_lib::to_multiset_insert(sorted, cut, arrivals.last());
        assert(front.push(arrivals.last()) =~= arrivals);
    }
}

/// The two parts into which the cut of `instant` divides a chronological
/// list.
proof fn lemma_parts(list: Seq<PullRequestDto>, instant: int)
    requires
        chronological(list),
    ensures
        0 <= cut_of(list, instant) <= list.len(),
        list.filter(created_by(instant)) == list.take(cut_of(list, instant)),
        list.filter(created_after(instant)) == list.skip(cut_of(list, instant)),
        list.skip(cut_of(list, instant)).filter(created_at(instant)) == Seq::<
            PullRequestDto,
        >::empty(),
{
    let cut = cut_of(list, instant);
    lemma_cut_exists(list, instant);
    lemma_cut(list, instant, cut);
    let behind = list.skip(cut);
    assert forall|i: int| 0 <= i < behind.len() implies !created_at(instant)(
        #[trigger] behind[i],
    ) by {
    }
    lemma_filter_keeps_none(behind, created_at(instant));
}

/// What a pull request put between two lists does to those that were
/// created at `instant`, where none behind it was created at its own instant.
proof fn lemma_between_keeps_arrival_order(
    before: Seq<PullRequestDto>,
    behind: Seq<PullRequestDto>,
    pull_request: PullRequestDto,
    instant: int,
)
    requires
        behind.filter(created_at(pull_request.creation_date.instant())) == Seq::<
            PullRequestDto,
        >::empty(),
    ensures
        (before.push(pull_request) + behind).filter(created_at(instant)) == if created_at(
            instant,
        )(pull_request) {
            (before + behind).filter(created_at(instant)).push(pull_request)
        } else {
            (before + behind).filter(created_at(instant))
        },
{
    let same = created_at(instant);
    Seq::filter_distributes_over_add(before, behind, same);
    Seq::filter_distributes_over_add(before.push(pull_request), behind, same);
    before.lemma_filter_push(pull_request, same);
}

/// What putting a pull request into a list does to those that were created
/// at `instant`, where the list falls into two parts at the cut of the pull
/// request's own instant: it joins them at their end, or leaves them as they
/// are.
proof fn lemma_placed_keeps_arrival_order(
    list: Seq<PullRequestDto>,
    pull_request: PullRequestDto,
    instant: int,
    cut: int,
)
    requires
        0 <= cut <= list.len(),
        list.filter(created_by(pull_request.creation_date.instant())) == list.take(cut),
        list.filter(created_after(pull_request.creation_date.instant())) == list.skip(cut),
        list.skip(cut).filter(created_at(pull_request.creation_date.instant())) == Seq::<
            PullRequestDto,
        >::empty(),
    ensures
        placed(list, pull_request).filter(created_at(instant)) == if created_at(instant)(
            pull_request,
        ) {
            list.filter(created_at(instant)).push(pull_request)
        } else {
            list.filter(created_at(instant))
        },
{
    lemma_two_parts(list, cut);
    lemma_between_keeps_arrival_order(list.take(cut), list.skip(cut), pull_request, instant);
}

/// Ordering by creation is stable: the pull requests that were created at
/// one instant stand in the ordered list as they arrived.
pub proof fn lemma_in_creation_order_is_stable(arrivals: Seq<PullRequestDto>, instant: int)
    ensures
        in_creation_order(arrivals).filter(created_at(instant)) == arrivals.filter(
            created_at(instant),
        ),
    decreases arrivals.len(),
{
    if arrivals.len() > 0 {
        let front = arrivals.drop_last();
        let last = arrivals.last();
        let sorted = in_creation_order(front);
        let at = last.creation_date.instant();
        lemma_in_creation_order_is_stable(front, instant);
        assert(0 <= cut_of(sorted, at) <= sorted.len() && sorted.filter(created_by(at))
            == sorted.take(cut_of(sorted, at)) && sorted.filter(created_after(at)) == sorted.skip(
            cut_of(sorted, at),
        ) && sorted.skip(cut_of(sorted, at)).filter(created_at(at)) == Seq::<
            PullRequestDto,
        >::empty()) by {
            lemma_in_creation_order_is_chronological(front);
            lemma_parts(sorted, at);
        }
        lemma_placed_keeps_arrival_order(sorted, last, instant, cut_of(sorted, at));
        assert(front.push(last) =~= arrivals);
        front.lemma_filter_push(last, created_at(instant));
    }
}

/// Those of a list that were created at `instant`, told from those of the
/// list without its last item.
proof fn lemma_filter_of_last(list: Seq<PullRequestDto>, instant: int)
    requires
        list.len() > 0,
    ensures
        list.filter(created_at(instant)) == if list.last().creation_date.instant() == instant {
            list.drop_last().filter(created_at(instant)).push(list.last())
        } else {
            list.drop_last().filter(created_at(instant))
        },
{
    assert(list.drop_last().push(list.last()) =~= list);
    list.drop_last().lemma_filter_push(list.last(), created_at(instant));
}

/// No item of a chronological list was created later than its last.
proof fn lemma_last_is_latest(list: Seq<PullRequestDto>, pull_request: PullRequestDto)
    requires
        chronological(list),
        list.contains(pull_request),
    ensures
        pull_request.creation_date.instant() <= list.last().creation_date.instant(),
{
}

/// The last item of a list is the last of those that were created at its
/// instant, and so an item of every list that holds the same of that instant
/// in the same order.
proof fn lemma_last_is_shared(first: Seq<PullRequestDto>, second: Seq<PullRequestDto>)
    requires
        first.len() > 0,
        first.filter(created_at(first.last().creation_date.instant())) == second.filter(
            created_at(first.last().creation_date.instant()),
        ),
    ensures
        second.contains(first.last()),
        second.filter(created_at(first.last().creation_date.instant())).len() > 0,
        second.filter(created_at(first.last().creation_date.instant())).last() == first.last(),
{
    let same = created_at(first.last().creation_date.instant());
    lemma_filter_of_last(first, first.last().creation_date.instant());
    assert(second.filter(same).contains(first.last()));
    second.lemma_filter_contains_rev(same, first.last());
}

/// A chronological list without its last item is chronological.
proof fn lemma_front_is_chronological(list: Seq<PullRequestDto>)
    requires
        chronological(list),
        list.len() > 0,
    ensures
        chronological(list.drop_last()),
{
    let front = list.drop_last();
    assert forall|i: int, j: int| 0 <= i < j < front.len() implies (
    #[trigger] front[i]).creation_date.instant() <= (
    #[trigger] front[j]).creation_date.instant() by {
    }
}

/// Two chronological lists that hold, for every instant, the same pull
/// requests of that instant in the same order are one and the same list.
pub proof fn lemma_chronological_lists_agree(
    first: Seq<PullRequestDto>,
    second: Seq<PullRequestDto>,
)
    requires
        chronological(first),
        chronological(second),
        forall|instant: int|
            #[trigger] first.filter(created_at(instant)) == second.filter(created_at(instant)),
    ensures
        first == second,
    decreases first.len(),
{
    if first.len() == 0 {
        if second.len() > 0 {
            let instant = second.last().creation_date.instant();
            lemma_filter_of_last(second, instant);
        }
    } else {
        let at = first.last().creation_date.instant();
        lemma_last_is_shared(first, second);
        lemma_last_is_shared(second, first);
        lemma_last_is_latest(first, second.last());
        lemma_last_is_latest(second, first.last());
        lemma_front_is_chronological(first);
        lemma_front_is_chronological(second);
        assert forall|instant: int| #[trigger]
            first.drop_last().filter(created_at(instant)) == second.drop_last().filter(
                created_at(instant),
            ) by {
            lemma_filter_of_last(first, instant);
            lemma_filter_of_last(second, instant);
            if at == instant {
                let kept = first.drop_last().filter(created_at(instant));
                assert(kept.push(first.last()).drop_last() =~= kept);
            }
        }
        lemma_chronological_lists_agree(first.drop_last(), second.drop_last());
        assert(first =~= first.drop_last().push(first.last()));
    }
}

/// The order of creation is the only order that is chronological and keeps,
/// for every instant, the pull requests of that instant as they arrived.
pub proof fn lemma_creation_order_is_determined(
    ordered: Seq<PullRequestDto>,
    arrivals: Seq<PullRequestDto>,
)
    requires
        chronological(ordered),
        forall|instant: int|
            #[trigger] ordered.filter(created_at(instant)) == arrivals.filter(
                created_at(instant),
            ),
    ensures
        ordered == in_creation_order(arrivals),
{
    lemma_in_creation_order_is_chronological(arrivals);
    assert forall|instant: int| #[trigger]
        ordered.filter(created_at(instant)) == in_creation_order(arrivals).filter(
            created_at(instant),
        ) by {
        lemma_in_creation_order_is_stable(arrivals, instant);
    }
    lemma_chronological_lists_agree(ordered, in_creation_order(arrivals));
}

/// Whether no two pull requests of the list were created at the same
/// instant.
pub open spec fn at_distinct_instants(list: Seq<PullRequestDto>) -> bool {
    forall|i: int, j: int|
        0 <= i < j < list.len() ==> (#[trigger] list[i]).creation_date.instant() != (
        #[trigger] list[j]).creation_date.instant()
}

/// Filtering a list and counting are done in either order.
proof fn lemma_filter_counts(
    list: Seq<PullRequestDto>,
    test: spec_fn(PullRequestDto) -> bool,
)
    ensures
        list.filter(test).to_multiset() == list.to_multiset().filter(test),
    decreases list.len(),
{
    broadcast use vstd::multiset::group_multiset_axioms;
    broadcast use vstd::seq_lib::group_to_multiset_ensures;

    if list.len() > 0 {
        let front = list.drop_last();
        lemma_filter_counts(front, test);
        assert(front.push(list.last()) =~= list);
        front.lemma_filter_push(list.last(), test);
    }
}

/// Of a list whose pull requests were created at distinct instants, at most
/// one was created at `instant`.
proof fn lemma_at_most_one_per_instant(list: Seq<PullRequestDto>, instant: int)
    requires
        at_distinct_instants(list),
    ensures
        list.filter(created_at(instant)).len() <= 1,
    decreases list.len(),
{
    let same = created_at(instant);
    if list.len() == 0 {
        list.lemma_filter_len(same);
    } else {
        let front = list.drop_last();
        assert(at_distinct_instants(front)) by {
            assert forall|i: int, j: int| 0 <= i < j < front.len() implies (
            #[trigger] front[i]).creation_date.instant() != (
            #[trigger] front[j]).creation_date.instant() by {
            }
        }
        lemma_at_most_one_per_instant(front, instant);
        lemma_filter_of_last(list, instant);
        if list.last().creation_date.instant() == instant && front.filter(same).len() > 0 {
            let other = front.filter(same)[0];
            front.lemma_filter_pred(same, 0);
            front.lemma_filter_contains_rev(same, other);
            let at = choose|at: int| 0 <= at < front.len() && front[at] == other;
            assert(list[at] == other);
        }
    }
}

/// Two lists that hold the same items equally often, one of them no more
/// than one item, are one and the same list.
proof fn lemma_short_lists_agree(first: Seq<PullRequestDto>, second: Seq<PullRequestDto>)
    requires
        first.to_multiset() == second.to_multiset(),
        first.len() <= 1,
    ensures
        first == second,
{
    vstd::seq_lib::to_multiset_len(first);
    vstd::seq_lib::to_multiset_len(second);
    if first.len() == 1 {
        vstd::seq_lib::to_multiset_contains(first, first[0]);
        vstd::seq_lib::to_multiset_contains(second, first[0]);
    }
}

/// Where no two pull requests were created at the same instant, the order
/// of their arrival does not show in the order of their creation.
pub proof fn lemma_distinct_instants_fix_the_order(
    first: Seq<PullRequestDto>,
    second: Seq<PullRequestDto>,
)
    requires
        first.to_multiset() == second.to_multiset(),
        at_distinct_instants(first),
    ensures
        in_creation_order(first) == in_creation_order(second),
{
    lemma_in_creation_order_is_chronological(first);
    assert forall|instant: int| #[trigger]
        in_creation_order(first).filter(created_at(instant)) == second.filter(
            created_at(instant),
        ) by {
        lemma_in_creation_order_is_stable(first, instant);
        lemma_filter_counts(first, created_at(instant));
        lemma_filter_counts(second, created_at(instant));
        lemma_at_most_one_per_instant(first, instant);
        lemma_short_lists_agree(
            first.filter(created_at(instant)),
            second.filter(created_at(instant)),
        );
    }
    lemma_creation_order_is_determined(in_creation_order(first), second);
}

/// Puts one more pull request into a chronological list.
fn place(list: &mut Vec<PullRequestDto>, pull_request: PullRequestDto)
    requires
        chronological(old(list)@),
    ensures
        final(list)@ == placed(old(list)@, pull_request),
        chronological(final(list)@),
{
    let mut cut: usize = list.len();
    while cut > 0 && list[cut - 1].creation_date.is_after(&pull_request.creation_date)
        invariant
            cut <= list@.len(),
            list@ == old(list)@,
            forall|i: int|
                cut <= i < list@.len() ==> (#[trigger] list@[i]).creation_date.instant()
                    > pull_request.creation_date.instant(),
        decreases cut,
    {
        cut -= 1;
    }
    proof {
        let instant = pull_request.creation_date.instant();
        assert forall|i: int| 0 <= i < cut implies (#[trigger] list@[i]).creation_date.instant()
            <= instant by {
        }
        lemma_cut(list@, instant, cut as int);
        lemma_placed_is_insert(list@, pull_request);
    }
    list.insert(cut, pull_request);
}

/// Orders pull requests by their creation, the earliest first. Those created
/// at the same instant keep the order in which they were given.
pub fn sort_by_creation_date(arrivals: Vec<PullRequestDto>) -> (ordered: Vec<PullRequestDto>)
    ensures
        ordered@ == in_creation_order(arrivals@),
        chronological(ordered@),
        ordered@.to_multiset() == arrivals@.to_multiset(),
        forall|instant: int|
            #[trigger] ordered@.filter(created_at(instant)) == arrivals@.filter(
                created_at(instant),
            ),
{
    let mut ordered: Vec<PullRequestDto> = Vec::new();
    let ghost all = arrivals@;
    for pull_request in given: arrivals.into_iter()
        invariant
            given.seq() == all,
            ordered@ == in_creation_order(all.take(given.index() as int)),
            chronological(ordered@),
    {
        proof {
            let next = all.take(given.index() + 1);
            assert(next.drop_last() =~= all.take(given.index() as int));
        }
        place(&mut ordered, pull_request);
    }
    proof {
        assert(all.take(all.len() as int) =~= all);
        lemma_in_creation_order_permutes(all);
        assert forall|instant: int| #[trigger]
            ordered@.filter(created_at(instant)) == all.filter(created_at(instant)) by {
            lemma_in_creation_order_is_stable(all, instant);
        }
    }
    ordered
}

} // verus!
