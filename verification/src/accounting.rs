//! Aggregation of measurements per use case.
//!
//! A scan yields one measurement per file or process. Aggregation turns them
//! into one [`AllocatedResource`] per use case that occurs, in the order of
//! use cases, whatever order the scan walked in.

use crate::amount::{byte_unit_sum, clamp, lemma_clamp_absorbs};
use crate::models::{AllocatedResource, UseCase};
use itertools::Itertools;
use vstd::prelude::*;

verus! {

/// The sum of all amounts in `items`.
pub open spec fn grand_total(items: Seq<AllocatedResource>) -> nat
    decreases items.len(),
{
    if items.len() == 0 {
        0
    } else {
        grand_total(items.drop_last()) + items.last().amount as nat
    }
}

/// The sum of the amounts that `items` attributes to `use_case`.
pub open spec fn total_of(items: Seq<AllocatedResource>, use_case: UseCase) -> nat
    decreases items.len(),
{
    if items.len() == 0 {
        0
    } else if items.last().use_case == use_case {
        total_of(items.drop_last(), use_case) + items.last().amount as nat
    } else {
        total_of(items.drop_last(), use_case)
    }
}

/// Whether some measurement in `items` is attributed to `use_case`.
pub open spec fn occurs(items: Seq<AllocatedResource>, use_case: UseCase) -> bool {
    exists|i: int| 0 <= i < items.len() && (#[trigger] items[i]).use_case == use_case
}

/// `summary` is the aggregation of `items`: strictly ascending by use case,
/// with exactly the use cases that occur in `items`, each carrying the
/// saturated sum of what `items` attributes to it.
pub open spec fn summarizes(
    summary: Seq<AllocatedResource>,
    items: Seq<AllocatedResource>,
) -> bool {
    &&& forall|i: int, j: int|
        0 <= i < j < summary.len() ==> (#[trigger] summary[i]).use_case.spec_rank() < (
        #[trigger] summary[j]).use_case.spec_rank()
    &&& forall|i: int|
        0 <= i < summary.len() ==> occurs(items, (#[trigger] summary[i]).use_case)
            && summary[i].amount == clamp(total_of(items, summary[i].use_case) as int)
    &&& forall|use_case: UseCase| #[trigger]
        occurs(items, use_case) ==> exists|i: int|
            0 <= i < summary.len() && (#[trigger] summary[i]).use_case == use_case
}

/// The predicate "is attributed to the use case of rank `rank`".
pub open spec fn has_rank(rank: u8) -> spec_fn(AllocatedResource) -> bool {
    |item: AllocatedResource| item.use_case.spec_rank() == rank
}

/// `Itertools::sorted_by_key` with the rank of the use case as key: a stable
/// sort. The result is ascending by rank, and for every rank the measurements
/// of that rank are the same, in the same order, as before.
#[verifier::external_body]
pub(crate) fn sorted_by_use_case(items: Vec<AllocatedResource>) -> (sorted: Vec<
    AllocatedResource,
>)
    ensures
        sorted@.len() == items@.len(),
        forall|i: int, j: int|
            0 <= i <= j < sorted@.len() ==> (#[trigger] sorted@[i]).use_case.spec_rank() <= (
            #[trigger] sorted@[j]).use_case.spec_rank(),
        forall|rank: u8| #[trigger]
            sorted@.filter(has_rank(rank)) == items@.filter(has_rank(rank)),
{
    items.into_iter().sorted_by_key(|item| item.use_case.rank()).collect()
}

/// A use case that does not occur has nothing attributed to it.
pub proof fn lemma_absent_use_case_has_no_total(items: Seq<AllocatedResource>, use_case: UseCase)
    requires
        !occurs(items, use_case),
    ensures
        total_of(items, use_case) == 0,
    decreases items.len(),
{
    if items.len() > 0 {
        let rest = items.drop_last();
        assert(items[items.len() - 1].use_case != use_case);
        assert(!occurs(rest, use_case)) by {
            if occurs(rest, use_case) {
                let i = choose|i: int| 0 <= i < rest.len() && (#[trigger] rest[i]).use_case == use_case;
                assert(items[i].use_case == use_case);
            }
        }
        lemma_absent_use_case_has_no_total(rest, use_case);
    }
}

/// What is attributed to a use case depends only on the measurements of its
/// rank, and so does whether the use case occurs.
proof fn lemma_use_case_by_rank(items: Seq<AllocatedResource>, use_case: UseCase)
    ensures
        total_of(items, use_case) == grand_total(items.filter(has_rank(use_case.spec_rank()))),
        occurs(items, use_case) <==> items.filter(has_rank(use_case.spec_rank())).len() > 0,
    decreases items.len(),
{
    reveal(Seq::filter);
    let of_rank = has_rank(use_case.spec_rank());
    if items.len() == 0 {
        assert(!occurs(items, use_case));
    } else {
        let rest = items.drop_last();
        let last = items.last();
        lemma_use_case_by_rank(rest, use_case);
        crate::models::lemma_rank_orders_use_cases(last.use_case, use_case);
        if occurs(rest, use_case) {
            let i = choose|i: int| 0 <= i < rest.len() && (#[trigger] rest[i]).use_case == use_case;
            assert(items[i].use_case == use_case);
        }
        if occurs(items, use_case) && last.use_case != use_case {
            let i = choose|i: int|
                0 <= i < items.len() && (#[trigger] items[i]).use_case == use_case;
            assert(rest[i].use_case == use_case);
        }
        if of_rank(last) {
            assert(items[items.len() - 1].use_case == use_case);
            assert(items.filter(of_rank) == rest.filter(of_rank).push(last));
            assert(rest.filter(of_rank).push(last).drop_last() == rest.filter(of_rank));
        } else {
            assert(items.filter(of_rank) == rest.filter(of_rank));
        }
    }
}

proof fn lemma_use_case_agrees_by_rank(
    sorted: Seq<AllocatedResource>,
    items: Seq<AllocatedResource>,
    use_case: UseCase,
)
    requires
        forall|rank: u8| #[trigger]
            sorted.filter(has_rank(rank)) == items.filter(has_rank(rank)),
    ensures
        total_of(sorted, use_case) == total_of(items, use_case),
        occurs(sorted, use_case) <==> occurs(items, use_case),
{
    lemma_use_case_by_rank(sorted, use_case);
    lemma_use_case_by_rank(items, use_case);
    assert(sorted.filter(has_rank(use_case.spec_rank())) == items.filter(
        has_rank(use_case.spec_rank()),
    ));
}

/// Two lists that agree rank by rank have the same aggregation.
proof fn lemma_summary_by_rank(
    summary: Seq<AllocatedResource>,
    sorted: Seq<AllocatedResource>,
    items: Seq<AllocatedResource>,
)
    requires
        summarizes(summary, sorted),
        forall|rank: u8| #[trigger]
            sorted.filter(has_rank(rank)) == items.filter(has_rank(rank)),
    ensures
        summarizes(summary, items),
{
    assert forall|i: int| 0 <= i < summary.len() implies occurs(
        items,
        (#[trigger] summary[i]).use_case,
    ) && summary[i].amount == clamp(total_of(items, summary[i].use_case) as int) by {
        let use_case = summary[i].use_case;
        assert(occurs(sorted, use_case));
        assert(summary[i].amount == clamp(total_of(sorted, use_case) as int));
        lemma_use_case_agrees_by_rank(sorted, items, use_case);
    }
    assert forall|use_case: UseCase| #[trigger] occurs(items, use_case) implies exists|i: int|
        0 <= i < summary.len() && (#[trigger] summary[i]).use_case == use_case by {
        lemma_use_case_agrees_by_rank(sorted, items, use_case);
        assert(occurs(sorted, use_case));
    }
}

/// One more measurement of the use case that the last entry of the summary
/// carries is added to that entry.
proof fn lemma_summary_grows_last(
    summary: Seq<AllocatedResource>,
    items: Seq<AllocatedResource>,
    item: AllocatedResource,
    merged: AllocatedResource,
)
    requires
        summarizes(summary, items),
        summary.len() > 0,
        summary.last().use_case == item.use_case,
        merged.use_case == item.use_case,
        merged.amount == clamp(summary.last().amount + item.amount),
    ensures
        summarizes(summary.update(summary.len() - 1, merged), items.push(item)),
{
    let grown = items.push(item);
    let updated = summary.update(summary.len() - 1, merged);
    let last = summary.len() - 1;
    assert(grown.drop_last() == items);
    assert(grown[grown.len() - 1] == item);
    assert forall|use_case: UseCase| occurs(items, use_case) implies #[trigger] occurs(
        grown,
        use_case,
    ) by {
        let i = choose|i: int| 0 <= i < items.len() && (#[trigger] items[i]).use_case == use_case;
        assert(grown[i].use_case == use_case);
    }
    assert(occurs(grown, item.use_case));
    assert forall|i: int| 0 <= i < updated.len() implies occurs(
        grown,
        (#[trigger] updated[i]).use_case,
    ) && updated[i].amount == clamp(total_of(grown, updated[i].use_case) as int) by {
        if i == last {
            lemma_clamp_absorbs(total_of(items, item.use_case) as int, item.amount);
            assert(summary[last].amount == clamp(total_of(items, item.use_case) as int));
        } else {
            assert(summary[i].use_case.spec_rank() < summary[last].use_case.spec_rank());
            assert(occurs(items, summary[i].use_case));
        }
    }
    assert forall|use_case: UseCase| #[trigger] occurs(grown, use_case) implies exists|i: int|
        0 <= i < updated.len() && (#[trigger] updated[i]).use_case == use_case by {
        if use_case == item.use_case {
            assert(updated[last].use_case == use_case);
        } else {
            let k = choose|k: int| 0 <= k < grown.len() && (#[trigger] grown[k]).use_case == use_case;
            assert(items[k].use_case == use_case);
            assert(occurs(items, use_case));
            let i = choose|i: int|
                0 <= i < summary.len() && (#[trigger] summary[i]).use_case == use_case;
            assert(updated[i].use_case == use_case);
        }
    }
    assert forall|i: int, j: int| 0 <= i < j < updated.len() implies (
    #[trigger] updated[i]).use_case.spec_rank() < (#[trigger] updated[j]).use_case.spec_rank() by {
        assert(summary[i].use_case.spec_rank() < summary[j].use_case.spec_rank());
    }
}

/// A measurement of a use case that comes after every entry of the summary
/// opens a new entry.
proof fn lemma_summary_gains_entry(
    summary: Seq<AllocatedResource>,
    items: Seq<AllocatedResource>,
    item: AllocatedResource,
)
    requires
        summarizes(summary, items),
        forall|i: int|
            0 <= i < summary.len() ==> (#[trigger] summary[i]).use_case.spec_rank()
                < item.use_case.spec_rank(),
    ensures
        summarizes(summary.push(item), items.push(item)),
{
    let grown = items.push(item);
    let extended = summary.push(item);
    assert(grown.drop_last() == items);
    assert(grown[grown.len() - 1] == item);
    assert(!occurs(items, item.use_case)) by {
        if occurs(items, item.use_case) {
            let i = choose|i: int|
                0 <= i < summary.len() && (#[trigger] summary[i]).use_case == item.use_case;
            assert(summary[i].use_case.spec_rank() < item.use_case.spec_rank());
        }
    }
    lemma_absent_use_case_has_no_total(items, item.use_case);
    assert forall|use_case: UseCase| occurs(items, use_case) implies #[trigger] occurs(
        grown,
        use_case,
    ) by {
        let i = choose|i: int| 0 <= i < items.len() && (#[trigger] items[i]).use_case == use_case;
        assert(grown[i].use_case == use_case);
    }
    assert(occurs(grown, item.use_case));
    assert forall|i: int| 0 <= i < extended.len() implies occurs(
        grown,
        (#[trigger] extended[i]).use_case,
    ) && extended[i].amount == clamp(total_of(grown, extended[i].use_case) as int) by {
        if i < summary.len() {
            assert(summary[i].use_case.spec_rank() < item.use_case.spec_rank());
            assert(occurs(items, summary[i].use_case));
        }
    }
    assert forall|use_case: UseCase| #[trigger] occurs(grown, use_case) implies exists|i: int|
        0 <= i < extended.len() && (#[trigger] extended[i]).use_case == use_case by {
        if use_case == item.use_case {
            assert(extended[summary.len() as int].use_case == use_case);
        } else {
            let k = choose|k: int| 0 <= k < grown.len() && (#[trigger] grown[k]).use_case == use_case;
            assert(items[k].use_case == use_case);
            assert(occurs(items, use_case));
            let i = choose|i: int|
                0 <= i < summary.len() && (#[trigger] summary[i]).use_case == use_case;
            assert(extended[i].use_case == use_case);
        }
    }
    assert forall|i: int, j: int| 0 <= i < j < extended.len() implies (
    #[trigger] extended[i]).use_case.spec_rank() < (#[trigger] extended[j]).use_case.spec_rank() by {
        if j < summary.len() {
            assert(summary[i].use_case.spec_rank() < summary[j].use_case.spec_rank());
        } else {
            assert(summary[i].use_case.spec_rank() < item.use_case.spec_rank());
        }
    }
}

/// Aggregates measurements: one entry per use case that occurs, in the order
/// of use cases, each with the saturated sum of its measurements. The order
/// of `items` does not matter.
pub fn group_by_use_case(items: Vec<AllocatedResource>) -> (summary: Vec<AllocatedResource>)
    ensures
        summarizes(summary@, items@),
{
    let sorted = sorted_by_use_case(items);
    let mut summary: Vec<AllocatedResource> = Vec::new();
    let mut i: usize = 0;
    while i < sorted.len()
        invariant
            i <= sorted.len(),
            forall|a: int, b: int|
                0 <= a <= b < sorted@.len() ==> (#[trigger] sorted@[a]).use_case.spec_rank() <= (
                #[trigger] sorted@[b]).use_case.spec_rank(),
            summarizes(summary@, sorted@.take(i as int)),
            i == 0 ==> summary@.len() == 0,
            i > 0 ==> summary@.len() > 0 && summary@.last().use_case == sorted@[i - 1].use_case,
        decreases sorted.len() - i,
    {
        let item = sorted[i];
        let ghost seen = sorted@.take(i as int);
        proof {
            assert(sorted@.take(i + 1) == seen.push(item));
        }
        let entries = summary.len();
        if entries > 0 && summary[entries - 1].use_case.rank() == item.use_case.rank() {
            let merged = AllocatedResource::new(
                item.use_case,
                byte_unit_sum(summary[entries - 1].amount, item.amount),
            );
            proof {
                crate::models::lemma_rank_orders_use_cases(
                    summary@[entries - 1].use_case,
                    item.use_case,
                );
                lemma_summary_grows_last(summary@, seen, item, merged);
            }
            summary.set(entries - 1, merged);
        } else {
            proof {
                if i > 0 {
                    let previous = sorted@[i - 1];
                    assert(previous.use_case.spec_rank() <= item.use_case.spec_rank());
                    crate::models::lemma_rank_orders_use_cases(previous.use_case, item.use_case);
                    assert forall|k: int| 0 <= k < summary@.len() implies (
                    #[trigger] summary@[k]).use_case.spec_rank() < item.use_case.spec_rank() by {
                        if k < summary@.len() - 1 {
                            assert(summary@[k].use_case.spec_rank() < summary@[summary@.len()
                                - 1].use_case.spec_rank());
                        }
                    }
                }
                lemma_summary_gains_entry(summary@, seen, item);
            }
            summary.push(item);
        }
        i += 1;
    }
    proof {
        assert(sorted@.take(sorted.len() as int) == sorted@);
        lemma_summary_by_rank(summary@, sorted@, items@);
    }
    summary
}

/// The saturated sum of all amounts: the total that an evaluation reports.
pub fn calculate_total_allocated(resources: &Vec<AllocatedResource>) -> (total: u64)
    ensures
        total == clamp(grand_total(resources@) as int),
{
    let mut total: u64 = 0;
    let mut i: usize = 0;
    while i < resources.len()
        invariant
            i <= resources.len(),
            total == clamp(grand_total(resources@.take(i as int)) as int),
        decreases resources.len() - i,
    {
        proof {
            let before = resources@.take(i as int);
            let after = resources@.take(i + 1);
            assert(after.drop_last() == before);
            lemma_clamp_absorbs(grand_total(before) as int, resources@[i as int].amount);
        }
        total = byte_unit_sum(total, resources[i].amount);
        i += 1;
    }
    proof {
        assert(resources@.take(resources.len() as int) == resources@);
    }
    total
}

/// What `items` attributes to the use cases of `summary`, entry by entry.
pub open spec fn attributed_total(
    summary: Seq<AllocatedResource>,
    items: Seq<AllocatedResource>,
) -> nat
    decreases summary.len(),
{
    if summary.len() == 0 {
        0
    } else {
        attributed_total(summary.drop_last(), items) + total_of(items, summary.last().use_case)
    }
}

/// How many entries of `summary` carry `use_case`.
spec fn entries_of(summary: Seq<AllocatedResource>, use_case: UseCase) -> nat
    decreases summary.len(),
{
    if summary.len() == 0 {
        0
    } else if summary.last().use_case == use_case {
        entries_of(summary.drop_last(), use_case) + 1
    } else {
        entries_of(summary.drop_last(), use_case)
    }
}

proof fn lemma_entries_of_absent(summary: Seq<AllocatedResource>, use_case: UseCase)
    requires
        forall|i: int| 0 <= i < summary.len() ==> (#[trigger] summary[i]).use_case != use_case,
    ensures
        entries_of(summary, use_case) == 0,
    decreases summary.len(),
{
    if summary.len() > 0 {
        assert(summary[summary.len() - 1].use_case != use_case);
        assert forall|i: int| 0 <= i < summary.drop_last().len() implies (
        #[trigger] summary.drop_last()[i]).use_case != use_case by {
            assert(summary[i].use_case != use_case);
        }
        lemma_entries_of_absent(summary.drop_last(), use_case);
    }
}

proof fn lemma_entries_of_single(summary: Seq<AllocatedResource>, use_case: UseCase, at: int)
    requires
        0 <= at < summary.len(),
        summary[at].use_case == use_case,
        forall|i: int, j: int|
            0 <= i < j < summary.len() ==> (#[trigger] summary[i]).use_case != (
            #[trigger] summary[j]).use_case,
    ensures
        entries_of(summary, use_case) == 1,
    decreases summary.len(),
{
    let rest = summary.drop_last();
    let last = summary.len() - 1;
    if at == last {
        assert forall|i: int| 0 <= i < rest.len() implies (#[trigger] rest[i]).use_case
            != use_case by {
            assert(summary[i].use_case != summary[last].use_case);
        }
        lemma_entries_of_absent(rest, use_case);
    } else {
        assert(summary[at].use_case != summary[last].use_case);
        assert(rest[at].use_case == use_case);
        assert forall|i: int, j: int| 0 <= i < j < rest.len() implies (
        #[trigger] rest[i]).use_case != (#[trigger] rest[j]).use_case by {
            assert(summary[i].use_case != summary[j].use_case);
        }
        lemma_entries_of_single(rest, use_case, at);
    }
}

proof fn lemma_attributed_total_step(
    summary: Seq<AllocatedResource>,
    items: Seq<AllocatedResource>,
    item: AllocatedResource,
)
    ensures
        attributed_total(summary, items.push(item)) == attributed_total(summary, items)
            + entries_of(summary, item.use_case) * item.amount,
    decreases summary.len(),
{
    let grown = items.push(item);
    assert(grown.drop_last() == items);
    assert(grown.last() == item);
    if summary.len() == 0 {
        assert(0 * item.amount == 0) by (nonlinear_arith);
    } else {
        lemma_attributed_total_step(summary.drop_last(), items, item);
        let n = entries_of(summary.drop_last(), item.use_case);
        let last = summary.last().use_case;
        assert((n + 1) * item.amount == n * item.amount + item.amount) by (nonlinear_arith);
        assert(total_of(grown, last) == total_of(items, last) + if item.use_case == last {
            item.amount as nat
        } else {
            0
        });
    }
}

proof fn lemma_attributed_total_of_nothing(summary: Seq<AllocatedResource>)
    ensures
        attributed_total(summary, Seq::<AllocatedResource>::empty()) == 0,
    decreases summary.len(),
{
    if summary.len() > 0 {
        lemma_attributed_total_of_nothing(summary.drop_last());
    }
}

/// Entries with distinct use cases that cover every use case occurring in
/// `items` split the grand total of `items` among them.
proof fn lemma_entries_split_total(summary: Seq<AllocatedResource>, items: Seq<AllocatedResource>)
    requires
        forall|i: int, j: int|
            0 <= i < j < summary.len() ==> (#[trigger] summary[i]).use_case != (
            #[trigger] summary[j]).use_case,
        forall|use_case: UseCase| #[trigger]
            occurs(items, use_case) ==> exists|i: int|
                0 <= i < summary.len() && (#[trigger] summary[i]).use_case == use_case,
    ensures
        attributed_total(summary, items) == grand_total(items),
    decreases items.len(),
{
    if items.len() == 0 {
        assert(items == Seq::<AllocatedResource>::empty());
        lemma_attributed_total_of_nothing(summary);
    } else {
        let rest = items.drop_last();
        let item = items.last();
        assert(items == rest.push(item));
        assert forall|use_case: UseCase| #[trigger] occurs(rest, use_case) implies exists|i: int|
            0 <= i < summary.len() && (#[trigger] summary[i]).use_case == use_case by {
            let k = choose|k: int| 0 <= k < rest.len() && (#[trigger] rest[k]).use_case == use_case;
            assert(items[k].use_case == use_case);
            assert(occurs(items, use_case));
        }
        lemma_entries_split_total(summary, rest);
        lemma_attributed_total_step(summary, rest, item);
        assert(items[items.len() - 1].use_case == item.use_case);
        assert(occurs(items, item.use_case));
        let at = choose|i: int|
            0 <= i < summary.len() && (#[trigger] summary[i]).use_case == item.use_case;
        lemma_entries_of_single(summary, item.use_case, at);
        assert(1 * item.amount == item.amount) by (nonlinear_arith);
    }
}

/// The amounts of entries that each hold the saturated total of their use
/// case add up to the attributed total, or pass the largest byte count
/// together with it.
proof fn lemma_saturated_entries(summary: Seq<AllocatedResource>, items: Seq<AllocatedResource>)
    requires
        forall|i: int|
            0 <= i < summary.len() ==> (#[trigger] summary[i]).amount == clamp(
                total_of(items, summary[i].use_case) as int,
            ),
    ensures
        grand_total(summary) <= attributed_total(summary, items),
        grand_total(summary) == attributed_total(summary, items) || grand_total(summary)
            >= u64::MAX,
    decreases summary.len(),
{
    if summary.len() > 0 {
        let rest = summary.drop_last();
        assert(summary[summary.len() - 1].amount == clamp(
            total_of(items, summary.last().use_case) as int,
        ));
        assert forall|i: int| 0 <= i < rest.len() implies (#[trigger] rest[i]).amount == clamp(
            total_of(items, rest[i].use_case) as int,
        ) by {
            assert(summary[i].amount == clamp(total_of(items, summary[i].use_case) as int));
        }
        lemma_saturated_entries(rest, items);
    }
}

/// Aggregation loses nothing: the amounts of a summary add up to the sum of
/// all measurements that went into it. Byte counts saturate, so the equality
/// is exact whenever the sum of the measurements is a byte count, and
/// otherwise both totals saturate.
pub proof fn lemma_summary_keeps_total(
    summary: Seq<AllocatedResource>,
    items: Seq<AllocatedResource>,
)
    requires
        summarizes(summary, items),
    ensures
        clamp(grand_total(summary) as int) == clamp(grand_total(items) as int),
        grand_total(items) <= u64::MAX ==> grand_total(summary) == grand_total(items),
{
    assert forall|i: int, j: int| 0 <= i < j < summary.len() implies (
    #[trigger] summary[i]).use_case != (#[trigger] summary[j]).use_case by {
        assert(summary[i].use_case.spec_rank() < summary[j].use_case.spec_rank());
    }
    lemma_entries_split_total(summary, items);
    lemma_saturated_entries(summary, items);
}

/// Nothing measured gives an empty summary with total zero, and nothing
/// else does.
pub proof fn lemma_summary_of_nothing(summary: Seq<AllocatedResource>, items: Seq<AllocatedResource>)
    requires
        summarizes(summary, items),
    ensures
        items.len() == 0 <==> summary.len() == 0,
        items.len() == 0 ==> grand_total(summary) == 0,
{
    if items.len() == 0 && summary.len() > 0 {
        assert(occurs(items, summary[0].use_case));
    }
    if items.len() > 0 && summary.len() == 0 {
        assert(occurs(items, items[0].use_case));
    }
}

/// The aggregation is determined by the measurements: two summaries of the
/// same measurements are equal.
pub proof fn lemma_summary_is_unique(
    first: Seq<AllocatedResource>,
    second: Seq<AllocatedResource>,
    items: Seq<AllocatedResource>,
)
    requires
        summarizes(first, items),
        summarizes(second, items),
    ensures
        first == second,
    decreases first.len() + second.len(),
{
    if first.len() == 0 || second.len() == 0 {
        if first.len() > 0 {
            let u = first[0].use_case;
            assert(occurs(items, u));
            let i = choose|i: int| 0 <= i < second.len() && (#[trigger] second[i]).use_case == u;
        }
        if second.len() > 0 {
            let u = second[0].use_case;
            assert(occurs(items, u));
            let i = choose|i: int| 0 <= i < first.len() && (#[trigger] first[i]).use_case == u;
        }
        assert(first =~= second);
    } else {
        lemma_prefix_agreement(first, second, items, first.len() as int);
        lemma_prefix_agreement(second, first, items, second.len() as int);
        assert(first =~= second);
    }
}

/// Two summaries of the same measurements agree entry by entry as far as
/// the first one reaches.
proof fn lemma_prefix_agreement(
    first: Seq<AllocatedResource>,
    second: Seq<AllocatedResource>,
    items: Seq<AllocatedResource>,
    upto: int,
)
    requires
        summarizes(first, items),
        summarizes(second, items),
        0 <= upto <= first.len(),
    ensures
        upto <= second.len(),
        forall|i: int| 0 <= i < upto ==> first[i] == second[i],
    decreases upto,
{
    if upto > 0 {
        lemma_prefix_agreement(first, second, items, upto - 1);
        let at = upto - 1;
        let u = first[at].use_case;
        assert(occurs(items, u));
        let other = choose|i: int| 0 <= i < second.len() && (#[trigger] second[i]).use_case == u;
        if other < at {
            assert(first[other] == second[other]);
            assert(first[other].use_case.spec_rank() < first[at].use_case.spec_rank());
        }
        if other > at {
            let v = second[at].use_case;
            assert(occurs(items, v));
            let back = choose|i: int| 0 <= i < first.len() && (#[trigger] first[i]).use_case == v;
            assert(second[at].use_case.spec_rank() < second[other].use_case.spec_rank());
            if back < at {
                assert(first[back] == second[back]);
                assert(second[back].use_case.spec_rank() < second[at].use_case.spec_rank());
            } else if back > at {
                assert(first[at].use_case.spec_rank() < first[back].use_case.spec_rank());
            }
        }
        assert(other == at);
        assert(first[at].amount == clamp(total_of(items, u) as int));
        assert(second[at].amount == clamp(total_of(items, u) as int));
    }
}

/// What one measurement adds to the total of a use case.
spec fn share_of(item: AllocatedResource, use_case: UseCase) -> nat {
    if item.use_case == use_case {
        item.amount as nat
    } else {
        0
    }
}

proof fn lemma_total_without(items: Seq<AllocatedResource>, at: int, use_case: UseCase)
    requires
        0 <= at < items.len(),
    ensures
        total_of(items, use_case) == total_of(items.remove(at), use_case) + share_of(
            items[at],
            use_case,
        ),
    decreases items.len(),
{
    if at == items.len() - 1 {
        assert(items.remove(at) == items.drop_last());
    } else {
        lemma_total_without(items.drop_last(), at, use_case);
        assert(items.remove(at).drop_last() == items.drop_last().remove(at));
        assert(items.remove(at).last() == items.last());
    }
}

proof fn lemma_total_ignores_order(
    items: Seq<AllocatedResource>,
    reordered: Seq<AllocatedResource>,
    use_case: UseCase,
)
    requires
        items.to_multiset() == reordered.to_multiset(),
    ensures
        total_of(items, use_case) == total_of(reordered, use_case),
    decreases items.len(),
{
    vstd::seq_lib::to_multiset_len(items);
    vstd::seq_lib::to_multiset_len(reordered);
    if items.len() > 0 {
        let last = items.last();
        let rest = items.drop_last();
        assert(items == rest.push(last));
        vstd::seq_lib::to_multiset_build(rest, last);
        vstd::seq_lib::to_multiset_contains(reordered, last);
        assert(reordered.to_multiset().count(last) > 0);
        let at = choose|at: int| 0 <= at < reordered.len() && reordered[at] == last;
        vstd::seq_lib::to_multiset_remove(reordered, at);
        assert(rest.to_multiset() =~= reordered.remove(at).to_multiset());
        lemma_total_ignores_order(rest, reordered.remove(at), use_case);
        lemma_total_without(reordered, at, use_case);
    }
}

proof fn lemma_use_case_ignores_order(
    items: Seq<AllocatedResource>,
    reordered: Seq<AllocatedResource>,
    use_case: UseCase,
)
    requires
        items.to_multiset() == reordered.to_multiset(),
    ensures
        total_of(items, use_case) == total_of(reordered, use_case),
        occurs(items, use_case) ==> occurs(reordered, use_case),
{
    lemma_total_ignores_order(items, reordered, use_case);
    if occurs(items, use_case) {
        let i = choose|i: int| 0 <= i < items.len() && (#[trigger] items[i]).use_case == use_case;
        assert(items.contains(items[i]));
        vstd::seq_lib::to_multiset_contains(items, items[i]);
        vstd::seq_lib::to_multiset_contains(reordered, items[i]);
        let k = choose|k: int| 0 <= k < reordered.len() && reordered[k] == items[i];
        assert(reordered[k].use_case == use_case);
    }
}

/// Aggregation does not depend on the order in which a scan walked: the
/// summary of measurements is the summary of the same measurements in any
/// other order.
pub proof fn lemma_summary_ignores_order(
    summary: Seq<AllocatedResource>,
    items: Seq<AllocatedResource>,
    reordered: Seq<AllocatedResource>,
)
    requires
        summarizes(summary, items),
        items.to_multiset() == reordered.to_multiset(),
    ensures
        summarizes(summary, reordered),
{
    assert forall|i: int| 0 <= i < summary.len() implies occurs(
        reordered,
        (#[trigger] summary[i]).use_case,
    ) && summary[i].amount == clamp(total_of(reordered, summary[i].use_case) as int) by {
        let use_case = summary[i].use_case;
        assert(occurs(items, use_case));
        assert(summary[i].amount == clamp(total_of(items, use_case) as int));
        lemma_use_case_ignores_order(items, reordered, use_case);
    }
    assert forall|use_case: UseCase| #[trigger] occurs(reordered, use_case) implies exists|i: int|
        0 <= i < summary.len() && (#[trigger] summary[i]).use_case == use_case by {
        lemma_use_case_ignores_order(reordered, items, use_case);
        assert(occurs(items, use_case));
    }
}

} // verus!
