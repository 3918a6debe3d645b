//! Coin selection: smallest first, until the amount and the fee are passed.
//!
//! The candidates are put in ascending order of value, equal values in the
//! order they came in. The walk then accepts one candidate after the other
//! and stops before the first one that finds the total of those accepted
//! before it already above the threshold. The rule looks at the total before
//! a candidate, never after it: the selection may pass the threshold by up to
//! the value of its last item, and it is not the smallest set that covers.
use vstd::prelude::*;
use crate::wallet::AddressInfo;

verus! {

/// `item` put into `sorted` directly behind the last item whose value is not
/// higher than its own.
pub open spec fn inserted(sorted: Seq<AddressInfo>, item: AddressInfo) -> Seq<AddressInfo>
    decreases sorted.len(),
{
    if sorted.len() == 0 || sorted.last().value <= item.value {
        sorted.push(item)
    } else {
        inserted(sorted.drop_last(), item).push(sorted.last())
    }
}

/// `items` in ascending order of value, items of one value in the order they
/// have in `items`.
pub open spec fn sorted_by_value(items: Seq<AddressInfo>) -> Seq<AddressInfo>
    decreases items.len(),
{
    if items.len() == 0 {
        Seq::empty()
    } else {
        inserted(sorted_by_value(items.drop_last()), items.last())
    }
}

/// Whether the values of `items` never fall from one item to the next.
pub open spec fn ascending(items: Seq<AddressInfo>) -> bool {
    forall|i: int, j: int| 0 <= i <= j < items.len() ==> items[i].value <= items[j].value
}

/// The items of `items` that have the value `value`, in their order.
pub open spec fn of_value(items: Seq<AddressInfo>, value: u64) -> Seq<AddressInfo>
    decreases items.len(),
{
    if items.len() == 0 {
        Seq::empty()
    } else if items.last().value == value {
        of_value(items.drop_last(), value).push(items.last())
    } else {
        of_value(items.drop_last(), value)
    }
}

/// The sum of the values of `items`.
pub open spec fn total_value(items: Seq<AddressInfo>) -> int
    decreases items.len(),
{
    if items.len() == 0 {
        0
    } else {
        total_value(items.drop_last()) + items.last().value
    }
}

/// Whether the walk over `items` accepts exactly the first `count` of them:
/// each of these found the total of the items before it at or below the
/// threshold, and the next one, if there is one, found it above.
pub open spec fn walk_stops_at(items: Seq<AddressInfo>, threshold: int, count: int) -> bool {
    &&& 0 <= count <= items.len()
    &&& forall|j: int| 0 <= j < count ==> total_value(#[trigger] items.take(j)) <= threshold
    &&& count < items.len() ==> total_value(items.take(count)) > threshold
}

/// What the selection picks from `items` for a threshold: the first `count`
/// items in ascending order, for the `count` at which the walk stops.
pub open spec fn is_selection(
    items: Seq<AddressInfo>,
    threshold: int,
    selected: Seq<AddressInfo>,
) -> bool {
    &&& selected == sorted_by_value(items).take(selected.len() as int)
    &&& walk_stops_at(sorted_by_value(items), threshold, selected.len() as int)
}

/// How many of `items` the walk accepts.
pub open spec fn accepted_count(items: Seq<AddressInfo>, threshold: int) -> int
    decreases items.len(),
{
    if items.len() == 0 {
        0
    } else {
        let before = accepted_count(items.drop_last(), threshold);
        if before == items.len() - 1 && total_value(items.drop_last()) <= threshold {
            items.len() as int
        } else {
            before
        }
    }
}

/// The selection from `items` for a threshold.
pub open spec fn selection_of(items: Seq<AddressInfo>, threshold: int) -> Seq<AddressInfo> {
    sorted_by_value(items).take(accepted_count(sorted_by_value(items), threshold))
}

/// Putting an item at `at` is putting it behind the last item whose value is
/// not higher, where every item from `at` on has a higher value and the item
/// before `at` has not.
proof fn lemma_inserted_at(sorted: Seq<AddressInfo>, item: AddressInfo, at: int)
    requires
        0 <= at <= sorted.len(),
        forall|j: int| at <= j < sorted.len() ==> sorted[j].value > item.value,
        at > 0 ==> sorted[at - 1].value <= item.value,
    ensures
        inserted(sorted, item) == sorted.insert(at, item),
    decreases sorted.len(),
{
    if at == sorted.len() {
        assert(sorted.insert(at, item) =~= sorted.push(item));
    } else {
        let shorter = sorted.drop_last();
        lemma_inserted_at(shorter, item, at);
        assert(sorted.insert(at, item) =~= shorter.insert(at, item).push(sorted.last()));
    }
}

/// `items` in ascending order of value, equal values in the order they came
/// in.
pub fn sort_by_value(items: Vec<AddressInfo>) -> (sorted: Vec<AddressInfo>)
    ensures
        sorted@ == sorted_by_value(items@),
{
    let ghost all = items@;
    let mut rest = items;
    let mut sorted: Vec<AddressInfo> = Vec::new();
    while rest.len() > 0
        invariant
            rest@.len() <= all.len(),
            rest@ == all.skip(all.len() - rest@.len()),
            sorted@ == sorted_by_value(all.take(all.len() - rest@.len())),
        decreases rest@.len(),
    {
        let ghost done = all.len() - rest@.len();
        let item = rest.remove(0);
        let mut at: usize = sorted.len();
        while at > 0 && sorted[at - 1].value > item.value
            invariant
                at <= sorted@.len(),
                forall|j: int| at <= j < sorted@.len() ==> sorted@[j].value > item.value,
            decreases at,
        {
            at -= 1;
        }
        proof {
            lemma_inserted_at(sorted@, item, at as int);
            assert(all.take(done + 1).drop_last() =~= all.take(done));
        }
        sorted.insert(at, item);
    }
    sorted
}

/// The first `count` of `sorted`, for the `count` at which the walk stops: each
/// candidate is accepted unless the total of those accepted before it is
/// already above the amount and the fee.
pub fn accept_smallest(sorted: Vec<AddressInfo>, amount: u64, fees: u64) -> (selected: Vec<
    AddressInfo,
>)
    ensures
        selected@ == sorted@.take(selected@.len() as int),
        walk_stops_at(sorted@, amount + fees, selected@.len() as int),
{
    let threshold: u128 = amount as u128 + fees as u128;
    let mut total: u128 = 0;
    let mut count: usize = 0;
    while count < sorted.len() && total <= threshold
        invariant
            count <= sorted@.len(),
            threshold == amount + fees,
            total == total_value(sorted@.take(count as int)),
            forall|j: int| 0 <= j < count ==> total_value(#[trigger] sorted@.take(j)) <= threshold,
        decreases sorted@.len() - count,
    {
        assert(sorted@.take(count + 1).drop_last() =~= sorted@.take(count as int));
        total = total + sorted[count].value as u128;
        count += 1;
    }
    let mut selected = sorted;
    selected.truncate(count);
    selected
}

/// The outputs to spend for a payment of `amount` with a fee of `fees`, picked
/// from `list_unspent` smallest first.
///
/// The caller still has to compare the total of the selection with the
/// amount and the fee: the selection is what the walk accepted, whether or
/// not it covers them.
pub fn select_utxos(list_unspent: Vec<AddressInfo>, amount: u64, fees: u64) -> (selected: Vec<
    AddressInfo,
>)
    ensures
        is_selection(list_unspent@, amount + fees, selected@),
        selected@ == selection_of(list_unspent@, amount + fees),
{
    let selected = accept_smallest(sort_by_value(list_unspent), amount, fees);
    proof {
        lemma_selection_is_a_selection(list_unspent@, amount + fees);
        lemma_selection_is_unique(
            list_unspent@,
            amount + fees,
            selected@,
            selection_of(list_unspent@, amount + fees),
        );
    }
    selected
}

/// The sum of the values of `items`.
pub fn sum_values(items: &Vec<AddressInfo>) -> (total: u128)
    ensures
        total == total_value(items@),
{
    let mut total: u128 = 0;
    let mut i: usize = 0;
    while i < items.len()
        invariant
            i <= items@.len(),
            total == total_value(items@.take(i as int)),
            total <= i * 0xffff_ffff_ffff_ffff,
        decreases items@.len() - i,
    {
        proof {
            assert(items@.take(i + 1).drop_last() =~= items@.take(i as int));
            assert(i * 0xffff_ffff_ffff_ffff + 0xffff_ffff_ffff_ffff == (i + 1)
                * 0xffff_ffff_ffff_ffff) by (nonlinear_arith);
            assert((i + 1) * 0xffff_ffff_ffff_ffff <= 0x1_0000_0000_0000_0000
                * 0xffff_ffff_ffff_ffff) by (nonlinear_arith)
                requires
                    i + 1 <= 0x1_0000_0000_0000_0000,
            ;
        }
        total = total + items[i].value as u128;
        i += 1;
    }
    assert(items@.take(i as int) =~= items@);
    total
}

/// Putting an item into an ascending sequence keeps it ascending.
proof fn lemma_inserted_is_ascending(sorted: Seq<AddressInfo>, item: AddressInfo)
    requires
        ascending(sorted),
    ensures
        ascending(inserted(sorted, item)),
        inserted(sorted, item).len() == sorted.len() + 1,
        forall|i: int|
            0 <= i < inserted(sorted, item).len() ==> #[trigger] inserted(sorted, item)[i] == item
                || exists|j: int| 0 <= j < sorted.len() && sorted[j] == inserted(sorted, item)[i],
    decreases sorted.len(),
{
    let result = inserted(sorted, item);
    if sorted.len() == 0 || sorted.last().value <= item.value {
        assert forall|i: int, j: int| 0 <= i <= j < result.len() implies result[i].value
            <= result[j].value by {
            if j == sorted.len() && i < j {
                assert(sorted[i].value <= sorted.last().value);
            }
        }
        assert forall|i: int| 0 <= i < result.len() implies #[trigger] result[i] == item
            || exists|j: int| 0 <= j < sorted.len() && sorted[j] == result[i] by {
            if i < sorted.len() {
                assert(sorted[i] == result[i]);
            }
        }
    } else {
        let shorter = sorted.drop_last();
        let inner = inserted(shorter, item);
        assert(ascending(shorter)) by {
            assert forall|i: int, j: int| 0 <= i <= j < shorter.len() implies shorter[i].value
                <= shorter[j].value by {
                assert(sorted[i].value <= sorted[j].value);
            }
        }
        lemma_inserted_is_ascending(shorter, item);
        assert forall|i: int| 0 <= i < inner.len() implies (#[trigger] inner[i]).value
            <= sorted.last().value by {
            if inner[i] != item {
                let j = choose|j: int| 0 <= j < shorter.len() && shorter[j] == inner[i];
                assert(sorted[j].value <= sorted[sorted.len() - 1].value);
            }
        }
        assert forall|i: int, j: int| 0 <= i <= j < result.len() implies result[i].value
            <= result[j].value by {
            if j < inner.len() {
                assert(inner[i].value <= inner[j].value);
            } else if i < inner.len() {
                assert(inner[i].value <= sorted.last().value);
            }
        }
        assert forall|i: int| 0 <= i < result.len() implies #[trigger] result[i] == item
            || exists|j: int| 0 <= j < sorted.len() && sorted[j] == result[i] by {
            if i < inner.len() {
                if inner[i] != item {
                    let j = choose|j: int| 0 <= j < shorter.len() && shorter[j] == inner[i];
                    assert(sorted[j] == result[i]);
                }
            } else {
                assert(sorted[sorted.len() - 1] == result[i]);
            }
        }
    }
}

/// The sorted sequence is ascending and as long as the one it was made of.
pub proof fn lemma_sorted_is_ascending(items: Seq<AddressInfo>)
    ensures
        ascending(sorted_by_value(items)),
        sorted_by_value(items).len() == items.len(),
    decreases items.len(),
{
    if items.len() > 0 {
        lemma_sorted_is_ascending(items.drop_last());
        lemma_inserted_is_ascending(sorted_by_value(items.drop_last()), items.last());
    }
}

/// Putting an item into a sequence puts it behind the items of its own value
/// and leaves the items of every other value as they were.
proof fn lemma_inserted_of_value(sorted: Seq<AddressInfo>, item: AddressInfo, value: u64)
    ensures
        of_value(inserted(sorted, item), value) == if item.value == value {
            of_value(sorted, value).push(item)
        } else {
            of_value(sorted, value)
        },
    decreases sorted.len(),
{
    if sorted.len() == 0 || sorted.last().value <= item.value {
        assert(sorted.push(item).drop_last() =~= sorted);
    } else {
        let inner = inserted(sorted.drop_last(), item);
        lemma_inserted_of_value(sorted.drop_last(), item, value);
        assert(inner.push(sorted.last()).drop_last() =~= inner);
    }
}

/// Sorting keeps the items and is stable: for every value, the sorted
/// sequence holds the items of that value that the unsorted one holds, in
/// the order the unsorted one has them in.
pub proof fn lemma_sorted_is_stable(items: Seq<AddressInfo>, value: u64)
    ensures
        of_value(sorted_by_value(items), value) == of_value(items, value),
    decreases items.len(),
{
    if items.len() > 0 {
        lemma_sorted_is_stable(items.drop_last(), value);
        lemma_inserted_of_value(sorted_by_value(items.drop_last()), items.last(), value);
    }
}

/// The walk stops at one place only.
pub proof fn lemma_walk_stops_once(
    items: Seq<AddressInfo>,
    threshold: int,
    first: int,
    second: int,
)
    requires
        walk_stops_at(items, threshold, first),
        walk_stops_at(items, threshold, second),
    ensures
        first == second,
{
    if first < second {
        assert(total_value(items.take(first)) <= threshold);
    } else if second < first {
        assert(total_value(items.take(second)) <= threshold);
    }
}

/// A selection is determined by the candidates and the threshold.
pub proof fn lemma_selection_is_unique(
    items: Seq<AddressInfo>,
    threshold: int,
    first: Seq<AddressInfo>,
    second: Seq<AddressInfo>,
)
    requires
        is_selection(items, threshold, first),
        is_selection(items, threshold, second),
    ensures
        first == second,
{
    lemma_walk_stops_once(
        sorted_by_value(items),
        threshold,
        first.len() as int,
        second.len() as int,
    );
}

/// What the walk accepts passes the threshold by no more than the value of
/// the last item it accepted.
pub proof fn lemma_overshoot_is_bounded(items: Seq<AddressInfo>, threshold: int, count: int)
    requires
        walk_stops_at(items, threshold, count),
        count > 0,
    ensures
        total_value(items.take(count)) <= threshold + items[count - 1].value,
{
    assert(items.take(count).drop_last() =~= items.take(count - 1));
    assert(total_value(items.take(count - 1)) <= threshold);
}

/// The walk stops at the count that [`accepted_count`] gives.
pub proof fn lemma_walk_stops_at_count(items: Seq<AddressInfo>, threshold: int)
    ensures
        walk_stops_at(items, threshold, accepted_count(items, threshold)),
    decreases items.len(),
{
    if items.len() > 0 {
        let shorter = items.drop_last();
        let before = accepted_count(shorter, threshold);
        lemma_walk_stops_at_count(shorter, threshold);
        let count = accepted_count(items, threshold);
        assert forall|j: int| 0 <= j < count implies total_value(#[trigger] items.take(j))
            <= threshold by {
            if j < items.len() - 1 {
                assert(items.take(j) =~= shorter.take(j));
            } else {
                assert(items.take(j) =~= shorter);
            }
        }
        if count < items.len() {
            if before == items.len() - 1 {
                assert(items.take(count) =~= shorter);
            } else {
                assert(items.take(count) =~= shorter.take(before));
            }
        }
    }
}

/// What [`selection_of`] gives is the selection.
pub proof fn lemma_selection_is_a_selection(items: Seq<AddressInfo>, threshold: int)
    ensures
        is_selection(items, threshold, selection_of(items, threshold)),
{
    lemma_walk_stops_at_count(sorted_by_value(items), threshold);
}

} // verus!
