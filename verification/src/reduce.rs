//! Reducing the values that repeated iterations gave for one measure to a
//! single one.

use vstd::prelude::*;
use crate::metric::MetricValue;

verus! {

/// How repeated values are reduced to one.
#[derive(Debug, Clone, Copy, PartialEq, Eq, Hash, Structural)]
pub enum FoldOp {
    /// The least value.
    Min,
    /// The greatest value.
    Max,
    /// The arithmetic mean.
    Mean,
    /// The middle value, or the mean of the two middle values.
    Median,
}

/// What a reduction comes to: either one of the values, or the arithmetic
/// mean of some of them, which is left to be computed in floating point.
#[derive(Debug, PartialEq, Eq)]
pub enum Reduced {
    /// This value.
    Exact(MetricValue),
    /// The arithmetic mean of these values, which are at least two.
    Average(Vec<MetricValue>),
}

/// [`Reduced`] with its values as a sequence.
pub enum ReducedView {
    Exact(MetricValue),
    Average(Seq<MetricValue>),
}

impl View for Reduced {
    type V = ReducedView;

    open spec fn view(&self) -> ReducedView {
        match self {
            Reduced::Exact(value) => ReducedView::Exact(*value),
            Reduced::Average(values) => ReducedView::Average(values@),
        }
    }
}

/// The place of the least value; of several that are equally small, the
/// first.
pub open spec fn first_min(values: Seq<MetricValue>) -> int
    decreases values.len(),
{
    if values.len() <= 1 {
        0
    } else {
        let before = first_min(values.drop_last());
        if values.last().value.key() < values[before].value.key() {
            values.len() - 1
        } else {
            before
        }
    }
}

/// The place of the greatest value; of several that are equally great, the
/// first.
pub open spec fn first_max(values: Seq<MetricValue>) -> int
    decreases values.len(),
{
    if values.len() <= 1 {
        0
    } else {
        let before = first_max(values.drop_last());
        if values.last().value.key() > values[before].value.key() {
            values.len() - 1
        } else {
            before
        }
    }
}

/// `sorted` with `value` put in behind every value that is not greater.
pub open spec fn insert_sorted(sorted: Seq<MetricValue>, value: MetricValue) -> Seq<MetricValue>
    decreases sorted.len(),
{
    if sorted.len() == 0 || sorted.last().value.key() <= value.value.key() {
        sorted.push(value)
    } else {
        insert_sorted(sorted.drop_last(), value).push(sorted.last())
    }
}

/// The values in ascending order; values that are numerically equal keep
/// the order in which they came.
pub open spec fn sort(values: Seq<MetricValue>) -> Seq<MetricValue>
    decreases values.len(),
{
    if values.len() == 0 {
        Seq::empty()
    } else {
        insert_sorted(sort(values.drop_last()), values.last())
    }
}

/// Whether the values ascend.
pub open spec fn ascending(values: Seq<MetricValue>) -> bool {
    forall|i: int, j: int|
        0 <= i < j < values.len() ==> values[i].value.key() <= values[j].value.key()
}

/// What the values of one measure are reduced to. A single value stands for
/// itself under every operation.
pub open spec fn reduction(op: FoldOp, values: Seq<MetricValue>) -> ReducedView
    recommends
        values.len() > 0,
{
    if values.len() == 1 {
        ReducedView::Exact(values[0])
    } else {
        match op {
            FoldOp::Min => ReducedView::Exact(values[first_min(values)]),
            FoldOp::Max => ReducedView::Exact(values[first_max(values)]),
            FoldOp::Mean => ReducedView::Average(values),
            FoldOp::Median => {
                let sorted = sort(values);
                let half = values.len() / 2;
                if values.len() % 2 == 1 {
                    ReducedView::Exact(sorted[half as int])
                } else {
                    ReducedView::Average(seq![sorted[half - 1], sorted[half as int]])
                }
            },
        }
    }
}

/// The least value is a value of the list, none is less, and none before it
/// is as small.
pub proof fn lemma_first_min(values: Seq<MetricValue>)
    requires
        values.len() > 0,
    ensures
        0 <= first_min(values) < values.len(),
        forall|i: int|
            0 <= i < values.len() ==> values[first_min(values)].value.key() <= (
            #[trigger] values[i]).value.key(),
        forall|i: int|
            0 <= i < first_min(values) ==> values[first_min(values)].value.key() < (
            #[trigger] values[i]).value.key(),
    decreases values.len(),
{
    if values.len() > 1 {
        lemma_first_min(values.drop_last());
        let before = first_min(values.drop_last());
        assert forall|i: int| 0 <= i < values.len() implies values[first_min(
            values,
        )].value.key() <= (#[trigger] values[i]).value.key() by {
            if i < values.len() - 1 {
                assert(values[i] == values.drop_last()[i]);
            }
        }
        assert forall|i: int| 0 <= i < first_min(values) implies values[first_min(
            values,
        )].value.key() < (#[trigger] values[i]).value.key() by {
            assert(values[i] == values.drop_last()[i]);
        }
    }
}

/// The greatest value is a value of the list, none is greater, and none
/// before it is as great.
pub proof fn lemma_first_max(values: Seq<MetricValue>)
    requires
        values.len() > 0,
    ensures
        0 <= first_max(values) < values.len(),
        forall|i: int|
            0 <= i < values.len() ==> values[first_max(values)].value.key() >= (
            #[trigger] values[i]).value.key(),
        forall|i: int|
            0 <= i < first_max(values) ==> values[first_max(values)].value.key() > (
            #[trigger] values[i]).value.key(),
    decreases values.len(),
{
    if values.len() > 1 {
        lemma_first_max(values.drop_last());
        let before = first_max(values.drop_last());
        assert forall|i: int| 0 <= i < values.len() implies values[first_max(
            values,
        )].value.key() >= (#[trigger] values[i]).value.key() by {
            if i < values.len() - 1 {
                assert(values[i] == values.drop_last()[i]);
            }
        }
        assert forall|i: int| 0 <= i < first_max(values) implies values[first_max(
            values,
        )].value.key() > (#[trigger] values[i]).value.key() by {
            assert(values[i] == values.drop_last()[i]);
        }
    }
}

/// Putting a value into an ascending list keeps the list ascending, and
/// changes what the list holds by that value alone.
pub proof fn lemma_insert_sorted(sorted: Seq<MetricValue>, value: MetricValue)
    requires
        ascending(sorted),
    ensures
        ascending(insert_sorted(sorted, value)),
        insert_sorted(sorted, value).len() == sorted.len() + 1,
        insert_sorted(sorted, value).to_multiset() == sorted.to_multiset().insert(value),
    decreases sorted.len(),
{
    broadcast use vstd::seq_lib::group_to_multiset_ensures;

    if sorted.len() == 0 || sorted.last().value.key() <= value.value.key() {
    } else {
        let front = sorted.drop_last();
        lemma_insert_sorted(front, value);
        let placed = insert_sorted(front, value);
        let whole = placed.push(sorted.last());
        assert(sorted =~= front.push(sorted.last()));
        assert forall|i: int, j: int| 0 <= i < j < whole.len() implies whole[i].value.key()
            <= whole[j].value.key() by {
            if j < placed.len() {
            } else {
                // Every value of `placed` is `value` or a value of `front`.
                assert(placed.to_multiset().count(placed[i]) > 0);
                if placed[i] != value {
                    assert(front.to_multiset().count(placed[i]) > 0);
                    let k = choose|k: int| 0 <= k < front.len() && front[k] == placed[i];
                    assert(sorted[k] == front[k]);
                }
            }
        }
        assert(whole.to_multiset() =~= sorted.to_multiset().insert(value));
    }
}

/// Sorting orders the values and neither adds nor loses one.
pub proof fn lemma_sort(values: Seq<MetricValue>)
    ensures
        ascending(sort(values)),
        sort(values).len() == values.len(),
        sort(values).to_multiset() == values.to_multiset(),
    decreases values.len(),
{
    broadcast use vstd::seq_lib::group_to_multiset_ensures;

    if values.len() > 0 {
        lemma_sort(values.drop_last());
        lemma_insert_sorted(sort(values.drop_last()), values.last());
        assert(values =~= values.drop_last().push(values.last()));
    }
}

/// Where a value goes into a list: behind the last value that is not
/// greater.
proof fn lemma_insert_at(sorted: Seq<MetricValue>, value: MetricValue, at: int)
    requires
        0 <= at <= sorted.len(),
        forall|i: int| at <= i < sorted.len() ==> (#[trigger] sorted[i]).value.key()
            > value.value.key(),
        at > 0 ==> sorted[at - 1].value.key() <= value.value.key(),
    ensures
        insert_sorted(sorted, value) == sorted.insert(at, value),
    decreases sorted.len(),
{
    if at == sorted.len() {
        assert(sorted.push(value) =~= sorted.insert(at, value));
    } else {
        assert(sorted.last() == sorted[sorted.len() - 1]);
        lemma_insert_at(sorted.drop_last(), value, at);
        assert(sorted.drop_last().insert(at, value).push(sorted.last()) =~= sorted.insert(
            at,
            value,
        ));
    }
}

fn least(values: &Vec<MetricValue>) -> (at: usize)
    requires
        values.len() > 0,
    ensures
        at == first_min(values@),
        at < values.len(),
{
    let mut best: usize = 0;
    let mut i: usize = 1;
    assert(first_min(values@.take(1)) == 0);
    while i < values.len()
        invariant
            1 <= i <= values.len(),
            best < i,
            best == first_min(values@.take(i as int)),
        decreases values.len() - i,
    {
        assert(values@.take(i + 1).drop_last() =~= values@.take(i as int));
        if values[i].value.lt(values[best].value) {
            best = i;
        }
        i += 1;
    }
    assert(values@.take(values.len() as int) =~= values@);
    best
}

fn greatest(values: &Vec<MetricValue>) -> (at: usize)
    requires
        values.len() > 0,
    ensures
        at == first_max(values@),
        at < values.len(),
{
    let mut best: usize = 0;
    let mut i: usize = 1;
    assert(first_max(values@.take(1)) == 0);
    while i < values.len()
        invariant
            1 <= i <= values.len(),
            best < i,
            best == first_max(values@.take(i as int)),
        decreases values.len() - i,
    {
        assert(values@.take(i + 1).drop_last() =~= values@.take(i as int));
        if values[i].value.gt(values[best].value) {
            best = i;
        }
        i += 1;
    }
    assert(values@.take(values.len() as int) =~= values@);
    best
}

/// The values in ascending order; values that are numerically equal keep
/// the order in which they came.
pub fn sorted(values: &Vec<MetricValue>) -> (ordered: Vec<MetricValue>)
    ensures
        ordered@ == sort(values@),
        ordered@.len() == values@.len(),
        ascending(ordered@),
        ordered@.to_multiset() == values@.to_multiset(),
{
    let mut ordered: Vec<MetricValue> = Vec::new();
    let mut i: usize = 0;
    assert(values@.take(0) =~= Seq::<MetricValue>::empty());
    while i < values.len()
        invariant
            i <= values.len(),
            ordered@ == sort(values@.take(i as int)),
            ordered@.len() == i,
        decreases values.len() - i,
    {
        let value = values[i];
        let mut at: usize = ordered.len();
        while at > 0 && ordered[at - 1].value.gt(value.value)
            invariant
                at <= ordered.len(),
                forall|k: int| at <= k < ordered.len() ==> (#[trigger] ordered@[k]).value.key()
                    > value.value.key(),
            decreases at,
        {
            at -= 1;
        }
        proof {
            lemma_insert_at(ordered@, value, at as int);
            assert(values@.take(i + 1).drop_last() =~= values@.take(i as int));
        }
        ordered.insert(at, value);
        i += 1;
    }
    proof {
        assert(values@.take(values.len() as int) =~= values@);
        lemma_sort(values@);
    }
    ordered
}

/// Reduces the values of one measure. There is nothing to reduce where
/// there is no value.
pub fn reduce(op: FoldOp, values: &Vec<MetricValue>) -> (reduced: Option<Reduced>)
    ensures
        reduced is None <==> values@.len() == 0,
        reduced is Some ==> reduced.unwrap()@ == reduction(op, values@),
{
    if values.len() == 0 {
        return None;
    }
    if values.len() == 1 {
        return Some(Reduced::Exact(values[0]));
    }
    Some(
        match op {
            FoldOp::Min => Reduced::Exact(values[least(values)]),
            FoldOp::Max => Reduced::Exact(values[greatest(values)]),
            FoldOp::Mean => Reduced::Average(values.clone()),
            FoldOp::Median => {
                let ordered = sorted(values);
                let half = values.len() / 2;
                if values.len() % 2 == 1 {
                    Reduced::Exact(ordered[half])
                } else {
                    let middle = vec![ordered[half - 1], ordered[half]];
                    assert(middle@ =~= seq![ordered@[half - 1], ordered@[half as int]]);
                    Reduced::Average(middle)
                }
            },
        },
    )
}

} // verus!
