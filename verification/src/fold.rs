//! Folding the results of repeated iterations into one.

use vstd::prelude::*;
use crate::metric::{
    distinct, lemma_place, lookup, place, BenchmarkResult, Key, MetricValue, MetricView,
};
use crate::reduce::{
    first_max, first_min, lemma_first_max, lemma_first_min, reduce, reduction, FoldOp, Reduced,
    ReducedView,
};
use crate::text::same;

verus! {

/// What the iterations come to for one measure of one benchmark.
#[derive(Debug, PartialEq, Eq)]
pub struct Folded {
    pub benchmark: Vec<u8>,
    pub measure: Vec<u8>,
    pub value: Reduced,
}

/// [`Folded`] with its names as plain text.
pub struct FoldedView {
    pub key: Key,
    pub value: ReducedView,
}

impl View for Folded {
    type V = FoldedView;

    open spec fn view(&self) -> FoldedView {
        FoldedView {
            key: Key { benchmark: self.benchmark@, measure: self.measure@ },
            value: self.value@,
        }
    }
}

/// A folded list with its names as plain text.
pub open spec fn folds(list: Seq<Folded>) -> Seq<FoldedView> {
    list.map_values(|folded: Folded| folded@)
}

/// The results of the iterations, each as its list of metrics.
pub open spec fn iterations(results: Seq<BenchmarkResult>) -> Seq<Seq<MetricView>> {
    results.map_values(|result: BenchmarkResult| result@)
}

/// The keys of a list of metrics, in order.
pub open spec fn keys(list: Seq<MetricView>) -> Seq<Key> {
    list.map_values(|metric: MetricView| metric.key)
}

/// `seen`, followed by the keys of `more` that it does not hold, in order.
pub open spec fn extend(seen: Seq<Key>, more: Seq<Key>) -> Seq<Key>
    decreases more.len(),
{
    if more.len() == 0 {
        seen
    } else {
        let before = extend(seen, more.drop_last());
        if before.contains(more.last()) {
            before
        } else {
            before.push(more.last())
        }
    }
}

/// The keys of all iterations, each once, in the order in which they first
/// occur.
pub open spec fn first_seen(results: Seq<Seq<MetricView>>) -> Seq<Key>
    decreases results.len(),
{
    if results.len() == 0 {
        Seq::empty()
    } else {
        extend(first_seen(results.drop_last()), keys(results.last()))
    }
}

/// The values that the iterations hold for `key`, in the order of the
/// iterations. An iteration without the key adds nothing.
pub open spec fn series(results: Seq<Seq<MetricView>>, key: Key) -> Seq<MetricValue>
    decreases results.len(),
{
    if results.len() == 0 {
        Seq::empty()
    } else {
        let before = series(results.drop_last(), key);
        match lookup(results.last(), key) {
            Some(value) => before.push(value),
            None => before,
        }
    }
}

/// A metric that needs no reduction.
pub open spec fn kept(metric: MetricView) -> FoldedView {
    FoldedView { key: metric.key, value: ReducedView::Exact(metric.value) }
}

/// What the iterations fold to. Without an operation only the last
/// iteration counts. With one, every key that occurs in any iteration is
/// reduced over the iterations that hold it.
pub open spec fn folded(op: Option<FoldOp>, results: Seq<Seq<MetricView>>) -> Seq<FoldedView> {
    match op {
        None => if results.len() == 0 {
            Seq::empty()
        } else {
            results.last().map_values(|metric: MetricView| kept(metric))
        },
        Some(op) => first_seen(results).map_values(
            |key: Key| FoldedView { key, value: reduction(op, series(results, key)) },
        ),
    }
}

/// A key of the extended list comes from one of the two lists.
proof fn lemma_extend_from(seen: Seq<Key>, more: Seq<Key>, key: Key)
    requires
        extend(seen, more).contains(key),
    ensures
        seen.contains(key) || more.contains(key),
    decreases more.len(),
{
    if more.len() > 0 {
        let before = extend(seen, more.drop_last());
        if before.contains(key) {
            lemma_extend_from(seen, more.drop_last(), key);
            if more.drop_last().contains(key) {
                let i = choose|i: int| 0 <= i < more.drop_last().len() && more.drop_last()[i] == key;
                assert(more[i] == key);
            }
        } else {
            let i = choose|i: int| 0 <= i < extend(seen, more).len() && extend(seen, more)[i] == key;
            assert(extend(seen, more) == before.push(more.last()));
            if i < before.len() {
                assert(before[i] == key);
            }
            assert(more[more.len() - 1] == key);
        }
    }
}

/// A list holds a value for each of its keys.
proof fn lemma_lookup_key(list: Seq<MetricView>, key: Key)
    ensures
        keys(list).contains(key) <==> lookup(list, key) is Some,
{
    lemma_place(list, key, 0);
    if keys(list).contains(key) {
        let i = choose|i: int| 0 <= i < keys(list).len() && keys(list)[i] == key;
        assert(list[i].key == key);
    }
    if lookup(list, key) is Some {
        assert(keys(list)[place(list, key, 0)] == key);
    }
}

/// The extended list holds every key of the two lists.
proof fn lemma_extend_holds(seen: Seq<Key>, more: Seq<Key>, key: Key)
    requires
        seen.contains(key) || more.contains(key),
    ensures
        extend(seen, more).contains(key),
    decreases more.len(),
{
    if more.len() == 0 {
    } else {
        let before = extend(seen, more.drop_last());
        if more.last() == key {
            if !before.contains(key) {
                assert(before.push(key)[before.len() as int] == key);
            }
        } else {
            if more.contains(key) {
                let i = choose|i: int| 0 <= i < more.len() && more[i] == key;
                assert(more.drop_last()[i] == key);
            }
            lemma_extend_holds(seen, more.drop_last(), key);
            let i = choose|i: int| 0 <= i < before.len() && before[i] == key;
            if !before.contains(more.last()) {
                assert(before.push(more.last())[i] == key);
            }
        }
    }
}

/// The keys that are folded are those that occur in some iteration.
pub proof fn lemma_first_seen(results: Seq<Seq<MetricView>>, key: Key)
    ensures
        first_seen(results).contains(key) <==> exists|i: int|
            0 <= i < results.len() && lookup(#[trigger] results[i], key) is Some,
    decreases results.len(),
{
    if results.len() > 0 {
        let front = results.drop_last();
        lemma_first_seen(front, key);
        lemma_lookup_key(results.last(), key);
        if first_seen(results).contains(key) {
            lemma_extend_from(first_seen(front), keys(results.last()), key);
            if first_seen(front).contains(key) {
                let i = choose|i: int| 0 <= i < front.len() && lookup(#[trigger] front[i], key) is Some;
                assert(results[i] == front[i]);
            } else {
                assert(results[results.len() - 1] == results.last());
            }
        }
        if exists|i: int| 0 <= i < results.len() && lookup(#[trigger] results[i], key) is Some {
            let i = choose|i: int| 0 <= i < results.len() && lookup(#[trigger] results[i], key) is Some;
            if i < front.len() {
                assert(front[i] == results[i]);
            }
            lemma_extend_holds(first_seen(front), keys(results.last()), key);
        }
    }
}

/// Every key that occurs has at least one value.
pub proof fn lemma_seen_has_value(results: Seq<Seq<MetricView>>, key: Key)
    requires
        first_seen(results).contains(key),
    ensures
        series(results, key).len() > 0,
    decreases results.len(),
{
    if results.len() > 0 {
        let front = results.drop_last();
        if first_seen(front).contains(key) {
            lemma_seen_has_value(front, key);
        } else {
            lemma_extend_from(first_seen(front), keys(results.last()), key);
            lemma_lookup_key(results.last(), key);
        }
    }
}

/// The keys of a list without repetitions extend the empty list to
/// themselves.
proof fn lemma_extend_distinct(list: Seq<MetricView>)
    requires
        distinct(list),
    ensures
        extend(Seq::empty(), keys(list)) == keys(list),
    decreases list.len(),
{
    if list.len() > 0 {
        let front = list.drop_last();
        assert(keys(list).drop_last() =~= keys(front));
        lemma_extend_distinct(front);
        if keys(front).contains(keys(list).last()) {
            let i = choose|i: int| 0 <= i < keys(front).len() && keys(front)[i] == keys(list).last();
            assert(list[i].key == list[list.len() - 1].key);
        }
        assert(keys(front).push(keys(list).last()) =~= keys(list));
    }
}

/// Folding a single iteration returns that iteration unchanged, whatever
/// the operation.
pub proof fn lemma_fold_single(op: Option<FoldOp>, result: Seq<MetricView>)
    requires
        distinct(result),
    ensures
        folded(op, seq![result]) == result.map_values(|metric: MetricView| kept(metric)),
{
    let results = seq![result];
    assert(results.last() == result);
    assert(results.drop_last() =~= Seq::<Seq<MetricView>>::empty());
    match op {
        None => {},
        Some(op) => {
            lemma_extend_distinct(result);
            assert(first_seen(results.drop_last()) =~= Seq::<Key>::empty());
            assert(first_seen(results) == keys(result));
            let unchanged = result.map_values(|metric: MetricView| kept(metric));
            assert forall|i: int| 0 <= i < result.len() implies folded(Some(op), results)[i]
                == unchanged[i] by {
                let key = result[i].key;
                lemma_place(result, key, 0);
                assert(place(result, key, 0) == i);
                assert(series(results.drop_last(), key) =~= Seq::<MetricValue>::empty());
                assert(series(results, key) =~= seq![result[i].value]);
            }
            assert(folded(Some(op), results) =~= unchanged);
        },
    }
}

/// Under `Min` every key folds to the least of its values: one of the
/// values, and none of them is less.
pub proof fn lemma_fold_min(results: Seq<Seq<MetricView>>, at: int)
    requires
        0 <= at < first_seen(results).len(),
    ensures
        ({
            let values = series(results, first_seen(results)[at]);
            &&& folded(Some(FoldOp::Min), results)[at].value matches ReducedView::Exact(least)
            &&& values.contains(least)
            &&& forall|i: int|
                0 <= i < values.len() ==> least.value.key() <= (#[trigger] values[i]).value.key()
        }),
{
    let key = first_seen(results)[at];
    let values = series(results, key);
    lemma_seen_has_value(results, key);
    lemma_first_min(values);
    assert(values.contains(values[first_min(values)]));
    assert(values.contains(values[0]));
}

/// Under `Max` every key folds to the greatest of its values: one of the
/// values, and none of them is greater.
pub proof fn lemma_fold_max(results: Seq<Seq<MetricView>>, at: int)
    requires
        0 <= at < first_seen(results).len(),
    ensures
        ({
            let values = series(results, first_seen(results)[at]);
            &&& folded(Some(FoldOp::Max), results)[at].value matches ReducedView::Exact(most)
            &&& values.contains(most)
            &&& forall|i: int|
                0 <= i < values.len() ==> most.value.key() >= (#[trigger] values[i]).value.key()
        }),
{
    let key = first_seen(results)[at];
    let values = series(results, key);
    lemma_seen_has_value(results, key);
    lemma_first_max(values);
    assert(values.contains(values[first_max(values)]));
    assert(values.contains(values[0]));
}

/// Extending a list without repetitions gives a list without repetitions.
proof fn lemma_extend_no_duplicates(seen: Seq<Key>, more: Seq<Key>)
    requires
        seen.no_duplicates(),
    ensures
        extend(seen, more).no_duplicates(),
    decreases more.len(),
{
    if more.len() > 0 {
        lemma_extend_no_duplicates(seen, more.drop_last());
    }
}

/// No key occurs twice among the keys of all iterations.
pub proof fn lemma_first_seen_no_duplicates(results: Seq<Seq<MetricView>>)
    ensures
        first_seen(results).no_duplicates(),
    decreases results.len(),
{
    if results.len() > 0 {
        lemma_first_seen_no_duplicates(results.drop_last());
        lemma_extend_no_duplicates(first_seen(results.drop_last()), keys(results.last()));
    }
}

/// What iterations fold to holds no key twice, so that it can be settled.
pub proof fn lemma_folded_distinct(op: Option<FoldOp>, results: Seq<Seq<MetricView>>)
    requires
        results.len() > 0 ==> distinct(results.last()),
    ensures
        distinct_keys(folded(op, results)),
{
    match op {
        None => {},
        Some(op) => {
            lemma_first_seen_no_duplicates(results);
        },
    }
}

/// A key, as the two names that make it up.
struct Name {
    benchmark: Vec<u8>,
    measure: Vec<u8>,
}

impl View for Name {
    type V = Key;

    closed spec fn view(&self) -> Key {
        Key { benchmark: self.benchmark@, measure: self.measure@ }
    }
}

spec fn names(list: Seq<Name>) -> Seq<Key> {
    list.map_values(|name: Name| name@)
}

fn holds(list: &Vec<Name>, benchmark: &[u8], measure: &[u8]) -> (found: bool)
    ensures
        found == names(list@).contains(Key { benchmark: benchmark@, measure: measure@ }),
{
    let ghost key = Key { benchmark: benchmark@, measure: measure@ };
    let mut i: usize = 0;
    while i < list.len()
        invariant
            i <= list.len(),
            key == (Key { benchmark: benchmark@, measure: measure@ }),
            forall|k: int| 0 <= k < i ==> (#[trigger] names(list@)[k]) != key,
        decreases list.len() - i,
    {
        assert(names(list@)[i as int] == list@[i as int]@);
        if same(list[i].benchmark.as_slice(), benchmark) && same(
            list[i].measure.as_slice(),
            measure,
        ) {
            return true;
        }
        i += 1;
    }
    false
}

fn collect_names(results: &Vec<BenchmarkResult>) -> (list: Vec<Name>)
    ensures
        names(list@) == first_seen(iterations(results@)),
{
    let ghost all = iterations(results@);
    let mut list: Vec<Name> = Vec::new();
    let mut i: usize = 0;
    assert(all.take(0) =~= Seq::<Seq<MetricView>>::empty());
    assert(names(list@) =~= Seq::<Key>::empty());
    while i < results.len()
        invariant
            i <= results.len(),
            all == iterations(results@),
            names(list@) == first_seen(all.take(i as int)),
        decreases results.len() - i,
    {
        let metrics = results[i].metrics();
        let ghost current = results@[i as int]@;
        proof {
            assert(all.take(i + 1).drop_last() =~= all.take(i as int));
            assert(all.take(i + 1).last() == current);
            assert(keys(current).take(0) =~= Seq::<Key>::empty());
        }
        let ghost start = names(list@);
        let mut j: usize = 0;
        while j < metrics.len()
            invariant
                j <= metrics.len(),
                crate::metric::metrics(metrics@) == current,
                names(list@) == extend(start, keys(current).take(j as int)),
            decreases metrics.len() - j,
        {
            proof {
                assert(keys(current).take(j + 1).drop_last() =~= keys(current).take(j as int));
                assert(keys(current).take(j + 1).last() == metrics@[j as int]@.key);
            }
            let ghost before = names(list@);
            if !holds(&list, metrics[j].benchmark.as_slice(), metrics[j].measure.as_slice()) {
                let name = Name {
                    benchmark: metrics[j].benchmark.clone(),
                    measure: metrics[j].measure.clone(),
                };
                list.push(name);
                assert(names(list@) =~= before.push(metrics@[j as int]@.key));
            }
            j += 1;
        }
        assert(keys(current).take(metrics.len() as int) =~= keys(current));
        i += 1;
    }
    assert(all.take(results.len() as int) =~= all);
    list
}

fn collect_series(results: &Vec<BenchmarkResult>, name: &Name) -> (values: Vec<MetricValue>)
    ensures
        values@ == series(iterations(results@), name@),
{
    let ghost all = iterations(results@);
    let mut values: Vec<MetricValue> = Vec::new();
    let mut i: usize = 0;
    assert(all.take(0) =~= Seq::<Seq<MetricView>>::empty());
    while i < results.len()
        invariant
            i <= results.len(),
            all == iterations(results@),
            values@ == series(all.take(i as int), name@),
        decreases results.len() - i,
    {
        proof {
            assert(all.take(i + 1).drop_last() =~= all.take(i as int));
            assert(all.take(i + 1).last() == results@[i as int]@);
        }
        if let Some(value) = results[i].get(name.benchmark.as_slice(), name.measure.as_slice()) {
            values.push(value);
        }
        i += 1;
    }
    assert(all.take(results.len() as int) =~= all);
    values
}

fn keep_last(result: &BenchmarkResult) -> (list: Vec<Folded>)
    ensures
        folds(list@) == result@.map_values(|metric: MetricView| kept(metric)),
{
    let metrics = result.metrics();
    let mut list: Vec<Folded> = Vec::new();
    let mut i: usize = 0;
    while i < metrics.len()
        invariant
            i <= metrics.len(),
            crate::metric::metrics(metrics@) == result@,
            folds(list@) == result@.take(i as int).map_values(|metric: MetricView| kept(metric)),
        decreases metrics.len() - i,
    {
        let ghost before = folds(list@);
        let entry = Folded {
            benchmark: metrics[i].benchmark.clone(),
            measure: metrics[i].measure.clone(),
            value: Reduced::Exact(metrics[i].value),
        };
        list.push(entry);
        assert(folds(list@) =~= before.push(kept(metrics@[i as int]@)));
        assert(folds(list@) =~= result@.take(i + 1).map_values(|metric: MetricView| kept(metric)));
        i += 1;
    }
    assert(result@.take(metrics.len() as int) =~= result@);
    list
}

/// Folds the results of the iterations, which come in the order in which
/// they were run.
pub fn fold(results: &Vec<BenchmarkResult>, op: Option<FoldOp>) -> (list: Vec<Folded>)
    ensures
        folds(list@) == folded(op, iterations(results@)),
{
    let ghost all = iterations(results@);
    let op = match op {
        None => {
            if results.len() == 0 {
                let list: Vec<Folded> = Vec::new();
                assert(folds(list@) =~= Seq::<FoldedView>::empty());
                return list;
            }
            assert(all.last() == results@[results.len() - 1]@);
            return keep_last(&results[results.len() - 1]);
        },
        Some(op) => op,
    };
    let found = collect_names(results);
    let ghost wanted = folded(Some(op), all);
    let mut list: Vec<Folded> = Vec::new();
    let mut i: usize = 0;
    while i < found.len()
        invariant
            i <= found.len(),
            all == iterations(results@),
            wanted == folded(Some(op), all),
            names(found@) == first_seen(all),
            folds(list@) == wanted.take(i as int),
        decreases found.len() - i,
    {
        let name = &found[i];
        let values = collect_series(results, name);
        proof {
            assert(names(found@)[i as int] == name@);
            assert(first_seen(all).contains(name@));
            lemma_seen_has_value(all, name@);
        }
        let ghost before = folds(list@);
        match reduce(op, &values) {
            Some(value) => {
                let entry = Folded {
                    benchmark: name.benchmark.clone(),
                    measure: name.measure.clone(),
                    value,
                };
                list.push(entry);
                assert(folds(list@) =~= before.push(wanted[i as int]));
                assert(folds(list@) =~= wanted.take(i + 1));
            },
            None => {},
        }
        i += 1;
    }
    assert(wanted.take(found.len() as int) =~= wanted);
    list
}

/// How many entries of the list are means that are still to be computed.
pub open spec fn averages(list: Seq<FoldedView>) -> nat
    decreases list.len(),
{
    if list.len() == 0 {
        0
    } else if list.last().value is Average {
        averages(list.drop_last()) + 1
    } else {
        averages(list.drop_last())
    }
}

/// The value of the entry at `at`, once the means are computed: the value
/// that it has, or else the next of the means, which come in the order of
/// the entries that ask for them.
pub open spec fn settled_value(list: Seq<FoldedView>, means: Seq<MetricValue>, at: int) -> MetricValue {
    match list[at].value {
        ReducedView::Exact(value) => value,
        ReducedView::Average(_) => means[averages(list.take(at)) as int],
    }
}

/// The metrics that a folded list comes to, once its means are computed.
pub open spec fn settled(list: Seq<FoldedView>, means: Seq<MetricValue>) -> Seq<MetricView> {
    Seq::new(
        list.len(),
        |at: int| MetricView { key: list[at].key, value: settled_value(list, means, at) },
    )
}

/// Whether no two entries of the list are of the same measure of the same
/// benchmark.
pub open spec fn distinct_keys(list: Seq<FoldedView>) -> bool {
    forall|i: int, j: int|
        0 <= i < j < list.len() ==> (#[trigger] list[i]).key != (#[trigger] list[j]).key
}

/// A part of a list asks for no more means than the whole.
proof fn lemma_averages_grow(list: Seq<FoldedView>, upto: int)
    requires
        0 <= upto <= list.len(),
    ensures
        averages(list.take(upto)) <= averages(list),
    decreases list.len(),
{
    if upto < list.len() {
        assert(list.drop_last().take(upto) =~= list.take(upto));
        lemma_averages_grow(list.drop_last(), upto);
    } else {
        assert(list.take(upto) =~= list);
    }
}

/// Puts the means that were computed in floating point into a folded list,
/// which gives a result with one value for each measure of each benchmark.
/// There must be one mean for each entry that asks for one, in the order of
/// the entries, and no key may occur twice.
pub fn settle(list: &Vec<Folded>, means: &Vec<MetricValue>) -> (result: Option<BenchmarkResult>)
    ensures
        result is Some <==> averages(folds(list@)) == means@.len() && distinct_keys(folds(list@)),
        result is Some ==> result.unwrap()@ == settled(folds(list@), means@),
{
    let ghost all = folds(list@);
    let ghost wanted = settled(all, means@);
    let mut result = BenchmarkResult::new();
    let mut used: usize = 0;
    let mut i: usize = 0;
    assert(all.take(0) =~= Seq::<FoldedView>::empty());
    while i < list.len()
        invariant
            i <= list.len(),
            all == folds(list@),
            wanted == settled(all, means@),
            used == averages(all.take(i as int)),
            used <= means@.len(),
            result@ == wanted.take(i as int),
            distinct_keys(all.take(i as int)),
        decreases list.len() - i,
    {
        let entry = &list[i];
        proof {
            assert(all.take(i + 1).drop_last() =~= all.take(i as int));
            assert(all.take(i + 1).last() == entry@);
            lemma_averages_grow(all, i + 1);
            lemma_place(result@, entry@.key, 0);
        }
        let value = match &entry.value {
            Reduced::Exact(value) => *value,
            Reduced::Average(_) => {
                if used >= means.len() {
                    return None;
                }
                used += 1;
                means[used - 1]
            },
        };
        if result.get(entry.benchmark.as_slice(), entry.measure.as_slice()).is_some() {
            proof {
                let at = place(result@, entry@.key, 0);
                assert(all[at].key == all[i as int].key);
            }
            return None;
        }
        let ghost before = result@;
        result = result.insert(entry.benchmark.clone(), entry.measure.clone(), value);
        proof {
            assert(result@ =~= wanted.take(i + 1));
            let next = all.take(i + 1);
            assert forall|a: int, b: int| 0 <= a < b < next.len() implies (#[trigger] next[a]).key
                != (#[trigger] next[b]).key by {
                if b < i {
                    assert(all.take(i as int)[a].key != all.take(i as int)[b].key);
                } else {
                    assert(before[a].key == all[a].key);
                }
            }
        }
        i += 1;
    }
    assert(all.take(list.len() as int) =~= all);
    assert(wanted.take(list.len() as int) =~= wanted);
    if used == means.len() {
        Some(result)
    } else {
        None
    }
}

} // verus!
