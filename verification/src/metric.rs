//! Metrics: the values of the measures of the benchmarks of one run.

use vstd::prelude::*;
use crate::number::{is_finite, Real};
use crate::reading::{readings, Reading, ReadingView};
use crate::text::same;

verus! {

/// The value of a measure, with the bounds that the harness gave for it.
#[derive(Debug, Clone, Copy, PartialEq, Eq, Structural)]
pub struct MetricValue {
    pub value: Real,
    pub lower_bound: Option<Real>,
    pub upper_bound: Option<Real>,
}

/// Whether an optional bit pattern is that of a finite double where it is
/// there.
pub open spec fn finite_if_any(bits: Option<u64>) -> bool {
    bits is Some ==> is_finite(bits.unwrap())
}

/// The bit pattern of an optional number.
pub open spec fn bits_of(number: Option<Real>) -> Option<u64> {
    match number {
        Some(number) => Some(number.bits()),
        None => None,
    }
}

fn optional(bits: Option<u64>) -> (number: Option<Option<Real>>)
    ensures
        number is Some <==> finite_if_any(bits),
        number matches Some(number) ==> bits_of(number) == bits,
{
    match bits {
        None => Some(None),
        Some(bits) => match Real::from_bits(bits) {
            Some(number) => Some(Some(number)),
            None => None,
        },
    }
}

impl MetricValue {
    /// The value with the given bit patterns. A value is always finite, and
    /// so are its bounds: an infinity or a NaN in any of the three places
    /// gives no value.
    pub fn from_bits(value: u64, lower_bound: Option<u64>, upper_bound: Option<u64>) -> (metric:
        Option<MetricValue>)
        ensures
            metric is Some <==> is_finite(value) && finite_if_any(lower_bound) && finite_if_any(
                upper_bound,
            ),
            metric matches Some(metric) ==> {
                &&& metric.value.bits() == value
                &&& bits_of(metric.lower_bound) == lower_bound
                &&& bits_of(metric.upper_bound) == upper_bound
            },
    {
        match (Real::from_bits(value), optional(lower_bound), optional(upper_bound)) {
            (Some(value), Some(lower_bound), Some(upper_bound)) => Some(
                MetricValue { value, lower_bound, upper_bound },
            ),
            _ => None,
        }
    }
}

/// The value of one measure of one benchmark.
#[derive(Debug, PartialEq, Eq)]
pub struct Metric {
    pub benchmark: Vec<u8>,
    pub measure: Vec<u8>,
    pub value: MetricValue,
}

/// A benchmark and one of its measures, by name.
pub struct Key {
    pub benchmark: Seq<u8>,
    pub measure: Seq<u8>,
}

/// [`Metric`] with its names as plain text.
pub struct MetricView {
    pub key: Key,
    pub value: MetricValue,
}

impl View for Metric {
    type V = MetricView;

    open spec fn view(&self) -> MetricView {
        MetricView {
            key: Key { benchmark: self.benchmark@, measure: self.measure@ },
            value: self.value,
        }
    }
}

/// A list of metrics with their names as plain text.
pub open spec fn metrics(list: Seq<Metric>) -> Seq<MetricView> {
    list.map_values(|metric: Metric| metric@)
}

/// Whether no two metrics of the list are of the same measure of the same
/// benchmark.
pub open spec fn distinct(list: Seq<MetricView>) -> bool {
    forall|i: int, j: int| 0 <= i < j < list.len() ==> list[i].key != list[j].key
}

/// The place of the first metric at or after `from` that has the key `key`,
/// or the length of the list if there is none.
pub open spec fn place(list: Seq<MetricView>, key: Key, from: int) -> int
    decreases list.len() - from,
{
    if 0 <= from < list.len() && list[from].key != key {
        place(list, key, from + 1)
    } else {
        from
    }
}

/// The value that the list holds for `key`.
pub open spec fn lookup(list: Seq<MetricView>, key: Key) -> Option<MetricValue> {
    let at = place(list, key, 0);
    if 0 <= at < list.len() {
        Some(list[at].value)
    } else {
        None
    }
}

/// [`place`] finds the key where it is, and runs to the end where it is not.
pub proof fn lemma_place(list: Seq<MetricView>, key: Key, from: int)
    requires
        0 <= from <= list.len(),
    ensures
        from <= place(list, key, from) <= list.len(),
        place(list, key, from) < list.len() ==> list[place(list, key, from)].key == key,
        forall|i: int| from <= i < place(list, key, from) ==> (#[trigger] list[i]).key != key,
    decreases list.len() - from,
{
    if from < list.len() && list[from].key != key {
        lemma_place(list, key, from + 1);
    }
}

/// `list` with the value of `entry` set for its key: in place of the value
/// that the list holds for the key, or else at the end.
pub open spec fn inserted(list: Seq<MetricView>, entry: MetricView) -> Seq<MetricView> {
    let at = place(list, entry.key, 0);
    if at < list.len() {
        list.update(at, entry)
    } else {
        list.push(entry)
    }
}

/// The metrics that readings come to, given the value of each: the
/// readings are taken in order, so that of two readings of one measure of
/// one benchmark the later one counts, at the place of the earlier one.
pub open spec fn gathered(names: Seq<ReadingView>, values: Seq<MetricValue>) -> Seq<MetricView>
    recommends
        names.len() == values.len(),
    decreases names.len(),
{
    if names.len() == 0 || values.len() == 0 {
        Seq::empty()
    } else {
        inserted(
            gathered(names.drop_last(), values.drop_last()),
            MetricView {
                key: Key { benchmark: names.last().benchmark, measure: names.last().measure },
                value: values.last(),
            },
        )
    }
}

/// The metrics of one run: at most one value for each measure of each
/// benchmark, in the order in which the harness reported them.
#[derive(Debug, PartialEq, Eq)]
pub struct BenchmarkResult {
    metrics: Vec<Metric>,
}

impl View for BenchmarkResult {
    type V = Seq<MetricView>;

    closed spec fn view(&self) -> Seq<MetricView> {
        metrics(self.metrics@)
    }
}

impl BenchmarkResult {
    #[verifier::type_invariant]
    spec fn well_formed(self) -> bool {
        distinct(metrics(self.metrics@))
    }

    /// A result without metrics.
    pub fn new() -> (result: Self)
        ensures
            result@ == Seq::<MetricView>::empty(),
    {
        let result = BenchmarkResult { metrics: Vec::new() };
        assert(metrics(result.metrics@) =~= Seq::<MetricView>::empty());
        result
    }

    /// The result that readings come to, given the value of each, in the
    /// order of the readings. There must be as many values as readings.
    pub fn from_readings(list: &Vec<Reading>, values: &Vec<MetricValue>) -> (result: Option<Self>)
        ensures
            result is Some <==> list@.len() == values@.len(),
            result is Some ==> result.unwrap()@ == gathered(readings(list@), values@),
    {
        if list.len() != values.len() {
            return None;
        }
        let ghost names = readings(list@);
        let mut result = BenchmarkResult::new();
        let mut i: usize = 0;
        assert(names.take(0) =~= Seq::<ReadingView>::empty());
        while i < list.len()
            invariant
                i <= list.len(),
                list@.len() == values@.len(),
                names == readings(list@),
                result@ == gathered(names.take(i as int), values@.take(i as int)),
            decreases list.len() - i,
        {
            proof {
                assert(names.take(i + 1).drop_last() =~= names.take(i as int));
                assert(values@.take(i + 1).drop_last() =~= values@.take(i as int));
                assert(names.take(i + 1).last() == list@[i as int]@);
            }
            result = result.insert(list[i].benchmark.clone(), list[i].measure.clone(), values[i]);
            i += 1;
        }
        assert(names.take(list.len() as int) =~= names);
        assert(values@.take(list.len() as int) =~= values@);
        Some(result)
    }

    /// The number of metrics.
    pub fn len(&self) -> (len: usize)
        ensures
            len == self@.len(),
    {
        self.metrics.len()
    }

    /// The metrics, in order. No two of them have the same key.
    pub fn metrics(&self) -> (list: &Vec<Metric>)
        ensures
            metrics(list@) == self@,
            distinct(self@),
    {
        proof {
            use_type_invariant(self);
        }
        &self.metrics
    }

    fn find(&self, benchmark: &[u8], measure: &[u8]) -> (at: usize)
        ensures
            at == place(self@, Key { benchmark: benchmark@, measure: measure@ }, 0),
            at <= self@.len(),
    {
        let ghost key = Key { benchmark: benchmark@, measure: measure@ };
        let mut i: usize = 0;
        while i < self.metrics.len()
            invariant
                i <= self.metrics.len(),
                key == (Key { benchmark: benchmark@, measure: measure@ }),
                place(self@, key, 0) == place(self@, key, i as int),
            decreases self.metrics.len() - i,
        {
            assert(self@[i as int] == self.metrics@[i as int]@);
            if same(self.metrics[i].benchmark.as_slice(), benchmark) && same(
                self.metrics[i].measure.as_slice(),
                measure,
            ) {
                return i;
            }
            i += 1;
        }
        i
    }

    /// The value of a measure of a benchmark, if the result holds one.
    pub fn get(&self, benchmark: &[u8], measure: &[u8]) -> (value: Option<MetricValue>)
        ensures
            value == lookup(self@, Key { benchmark: benchmark@, measure: measure@ }),
    {
        let at = self.find(benchmark, measure);
        if at < self.metrics.len() {
            assert(self@[at as int] == self.metrics@[at as int]@);
            Some(self.metrics[at].value)
        } else {
            None
        }
    }

    /// Sets the value of a measure of a benchmark. A value that the result
    /// already holds for it is replaced where it stands; a new one goes to
    /// the end.
    pub fn insert(self, benchmark: Vec<u8>, measure: Vec<u8>, value: MetricValue) -> (result: Self)
        ensures
            result@ == inserted(
                self@,
                MetricView { key: Key { benchmark: benchmark@, measure: measure@ }, value },
            ),
            lookup(result@, Key { benchmark: benchmark@, measure: measure@ }) == Some(value),
    {
        proof {
            use_type_invariant(&self);
        }
        let ghost key = Key { benchmark: benchmark@, measure: measure@ };
        let ghost before = self@;
        let at = self.find(benchmark.as_slice(), measure.as_slice());
        proof {
            lemma_place(before, key, 0);
        }
        let metric = Metric { benchmark, measure, value };
        let mut list = self.metrics;
        if at < list.len() {
            list.set(at, metric);
            assert(metrics(list@) =~= before.update(at as int, metric@));
        } else {
            list.push(metric);
            assert(metrics(list@) =~= before.push(metric@));
        }
        proof {
            let after = metrics(list@);
            lemma_place(after, key, 0);
            assert(after[at as int].key == key);
        }
        BenchmarkResult { metrics: list }
    }
}

} // verus!
