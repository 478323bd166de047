//! Boundaries: which part of the history of a measure counts, and what can
//! be said of its limits without arithmetic.
//!
//! Means, deviations and quantiles are computed in floating point, outside
//! this library. What is decided here is whether there is a boundary at
//! all, which historical values it is drawn from, and which of its sides
//! are watched.

use vstd::prelude::*;
use crate::alert::Boundary;
use crate::metric::MetricValue;
use crate::number::Real;
use crate::reduce::{lemma_sort, sort, sorted};

verus! {

/// The statistical test behind a boundary.
#[derive(Debug, Clone, Copy, PartialEq, Eq, Hash, Structural)]
pub enum TestKind {
    /// Limits a number of standard deviations away from the mean.
    Zscore,
    /// As `Zscore`, widened for small samples by Student's t distribution.
    Ttest,
    /// Limits a fraction of the mean away from the mean.
    Percentage,
    /// Limits a multiple of the interquartile range away from the median.
    InterquartileRange,
    /// Limits that are configured as absolute values.
    Static,
}

/// How the boundary of a measure is computed.
#[derive(Debug, Clone, Copy, PartialEq, Eq, Structural)]
pub struct Statistic {
    pub test_kind: TestKind,
    /// The least number of historical values for which there is a boundary.
    pub min_sample_size: u32,
    /// The greatest number of historical values that are looked at.
    pub max_sample_size: Option<u32>,
    /// How many seconds back from the evaluation historical values count.
    pub window: Option<u64>,
    /// A probability or a factor, or for `Static` the lower limit itself.
    pub lower_boundary: Option<Real>,
    /// A probability or a factor, or for `Static` the upper limit itself.
    pub upper_boundary: Option<Real>,
}

/// Whether an optional number is a probability where it is there.
pub open spec fn probable_if_any(number: Option<Real>) -> bool {
    number is Some ==> number.unwrap().probable()
}

impl Statistic {
    /// Whether the kind is one whose boundaries are probabilities.
    pub open spec fn probabilistic(self) -> bool {
        self.test_kind is Zscore || self.test_kind is Ttest
    }

    /// Whether the boundaries are what the kind takes: probabilities
    /// between zero and one for `Zscore` and `Ttest`, any numbers for the
    /// other kinds.
    pub open spec fn well_formed(self) -> bool {
        self.probabilistic() ==> probable_if_any(self.lower_boundary) && probable_if_any(
            self.upper_boundary,
        )
    }

    /// Whether the boundaries are what the kind takes.
    pub fn check(&self) -> (valid: bool)
        ensures
            valid == self.well_formed(),
    {
        match self.test_kind {
            TestKind::Zscore | TestKind::Ttest => {
                let lower = match self.lower_boundary {
                    Some(lower) => lower.is_probability(),
                    None => true,
                };
                let upper = match self.upper_boundary {
                    Some(upper) => upper.is_probability(),
                    None => true,
                };
                lower && upper
            },
            _ => true,
        }
    }
}

/// A historical value of a measure.
#[derive(Debug, Clone, Copy, PartialEq, Eq, Structural)]
pub struct Sample {
    /// When it was measured, in seconds since the Unix epoch.
    pub time: i64,
    pub value: Real,
}

/// A boundary that is still to be computed from a sample.
#[derive(Debug, PartialEq, Eq)]
pub struct Estimate {
    /// `Zscore`, `Ttest`, `Percentage` or `InterquartileRange`.
    pub test_kind: TestKind,
    /// The historical values to compute it from, oldest first. There is at
    /// least one, and for all kinds but `Percentage` they are not all equal.
    pub sample: Vec<Real>,
    pub lower_boundary: Option<Real>,
    pub upper_boundary: Option<Real>,
}

/// What is known of a boundary before any arithmetic.
#[derive(Debug, PartialEq, Eq)]
pub enum Computation {
    /// The boundary itself.
    Limits(Boundary),
    /// What the boundary is to be computed from.
    Deferred(Estimate),
}

/// [`Computation`] with the sample as a sequence.
pub enum ComputationView {
    Limits(Boundary),
    Deferred {
        test_kind: TestKind,
        sample: Seq<Real>,
        lower_boundary: Option<Real>,
        upper_boundary: Option<Real>,
    },
}

impl View for Computation {
    type V = ComputationView;

    open spec fn view(&self) -> ComputationView {
        match self {
            Computation::Limits(boundary) => ComputationView::Limits(*boundary),
            Computation::Deferred(estimate) => ComputationView::Deferred {
                test_kind: estimate.test_kind,
                sample: estimate.sample@,
                lower_boundary: estimate.lower_boundary,
                upper_boundary: estimate.upper_boundary,
            },
        }
    }
}

/// Whether a value measured at `time` counts at the evaluation time `now`:
/// without a window every value does, with one those that are not older
/// than the window is long.
pub open spec fn in_window(time: i64, now: i64, window: Option<u64>) -> bool {
    match window {
        None => true,
        Some(window) => now - time <= window,
    }
}

/// The values of `population` that count at `now`, in order.
pub open spec fn windowed(population: Seq<Sample>, now: i64, window: Option<u64>) -> Seq<Sample> {
    population.filter(|sample: Sample| in_window(sample.time, now, window))
}

/// The last `max` values of `list`, or all of them where there are fewer or
/// there is no maximum.
pub open spec fn most_recent(list: Seq<Sample>, max: Option<u32>) -> Seq<Sample> {
    match max {
        Some(max) if list.len() > max => list.skip(list.len() - max),
        _ => list,
    }
}

/// The historical values that a boundary is drawn from: those in the
/// window, and of these the most recent.
pub open spec fn selected(population: Seq<Sample>, statistic: Statistic, now: i64) -> Seq<Real> {
    most_recent(windowed(population, now, statistic.window), statistic.max_sample_size).map_values(
        |sample: Sample| sample.value,
    )
}

/// Whether all values are numerically equal.
pub open spec fn all_equal(values: Seq<Real>) -> bool {
    forall|i: int| 0 <= i < values.len() ==> (#[trigger] values[i]).key() == values[0].key()
}

/// The side of a boundary that is watched only if it is configured.
pub open spec fn watched(configured: Option<Real>, limit: Option<Real>) -> Option<Real> {
    if configured is Some {
        limit
    } else {
        None
    }
}

/// What is known of the boundary.
///
/// There is none for a population under the minimum sample size, and none
/// for a statistic whose boundaries are not what its kind takes. `Static`
/// limits are the configured values, and the population is not looked at.
/// The other kinds are drawn from the selected values and need one at least.
/// Where the spread of the sample is zero because its values are all equal,
/// the limits of `Zscore`, `Ttest` and `InterquartileRange` are the
/// baseline, which is that value. Everything else is left to be computed.
pub open spec fn computation(population: Seq<Sample>, statistic: Statistic, now: i64) -> Option<
    ComputationView,
> {
    let sample = selected(population, statistic, now);
    if population.len() < statistic.min_sample_size || !statistic.well_formed() {
        None
    } else if statistic.test_kind is Static {
        Some(
            ComputationView::Limits(
                Boundary {
                    baseline: None,
                    lower_limit: statistic.lower_boundary,
                    upper_limit: statistic.upper_boundary,
                },
            ),
        )
    } else if sample.len() == 0 {
        None
    } else if !(statistic.test_kind is Percentage) && all_equal(sample) {
        Some(
            ComputationView::Limits(
                Boundary {
                    baseline: Some(sample[0]),
                    lower_limit: watched(statistic.lower_boundary, Some(sample[0])),
                    upper_limit: watched(statistic.upper_boundary, Some(sample[0])),
                },
            ),
        )
    } else {
        Some(
            ComputationView::Deferred {
                test_kind: statistic.test_kind,
                sample,
                lower_boundary: statistic.lower_boundary,
                upper_boundary: statistic.upper_boundary,
            },
        )
    }
}

fn counts(time: i64, now: i64, window: Option<u64>) -> (inside: bool)
    ensures
        inside == in_window(time, now, window),
{
    match window {
        None => true,
        Some(window) => now as i128 - time as i128 <= window as i128,
    }
}

/// The historical values that a boundary is drawn from.
pub fn select(population: &Vec<Sample>, statistic: &Statistic, now: i64) -> (sample: Vec<Real>)
    ensures
        sample@ == selected(population@, *statistic, now),
{
    let ghost keep = |sample: Sample| in_window(sample.time, now, statistic.window);
    let mut inside: Vec<Sample> = Vec::new();
    let mut i: usize = 0;
    assert(population@.take(0) =~= Seq::<Sample>::empty());
    assert(inside@ =~= population@.take(0).filter(keep)) by {
        reveal(Seq::filter);
    }
    while i < population.len()
        invariant
            i <= population.len(),
            keep == |sample: Sample| in_window(sample.time, now, statistic.window),
            inside@ == population@.take(i as int).filter(keep),
        decreases population.len() - i,
    {
        proof {
            let next = population@.take(i + 1);
            assert(next.drop_last() =~= population@.take(i as int));
            assert(next.last() == population@[i as int]);
            reveal(Seq::filter);
        }
        if counts(population[i].time, now, statistic.window) {
            inside.push(population[i]);
        }
        i += 1;
    }
    assert(population@.take(population.len() as int) =~= population@);
    let first: usize = match statistic.max_sample_size {
        Some(max) => if inside.len() > max as usize {
            inside.len() - max as usize
        } else {
            0
        },
        None => 0,
    };
    let ghost recent = most_recent(inside@, statistic.max_sample_size);
    assert(recent =~= inside@.skip(first as int));
    let mut sample: Vec<Real> = Vec::new();
    let mut j: usize = first;
    while j < inside.len()
        invariant
            first <= j <= inside.len(),
            recent == inside@.skip(first as int),
            sample@ == recent.take(j - first).map_values(|sample: Sample| sample.value),
        decreases inside.len() - j,
    {
        let ghost before = sample@;
        sample.push(inside[j].value);
        assert(sample@ =~= recent.take(j + 1 - first).map_values(|sample: Sample| sample.value));
        j += 1;
    }
    assert(recent.take(inside.len() - first) =~= recent);
    sample
}

fn uniform(values: &Vec<Real>) -> (same: bool)
    requires
        values.len() > 0,
    ensures
        same == all_equal(values@),
{
    let mut i: usize = 1;
    while i < values.len()
        invariant
            1 <= i <= values.len(),
            forall|k: int| 0 <= k < i ==> (#[trigger] values@[k]).key() == values@[0].key(),
        decreases values.len() - i,
    {
        if !values[i].equals(values[0]) {
            return false;
        }
        i += 1;
    }
    true
}

/// Works out what is known of the boundary of a measure at the evaluation
/// time `now`, from its historical values, which come oldest first.
pub fn compute(population: &Vec<Sample>, statistic: &Statistic, now: i64) -> (found: Option<
    Computation,
>)
    ensures
        match found {
            Some(found) => computation(population@, *statistic, now) == Some(found@),
            None => computation(population@, *statistic, now) is None,
        },
{
    if population.len() < statistic.min_sample_size as usize || !statistic.check() {
        return None;
    }
    if let TestKind::Static = statistic.test_kind {
        return Some(
            Computation::Limits(
                Boundary {
                    baseline: None,
                    lower_limit: statistic.lower_boundary,
                    upper_limit: statistic.upper_boundary,
                },
            ),
        );
    }
    let sample = select(population, statistic, now);
    if sample.len() == 0 {
        return None;
    }
    let spread_matters = match statistic.test_kind {
        TestKind::Percentage => false,
        _ => true,
    };
    if spread_matters && uniform(&sample) {
        let baseline = sample[0];
        let lower_limit = if statistic.lower_boundary.is_some() {
            Some(baseline)
        } else {
            None
        };
        let upper_limit = if statistic.upper_boundary.is_some() {
            Some(baseline)
        } else {
            None
        };
        return Some(
            Computation::Limits(Boundary { baseline: Some(baseline), lower_limit, upper_limit }),
        );
    }
    Some(
        Computation::Deferred(
            Estimate {
                test_kind: statistic.test_kind,
                sample,
                lower_boundary: statistic.lower_boundary,
                upper_boundary: statistic.upper_boundary,
            },
        ),
    )
}

/// The middle of an ordered list: its middle value, or the two values in
/// the middle, whose mean it then is.
#[derive(Debug, Clone, Copy, PartialEq, Eq, Structural)]
pub enum Middle {
    One(Real),
    Two(Real, Real),
}

/// The values by which a sample is split into quarters: the middle of the
/// sample, and the middles of its lower and its upper half. The halves
/// leave out the middle value of a sample of odd size.
#[derive(Debug, Clone, Copy, PartialEq, Eq, Structural)]
pub struct Quartiles {
    pub first: Middle,
    pub median: Middle,
    pub third: Middle,
}

/// A number as a value without bounds.
pub open spec fn bare(number: Real) -> MetricValue {
    MetricValue { value: number, lower_bound: None, upper_bound: None }
}

/// The sample in ascending order; numbers that are numerically equal keep
/// the order in which they came.
pub open spec fn ordered(sample: Seq<Real>) -> Seq<Real> {
    sort(sample.map_values(|number: Real| bare(number))).map_values(
        |value: MetricValue| value.value,
    )
}

/// The middle of an ordered list that is not empty.
pub open spec fn middle(list: Seq<Real>) -> Middle
    recommends
        list.len() > 0,
{
    let half = list.len() / 2;
    if list.len() % 2 == 1 {
        Middle::One(list[half as int])
    } else {
        Middle::Two(list[half - 1], list[half as int])
    }
}

/// The quartiles of a sample of two values or more.
pub open spec fn quartiles(sample: Seq<Real>) -> Quartiles
    recommends
        sample.len() >= 2,
{
    let list = ordered(sample);
    let half = list.len() / 2;
    Quartiles {
        first: middle(list.take(half as int)),
        median: middle(list),
        third: middle(list.skip(list.len() - half)),
    }
}

/// The ordered sample ascends and is as long as the sample.
pub proof fn lemma_ordered(sample: Seq<Real>)
    ensures
        ordered(sample).len() == sample.len(),
        forall|i: int, j: int|
            0 <= i < j < sample.len() ==> ordered(sample)[i].key() <= ordered(sample)[j].key(),
{
    let values = sample.map_values(|number: Real| bare(number));
    lemma_sort(values);
    assert forall|i: int, j: int| 0 <= i < j < sample.len() implies ordered(sample)[i].key()
        <= ordered(sample)[j].key() by {
        assert(sort(values)[i].value.key() <= sort(values)[j].value.key());
    }
}

fn middle_of(list: &Vec<Real>, from: usize, to: usize) -> (found: Middle)
    requires
        from < to <= list.len(),
    ensures
        found == middle(list@.subrange(from as int, to as int)),
{
    let len = to - from;
    let half = len / 2;
    if len % 2 == 1 {
        Middle::One(list[from + half])
    } else {
        Middle::Two(list[from + half - 1], list[from + half])
    }
}

impl Estimate {
    /// The degrees of freedom of the sample, by which Student's t
    /// distribution is chosen: one less than its size. A sample of fewer
    /// than two values has none.
    pub fn freedom(&self) -> (freedom: Option<usize>)
        ensures
            freedom is Some <==> self.sample@.len() >= 2,
            freedom is Some ==> freedom.unwrap() == self.sample@.len() - 1,
    {
        if self.sample.len() >= 2 {
            Some(self.sample.len() - 1)
        } else {
            None
        }
    }

    /// The quartiles of the sample, which has them if it has two values or
    /// more.
    pub fn quartiles(&self) -> (found: Option<Quartiles>)
        ensures
            found is Some <==> self.sample@.len() >= 2,
            found is Some ==> found.unwrap() == quartiles(self.sample@),
    {
        if self.sample.len() < 2 {
            return None;
        }
        let ghost values = self.sample@.map_values(|number: Real| bare(number));
        let mut input: Vec<MetricValue> = Vec::new();
        let mut i: usize = 0;
        while i < self.sample.len()
            invariant
                i <= self.sample.len(),
                input@ == self.sample@.take(i as int).map_values(|number: Real| bare(number)),
            decreases self.sample.len() - i,
        {
            input.push(MetricValue { value: self.sample[i], lower_bound: None, upper_bound: None });
            assert(input@ =~= self.sample@.take(i + 1).map_values(|number: Real| bare(number)));
            i += 1;
        }
        assert(self.sample@.take(self.sample.len() as int) =~= self.sample@);
        let output = sorted(&input);
        let mut list: Vec<Real> = Vec::new();
        let mut j: usize = 0;
        while j < output.len()
            invariant
                j <= output.len(),
                list@ == output@.take(j as int).map_values(|value: MetricValue| value.value),
            decreases output.len() - j,
        {
            list.push(output[j].value);
            assert(list@ =~= output@.take(j + 1).map_values(|value: MetricValue| value.value));
            j += 1;
        }
        assert(output@.take(output.len() as int) =~= output@);
        assert(list@ == ordered(self.sample@));
        let len = list.len();
        let half = len / 2;
        assert(list@.take(half as int) =~= list@.subrange(0, half as int));
        assert(list@.skip(len - half) =~= list@.subrange(len - half, len as int));
        assert(list@ =~= list@.subrange(0, len as int));
        Some(
            Quartiles {
                first: middle_of(&list, 0, half),
                median: middle_of(&list, 0, len),
                third: middle_of(&list, len - half, len),
            },
        )
    }

    /// The boundary, once the baseline and the limits were computed. A limit
    /// is kept only on a side that is configured.
    pub fn settle(&self, baseline: Real, lower_limit: Option<Real>, upper_limit: Option<Real>) -> (boundary:
        Boundary)
        ensures
            boundary.baseline == Some(baseline),
            boundary.lower_limit == watched(self.lower_boundary, lower_limit),
            boundary.upper_limit == watched(self.upper_boundary, upper_limit),
    {
        Boundary {
            baseline: Some(baseline),
            lower_limit: if self.lower_boundary.is_some() {
                lower_limit
            } else {
                None
            },
            upper_limit: if self.upper_boundary.is_some() {
                upper_limit
            } else {
                None
            },
        }
    }
}

/// A population under the minimum sample size has no boundary.
pub proof fn lemma_small_population(population: Seq<Sample>, statistic: Statistic, now: i64)
    requires
        population.len() < statistic.min_sample_size,
    ensures
        computation(population, statistic, now) is None,
{
}

/// What is selected is never more than the maximum sample size, and never
/// more than the population.
pub proof fn lemma_selected_len(population: Seq<Sample>, statistic: Statistic, now: i64)
    ensures
        selected(population, statistic, now).len() <= population.len(),
        statistic.max_sample_size matches Some(max) ==> selected(population, statistic, now).len()
            <= max,
{
    let keep = |sample: Sample| in_window(sample.time, now, statistic.window);
    population.lemma_filter_len(keep);
}

/// What is left to be computed for `Zscore` and `Ttest` is computed from
/// probabilities, and from a sample of two values at least.
pub proof fn lemma_deferred_probabilities(population: Seq<Sample>, statistic: Statistic, now: i64)
    ensures
        computation(population, statistic, now) matches Some(
            ComputationView::Deferred { test_kind, sample, lower_boundary, upper_boundary },
        ) ==> {
            &&& test_kind == statistic.test_kind
            &&& !(test_kind is Static)
            &&& sample.len() >= 1
            &&& (test_kind is Zscore || test_kind is Ttest) ==> {
                &&& probable_if_any(lower_boundary)
                &&& probable_if_any(upper_boundary)
                &&& sample.len() >= 2
            }
        },
{
    let sample = selected(population, statistic, now);
    if sample.len() == 1 {
        assert(all_equal(sample));
    }
}

/// A side that is not configured has no limit, whatever the history.
pub proof fn lemma_unconfigured_side(population: Seq<Sample>, statistic: Statistic, now: i64)
    ensures
        computation(population, statistic, now) matches Some(ComputationView::Limits(boundary))
            ==> (statistic.lower_boundary is None ==> boundary.lower_limit is None) && (
        statistic.upper_boundary is None ==> boundary.upper_limit is None),
{
}

/// Where the values of the sample are all equal, the limits of the kinds
/// that go by the spread are the baseline.
pub proof fn lemma_zero_spread(population: Seq<Sample>, statistic: Statistic, now: i64)
    requires
        population.len() >= statistic.min_sample_size,
        statistic.well_formed(),
        statistic.test_kind is Zscore || statistic.test_kind is Ttest
            || statistic.test_kind is InterquartileRange,
        selected(population, statistic, now).len() > 0,
        all_equal(selected(population, statistic, now)),
    ensures
        computation(population, statistic, now) matches Some(ComputationView::Limits(boundary))
            && boundary.baseline == Some(selected(population, statistic, now)[0]) && (
        boundary.lower_limit is Some ==> boundary.lower_limit == boundary.baseline) && (
        boundary.upper_limit is Some ==> boundary.upper_limit == boundary.baseline) && (
        boundary.lower_limit is Some <==> statistic.lower_boundary is Some) && (
        boundary.upper_limit is Some <==> statistic.upper_boundary is Some),
{
}

/// Where the limits of `Zscore` or `Ttest` are known without arithmetic, a
/// greater upper probability does not give a lower upper limit: the limit
/// is the same for every probability.
pub proof fn lemma_probability_keeps_limit(
    population: Seq<Sample>,
    statistic: Statistic,
    greater: Real,
    now: i64,
)
    requires
        statistic.probabilistic(),
        statistic.well_formed(),
        statistic.upper_boundary is Some,
        greater.probable(),
        statistic.upper_boundary.unwrap().key() <= greater.key(),
    ensures
        ({
            let raised = Statistic { upper_boundary: Some(greater), ..statistic };
            match (computation(population, statistic, now), computation(population, raised, now)) {
                (
                    Some(ComputationView::Limits(before)),
                    Some(ComputationView::Limits(after)),
                ) => before.upper_limit is Some && after.upper_limit is Some
                    && before.upper_limit.unwrap().key() <= after.upper_limit.unwrap().key()
                    && before.lower_limit == after.lower_limit && before.baseline
                    == after.baseline,
                (Some(ComputationView::Deferred { sample: before, .. }), Some(
                    ComputationView::Deferred { sample: after, .. },
                )) => before == after,
                (None, None) => true,
                _ => false,
            }
        }),
{
    let raised = Statistic { upper_boundary: Some(greater), ..statistic };
    assert(selected(population, statistic, now) == selected(population, raised, now));
}

} // verus!
