//! Alerts: the verdict on one metric value held against its boundary.

use vstd::prelude::*;
use vstd::std_specs::convert::FromSpecImpl;
use crate::metric::{BenchmarkResult, MetricView};
use crate::number::Real;

verus! {

/// The side of a boundary that a value fell out on.
#[derive(Debug, Clone, Copy, PartialEq, Eq, Hash, Structural)]
pub enum Side {
    /// Below the lower limit.
    Left,
    /// Above the upper limit.
    Right,
}

impl From<bool> for Side {
    fn from(side: bool) -> (converted: Self) {
        if side {
            Side::Right
        } else {
            Side::Left
        }
    }
}

impl FromSpecImpl<bool> for Side {
    open spec fn obeys_from_spec() -> bool {
        true
    }

    open spec fn from_spec(side: bool) -> Self {
        if side {
            Side::Right
        } else {
            Side::Left
        }
    }
}

impl From<Side> for bool {
    fn from(side: Side) -> (converted: Self) {
        match side {
            Side::Left => false,
            Side::Right => true,
        }
    }
}

impl FromSpecImpl<Side> for bool {
    open spec fn obeys_from_spec() -> bool {
        true
    }

    open spec fn from_spec(side: Side) -> Self {
        side is Right
    }
}

/// The acceptable range of the next value of a measure.
///
/// A side without a limit is not watched. The baseline is the central value
/// that the limits were derived from; limits that were configured as
/// absolute values have none.
#[derive(Debug, Clone, Copy, PartialEq, Eq, Structural)]
pub struct Boundary {
    pub baseline: Option<Real>,
    pub lower_limit: Option<Real>,
    pub upper_limit: Option<Real>,
}

/// A value outside its boundary.
#[derive(Debug, Clone, Copy, PartialEq, Eq, Structural)]
pub struct Alert {
    pub side: Side,
    pub boundary_limit: Real,
    pub outlier_value: Real,
}

impl Boundary {
    /// Whether `value` lies above the upper limit.
    pub open spec fn exceeded_by(self, value: Real) -> bool {
        self.upper_limit is Some && value.key() > self.upper_limit.unwrap().key()
    }

    /// Whether `value` lies below the lower limit.
    pub open spec fn undercut_by(self, value: Real) -> bool {
        self.lower_limit is Some && value.key() < self.lower_limit.unwrap().key()
    }

    /// The alert that `value` raises: the upper limit is looked at first.
    pub open spec fn verdict(self, value: Real) -> Option<Alert> {
        if self.exceeded_by(value) {
            Some(
                Alert {
                    side: Side::Right,
                    boundary_limit: self.upper_limit.unwrap(),
                    outlier_value: value,
                },
            )
        } else if self.undercut_by(value) {
            Some(
                Alert {
                    side: Side::Left,
                    boundary_limit: self.lower_limit.unwrap(),
                    outlier_value: value,
                },
            )
        } else {
            None
        }
    }

    /// Whether the lower limit, where both are set, is not above the upper
    /// one.
    pub open spec fn ordered(self) -> bool {
        self.lower_limit is Some && self.upper_limit is Some
            ==> self.lower_limit.unwrap().key() <= self.upper_limit.unwrap().key()
    }
}

/// Holds `value` against `boundary`.
pub fn evaluate(value: Real, boundary: &Boundary) -> (alert: Option<Alert>)
    ensures
        alert == boundary.verdict(value),
{
    if let Some(upper) = boundary.upper_limit {
        if value.gt(upper) {
            return Some(Alert { side: Side::Right, boundary_limit: upper, outlier_value: value });
        }
    }
    if let Some(lower) = boundary.lower_limit {
        if value.lt(lower) {
            return Some(Alert { side: Side::Left, boundary_limit: lower, outlier_value: value });
        }
    }
    None
}

/// An alert is on the right exactly when the value is above the upper limit,
/// and it then carries that limit and the value.
pub proof fn lemma_right_alert(boundary: Boundary, value: Real)
    ensures
        (boundary.verdict(value) is Some && boundary.verdict(value).unwrap().side is Right)
            <==> boundary.exceeded_by(value),
        boundary.exceeded_by(value) ==> boundary.verdict(value) == Some(
            Alert {
                side: Side::Right,
                boundary_limit: boundary.upper_limit.unwrap(),
                outlier_value: value,
            },
        ),
{
}

/// Where the limits are in order, an alert is on the left exactly when the
/// value is below the lower limit, and no value is out on both sides.
pub proof fn lemma_left_alert(boundary: Boundary, value: Real)
    requires
        boundary.ordered(),
    ensures
        (boundary.verdict(value) is Some && boundary.verdict(value).unwrap().side is Left)
            <==> boundary.undercut_by(value),
        !(boundary.exceeded_by(value) && boundary.undercut_by(value)),
        boundary.verdict(value) is None <==> !boundary.exceeded_by(value) && !boundary.undercut_by(
            value,
        ),
{
}

/// A side without a limit never raises an alert.
pub proof fn lemma_unwatched_side_is_silent(boundary: Boundary, value: Real)
    ensures
        boundary.lower_limit is None ==> !(boundary.verdict(value) is Some
            && boundary.verdict(value).unwrap().side is Left),
        boundary.upper_limit is None ==> !(boundary.verdict(value) is Some
            && boundary.verdict(value).unwrap().side is Right),
        boundary.lower_limit is None && boundary.upper_limit is None ==> boundary.verdict(value)
            is None,
{
}

/// The alert of a metric whose boundary may be missing: without a boundary
/// there is none.
pub open spec fn verdict_of(metric: MetricView, boundary: Option<Boundary>) -> Option<Alert> {
    match boundary {
        Some(boundary) => boundary.verdict(metric.value.value),
        None => None,
    }
}

/// Holds each metric of a result against its boundary. The boundaries come
/// in the order of the metrics, with a gap where a metric has none; a list
/// of another length than the result is not taken. Each metric gets one
/// alert at most, at its own place.
pub fn judge(result: &BenchmarkResult, boundaries: &Vec<Option<Boundary>>) -> (alerts: Option<
    Vec<Option<Alert>>,
>)
    ensures
        alerts is Some <==> boundaries@.len() == result@.len(),
        alerts matches Some(alerts) ==> alerts@.len() == result@.len() && forall|i: int|
            0 <= i < result@.len() ==> #[trigger] alerts@[i] == verdict_of(
                result@[i],
                boundaries@[i],
            ),
{
    let metrics = result.metrics();
    if boundaries.len() != metrics.len() {
        return None;
    }
    let mut alerts: Vec<Option<Alert>> = Vec::new();
    let mut i: usize = 0;
    while i < metrics.len()
        invariant
            i <= metrics.len(),
            boundaries@.len() == metrics@.len(),
            crate::metric::metrics(metrics@) == result@,
            alerts@.len() == i,
            forall|k: int|
                0 <= k < i ==> #[trigger] alerts@[k] == verdict_of(result@[k], boundaries@[k]),
        decreases metrics.len() - i,
    {
        assert(result@[i as int] == metrics@[i as int]@);
        let alert = match &boundaries[i] {
            Some(boundary) => evaluate(metrics[i].value.value, boundary),
            None => None,
        };
        alerts.push(alert);
        i += 1;
    }
    Some(alerts)
}

} // verus!
