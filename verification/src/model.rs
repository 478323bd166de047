//! Alerts as they are stored and as they are handed out.

use vstd::prelude::*;
use crate::alert::{Alert, Side};
use crate::number::Real;

verus! {

/// The 128-bit value of the UUID that `text` spells, as `uuid` reads it, or
/// nothing where it reads none.
pub uninterp spec fn uuid_of(text: Seq<char>) -> Option<u128>;

/// Calls `uuid::Uuid::parse_str` and hands out the value of the UUID as
/// `uuid::Uuid::as_u128` gives it. The contract only gives the result its
/// name.
#[verifier::external_body]
fn parse_uuid(text: &str) -> (id: Option<u128>)
    ensures
        id == uuid_of(text@),
{
    uuid::Uuid::parse_str(text).ok().map(|id| id.as_u128())
}

/// Why a stored row cannot be handed out.
#[derive(Debug, Clone, Copy, PartialEq, Eq, Structural)]
pub enum ModelError {
    /// The row does not hold a UUID.
    InvalidUuid,
}

/// An alert as it is stored.
#[derive(Debug, Clone, PartialEq, Eq)]
pub struct QueryAlert {
    pub id: i32,
    pub uuid: String,
    pub perf_id: i32,
    pub threshold_id: i32,
    pub statistic_id: i32,
    /// `false` for the left side, `true` for the right.
    pub side: bool,
    pub boundary: Real,
    pub outlier: Real,
}

/// An alert as it is about to be stored.
#[derive(Debug, Clone, PartialEq, Eq)]
pub struct InsertAlert {
    pub uuid: String,
    pub perf_id: i32,
    pub threshold_id: i32,
    pub statistic_id: i32,
    /// `false` for the left side, `true` for the right.
    pub side: bool,
    pub boundary: Real,
    pub outlier: Real,
}

/// An alert as it is handed out, with what it belongs to by UUID.
#[derive(Debug, Clone, Copy, PartialEq, Eq, Structural)]
pub struct JsonAlert {
    pub uuid: u128,
    pub perf: u128,
    pub threshold: u128,
    pub statistic: u128,
    pub side: Side,
    pub boundary: Real,
    pub outlier: Real,
}

/// The side that a stored flag stands for.
pub open spec fn side_of(flag: bool) -> Side {
    if flag {
        Side::Right
    } else {
        Side::Left
    }
}

impl QueryAlert {
    /// The alert that the row holds.
    pub fn alert(&self) -> (alert: Alert)
        ensures
            alert == (Alert {
                side: side_of(self.side),
                boundary_limit: self.boundary,
                outlier_value: self.outlier,
            }),
    {
        Alert { side: Side::from(self.side), boundary_limit: self.boundary, outlier_value: self.outlier }
    }

    /// The row as it is handed out, given the UUID that its own text was
    /// read as, if it was, and the UUIDs of what it belongs to.
    pub fn with_uuid(self, uuid: Option<u128>, perf: u128, threshold: u128, statistic: u128) -> (json:
        Result<JsonAlert, ModelError>)
        ensures
            json == (match uuid {
                Some(uuid) => Ok(
                    JsonAlert {
                        uuid,
                        perf,
                        threshold,
                        statistic,
                        side: side_of(self.side),
                        boundary: self.boundary,
                        outlier: self.outlier,
                    },
                ),
                None => Err(ModelError::InvalidUuid),
            }),
    {
        match uuid {
            Some(uuid) => Ok(
                JsonAlert {
                    uuid,
                    perf,
                    threshold,
                    statistic,
                    side: Side::from(self.side),
                    boundary: self.boundary,
                    outlier: self.outlier,
                },
            ),
            None => Err(ModelError::InvalidUuid),
        }
    }

    /// The row as it is handed out, given the UUIDs of what it belongs to.
    /// A row whose own UUID cannot be read is not handed out.
    pub fn into_json(self, perf: u128, threshold: u128, statistic: u128) -> (json: Result<
        JsonAlert,
        ModelError,
    >)
        ensures
            json == (match uuid_of(self.uuid@) {
                Some(uuid) => Ok(
                    JsonAlert {
                        uuid,
                        perf,
                        threshold,
                        statistic,
                        side: side_of(self.side),
                        boundary: self.boundary,
                        outlier: self.outlier,
                    },
                ),
                None => Err(ModelError::InvalidUuid),
            }),
    {
        let uuid = parse_uuid(self.uuid.as_str());
        self.with_uuid(uuid, perf, threshold, statistic)
    }
}

impl InsertAlert {
    /// The row for an alert, under the UUID that it is given.
    pub fn from_alert(uuid: String, perf_id: i32, threshold_id: i32, statistic_id: i32, alert: Alert) -> (row:
        InsertAlert)
        ensures
            row == (InsertAlert {
                uuid,
                perf_id,
                threshold_id,
                statistic_id,
                side: alert.side is Right,
                boundary: alert.boundary_limit,
                outlier: alert.outlier_value,
            }),
            side_of(row.side) == alert.side,
    {
        InsertAlert {
            uuid,
            perf_id,
            threshold_id,
            statistic_id,
            side: bool::from(alert.side),
            boundary: alert.boundary_limit,
            outlier: alert.outlier_value,
        }
    }
}

} // verus!
