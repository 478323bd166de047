use bencher_core::alert::{Alert, Side};
use bencher_core::model::{InsertAlert, JsonAlert, ModelError, QueryAlert};
use bencher_core::number::Real;
use bencher_core::version::VersionNumber;

fn num(value: f64) -> Real {
    Real::from_bits(value.to_bits()).unwrap()
}

fn row(uuid: &str, side: bool) -> QueryAlert {
    QueryAlert {
        id: 1,
        uuid: uuid.to_string(),
        perf_id: 2,
        threshold_id: 3,
        statistic_id: 4,
        side,
        boundary: num(20.0),
        outlier: num(25.0),
    }
}

#[test]
fn a_stored_alert_is_handed_out_with_its_uuid() {
    let json = row("a1a2a3a4-b1b2-c1c2-d1d2-d3d4d5d6d7d8", true).into_json(7, 8, 9);
    assert_eq!(
        json,
        Ok(JsonAlert {
            uuid: 0xa1a2a3a4b1b2c1c2d1d2d3d4d5d6d7d8,
            perf: 7,
            threshold: 8,
            statistic: 9,
            side: Side::Right,
            boundary: num(20.0),
            outlier: num(25.0),
        })
    );
    let json = row("A1A2A3A4B1B2C1C2D1D2D3D4D5D6D7D8", false).into_json(7, 8, 9).unwrap();
    assert_eq!(json.uuid, 0xa1a2a3a4b1b2c1c2d1d2d3d4d5d6d7d8);
    assert_eq!(json.side, Side::Left);
}

#[test]
fn a_row_without_a_uuid_is_not_handed_out() {
    for text in ["", "not a uuid", "a1a2a3a4-b1b2-c1c2-d1d2-d3d4d5d6d7d", "7"] {
        assert_eq!(row(text, true).into_json(7, 8, 9), Err(ModelError::InvalidUuid));
    }
    assert_eq!(row("anything", true).with_uuid(None, 7, 8, 9), Err(ModelError::InvalidUuid));
    assert_eq!(row("anything", true).with_uuid(Some(5), 7, 8, 9).unwrap().uuid, 5);
}

#[test]
fn an_alert_is_stored_and_read_back() {
    for side in [Side::Left, Side::Right] {
        let alert = Alert { side, boundary_limit: num(10.0), outlier_value: num(5.0) };
        let stored = InsertAlert::from_alert("id".to_string(), 2, 3, 4, alert);
        assert_eq!(stored.side, side == Side::Right);
        assert_eq!((stored.perf_id, stored.threshold_id, stored.statistic_id), (2, 3, 4));
        let read = QueryAlert {
            id: 1,
            uuid: stored.uuid,
            perf_id: stored.perf_id,
            threshold_id: stored.threshold_id,
            statistic_id: stored.statistic_id,
            side: stored.side,
            boundary: stored.boundary,
            outlier: stored.outlier,
        };
        assert_eq!(read.alert(), alert);
    }
}

#[test]
fn version_numbers_are_stored_as_signed_integers() {
    assert_eq!(VersionNumber(0).to_sql(), Some(0));
    assert_eq!(VersionNumber(7).to_sql(), Some(7));
    assert_eq!(VersionNumber(i32::MAX as u32).to_sql(), Some(i32::MAX));
    assert_eq!(VersionNumber(i32::MAX as u32 + 1).to_sql(), None);
    assert_eq!(VersionNumber(u32::MAX).to_sql(), None);
    assert_eq!(VersionNumber::from_sql(0), Some(VersionNumber(0)));
    assert_eq!(VersionNumber::from_sql(i32::MAX), Some(VersionNumber(i32::MAX as u32)));
    assert_eq!(VersionNumber::from_sql(-1), None);
    assert_eq!(VersionNumber::from_sql(i32::MIN), None);
}
