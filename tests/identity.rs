use bullshark::activity_controller::ActivityController;
use bullshark::error::ApiError;
use bullshark::models::{ActivityTime, ClubActivity, ClubAthlete};

fn record(first: &str, last: &str, distance: Option<u64>, moving: i64, elapsed: i64) -> ClubActivity {
    ClubActivity {
        resource_state: Some(2),
        athlete: Some(ClubAthlete {
            resource_state: Some(2),
            first_name: Some(first.to_string()),
            last_name: Some(last.to_string()),
        }),
        name: Some("Morning Run".to_string()),
        distance,
        moving_time: Some(moving),
        elapsed_time: Some(elapsed),
        total_elevation_gain: Some(12_500),
        sport_type: Some("Run".to_string()),
        workout_type: None,
        device_name: Some("Watch".to_string()),
    }
}

fn controller() -> ActivityController {
    ActivityController::new(20437)
}

const BATCH: ActivityTime = ActivityTime { utc_seconds: 1736272800, offset_seconds: 0 };

#[test]
fn identifier_is_sha256_of_joined_fields() {
    let c = controller();
    let h = c.create_hash_for_activity(&record("Jane", "Doe", Some(5_000_000), 1500, 1600)).unwrap();
    assert_eq!(h, "4040bf38ae015973829dceaf24931d74faebdc547ab46a3de50e5e94c908afe7");
}

#[test]
fn fractional_distance_reads_as_shortest_decimal() {
    let c = controller();
    let h = c.create_hash_for_activity(&record("Jane", "Doe", Some(5_012_300), 1500, 1600)).unwrap();
    assert_eq!(h, "d3f4ba1bafbfc02e520f48cf2695f8ea509117c25effc0b147d1e47e3ece5f6e");
    assert_eq!(format!("{}", 5012.3f64), "5012.3");
    assert_eq!(format!("{}", 5000.0f64), "5000");
}

#[test]
fn identical_fields_give_identical_identifiers() {
    let c = controller();
    let mut a = record("Jane", "Doe", Some(5_000_000), 1500, 1600);
    let b = record("Jane", "Doe", Some(5_000_000), 1500, 1600);
    a.name = Some("Evening Run".to_string());
    a.device_name = None;
    assert_eq!(c.create_hash_for_activity(&a).unwrap(), c.create_hash_for_activity(&b).unwrap());
}

#[test]
fn any_identity_field_changes_the_identifier() {
    let c = controller();
    let base = c.create_hash_for_activity(&record("Jane", "Doe", Some(5_000_000), 1500, 1600)).unwrap();
    let variants = vec![
        record("Jana", "Doe", Some(5_000_000), 1500, 1600),
        record("Jane", "Do", Some(5_000_000), 1500, 1600),
        record("Jane", "Doe", Some(5_000_001), 1500, 1600),
        record("Jane", "Doe", Some(5_000_000), 1501, 1600),
        record("Jane", "Doe", Some(5_000_000), 1500, -1600),
    ];
    for v in variants {
        assert_ne!(c.create_hash_for_activity(&v).unwrap(), base);
    }
}

#[test]
fn missing_distance_is_a_conversion_error() {
    let c = controller();
    let r = c.convert_activity_to_bullshark_activity(&record("Jane", "Doe", None, 1500, 1600), BATCH);
    assert!(matches!(r, Err(ApiError::ConversionError(_))));
}

#[test]
fn missing_athlete_or_names_is_a_conversion_error() {
    let c = controller();
    let mut a = record("Jane", "Doe", Some(1), 1, 1);
    a.athlete = None;
    assert!(matches!(c.create_hash_for_activity(&a), Err(ApiError::ConversionError(_))));
    let mut b = record("Jane", "Doe", Some(1), 1, 1);
    b.athlete.as_mut().unwrap().last_name = None;
    assert!(matches!(c.create_hash_for_activity(&b), Err(ApiError::ConversionError(_))));
    let mut m = record("Jane", "Doe", Some(1), 1, 1);
    m.moving_time = None;
    assert!(matches!(c.create_hash_for_activity(&m), Err(ApiError::ConversionError(_))));
}

#[test]
fn conversion_keeps_fields_and_names_the_athlete() {
    let c = controller();
    let b = c.convert_activity_to_bullshark_activity(&record("Jane", "Doe", Some(5_000_000), 1500, 1600), BATCH).unwrap();
    assert_eq!(b.id, "4040bf38ae015973829dceaf24931d74faebdc547ab46a3de50e5e94c908afe7");
    assert_eq!(b.athlete_name.as_deref(), Some("Jane Doe"));
    assert_eq!(b.date, BATCH);
    assert_eq!(b.distance, Some(5_000_000));
    assert_eq!(b.moving_time, Some(1500));
    assert_eq!(b.elapsed_time, Some(1600));
    assert_eq!(b.total_elevation_gain, Some(12_500));
    assert_eq!(b.sport_type.as_deref(), Some("Run"));
    assert_eq!(b.name.as_deref(), Some("Morning Run"));
    assert_eq!(b.device_name.as_deref(), Some("Watch"));
    assert_eq!(b.resource_state, Some(2));
}

#[test]
fn batch_with_one_bad_record_is_rejected_whole() {
    let c = controller();
    let batch = vec![
        record("Jane", "Doe", Some(5_000_000), 1500, 1600),
        record("Sam", "Lee", None, 1500, 1600),
        record("Ann", "Roe", Some(3_000_000), 900, 950),
    ];
    assert!(matches!(c.convert_activities(&batch, BATCH), Err(ApiError::ConversionError(_))));
}

#[test]
fn batch_shares_one_timestamp() {
    let c = controller();
    let batch = vec![
        record("Jane", "Doe", Some(5_000_000), 1500, 1600),
        record("Ann", "Roe", Some(3_000_000), 900, 950),
    ];
    let out = c.convert_activities(&batch, BATCH).unwrap();
    assert_eq!(out.len(), 2);
    assert!(out.iter().all(|b| b.date == BATCH));
    assert_eq!(out[1].athlete_name.as_deref(), Some("Ann Roe"));
}

#[test]
fn empty_batch_converts_to_nothing() {
    let c = controller();
    assert_eq!(c.convert_activities(&vec![], BATCH).unwrap().len(), 0);
}
