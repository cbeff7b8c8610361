use bullshark::calendar::{pacific_time, this_month_window, this_week_window, week_day_of};
use bullshark::trigger::authorize_trigger;
use bullshark::error::ApiError;
use bullshark::health::health_status;
use bullshark::models::{ActivityTime, BullSharkActivity};
use bullshark::roster::distinct_athlete_names;

#[test]
fn week_window_in_winter() {
    assert_eq!(this_week_window(1736359200).unwrap(), (1736150400, 1736755199));
}

#[test]
fn week_window_in_daylight_time() {
    assert_eq!(this_week_window(1742040000).unwrap(), (1741590000, 1742194799));
}

#[test]
fn month_window_in_winter() {
    assert_eq!(this_month_window(1736359200).unwrap(), (1735718400, 1738396799));
}

#[test]
fn month_window_across_daylight_change() {
    assert_eq!(this_month_window(1742040000).unwrap(), (1740816000, 1743490799));
}

#[test]
fn month_window_on_the_last_day_of_december() {
    assert_eq!(this_month_window(1767182400).unwrap(), (1764576000, 1767254399));
}

#[test]
fn windows_outside_the_calendar_fail() {
    assert!(matches!(this_week_window(i64::MAX), Err(ApiError::InternalConversionError(_))));
    assert!(matches!(this_month_window(i64::MIN), Err(ApiError::InternalConversionError(_))));
}

#[test]
fn monday_of_epoch_and_before() {
    // 1970-01-01 was a Thursday; its Monday is day -3.
    assert_eq!(week_day_of(ActivityTime { utc_seconds: 0, offset_seconds: 0 }), -3);
    assert_eq!(week_day_of(ActivityTime { utc_seconds: -1, offset_seconds: 0 }), -3);
    assert_eq!(week_day_of(ActivityTime { utc_seconds: 4 * 86400, offset_seconds: 0 }), 4);
    assert_eq!(week_day_of(ActivityTime { utc_seconds: 4 * 86400, offset_seconds: -1 }), -3);
}

fn named(name: Option<&str>) -> BullSharkActivity {
    BullSharkActivity {
        id: "x".to_string(),
        date: ActivityTime { utc_seconds: 0, offset_seconds: 0 },
        athlete_name: name.map(|n| n.to_string()),
        resource_state: None,
        name: None,
        distance: None,
        moving_time: None,
        elapsed_time: None,
        total_elevation_gain: None,
        sport_type: None,
        workout_type: None,
        device_name: None,
    }
}

#[test]
fn distinct_names_keep_first_appearance_order() {
    let acts = vec![named(Some("Jane Doe")), named(None), named(Some("Sam Lee")), named(Some("Jane Doe"))];
    assert_eq!(distinct_athlete_names(&acts), vec!["Jane Doe".to_string(), "Sam Lee".to_string()]);
    assert!(distinct_athlete_names(&vec![]).is_empty());
}

#[test]
fn overall_health_needs_both_components() {
    let ok = health_status("healthy".to_string(), "healthy".to_string());
    assert_eq!(ok.overall, "healthy");
    let bad = health_status("healthy".to_string(), "unhealthy: timeout".to_string());
    assert_eq!(bad.overall, "unhealthy");
    assert_eq!(bad.strava, "unhealthy: timeout");
}

#[test]
fn manual_trigger_needs_the_secret_when_one_is_set() {
    let empty = String::new();
    assert!(authorize_trigger(&empty, &"anything".to_string()).is_ok());
    let secret = "s3".to_string();
    assert!(authorize_trigger(&secret, &"s3".to_string()).is_ok());
    assert!(matches!(authorize_trigger(&secret, &"".to_string()), Err(ApiError::Unauthorized(_))));
    assert!(matches!(authorize_trigger(&secret, &"s4".to_string()), Err(ApiError::Unauthorized(_))));
}

#[test]
fn stored_instants_read_in_pacific_time() {
    assert_eq!(pacific_time(1736272800), Some(ActivityTime { utc_seconds: 1736272800, offset_seconds: -28800 }));
    assert_eq!(pacific_time(1748847600), Some(ActivityTime { utc_seconds: 1748847600, offset_seconds: -25200 }));
    assert_eq!(pacific_time(i64::MAX), None);
}
