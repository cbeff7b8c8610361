use bullshark::activity_controller::{ActivityController, TeamData};
use bullshark::error::ApiError;
use bullshark::models::{ActivityTime, Athlete, BullSharkActivity};

const PST: i32 = -28800;

fn athlete(name: &str, team: &str) -> Athlete {
    Athlete { id: name.to_string(), name: name.to_string(), team: team.to_string(), event: "relay".to_string() }
}

fn run(name: &str, sport: &str, mm: Option<u64>, utc_seconds: i64) -> BullSharkActivity {
    BullSharkActivity {
        id: format!("{}-{}", name, utc_seconds),
        date: ActivityTime { utc_seconds, offset_seconds: PST },
        athlete_name: Some(name.to_string()),
        resource_state: Some(2),
        name: None,
        distance: mm,
        moving_time: Some(1000),
        elapsed_time: Some(1100),
        total_elevation_gain: None,
        sport_type: Some(sport.to_string()),
        workout_type: None,
        device_name: None,
    }
}

fn athlete_mm(t: &TeamData, name: &str) -> Option<u128> {
    t.athlete_millimeters.iter().find(|(n, _)| n == name).map(|(_, v)| *v)
}

fn km(mm: u128) -> f64 {
    mm as f64 / 1_000_000.0
}

// 2025-01-07 18:00Z is Tuesday 10:00 Pacific, in the week of Monday 2025-01-06.
const JAN_7: i64 = 1736272800;
const JAN_8: i64 = 1736359200;
const JAN_14: i64 = 1736877600;
const JAN_21: i64 = 1737482400;
const MONDAY_JAN_6: i64 = 20094;
const MONDAY_JAN_13: i64 = 20101;
const MONDAY_JAN_20: i64 = 20108;

#[test]
fn two_team_scenario() {
    let c = ActivityController::new(20437);
    let roster = vec![athlete("Jane Doe", "bulls"), athlete("Sam Lee", "sharks")];
    let acts = vec![
        run("Jane Doe", "Run", Some(5_000_000), JAN_7),
        run("Jane Doe", "Run", Some(3_000_000), JAN_8),
        run("Sam Lee", "Run", Some(10_000_000), JAN_14),
    ];
    let s = c.get_team_stats(&roster, &acts).unwrap();
    assert_eq!(km(athlete_mm(&s.bulls, "Jane Doe").unwrap()), 8.0);
    assert_eq!(s.bulls.weekly_millimeters.len(), 1);
    let w = &s.bulls.weekly_millimeters[0];
    assert_eq!(w.week_start_day, MONDAY_JAN_6);
    assert_eq!(w.week_start, ActivityTime { utc_seconds: 1736150400, offset_seconds: PST });
    assert_eq!(km(w.weekly_team_millimeters), 8.0);
    assert_eq!(km(w.weekly_running_sum), 8.0);
    assert_eq!(s.sharks.weekly_millimeters.len(), 1);
    let w = &s.sharks.weekly_millimeters[0];
    assert_eq!(w.week_start_day, MONDAY_JAN_13);
    assert_eq!(w.week_start, ActivityTime { utc_seconds: 1736755200, offset_seconds: PST });
    assert_eq!(km(w.weekly_team_millimeters), 10.0);
    assert_eq!(km(w.weekly_running_sum), 10.0);
    assert_eq!(athlete_mm(&s.sharks, "Jane Doe"), None);
}

#[test]
fn three_weeks_sorted_with_running_sums() {
    let c = ActivityController::new(20437);
    let roster = vec![athlete("Jane Doe", "bulls"), athlete("Ann Roe", "bulls")];
    let acts = vec![
        run("Jane Doe", "Run", Some(4_000_000), JAN_21),
        run("Ann Roe", "Run", Some(2_500_000), JAN_7),
        run("Jane Doe", "Run", Some(1_000_000), JAN_14),
        run("Jane Doe", "Run", Some(500_000), JAN_8),
    ];
    let s = c.get_team_stats(&roster, &acts).unwrap();
    let weeks = &s.bulls.weekly_millimeters;
    let days: Vec<i64> = weeks.iter().map(|w| w.week_start_day).collect();
    assert_eq!(days, vec![MONDAY_JAN_6, MONDAY_JAN_13, MONDAY_JAN_20]);
    let totals: Vec<u128> = weeks.iter().map(|w| w.weekly_team_millimeters).collect();
    assert_eq!(totals, vec![3_000_000, 1_000_000, 4_000_000]);
    let running: Vec<u128> = weeks.iter().map(|w| w.weekly_running_sum).collect();
    assert_eq!(running, vec![3_000_000, 4_000_000, 8_000_000]);
    let first = &weeks[0].weekly_athlete_millimeters;
    assert_eq!(first.len(), 2);
    assert!(first.contains(&("Ann Roe".to_string(), 2_500_000)));
    assert!(first.contains(&("Jane Doe".to_string(), 500_000)));
    assert_eq!(athlete_mm(&s.bulls, "Jane Doe"), Some(5_500_000));
    assert_eq!(athlete_mm(&s.bulls, "Ann Roe"), Some(2_500_000));
    assert_eq!(s.sharks.weekly_millimeters.len(), 0);
}

#[test]
fn ride_is_excluded() {
    let c = ActivityController::new(20437);
    let roster = vec![athlete("Jane Doe", "bulls")];
    let acts = vec![
        run("Jane Doe", "Run", Some(5_000_000), JAN_7),
        run("Jane Doe", "Ride", Some(40_000_000), JAN_8),
        run("Jane Doe", "Ride", Some(20_000_000), JAN_14),
    ];
    let s = c.get_team_stats(&roster, &acts).unwrap();
    assert_eq!(athlete_mm(&s.bulls, "Jane Doe"), Some(5_000_000));
    assert_eq!(s.bulls.weekly_millimeters.len(), 1);
    assert_eq!(s.bulls.weekly_millimeters[0].weekly_team_millimeters, 5_000_000);
}

#[test]
fn unknown_athletes_missing_fields_and_other_teams_are_skipped() {
    let c = ActivityController::new(20437);
    let roster = vec![athlete("Jane Doe", "bulls"), athlete("Kim Park", "eagles")];
    let mut no_sport = run("Jane Doe", "Run", Some(1_000_000), JAN_7);
    no_sport.sport_type = None;
    let mut no_name = run("Jane Doe", "Run", Some(1_000_000), JAN_7);
    no_name.athlete_name = None;
    let acts = vec![
        run("Nobody", "Run", Some(1_000_000), JAN_7),
        run("Kim Park", "Run", Some(1_000_000), JAN_7),
        run("Jane Doe", "Run", None, JAN_7),
        no_sport,
        no_name,
    ];
    let s = c.get_team_stats(&roster, &acts).unwrap();
    assert_eq!(s.bulls.athlete_millimeters.len(), 0);
    assert_eq!(s.bulls.weekly_millimeters.len(), 0);
    assert_eq!(s.sharks.athlete_millimeters.len(), 0);
}

#[test]
fn later_roster_entry_decides_the_team() {
    let c = ActivityController::new(20437);
    let roster = vec![athlete("Jane Doe", "bulls"), athlete("Jane Doe", "sharks")];
    let acts = vec![run("Jane Doe", "Run", Some(2_000_000), JAN_7)];
    let s = c.get_team_stats(&roster, &acts).unwrap();
    assert_eq!(athlete_mm(&s.bulls, "Jane Doe"), None);
    assert_eq!(athlete_mm(&s.sharks, "Jane Doe"), Some(2_000_000));
}

#[test]
fn week_follows_the_local_calendar() {
    // 2025-01-13 05:00Z is Sunday 21:00 Pacific: still the week of January 6.
    let c = ActivityController::new(20437);
    let roster = vec![athlete("Jane Doe", "bulls")];
    let acts = vec![run("Jane Doe", "Run", Some(1_000_000), 1736744400)];
    let s = c.get_team_stats(&roster, &acts).unwrap();
    assert_eq!(s.bulls.weekly_millimeters[0].week_start_day, MONDAY_JAN_6);
}

#[test]
fn summer_week_starts_at_daylight_time_midnight() {
    let c = ActivityController::new(20437);
    let roster = vec![athlete("Jane Doe", "bulls")];
    let mut a = run("Jane Doe", "Run", Some(1_000_000), 1748847600 + 86400);
    a.date.offset_seconds = -25200;
    let s = c.get_team_stats(&roster, &vec![a]).unwrap();
    let w = &s.bulls.weekly_millimeters[0];
    assert_eq!(w.week_start_day, 20241);
    assert_eq!(w.week_start, ActivityTime { utc_seconds: 1748847600, offset_seconds: -25200 });
}

#[test]
fn no_activities_give_empty_stats() {
    let c = ActivityController::new(20437);
    let s = c.get_team_stats(&vec![athlete("Jane Doe", "bulls")], &vec![]).unwrap();
    assert_eq!(s.bulls.athlete_millimeters.len(), 0);
    assert_eq!(s.sharks.weekly_millimeters.len(), 0);
}

#[test]
fn ill_defined_week_start_fails_the_aggregation() {
    let c = ActivityController::new(20437);
    let roster = vec![athlete("Jane Doe", "bulls")];
    let acts = vec![run("Jane Doe", "Run", Some(1_000_000), JAN_7), run("Jane Doe", "Run", Some(1), i64::MAX / 2)];
    assert!(matches!(c.get_team_stats(&roster, &acts), Err(ApiError::InternalConversionError(_))));
}

#[test]
fn competition_window_starts_at_pacific_midnight() {
    let c = ActivityController::new(20437);
    assert_eq!(c.get_team_stat_dates(1770000000).unwrap(), (1765785600, 1770000000));
    let far = ActivityController::new(i64::MAX / 86400 + 5);
    assert!(matches!(far.get_team_stat_dates(0), Err(ApiError::InternalConversionError(_))));
}

#[test]
fn valid_activity_accepts_only_runs() {
    let c = ActivityController::new(20437);
    assert!(c.valid_activity(&run("Jane Doe", "Run", Some(1), JAN_7)));
    assert!(!c.valid_activity(&run("Jane Doe", "Ride", Some(1), JAN_7)));
    assert!(!c.valid_activity(&run("Jane Doe", "run", Some(1), JAN_7)));
}

#[test]
fn roster_map_keeps_one_entry_per_name() {
    let roster = vec![athlete("Jane Doe", "bulls"), athlete("Sam Lee", "sharks"), athlete("Jane Doe", "sharks")];
    let m = bullshark::roster::build_athlete_team_map(&roster);
    assert_eq!(m.len(), 2);
    assert!(m.contains(&("Jane Doe".to_string(), "sharks".to_string())));
    assert!(m.contains(&("Sam Lee".to_string(), "sharks".to_string())));
}
