use vstd::prelude::*;

verus! {

/// A roster entry: an athlete's display name and team assignment.
#[derive(Debug, Clone)]
pub struct Athlete {
    pub id: String,
    pub name: String,
    pub team: String,
    pub event: String,
}

/// The athlete of an upstream club activity.
#[derive(Debug, Clone)]
pub struct ClubAthlete {
    pub resource_state: Option<i64>,
    pub first_name: Option<String>,
    pub last_name: Option<String>,
}

/// An activity record as the club feed delivers it. Distances are whole
/// millimetres.
#[derive(Debug, Clone)]
pub struct ClubActivity {
    pub resource_state: Option<i64>,
    pub athlete: Option<ClubAthlete>,
    pub name: Option<String>,
    pub distance: Option<u64>,
    pub moving_time: Option<i64>,
    pub elapsed_time: Option<i64>,
    pub total_elevation_gain: Option<u64>,
    pub sport_type: Option<String>,
    pub workout_type: Option<i64>,
    pub device_name: Option<String>,
}

/// An instant with the UTC offset it is read in: `utc_seconds` counts
/// seconds since the Unix epoch, and the local wall-clock time is
/// `utc_seconds + offset_seconds`.
#[derive(Debug, Clone, Copy, PartialEq, Eq)]
pub struct ActivityTime {
    pub utc_seconds: i64,
    pub offset_seconds: i32,
}

/// An ingested activity, keyed by its content-derived identifier.
/// Distances are whole millimetres.
#[derive(Debug, Clone)]
pub struct BullSharkActivity {
    pub id: String,
    pub date: ActivityTime,
    pub athlete_name: Option<String>,
    pub resource_state: Option<i64>,
    pub name: Option<String>,
    pub distance: Option<u64>,
    pub moving_time: Option<i64>,
    pub elapsed_time: Option<i64>,
    pub total_elevation_gain: Option<u64>,
    pub sport_type: Option<String>,
    pub workout_type: Option<i64>,
    pub device_name: Option<String>,
}

} // verus!
