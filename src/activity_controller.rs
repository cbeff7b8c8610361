use vstd::prelude::*;
use crate::calendar::{local_day, monday_of, week_day_of, week_start_for, week_start_time};
use crate::error::ApiError;
use crate::models::{Athlete, BullSharkActivity};
use crate::roster::{build_athlete_team_map, pairs_ok, roster_map, team_of, text_is};
use crate::stats::{
    add_to_athlete, add_to_week, athlete_list_ok, convert_weekly_map_to_vec, lemma_push, running_ok, total,
    total_through, weeks_ok, Contribution, WeekData,
};

verus! {

/// Ingestion and aggregation for one competition, which starts at local
/// midnight of day `competition_start_day` (days since 1970-01-01) in the
/// reference timezone.
pub struct ActivityController {
    pub competition_start_day: i64,
}

/// One team's statistics. Distances are millimetres.
#[derive(Debug)]
pub struct TeamData {
    /// Each athlete of the team once, with the athlete's total distance.
    pub athlete_millimeters: Vec<(String, u128)>,
    /// The team's weeks, in ascending order of start.
    pub weekly_millimeters: Vec<WeekData>,
}

/// The statistics of the two teams.
#[derive(Debug)]
pub struct TeamStats {
    pub bulls: TeamData,
    pub sharks: TeamData,
}

pub open spec fn bulls() -> Seq<char> {
    seq!['b', 'u', 'l', 'l', 's']
}

pub open spec fn sharks() -> Seq<char> {
    seq!['s', 'h', 'a', 'r', 'k', 's']
}

/// The activity is a run.
pub open spec fn is_run(a: BullSharkActivity) -> bool {
    a.sport_type is Some && a.sport_type->0@ == seq!['R', 'u', 'n']
}

/// The team that activity `a` counts for under roster mapping `teams`:
/// a run, by a named athlete on the roster of one of the two teams, with
/// a distance. `None` when it counts for no team.
pub open spec fn counted_team(a: BullSharkActivity, teams: Map<Seq<char>, Seq<char>>) -> Option<Seq<char>> {
    if is_run(a) && a.athlete_name is Some && teams.contains_key(a.athlete_name->0@) && a.distance is Some
        && (teams[a.athlete_name->0@] == bulls() || teams[a.athlete_name->0@] == sharks()) {
        Some(teams[a.athlete_name->0@])
    } else {
        None
    }
}

/// What a counted activity adds: athlete, week, distance.
pub open spec fn contribution(a: BullSharkActivity) -> Contribution {
    (a.athlete_name->0@, monday_of(local_day(a.date)), a.distance->0 as nat)
}

/// The contributions of `acts` to team `team`, in order.
pub open spec fn team_contributions(
    acts: Seq<BullSharkActivity>,
    teams: Map<Seq<char>, Seq<char>>,
    team: Seq<char>,
) -> Seq<Contribution>
    decreases acts.len(),
{
    if acts.len() == 0 {
        Seq::empty()
    } else {
        let p = team_contributions(acts.drop_last(), teams, team);
        if counted_team(acts.last(), teams) == Some(team) {
            p.push(contribution(acts.last()))
        } else {
            p
        }
    }
}

/// A counted activity whose week has no well-defined start.
pub open spec fn week_undefined(a: BullSharkActivity, teams: Map<Seq<char>, Seq<char>>) -> bool {
    counted_team(a, teams) is Some && week_start_time(monday_of(local_day(a.date))) is None
}

/// `t` holds exactly the statistics of contributions `cs`: each athlete's
/// total, each week in ascending order with its total, its athletes and
/// its running sum.
pub open spec fn team_data_ok(t: TeamData, cs: Seq<Contribution>) -> bool {
    &&& athlete_list_ok(t.athlete_millimeters@, cs)
    &&& weeks_ok(t.weekly_millimeters@, cs)
    &&& running_ok(t.weekly_millimeters@)
    &&& forall|i: int|
        0 <= i < t.weekly_millimeters@.len() ==> (#[trigger] t.weekly_millimeters@[i]).weekly_running_sum
            == total_through(cs, t.weekly_millimeters@[i].week_start_day as int)
}

/// An activity that is not a run (a ride, say) is left out of the
/// statistics entirely: removing it from the input changes no team's
/// contributions, so no athlete total, weekly total or running sum.
pub proof fn lemma_non_run_excluded(
    acts: Seq<BullSharkActivity>,
    k: int,
    teams: Map<Seq<char>, Seq<char>>,
    team: Seq<char>,
)
    requires
        0 <= k < acts.len(),
        !is_run(acts[k]),
    ensures
        team_contributions(acts, teams, team) == team_contributions(acts.remove(k), teams, team),
    decreases acts.len(),
{
    if k == acts.len() - 1 {
        assert(acts.remove(k) =~= acts.drop_last());
    } else {
        let r = acts.remove(k);
        assert(r.drop_last() =~= acts.drop_last().remove(k));
        assert(r.last() == acts.last());
        lemma_non_run_excluded(acts.drop_last(), k, teams, team);
    }
}

const MAX_DISTANCE: u128 = 0xFFFF_FFFF_FFFF_FFFF;

impl ActivityController {
    pub fn new(competition_start_day: i64) -> (r: Self)
        ensures
            r.competition_start_day == competition_start_day,
    {
        ActivityController { competition_start_day }
    }

    /// Whether the activity is a run.
    pub fn valid_activity(&self, activity: &BullSharkActivity) -> (r: bool)
        ensures
            r == is_run(*activity),
    {
        proof {
            reveal_strlit("Run");
            assert("Run"@ =~= seq!['R', 'u', 'n']);
        }
        match &activity.sport_type {
            Some(sport_type) => text_is(sport_type, "Run"),
            None => false,
        }
    }

    /// The competition window for instant `now` (seconds since the Unix
    /// epoch): from the start of the competition day to `now`.
    pub fn get_team_stat_dates(&self, now: i64) -> (r: Result<(i64, i64), ApiError>)
        ensures
            r is Ok <==> week_start_time(self.competition_start_day as int) is Some,
            r matches Ok(w) ==> w == (week_start_time(self.competition_start_day as int)->0.utc_seconds, now),
            r matches Err(e) ==> e is InternalConversionError,
    {
        match week_start_for(self.competition_start_day) {
            Some(start) => Ok((start.utc_seconds, now)),
            None => Err(ApiError::InternalConversionError("Invalid start date time".to_string())),
        }
    }

    /// Computes both teams' statistics over `activities`, attributing each
    /// run to its athlete's team on `roster`.
    pub fn get_team_stats(&self, roster: &Vec<Athlete>, activities: &Vec<BullSharkActivity>) -> (r: Result<
        TeamStats,
        ApiError,
    >)
        ensures
            r is Ok <==> forall|i: int|
                0 <= i < activities@.len() ==> !week_undefined(#[trigger] activities@[i], roster_map(roster@)),
            r matches Ok(ts) ==> team_data_ok(
                ts.bulls,
                team_contributions(activities@, roster_map(roster@), bulls()),
            ) && team_data_ok(ts.sharks, team_contributions(activities@, roster_map(roster@), sharks())),
            r matches Err(e) ==> e is InternalConversionError,
    {
        let ghost teams = roster_map(roster@);
        let athlete_teams = build_athlete_team_map(roster);
        let mut bulls_athletes: Vec<(String, u128)> = Vec::new();
        let mut bulls_weeks: Vec<WeekData> = Vec::new();
        let mut sharks_athletes: Vec<(String, u128)> = Vec::new();
        let mut sharks_weeks: Vec<WeekData> = Vec::new();
        let mut i: usize = 0;
        while i < activities.len()
            invariant
                i <= activities@.len(),
                pairs_ok(athlete_teams@, teams),
                teams == roster_map(roster@),
                forall|j: int| 0 <= j < i ==> !week_undefined(#[trigger] activities@[j], teams),
                athlete_list_ok(bulls_athletes@, team_contributions(activities@.subrange(0, i as int), teams, bulls())),
                weeks_ok(bulls_weeks@, team_contributions(activities@.subrange(0, i as int), teams, bulls())),
                athlete_list_ok(sharks_athletes@, team_contributions(activities@.subrange(0, i as int), teams, sharks())),
                weeks_ok(sharks_weeks@, team_contributions(activities@.subrange(0, i as int), teams, sharks())),
                total(team_contributions(activities@.subrange(0, i as int), teams, bulls())) <= i * MAX_DISTANCE,
                total(team_contributions(activities@.subrange(0, i as int), teams, sharks())) <= i * MAX_DISTANCE,
            decreases activities@.len() - i,
        {
            let ghost pre = activities@.subrange(0, i as int);
            let ghost next = activities@.subrange(0, i + 1);
            let activity = &activities[i];
            proof {
                assert(next.drop_last() =~= pre);
                assert(next.last() == *activity);
                assert((i + 1) * MAX_DISTANCE == i * MAX_DISTANCE + MAX_DISTANCE) by (nonlinear_arith);
                assert(i * MAX_DISTANCE + MAX_DISTANCE <= u128::MAX) by (nonlinear_arith)
                    requires i < 0x1_0000_0000_0000_0000int;
            }
            let ghost cb = team_contributions(pre, teams, bulls());
            let ghost csh = team_contributions(pre, teams, sharks());
            if self.valid_activity(activity) {
                if let Some(athlete_name) = &activity.athlete_name {
                    if let Some(team) = team_of(&athlete_teams, athlete_name, Ghost(teams)) {
                        if let Some(distance) = activity.distance {
                            proof {
                                reveal_strlit("bulls");
                                reveal_strlit("sharks");
                                assert("bulls"@ =~= bulls());
                                assert("sharks"@ =~= sharks());
                            }
                            let is_bulls = text_is(&team, "bulls");
                            let is_sharks = text_is(&team, "sharks");
                            if is_bulls || is_sharks {
                                let day = week_day_of(activity.date);
                                let start = match week_start_for(day) {
                                    Some(s) => s,
                                    None => {
                                        assert(week_undefined(activities@[i as int], teams));
                                        return Err(
                                            ApiError::InternalConversionError(
                                                "Invalid datetime conversion for week start".to_string(),
                                            ),
                                        );
                                    },
                                };
                                let ghost c = contribution(*activity);
                                if is_bulls {
                                    proof {
                                        lemma_push(cb, c);
                                    }
                                    add_to_athlete(&mut bulls_athletes, athlete_name, distance, Ghost(cb), Ghost(day as int));
                                    add_to_week(&mut bulls_weeks, day, start, athlete_name, distance, Ghost(cb));
                                } else {
                                    proof {
                                        lemma_push(csh, c);
                                    }
                                    add_to_athlete(&mut sharks_athletes, athlete_name, distance, Ghost(csh), Ghost(day as int));
                                    add_to_week(&mut sharks_weeks, day, start, athlete_name, distance, Ghost(csh));
                                }
                            }
                        }
                    }
                }
            }
            i = i + 1;
        }
        assert(activities@.subrange(0, activities@.len() as int) =~= activities@);
        let ghost cb = team_contributions(activities@, teams, bulls());
        let ghost csh = team_contributions(activities@, teams, sharks());
        proof {
            assert(activities@.len() * MAX_DISTANCE <= u128::MAX) by (nonlinear_arith)
                requires activities@.len() < 0x1_0000_0000_0000_0000int;
        }
        let bulls_weekly = convert_weekly_map_to_vec(bulls_weeks, Ghost(cb));
        let sharks_weekly = convert_weekly_map_to_vec(sharks_weeks, Ghost(csh));
        Ok(TeamStats {
            bulls: TeamData { athlete_millimeters: bulls_athletes, weekly_millimeters: bulls_weekly },
            sharks: TeamData { athlete_millimeters: sharks_athletes, weekly_millimeters: sharks_weekly },
        })
    }
}

} // verus!
