use vstd::prelude::*;
use crate::roster::text_is;

verus! {

/// The health of the store and of the upstream service, and the overall
/// verdict.
#[derive(Debug, Clone)]
pub struct HealthStatus {
    pub database: String,
    pub strava: String,
    pub overall: String,
}

pub open spec fn healthy() -> Seq<char> {
    seq!['h', 'e', 'a', 'l', 't', 'h', 'y']
}

pub open spec fn unhealthy() -> Seq<char> {
    seq!['u', 'n', 'h', 'e', 'a', 'l', 't', 'h', 'y']
}

/// Combines the two component reports: the service is healthy exactly when
/// both components report "healthy".
pub fn health_status(database: String, strava: String) -> (r: HealthStatus)
    ensures
        r.database == database,
        r.strava == strava,
        r.overall@ == if database@ == healthy() && strava@ == healthy() {
            healthy()
        } else {
            unhealthy()
        },
{
    proof {
        reveal_strlit("healthy");
        reveal_strlit("unhealthy");
        assert("healthy"@ =~= healthy());
        assert("unhealthy"@ =~= unhealthy());
    }
    let both = text_is(&database, "healthy") && text_is(&strava, "healthy");
    let overall = if both {
        "healthy".to_string()
    } else {
        "unhealthy".to_string()
    };
    HealthStatus { database, strava, overall }
}

} // verus!
