use vstd::prelude::*;

verus! {

/// A credential is refreshed when it expires within this many seconds.
pub const REFRESH_MARGIN_SECONDS: i64 = 300;

/// A bearer credential for one user identity, with its absolute expiry
/// (seconds since the Unix epoch) and the material that mints a new one.
#[derive(Debug, Clone)]
pub struct StravaAuthToken {
    pub id: String,
    pub token_type: String,
    pub access_token: String,
    pub expires_at: i64,
    pub expires_in: i32,
    pub refresh_token: String,
}

/// The identity provider's answer to a refresh request.
#[derive(Debug, Clone)]
pub struct StravaTokenResponse {
    pub token_type: String,
    pub access_token: String,
    pub expires_at: i64,
    pub expires_in: i32,
    pub refresh_token: String,
}

/// The credential is past its expiry at instant `now`.
pub open spec fn expired_at(t: StravaAuthToken, now: int) -> bool {
    now >= t.expires_at
}

/// The credential expires within the refresh margin of instant `now`.
pub open spec fn expiring_at(t: StravaAuthToken, now: int) -> bool {
    t.expires_at - now < REFRESH_MARGIN_SECONDS
}

/// The credential that a refresh response yields for identity `id`.
pub open spec fn token_from_response(id: String, r: StravaTokenResponse) -> StravaAuthToken {
    StravaAuthToken {
        id,
        token_type: r.token_type,
        access_token: r.access_token,
        expires_at: r.expires_at,
        expires_in: r.expires_in,
        refresh_token: r.refresh_token,
    }
}

impl StravaAuthToken {
    pub fn new(id: String, response: StravaTokenResponse) -> (r: Self)
        ensures
            r == token_from_response(id, response),
    {
        StravaAuthToken {
            id,
            token_type: response.token_type,
            access_token: response.access_token,
            expires_at: response.expires_at,
            expires_in: response.expires_in,
            refresh_token: response.refresh_token,
        }
    }

    /// Whether the credential is expired at instant `now` (seconds since the
    /// Unix epoch).
    pub fn is_expired(&self, now: i64) -> (r: bool)
        ensures
            r == expired_at(*self, now as int),
    {
        now >= self.expires_at
    }

    /// Whether the credential expires within the refresh margin of `now`.
    pub fn expires_soon(&self, now: i64) -> (r: bool)
        ensures
            r == expiring_at(*self, now as int),
    {
        (self.expires_at as i128) - (now as i128) < REFRESH_MARGIN_SECONDS as i128
    }
}

} // verus!
