use vstd::prelude::*;
use dashmap::DashMap;
use crate::error::ApiError;
use crate::oauth::{expired_at, expiring_at, token_from_response, StravaAuthToken, StravaTokenResponse};

verus! {

#[verifier::external_type_specification]
#[verifier::external_body]
#[verifier::reject_recursive_types(K)]
#[verifier::reject_recursive_types(V)]
#[verifier::reject_recursive_types(S)]
pub struct ExDashMap<K, V, S>(DashMap<K, V, S>);

/// Relies on `dashmap::DashMap::new`: an empty concurrent map.
#[verifier::external_body]
fn new_cache() -> (r: DashMap<String, StravaAuthToken>) {
    DashMap::new()
}

/// Relies on `dashmap::DashMap::get`: a copy of the entry for `id`, if one
/// is present. Other threads may change the map at any time, so nothing is
/// promised of what comes back.
#[verifier::external_body]
fn cache_get(cache: &DashMap<String, StravaAuthToken>, id: &str) -> (r: Option<StravaAuthToken>) {
    match cache.get(id) {
        Some(entry) => Some(entry.value().clone()),
        None => None,
    }
}

/// Relies on `dashmap::DashMap::insert`: stores `token` under `id`.
#[verifier::external_body]
fn cache_insert(cache: &DashMap<String, StravaAuthToken>, id: String, token: StravaAuthToken) {
    cache.insert(id, token);
}

/// Relies on `dashmap::DashMap::remove`: drops the entry for `id`.
#[verifier::external_body]
fn cache_remove(cache: &DashMap<String, StravaAuthToken>, id: &str) {
    cache.remove(id);
}

/// Credentials and identifiers for the upstream club service.
#[derive(Clone, Debug)]
pub struct StravaConfig {
    pub client_id: String,
    pub client_secret: String,
    pub club_id: String,
    pub admin_id: String,
}

/// The identity whose credential the service uses.
pub open spec fn admin_identity() -> Seq<char> {
    seq!['a', 'd', 'm', 'i', 'n']
}

/// The configuration for the given client and club, for the admin identity.
pub fn get_strava_config(client_id: String, client_secret: String, club_id: String) -> (r: StravaConfig)
    ensures
        r.client_id == client_id,
        r.client_secret == client_secret,
        r.club_id == club_id,
        r.admin_id@ == admin_identity(),
{
    proof {
        reveal_strlit("admin");
        assert("admin"@ =~= admin_identity());
    }
    StravaConfig { client_id, client_secret, club_id, admin_id: "admin".to_string() }
}

/// What the caller of the token lookup does next.
#[derive(Debug)]
pub enum TokenStep {
    /// Serve this access token.
    Ready(String),
    /// Read the identity's durable credential and hand it to
    /// `on_stored_token`.
    ReadStore,
    /// Exchange this credential's refresh material with the identity
    /// provider and hand the answer to `on_refreshed`.
    Refresh(StravaAuthToken),
    /// Write this credential to durable storage and hand the outcome to
    /// `on_persisted`.
    Persist(StravaAuthToken),
}

/// The step after looking up the cache: a cached credential that has not
/// expired is served at once; anything else sends the caller to the store.
pub open spec fn cached_decision(cached: Option<StravaAuthToken>, now: int) -> TokenStep {
    match cached {
        Some(t) => if !expired_at(t, now) {
            TokenStep::Ready(t.access_token)
        } else {
            TokenStep::ReadStore
        },
        None => TokenStep::ReadStore,
    }
}

/// The step after reading the durable credential: none is an error; one
/// that is expired or within the margin is refreshed; any other is served
/// (and cached).
pub open spec fn stored_decision(stored: Option<StravaAuthToken>, now: int) -> Result<TokenStep, ApiError> {
    match stored {
        None => Err(ApiError::NoCredential(arbitrary())),
        Some(t) => if expired_at(t, now) || expiring_at(t, now) {
            Ok(TokenStep::Refresh(t))
        } else {
            Ok(TokenStep::Ready(t.access_token))
        },
    }
}

/// What `stored_decision` returns, up to the text of an error.
pub open spec fn same_outcome(r: Result<TokenStep, ApiError>, s: Result<TokenStep, ApiError>) -> bool {
    match s {
        Ok(step) => r == Ok::<TokenStep, ApiError>(step),
        Err(ApiError::NoCredential(_)) => r matches Err(ApiError::NoCredential(_)),
        Err(e) => r == Err::<TokenStep, ApiError>(e),
    }
}

/// The effects of one token lookup on the cache, the store and the
/// identity provider.
pub enum TokenEffect {
    EvictCache,
    ReadStore,
    RefreshCall,
    CacheInsert(StravaAuthToken),
    StoreWrite(StravaAuthToken),
}

/// One whole token lookup for identity `id` at instant `now`, given what
/// the cache held, what the store held, what the identity provider answered
/// and how the store write went: the effects in order and the outcome.
pub open spec fn token_run(
    cached: Option<StravaAuthToken>,
    stored: Option<StravaAuthToken>,
    answer: Result<StravaTokenResponse, ApiError>,
    write: Result<(), ApiError>,
    now: int,
) -> (Seq<TokenEffect>, Result<Seq<char>, ApiError>) {
    match cached_decision(cached, now) {
        TokenStep::Ready(s) => (Seq::empty(), Ok(s@)),
        _ => {
            let head = if cached is Some {
                seq![TokenEffect::EvictCache, TokenEffect::ReadStore]
            } else {
                seq![TokenEffect::ReadStore]
            };
            match stored_decision(stored, now) {
                Err(e) => (head, Err(e)),
                Ok(TokenStep::Ready(s)) => (head.push(TokenEffect::CacheInsert(stored->0)), Ok(s@)),
                Ok(_) => {
                    let old = stored->0;
                    let called = head.push(TokenEffect::RefreshCall);
                    match answer {
                        Err(e) => (called, Err(e)),
                        Ok(resp) => {
                            let new = token_from_response(old.id, resp);
                            let done = called.push(TokenEffect::CacheInsert(new)).push(
                                TokenEffect::StoreWrite(new),
                            );
                            match write {
                                Err(e) => (done, Err(e)),
                                Ok(_) => (done, Ok(new.access_token@)),
                            }
                        },
                    }
                },
            }
        },
    }
}

/// How many refresh calls `effects` holds.
pub open spec fn refresh_calls(effects: Seq<TokenEffect>) -> nat
    decreases effects.len(),
{
    if effects.len() == 0 {
        0
    } else {
        refresh_calls(effects.drop_last()) + if effects.last() is RefreshCall {
            1nat
        } else {
            0nat
        }
    }
}

/// A cached credential that lies more than the refresh margin in the future
/// is served from the cache with no refresh and no other effect.
pub proof fn lemma_fresh_cache_is_served(
    t: StravaAuthToken,
    stored: Option<StravaAuthToken>,
    answer: Result<StravaTokenResponse, ApiError>,
    write: Result<(), ApiError>,
    now: int,
)
    requires
        t.expires_at - now > crate::oauth::REFRESH_MARGIN_SECONDS,
    ensures
        token_run(Some(t), stored, answer, write, now) == (Seq::<TokenEffect>::empty(), Ok::<
            Seq<char>,
            ApiError,
        >(t.access_token@)),
        refresh_calls(token_run(Some(t), stored, answer, write, now).0) == 0,
{
}

/// On a cache miss, a durable credential within the refresh margin of
/// expiry is refreshed exactly once, and the new credential goes both into
/// the cache and into the store before its token is served.
pub proof fn lemma_expiring_credential_refreshed_once(
    cached: Option<StravaAuthToken>,
    t: StravaAuthToken,
    resp: StravaTokenResponse,
    now: int,
)
    requires
        cached_decision(cached, now) is ReadStore,
        expiring_at(t, now),
    ensures
        ({
            let run = token_run(cached, Some(t), Ok(resp), Ok(()), now);
            let new = token_from_response(t.id, resp);
            &&& refresh_calls(run.0) == 1
            &&& run.0.contains(TokenEffect::CacheInsert(new))
            &&& run.0.contains(TokenEffect::StoreWrite(new))
            &&& run.1 == Ok::<Seq<char>, ApiError>(new.access_token@)
        }),
{
    let run = token_run(cached, Some(t), Ok(resp), Ok(()), now);
    let new = token_from_response(t.id, resp);
    let head = if cached is Some {
        seq![TokenEffect::EvictCache, TokenEffect::ReadStore]
    } else {
        seq![TokenEffect::ReadStore]
    };
    let called = head.push(TokenEffect::RefreshCall);
    let done = called.push(TokenEffect::CacheInsert(new)).push(TokenEffect::StoreWrite(new));
    assert(run.0 == done);
    assert(done.drop_last() =~= called.push(TokenEffect::CacheInsert(new)));
    assert(called.push(TokenEffect::CacheInsert(new)).drop_last() =~= called);
    assert(called.drop_last() =~= head);
    if cached is Some {
        assert(head.drop_last() =~= seq![TokenEffect::EvictCache]);
        assert(seq![TokenEffect::EvictCache].drop_last() =~= Seq::<TokenEffect>::empty());
    } else {
        assert(head.drop_last() =~= Seq::<TokenEffect>::empty());
    }
    reveal_with_fuel(refresh_calls, 6);
    assert(refresh_calls(done) == 1);
    assert(done[done.len() - 2] == TokenEffect::CacheInsert(new));
    assert(done[done.len() - 1] == TokenEffect::StoreWrite(new));
    assert(run.0.contains(TokenEffect::CacheInsert(new)));
    assert(run.0.contains(TokenEffect::StoreWrite(new)));
}

/// The step after looking up the cache.
pub fn cached_step(cached: &Option<StravaAuthToken>, now: i64) -> (r: TokenStep)
    ensures
        r == cached_decision(*cached, now as int),
{
    match cached {
        Some(t) => if !t.is_expired(now) {
            TokenStep::Ready(t.access_token.clone())
        } else {
            TokenStep::ReadStore
        },
        None => TokenStep::ReadStore,
    }
}

/// The step after reading the durable credential of identity `user_id`.
pub fn stored_step(stored: Option<StravaAuthToken>, user_id: &str, now: i64) -> (r: Result<TokenStep, ApiError>)
    ensures
        same_outcome(r, stored_decision(stored, now as int)),
{
    match stored {
        None => Err(ApiError::NoCredential(user_id.to_string())),
        Some(t) => if t.is_expired(now) || t.expires_soon(now) {
            Ok(TokenStep::Refresh(t))
        } else {
            let s = t.access_token.clone();
            Ok(TokenStep::Ready(s))
        },
    }
}

/// Hands out valid credentials, keeping a cache of them per identity.
pub struct AuthController {
    pub strava_config: StravaConfig,
    pub token_cache: DashMap<String, StravaAuthToken>,
}

impl AuthController {
    pub fn new(config: StravaConfig) -> (r: Self)
        ensures
            r.strava_config == config,
    {
        AuthController { strava_config: config, token_cache: new_cache() }
    }

    pub fn get_club_id(&self) -> (r: String)
        ensures
            r == self.strava_config.club_id,
    {
        self.strava_config.club_id.clone()
    }

    /// First step of a token lookup for `user_id` at instant `now`: serve a
    /// cached credential that has not expired, else evict it and send the
    /// caller to the store. No store or network access happens here.
    pub fn get_valid_auth_token_for_user(&self, user_id: &str, now: i64) -> (r: TokenStep)
        ensures
            r is Ready || r is ReadStore,
    {
        let cached = cache_get(&self.token_cache, user_id);
        let step = cached_step(&cached, now);
        if cached.is_some() && step.is_read_store() {
            cache_remove(&self.token_cache, user_id);
        }
        step
    }

    /// The first step of a token lookup for the admin identity.
    pub fn get_valid_auth_token(&self, now: i64) -> (r: TokenStep)
        ensures
            r is Ready || r is ReadStore,
    {
        self.get_valid_auth_token_for_user(self.strava_config.admin_id.as_str(), now)
    }

    /// Second step: decides on the durable credential read for `user_id`,
    /// caching it when it is served as it is.
    pub fn on_stored_token(&self, user_id: &str, stored: Option<StravaAuthToken>, now: i64) -> (r: Result<
        TokenStep,
        ApiError,
    >)
        ensures
            same_outcome(r, stored_decision(stored, now as int)),
    {
        let copy = match &stored {
            Some(t) => Some(t.clone_token()),
            None => None,
        };
        let step = stored_step(copy, user_id, now);
        if let Ok(TokenStep::Ready(_)) = &step {
            if let Some(t) = stored {
                cache_insert(&self.token_cache, t.id.clone(), t);
            }
        }
        step
    }

    /// Third step: the identity provider's answer to refreshing `old`. A
    /// failure is passed on and nothing is stored; a new credential, with
    /// the identity of `old`, is cached and handed back to be persisted.
    pub fn on_refreshed(&self, old: &StravaAuthToken, answer: Result<StravaTokenResponse, ApiError>) -> (r: Result<
        TokenStep,
        ApiError,
    >)
        ensures
            answer matches Err(e) ==> r == Err::<TokenStep, ApiError>(e),
            answer matches Ok(resp) ==> r == Ok::<TokenStep, ApiError>(
                TokenStep::Persist(token_from_response(old.id, resp)),
            ),
    {
        match answer {
            Err(e) => Err(e),
            Ok(resp) => {
                let new = StravaAuthToken::new(old.id.clone(), resp);
                cache_insert(&self.token_cache, new.id.clone(), new.clone_token());
                Ok(TokenStep::Persist(new))
            },
        }
    }

    /// Last step: the outcome of persisting `new`. On success its token is
    /// served.
    pub fn on_persisted(&self, new: &StravaAuthToken, write: Result<(), ApiError>) -> (r: Result<String, ApiError>)
        ensures
            write matches Err(e) ==> r == Err::<String, ApiError>(e),
            write is Ok ==> r == Ok::<String, ApiError>(new.access_token),
    {
        match write {
            Err(e) => Err(e),
            Ok(_) => Ok(new.access_token.clone()),
        }
    }
}

impl TokenStep {
    pub fn is_read_store(&self) -> (r: bool)
        ensures
            r == self is ReadStore,
    {
        match self {
            TokenStep::ReadStore => true,
            _ => false,
        }
    }
}

impl StravaAuthToken {
    /// A field-by-field copy.
    pub fn clone_token(&self) -> (r: StravaAuthToken)
        ensures
            r == *self,
    {
        StravaAuthToken {
            id: self.id.clone(),
            token_type: self.token_type.clone(),
            access_token: self.access_token.clone(),
            expires_at: self.expires_at,
            expires_in: self.expires_in,
            refresh_token: self.refresh_token.clone(),
        }
    }
}

} // verus!
