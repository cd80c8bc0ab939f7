//! The device-authorization flow: the state machine that turns a
//! start URL and a "force new token" flag into a valid access token.
//!
//! The flow first consults the token cache; a cached token that is
//! still valid is returned at once, with no network work.  Otherwise
//! the flow walks the device-authorization grant: register a client,
//! start an authorization, surface the verification URL and user code
//! as a token prompt, and poll until the provider issues a token,
//! reports expiry or denial, or the caller cancels.  The surrounding
//! application performs each requested action against the provider
//! and hands the outcome back as an event; every decision in between
//! is made here.
use vstd::prelude::*;

use crate::cache::AccessTokenCache;
use crate::errors::AuthError;
use crate::identity::has_dot;
use crate::identity::strip_scheme;
use crate::identity::SessionIdentity;
use crate::json::spec_encode_record;
use crate::token::AccessToken;
use crate::token::VALIDITY_MARGIN_SECS;

verus! {

/// Seconds added to the polling interval when the provider asks the
/// flow to slow down, as the device-authorization grant prescribes.
pub const SLOW_DOWN_STEP_SECS: u64 = 5;

/// The states of one `obtain` run.
pub enum FlowState {
    /// Registering a client with the identity provider.
    Registering,
    /// Client registered; starting the device authorization.
    StartingAuthorization,
    /// Waiting for the user to approve out of band: the verification
    /// URL and user code are on display, and the token endpoint is
    /// polled after each interval.
    AwaitingAuthorization { verification_url: String, user_code: String, interval_secs: u64 },
    /// The flow finished with a valid token.
    Done { token: AccessToken },
    /// The flow failed.
    Failed { error: AuthError },
}

/// What the provider (or the caller) reported back for the last
/// requested action.
pub enum FlowEvent {
    /// Client registration succeeded.
    Registered,
    /// The device authorization started: the user must visit the
    /// verification URL and enter the code; poll on the interval.
    AuthorizationStarted { verification_url: String, user_code: String, interval_secs: u64 },
    /// The user has not approved yet: keep polling.
    AuthorizationPending,
    /// The provider asks the flow to poll less often.
    SlowDown,
    /// The token endpoint issued a token that expires after the given
    /// number of seconds.  A lifetime that does not clear the expiry
    /// safety margin makes the token unusable on arrival, and the
    /// flow counts it as a provider failure rather than a success.
    TokenIssued { access_token: String, expires_in_secs: u64 },
    /// The device code expired before the user approved.
    Expired,
    /// The user or the provider denied the authorization.
    Denied,
    /// A network or transport failure.
    TransportFailed,
    /// The caller aborted the flow.
    Cancelled,
}

/// What the surrounding application must do next.
pub enum FlowAction {
    /// Register a client with the identity provider.
    Register,
    /// Start a device authorization for the session's start URL.
    StartAuthorization,
    /// Show the token prompt, wait the given number of seconds, then
    /// poll the token endpoint once.
    Poll { wait_secs: u64 },
    /// The flow is finished: read the outcome, and persist the cache
    /// slot if a token was issued.
    Finish,
}

/// `a + b`, capped at the largest representable instant.
pub open spec fn sat_add(a: u64, b: u64) -> u64 {
    if a + b > u64::MAX {
        u64::MAX
    } else {
        (a + b) as u64
    }
}

/// The token that a `TokenIssued` event yields: the issued value,
/// expiring `expires_in_secs` from `now`, bound to the session the
/// flow was started for.
pub open spec fn issued_token(
    identity: SessionIdentity,
    access_token: String,
    expires_in_secs: u64,
    now: u64,
) -> AccessToken {
    AccessToken {
        access_token: access_token,
        expires_at: sat_add(now, expires_in_secs),
        issuing_session: identity,
    }
}

/// The transition relation of the flow: the state after handling
/// `event` in state `pre`.  An event out of protocol order counts as
/// a provider failure, and so does an issued token whose lifetime
/// does not clear the expiry safety margin; terminal states absorb
/// every event.
pub open spec fn spec_step(
    pre: FlowState,
    identity: SessionIdentity,
    event: FlowEvent,
    now: u64,
) -> FlowState {
    match pre {
        FlowState::Registering => match event {
            FlowEvent::Registered => FlowState::StartingAuthorization,
            FlowEvent::Cancelled => FlowState::Failed { error: AuthError::Cancelled },
            _ => FlowState::Failed { error: AuthError::ProviderUnavailable },
        },
        FlowState::StartingAuthorization => match event {
            FlowEvent::AuthorizationStarted { verification_url, user_code, interval_secs } => (
            FlowState::AwaitingAuthorization { verification_url, user_code, interval_secs }),
            FlowEvent::Cancelled => FlowState::Failed { error: AuthError::Cancelled },
            _ => FlowState::Failed { error: AuthError::ProviderUnavailable },
        },
        FlowState::AwaitingAuthorization { verification_url, user_code, interval_secs } => match event {
            FlowEvent::AuthorizationPending => (FlowState::AwaitingAuthorization {
                verification_url,
                user_code,
                interval_secs,
            }),
            FlowEvent::SlowDown => (FlowState::AwaitingAuthorization {
                verification_url,
                user_code,
                interval_secs: sat_add(interval_secs, SLOW_DOWN_STEP_SECS),
            }),
            FlowEvent::TokenIssued { access_token, expires_in_secs } => {
                if sat_add(now, expires_in_secs) > now + VALIDITY_MARGIN_SECS {
                    FlowState::Done {
                        token: issued_token(identity, access_token, expires_in_secs, now),
                    }
                } else {
                    FlowState::Failed { error: AuthError::ProviderUnavailable }
                }
            },
            FlowEvent::Expired => FlowState::Failed { error: AuthError::AuthorizationExpired },
            FlowEvent::Denied => FlowState::Failed { error: AuthError::AuthorizationDenied },
            FlowEvent::Cancelled => FlowState::Failed { error: AuthError::Cancelled },
            _ => FlowState::Failed { error: AuthError::ProviderUnavailable },
        },
        FlowState::Done { token } => FlowState::Done { token },
        FlowState::Failed { error } => FlowState::Failed { error },
    }
}

/// Whether the cache holds a record that can satisfy an `obtain` at
/// `now` without any network work: it decodes, its start URL derives
/// an identity, and it has not entered the expiry safety margin.
pub open spec fn spec_cache_hit(cache: AccessTokenCache, now: u64) -> bool {
    match cache.spec_cached_fields() {
        Some((tv, ea, url)) => has_dot(strip_scheme(url)) && ea > now + VALIDITY_MARGIN_SECS,
        None => false,
    }
}

/// A step that finishes with a token finishes with a usable one: a
/// `Done` state reached at `now` holds a token still valid at `now`,
/// with its whole safety margin ahead of it.  Together with the
/// cache fast path, which checks the same margin, a finished flow
/// never hands out a token that is already expired.
pub proof fn lemma_finished_token_is_valid(
    pre: FlowState,
    identity: SessionIdentity,
    event: FlowEvent,
    now: u64,
)
    requires
        !(pre is Done),
    ensures
        match spec_step(pre, identity, event, now) {
            FlowState::Done { token } => token.spec_valid_at(now),
            _ => true,
        },
{
}

/// A cached record whose expiry lies at or before `now` never
/// satisfies the fast path: with such a record, `begin` stands ready
/// to re-authorize instead of returning the token.
pub proof fn lemma_expired_token_is_no_cache_hit(cache: AccessTokenCache, now: u64)
    requires
        match cache.spec_cached_fields() {
            Some((tv, ea, url)) => ea <= now,
            None => true,
        },
    ensures
        !spec_cache_hit(cache, now),
{
}

/// One run of `obtain`: the session it serves, the provider region,
/// and the current state.
pub struct DeviceAuthorizationFlow {
    pub identity: SessionIdentity,
    pub region: String,
    pub state: FlowState,
}

/// A field-for-field copy of `t`.
fn clone_token(t: &AccessToken) -> (r: AccessToken)
    ensures
        r == *t,
{
    AccessToken {
        access_token: t.access_token.clone(),
        expires_at: t.expires_at,
        issuing_session: SessionIdentity {
            raw_start_url: t.issuing_session.raw_start_url.clone(),
            canonical_name: t.issuing_session.canonical_name.clone(),
        },
    }
}

impl DeviceAuthorizationFlow {
    /// Well-formedness: the session identity is well-formed, and so
    /// is the token a finished flow holds.
    pub open spec fn wf(self) -> bool {
        &&& self.identity.wf()
        &&& match self.state {
            FlowState::Done { token } => token.wf(),
            _ => true,
        }
    }

    /// Starts an `obtain` for `start_url`: derives the session
    /// identity, consults the cache unless a fresh token is forced,
    /// and either finishes at once with the still-valid cached token
    /// or stands ready to register a client.  A token past its expiry
    /// margin is never returned: the flow re-authorizes instead.
    pub fn begin(
        start_url: &str,
        region: &str,
        force_new: bool,
        cache: &AccessTokenCache,
        now: u64,
    ) -> (r: Result<DeviceAuthorizationFlow, AuthError>)
        ensures
            r is Ok <==> has_dot(strip_scheme(start_url@)),
            r matches Err(e) ==> e == AuthError::InvalidStartUrl,
            r matches Ok(flow) ==> flow.wf() && flow.identity.raw_start_url@ == start_url@
                && flow.region@ == region@,
            r matches Ok(flow) ==> !force_new && spec_cache_hit(*cache, now) ==> match flow.state {
                FlowState::Done { token } => {
                    &&& token.spec_valid_at(now)
                    &&& match cache.spec_cached_fields() {
                        Some((tv, ea, url)) => token.access_token@ == tv && token.expires_at == ea
                            && token.issuing_session.raw_start_url@ == url,
                        None => false,
                    }
                },
                _ => false,
            },
            r matches Ok(flow) ==> (force_new || !spec_cache_hit(*cache, now)) ==> flow.state
                is Registering,
    {
        let identity = match SessionIdentity::derive(start_url) {
            Ok(id) => id,
            Err(e) => {
                return Err(e);
            },
        };
        if !force_new {
            match cache.get_cached_token() {
                Some(t) => {
                    if t.valid_at(now) {
                        return Ok(
                            DeviceAuthorizationFlow {
                                identity,
                                region: region.to_owned(),
                                state: FlowState::Done { token: t },
                            },
                        );
                    }
                },
                None => {},
            }
        }
        Ok(
            DeviceAuthorizationFlow {
                identity,
                region: region.to_owned(),
                state: FlowState::Registering,
            },
        )
    }

    /// Advances the flow on one provider event.  A token issued while
    /// the flow awaits authorization is stored in the cache slot
    /// before the flow finishes; no other step touches the cache.
    pub fn step(&mut self, cache: &mut AccessTokenCache, event: FlowEvent, now: u64)
        requires
            old(self).wf(),
        ensures
            final(self).identity == old(self).identity,
            final(self).region == old(self).region,
            final(self).wf(),
            final(self).state == spec_step(old(self).state, old(self).identity, event, now),
            final(cache).sso_session_name == old(cache).sso_session_name,
            final(cache).cache_dir == old(cache).cache_dir,
            ({
                let post = spec_step(old(self).state, old(self).identity, event, now);
                if old(self).state is AwaitingAuthorization && post is Done {
                    match post {
                        FlowState::Done { token } => match final(cache).entry {
                            Some(e) => e@ == spec_encode_record(
                                token.access_token@,
                                token.expires_at,
                                token.issuing_session.raw_start_url@,
                            ),
                            None => false,
                        },
                        _ => false,
                    }
                } else {
                    *final(cache) == *old(cache)
                }
            }),
    {
        let next: FlowState = match &self.state {
            FlowState::Registering => match event {
                FlowEvent::Registered => FlowState::StartingAuthorization,
                FlowEvent::Cancelled => FlowState::Failed { error: AuthError::Cancelled },
                _ => FlowState::Failed { error: AuthError::ProviderUnavailable },
            },
            FlowState::StartingAuthorization => match event {
                FlowEvent::AuthorizationStarted { verification_url, user_code, interval_secs } => {
                    FlowState::AwaitingAuthorization { verification_url, user_code, interval_secs }
                },
                FlowEvent::Cancelled => FlowState::Failed { error: AuthError::Cancelled },
                _ => FlowState::Failed { error: AuthError::ProviderUnavailable },
            },
            FlowState::AwaitingAuthorization { verification_url, user_code, interval_secs } => match event {
                FlowEvent::AuthorizationPending => {
                    FlowState::AwaitingAuthorization {
                        verification_url: verification_url.clone(),
                        user_code: user_code.clone(),
                        interval_secs: *interval_secs,
                    }
                },
                FlowEvent::SlowDown => {
                    let widened: u64 = if *interval_secs > u64::MAX - SLOW_DOWN_STEP_SECS {
                        u64::MAX
                    } else {
                        *interval_secs + SLOW_DOWN_STEP_SECS
                    };
                    FlowState::AwaitingAuthorization {
                        verification_url: verification_url.clone(),
                        user_code: user_code.clone(),
                        interval_secs: widened,
                    }
                },
                FlowEvent::TokenIssued { access_token, expires_in_secs } => {
                    let expires_at: u64 = if now > u64::MAX - expires_in_secs {
                        u64::MAX
                    } else {
                        now + expires_in_secs
                    };
                    let usable = now <= u64::MAX - VALIDITY_MARGIN_SECS && expires_at > now
                        + VALIDITY_MARGIN_SECS;
                    if usable {
                        let token = AccessToken {
                            access_token,
                            expires_at,
                            issuing_session: SessionIdentity {
                                raw_start_url: self.identity.raw_start_url.clone(),
                                canonical_name: self.identity.canonical_name.clone(),
                            },
                        };
                        let token = cache.cache_token(token);
                        FlowState::Done { token }
                    } else {
                        FlowState::Failed { error: AuthError::ProviderUnavailable }
                    }
                },
                FlowEvent::Expired => FlowState::Failed {
                    error: AuthError::AuthorizationExpired,
                },
                FlowEvent::Denied => FlowState::Failed { error: AuthError::AuthorizationDenied },
                FlowEvent::Cancelled => FlowState::Failed { error: AuthError::Cancelled },
                _ => FlowState::Failed { error: AuthError::ProviderUnavailable },
            },
            FlowState::Done { token } => FlowState::Done { token: clone_token(token) },
            FlowState::Failed { error } => FlowState::Failed { error: *error },
        };
        self.state = next;
    }

    /// What the surrounding application must do for the current
    /// state.
    pub fn next_action(&self) -> (r: FlowAction)
        ensures
            match self.state {
                FlowState::Registering => r == FlowAction::Register,
                FlowState::StartingAuthorization => r == FlowAction::StartAuthorization,
                FlowState::AwaitingAuthorization { verification_url, user_code, interval_secs } => r
                    == (FlowAction::Poll { wait_secs: interval_secs }),
                FlowState::Done { token } => r == FlowAction::Finish,
                FlowState::Failed { error } => r == FlowAction::Finish,
            },
    {
        match &self.state {
            FlowState::Registering => FlowAction::Register,
            FlowState::StartingAuthorization => FlowAction::StartAuthorization,
            FlowState::AwaitingAuthorization { verification_url, user_code, interval_secs } => {
                FlowAction::Poll { wait_secs: *interval_secs }
            },
            FlowState::Done { token } => FlowAction::Finish,
            FlowState::Failed { error } => FlowAction::Finish,
        }
    }

    /// The token prompt on display while the flow awaits approval:
    /// the verification URL and the user code.
    pub fn token_prompt(&self) -> (r: Option<(String, String)>)
        ensures
            match self.state {
                FlowState::AwaitingAuthorization { verification_url, user_code, interval_secs } => r
                    == Some((verification_url, user_code)),
                _ => r is None,
            },
    {
        match &self.state {
            FlowState::AwaitingAuthorization { verification_url, user_code, interval_secs } => Some(
                (verification_url.clone(), user_code.clone()),
            ),
            _ => None,
        }
    }

    /// The finished flow's result: the token on success, the error on
    /// failure, nothing while the flow still runs.
    pub fn outcome(&self) -> (r: Option<Result<AccessToken, AuthError>>)
        ensures
            match self.state {
                FlowState::Done { token } => r == Some(Ok::<AccessToken, AuthError>(token)),
                FlowState::Failed { error } => r == Some(Err::<AccessToken, AuthError>(error)),
                _ => r is None,
            },
    {
        match &self.state {
            FlowState::Done { token } => Some(Ok(clone_token(token))),
            FlowState::Failed { error } => Some(Err(*error)),
            _ => None,
        }
    }
}

} // verus!
