//! The credential exchange: one (access token, account, role) tuple
//! for one set of temporary credentials.  Nothing is cached — each
//! exchange returns fresh, independently valid credentials — and any
//! missing field in the provider response is a malformed-response
//! error for that call, never a panic and never a silently empty
//! field.
use vstd::prelude::*;

use crate::directory::ProviderResponse;
use crate::errors::ExchangeError;
use crate::text::dec_digits_signed;
use crate::text::i64_string;

verus! {

/// Temporary credentials scoped to one account and role.  The
/// expiration is the provider's expiry instant, rendered as a
/// decimal string.
#[derive(Clone, Debug, PartialEq, Eq)]
pub struct RoleCredentials {
    pub access_key_id: String,
    pub secret_access_key: String,
    pub session_token: String,
    pub expiration: String,
}

/// The credential fields of the provider's response, before any
/// checking.
pub struct RawRoleCredentials {
    pub access_key_id: Option<String>,
    pub secret_access_key: Option<String>,
    pub session_token: Option<String>,
    pub expiration: Option<i64>,
}

/// The exchange's result as a function of the provider response
/// alone: the three credential strings and the rendered expiration,
/// or the error the response calls for.
pub open spec fn spec_exchange(response: ProviderResponse<Option<RawRoleCredentials>>) -> Result<
    (Seq<char>, Seq<char>, Seq<char>, Seq<char>),
    ExchangeError,
> {
    match response {
        ProviderResponse::Success(opt) => match opt {
            Some(raw) => match (
                raw.access_key_id,
                raw.secret_access_key,
                raw.session_token,
                raw.expiration,
            ) {
                (Some(k), Some(s), Some(t), Some(e)) => Ok(
                    (k@, s@, t@, dec_digits_signed(e as int)),
                ),
                _ => Err(ExchangeError::MalformedResponse),
            },
            None => Err(ExchangeError::MalformedResponse),
        },
        ProviderResponse::Unauthorized => Err(ExchangeError::TokenExpired),
        ProviderResponse::Unavailable => Err(ExchangeError::ProviderUnavailable),
    }
}

/// Checks the provider's response to one exchange and builds the
/// credentials: every field present, or exactly the error
/// `spec_exchange` calls for.  Nothing is cached and nothing is
/// mutated: the caller re-fetches rather than reusing stale
/// credentials.
pub fn get_role_credentials(response: ProviderResponse<Option<RawRoleCredentials>>) -> (r: Result<
    RoleCredentials,
    ExchangeError,
>)
    ensures
        match (r, spec_exchange(response)) {
            (Ok(c), Ok((k, s, t, e))) => c.access_key_id@ == k && c.secret_access_key@ == s
                && c.session_token@ == t && c.expiration@ == e,
            (Err(e1), Err(e2)) => e1 == e2,
            _ => false,
        },
{
    let raw = match response {
        ProviderResponse::Success(opt) => match opt {
            Some(raw) => raw,
            None => {
                return Err(ExchangeError::MalformedResponse);
            },
        },
        ProviderResponse::Unauthorized => {
            return Err(ExchangeError::TokenExpired);
        },
        ProviderResponse::Unavailable => {
            return Err(ExchangeError::ProviderUnavailable);
        },
    };
    let access_key_id = match raw.access_key_id {
        Some(k) => k,
        None => {
            return Err(ExchangeError::MalformedResponse);
        },
    };
    let secret_access_key = match raw.secret_access_key {
        Some(s) => s,
        None => {
            return Err(ExchangeError::MalformedResponse);
        },
    };
    let session_token = match raw.session_token {
        Some(t) => t,
        None => {
            return Err(ExchangeError::MalformedResponse);
        },
    };
    let expiration_instant = match raw.expiration {
        Some(e) => e,
        None => {
            return Err(ExchangeError::MalformedResponse);
        },
    };
    let expiration = i64_string(expiration_instant);
    Ok(RoleCredentials { access_key_id, secret_access_key, session_token, expiration })
}

/// Repeated exchanges are independent: the result is a function of
/// the provider's response to that call alone, and the exchange holds
/// no state that one call could leave behind for the next.
pub proof fn lemma_exchange_idempotent(
    a: ProviderResponse<Option<RawRoleCredentials>>,
    b: ProviderResponse<Option<RawRoleCredentials>>,
)
    requires
        a == b,
    ensures
        spec_exchange(a) == spec_exchange(b),
{
}

} // verus!
