//! Typed errors of the credential session manager.
use vstd::prelude::*;

verus! {

/// Terminal failures of the device-authorization flow.
#[derive(Clone, Copy, PartialEq, Eq, Structural, Debug)]
pub enum AuthError {
    /// The start URL is empty or holds no `.`-delimited label after
    /// scheme stripping.
    InvalidStartUrl,
    /// A network or transport failure while talking to the provider.
    ProviderUnavailable,
    /// The device authorization expired before the user approved it.
    AuthorizationExpired,
    /// The user or the provider denied the device authorization.
    AuthorizationDenied,
    /// The caller aborted the flow before it finished.
    Cancelled,
}

/// Failures of account and role listing.
#[derive(Clone, Copy, PartialEq, Eq, Structural, Debug)]
pub enum DirectoryError {
    /// The provider rejected the access token itself; the caller
    /// should re-authorize with a forced refresh and retry once.
    TokenExpired,
    /// A network or transport failure.
    ProviderUnavailable,
    /// A required field was missing from the provider payload.
    MalformedResponse,
}

/// Failures of the credential exchange.
#[derive(Clone, Copy, PartialEq, Eq, Structural, Debug)]
pub enum ExchangeError {
    /// The provider rejected the access token itself.
    TokenExpired,
    /// A network or transport failure.
    ProviderUnavailable,
    /// A required credential field was missing from the provider
    /// payload.
    MalformedResponse,
}

/// Failures of federated console sign-in.
#[derive(Clone, Copy, PartialEq, Eq, Structural, Debug)]
pub enum FederationError {
    /// The federation response held no `SigninToken` field.
    MissingSigninToken,
    /// A network or transport failure.
    ProviderUnavailable,
}

} // verus!
