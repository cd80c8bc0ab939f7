//! Access tokens issued by the device-authorization flow.
use vstd::prelude::*;

use crate::identity::SessionIdentity;

verus! {

/// Seconds before expiry at which a token already counts as expired,
/// so that a token handed out cannot lapse during the polling round
/// in which it is used.
pub const VALIDITY_MARGIN_SECS: u64 = 30;

/// An access token: the opaque token value, the instant it expires
/// (seconds since the Unix epoch), and the session it was issued to.
#[derive(Clone, Debug)]
pub struct AccessToken {
    pub access_token: String,
    pub expires_at: u64,
    pub issuing_session: SessionIdentity,
}

impl AccessToken {
    /// Well-formedness: the issuing session is itself well-formed.
    pub open spec fn wf(self) -> bool {
        self.issuing_session.wf()
    }

    /// Whether the token is still usable at `now`: it expires only
    /// after the safety margin has passed.
    pub open spec fn spec_valid_at(self, now: u64) -> bool {
        self.expires_at > now + VALIDITY_MARGIN_SECS
    }

    /// Decides validity at `now`.
    pub fn valid_at(&self, now: u64) -> (r: bool)
        ensures
            r == self.spec_valid_at(now),
    {
        now <= u64::MAX - VALIDITY_MARGIN_SECS && self.expires_at > now + VALIDITY_MARGIN_SECS
    }
}

} // verus!
