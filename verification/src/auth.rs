//! Credential lifecycle: the service's own bearer token pair, its expiry
//! test, and the refresh transition.
//!
//! One live credential exists per process. It is read by every outgoing
//! call and replaced only by a completed refresh exchange; a failed
//! exchange leaves it untouched.

use vstd::prelude::*;
use vstd::string::StringExecFns;

use crate::sat_add_u128;

verus! {

/// Milliseconds since the Unix epoch, read from the system clock, or 0 if
/// the clock is set before the epoch.
///
/// Relies on `std::time::SystemTime::now` and `Duration::as_millis`. The
/// reading depends on the wall clock, so nothing is promised of the value:
/// callers hand it to the verified functions below as an argument.
#[verifier::external_body]
pub fn current_unix_time() -> u128 {
    match std::time::SystemTime::now().duration_since(std::time::UNIX_EPOCH) {
        Ok(elapsed) => elapsed.as_millis(),
        Err(_) => 0,
    }
}

/// The device OS reported to the token endpoint when none is stored.
pub fn default_device_os() -> (r: String)
    ensures
        r@ == "web"@,
{
    String::from_str("web")
}

/// The OAuth grant type of every refresh exchange.
pub fn default_grant_type() -> (r: String)
    ensures
        r@ == "refresh_token"@,
{
    String::from_str("refresh_token")
}

/// The service credential against the subscription platform.
///
/// `expires_at` is a millisecond Unix timestamp: the wall-clock time of
/// issuance plus the lifetime the provider reported.
pub struct AuthData {
    pub access_token: String,
    pub refresh_token: String,
    pub device_id: String,
    pub device_os: String,
    pub grant_type: String,
    pub expires_at: u128,
}

/// The body of a refresh exchange: what is sent to the token endpoint.
pub struct RefreshAuthDataRequest {
    pub device_id: String,
    pub device_os: String,
    pub grant_type: String,
    pub refresh_token: String,
}

/// What a successful refresh exchange returns: a new token pair and the
/// new lifetime in milliseconds.
pub struct RefreshAuthDataResponse {
    pub access_token: String,
    pub refresh_token: String,
    pub expires_in: u128,
}

/// Failure of the credential lifecycle: the refresh exchange was rejected
/// or could not be carried out. The operation that needed it fails; the
/// stored credential is left as it was.
#[derive(Clone, Copy, Debug, PartialEq, Eq, Structural)]
pub enum AuthError {
    RefreshFailed,
}

impl AuthData {
    /// The credential is expired at instant `now` iff its expiry lies
    /// strictly before `now`.
    pub open spec fn spec_expired_at(self, now: u128) -> bool {
        self.expires_at < now
    }

    /// The credential after a successful exchange: the returned token pair,
    /// expiry recomputed from `now`, device identity kept.
    pub open spec fn spec_refreshed(self, resp: RefreshAuthDataResponse, now: u128) -> AuthData {
        AuthData {
            access_token: resp.access_token,
            refresh_token: resp.refresh_token,
            expires_at: sat_add_u128(now, resp.expires_in),
            ..self
        }
    }

    /// Expiry test against a caller-supplied instant.
    pub fn is_expired_at(&self, now: u128) -> (r: bool)
        ensures
            r == self.spec_expired_at(now),
    {
        self.expires_at < now
    }

    /// Expiry test against the system clock. The reading cannot be pinned,
    /// but the answer is the expiry test at some instant, and a credential
    /// whose expiry is the largest timestamp is never expired.
    pub fn expired(&self) -> (r: bool)
        ensures
            exists|now: u128| r == self.spec_expired_at(now),
            self.expires_at == u128::MAX ==> r == false,
    {
        let now = current_unix_time();
        let r = self.is_expired_at(now);
        proof {
            assert(r == self.spec_expired_at(now));
        }
        r
    }

    /// Recompute the expiry from a caller-supplied instant and a lifetime,
    /// leaving every other field alone.
    pub fn update_from_expires_in_at(&mut self, now: u128, expires_in: u128)
        ensures
            final(self).expires_at == sat_add_u128(now, expires_in),
            final(self).access_token == old(self).access_token,
            final(self).refresh_token == old(self).refresh_token,
            final(self).device_id == old(self).device_id,
            final(self).device_os == old(self).device_os,
            final(self).grant_type == old(self).grant_type,
    {
        if now <= u128::MAX - expires_in {
            self.expires_at = now + expires_in;
        } else {
            self.expires_at = u128::MAX;
        }
    }

    /// Recompute the expiry from the system clock and a lifetime: the new
    /// expiry is the clock reading — some instant — plus the lifetime, so
    /// it is never below the lifetime itself; the token and device fields
    /// are never touched.
    pub fn update_from_expires_in(&mut self, expires_in: u128)
        ensures
            exists|now: u128| final(self).expires_at == sat_add_u128(now, expires_in),
            final(self).expires_at >= expires_in,
            final(self).access_token == old(self).access_token,
            final(self).refresh_token == old(self).refresh_token,
            final(self).device_id == old(self).device_id,
            final(self).device_os == old(self).device_os,
            final(self).grant_type == old(self).grant_type,
    {
        let now = current_unix_time();
        self.update_from_expires_in_at(now, expires_in);
        proof {
            assert(self.expires_at == sat_add_u128(now, expires_in));
        }
    }

    /// The bearer value attached to outgoing calls: always the most
    /// recently stored access token.
    pub fn bearer_token(&self) -> (r: &String)
        ensures
            r == self.access_token,
    {
        &self.access_token
    }

    /// Install the outcome of a successful refresh exchange: replace the
    /// token pair and recompute the expiry from `now`.
    pub fn apply_refresh(&mut self, resp: RefreshAuthDataResponse, now: u128)
        ensures
            *final(self) == old(self).spec_refreshed(resp, now),
            !final(self).spec_expired_at(now),
    {
        let RefreshAuthDataResponse { access_token, refresh_token, expires_in } = resp;
        self.access_token = access_token;
        self.refresh_token = refresh_token;
        self.update_from_expires_in_at(now, expires_in);
    }

    /// The body to send to the token endpoint for this credential.
    pub fn refresh_request(&self) -> (r: RefreshAuthDataRequest)
        ensures
            r.device_id == self.device_id,
            r.device_os == self.device_os,
            r.grant_type == self.grant_type,
            r.refresh_token == self.refresh_token,
    {
        RefreshAuthDataRequest {
            device_id: self.device_id.clone(),
            device_os: self.device_os.clone(),
            grant_type: self.grant_type.clone(),
            refresh_token: self.refresh_token.clone(),
        }
    }

    /// One step of the refresh protocol, after the exchange has (or has
    /// not) come back: `None` stands for any failed exchange — network
    /// error, provider rejection, malformed body — and leaves the
    /// credential exactly as it was; `Some` installs the new tokens.
    pub fn refresh_step(&mut self, exchange: Option<RefreshAuthDataResponse>, now: u128) -> (r:
        Result<(), AuthError>)
        ensures
            exchange is None ==> *final(self) == *old(self) && r == Err::<(), AuthError>(
                AuthError::RefreshFailed,
            ),
            exchange matches Some(resp) ==> *final(self) == old(self).spec_refreshed(resp, now)
                && r == Ok::<(), AuthError>(()) && !final(self).spec_expired_at(now),
    {
        match exchange {
            Some(resp) => {
                self.apply_refresh(resp, now);
                Ok(())
            },
            None => Err(AuthError::RefreshFailed),
        }
    }
}

/// A refresh is owed at `now` exactly when the credential is expired at
/// `now`; a credential freshly refreshed at `now` is never expired at
/// `now`, so a second caller that re-examines the credential after a
/// completed refresh finds no exchange left to make.
pub proof fn lemma_refresh_leaves_unexpired(auth: AuthData, resp: RefreshAuthDataResponse, now: u128)
    ensures
        !auth.spec_refreshed(resp, now).spec_expired_at(now),
{
}

} // verus!
