//! The subscription-platform client's verified half: the base address, the
//! endpoint paths, and the builder that carries the credential and address
//! into the transport. The transport itself — sockets, TLS, JSON — lives
//! outside the crate.

use vstd::prelude::*;
use vstd::string::StringExecFns;

use crate::auth::AuthData;

verus! {

/// The address every endpoint path is appended to.
pub struct BaseUrl(pub String);

impl Default for BaseUrl {
    fn default() -> (r: Self)
        ensures
            r.0@ == "https://api.boosty.to"@,
    {
        BaseUrl(String::from_str("https://api.boosty.to"))
    }
}

impl BaseUrl {
    /// The full address of an endpoint: the base with the path appended.
    pub fn full_url(&self, path: &str) -> (r: String)
        ensures
            r@ == self.0@ + path@,
    {
        let mut out = self.0.clone();
        out.append(path);
        out
    }
}

/// The token-refresh endpoint.
pub fn refresh_path() -> (r: &'static str)
    ensures
        r@ == "/oauth/token/"@,
{
    "/oauth/token/"
}

/// The batched subscriber-lookup endpoint.
pub fn subscribers_path() -> (r: &'static str)
    ensures
        r@ == "/v1/blog/hedgehoginc/subscribers"@,
{
    "/v1/blog/hedgehoginc/subscribers"
}

/// The subscriber-search endpoint.
pub fn search_path() -> (r: &'static str)
    ensures
        r@ == "/v1/blog/stat/hedgehoginc/search"@,
{
    "/v1/blog/stat/hedgehoginc/search"
}

/// Everything the transport needs to run the client: the platform address
/// and the credential to authenticate with.
pub struct BoostyClientBuilder {
    pub base_url: BaseUrl,
    pub auth: AuthData,
}

impl BoostyClientBuilder {
    /// A builder against the platform's own address.
    pub fn new(auth: AuthData) -> (r: Self)
        ensures
            r.auth == auth,
            r.base_url.0@ == "https://api.boosty.to"@,
    {
        BoostyClientBuilder { base_url: BaseUrl::default(), auth }
    }

    /// Point the builder at another address, keeping the credential.
    pub fn with_custom_base_url(self, new_url: String) -> (r: Self)
        ensures
            r.base_url.0 == new_url,
            r.auth == self.auth,
    {
        let BoostyClientBuilder { base_url: _, auth } = self;
        BoostyClientBuilder { base_url: BaseUrl(new_url), auth }
    }
}

} // verus!
