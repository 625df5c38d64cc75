//! Authentication and provisioning: an OIDC client, a JWKS-backed token
//! validator and the SCIM 2.0 provisioning endpoint.

use vstd::prelude::*;

use crate::text::prefixed;
use crate::model::TenantId;

verus! {

/// OIDC discovery and authorisation client.
#[derive(Debug, Clone)]
pub struct OidcClient {
    _issuer: String,
    _client_id: String,
}

impl OidcClient {
    /// The issuer URL the client talks to.
    pub closed spec fn issuer(&self) -> Seq<char> {
        self._issuer@
    }

    /// The client identifier registered at the issuer.
    pub closed spec fn client_id(&self) -> Seq<char> {
        self._client_id@
    }

    /// Builds an OIDC client for the given issuer and client identifier.
    pub fn new(issuer: &str, client_id: &str) -> (client: Self)
        ensures
            client.issuer() == issuer@,
            client.client_id() == client_id@,
    {
        OidcClient { _issuer: issuer.to_owned(), _client_id: client_id.to_owned() }
    }
}

/// JWKS-backed JWT validator.
#[derive(Debug, Clone)]
pub struct JwksValidator {
    _issuer: String,
}

impl View for JwksValidator {
    type V = Seq<char>;

    /// The issuer whose tokens are accepted.
    closed spec fn view(&self) -> Seq<char> {
        self._issuer@
    }
}

impl JwksValidator {
    /// Builds a validator for tokens issued by the given OIDC issuer.
    pub fn new(issuer: &str) -> (validator: Self)
        ensures
            validator@ == issuer@,
    {
        JwksValidator { _issuer: issuer.to_owned() }
    }
}

/// Resolved claims extracted from a verified JWT.
#[derive(Debug, Clone)]
pub struct TenantClaim {
    /// Tenant identifier extracted from the configured claim.
    pub tenant_id: TenantId,
    /// Subject identifier (`sub` claim).
    pub subject: String,
    /// Granted scopes.
    pub scopes: Vec<String>,
}

/// Bearer-token extractor used as a router extension.
#[derive(Debug, Clone, Default)]
pub struct BearerExtractor;

/// SCIM 2.0 provisioning endpoint mounted under `/scim/v2/`.
#[derive(Debug, Clone, Default)]
pub struct ScimEndpoint;

/// Authentication and authorisation errors.
#[derive(Debug)]
pub enum AuthError {
    /// Token failed validation (signature, expiry, audience).
    InvalidToken(String),
    /// Required scope missing.
    MissingScope(String),
    /// OIDC discovery or JWKS retrieval failure.
    Discovery(String),
}

impl AuthError {
    /// The display text of the error.
    pub open spec fn message(&self) -> Seq<char> {
        match self {
            AuthError::InvalidToken(d) => "invalid token: "@ + d@,
            AuthError::MissingScope(d) => "missing scope: "@ + d@,
            AuthError::Discovery(d) => "discovery error: "@ + d@,
        }
    }

    /// Renders the error as text.
    pub fn to_string(&self) -> (r: String)
        ensures
            r@ == self.message(),
    {
        match self {
            AuthError::InvalidToken(d) => prefixed("invalid token: ", d),
            AuthError::MissingScope(d) => prefixed("missing scope: ", d),
            AuthError::Discovery(d) => prefixed("discovery error: ", d),
        }
    }
}

} // verus!
