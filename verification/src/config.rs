//! Configuration model of the server and its cross-section validation.
//!
//! The configuration is a single TOML file consumed at start-up; reading and
//! parsing the file happen at the edge of the program, and the parsed value
//! is checked here: TLS is configured when a listener requires it, a DKIM key
//! directory is set, and the OIDC settings are consistent.

use std::time::Duration;

use vstd::prelude::*;
use vstd::string::*;

use crate::text::prefixed;

verus! {

/// `Clone` of [`Duration`], which is `Copy`: the clone is the same value.
pub assume_specification[ <Duration as Clone>::clone ](d: &Duration) -> (r: Duration)
    ensures
        r == *d,
;

/// Root configuration consumed by `aerogram start`.
#[derive(Debug, Clone)]
pub struct Config {
    /// Listener configuration (SMTP, IMAP, HTTP).
    pub server: ServerConfig,
    /// TLS termination configuration.
    pub tls: TlsConfig,
    /// DKIM signing configuration per domain.
    pub dkim: DkimConfig,
    /// Store backend configuration.
    pub store: StoreConfig,
    /// Outbound queue configuration.
    pub queue: QueueConfig,
    /// Authentication configuration.
    pub auth: AuthConfig,
}

/// Listener binds for the SMTP, IMAP and HTTP services.
#[derive(Debug, Clone)]
pub struct ServerConfig {
    /// Bind for the inbound SMTP listener on port 25.
    pub smtp_inbound_bind: String,
    /// Bind for the submission listener on port 587.
    pub smtp_submission_bind: String,
    /// Bind for the implicit TLS submission listener on port 465.
    pub smtp_submission_tls_bind: String,
    /// Bind for the `IMAP4rev2` listener on port 993.
    pub imap_bind: String,
    /// Bind for the HTTP listener serving JMAP, API, admin and webmail.
    pub http_bind: String,
}

/// TLS termination certificates and policy.
#[derive(Debug, Clone)]
pub struct TlsConfig {
    /// Path to the PEM-encoded certificate chain.
    pub cert_path: String,
    /// Path to the PEM-encoded private key.
    pub key_path: String,
}

/// DKIM signing configuration per domain.
#[derive(Debug, Clone)]
pub struct DkimConfig {
    /// Directory storing per-domain DKIM private keys.
    pub key_dir: String,
}

/// Store backend configuration.
#[derive(Debug, Clone)]
pub struct StoreConfig {
    /// PostgreSQL connection URL.
    pub postgres_url: String,
    /// Path to the blob storage root when using the filesystem backend.
    pub blob_dir: Option<String>,
    /// Optional S3-compatible blob backend.
    pub s3: Option<S3Config>,
}

/// S3-compatible storage backend configuration.
#[derive(Debug, Clone)]
pub struct S3Config {
    /// S3 endpoint URL.
    pub endpoint: String,
    /// Bucket name.
    pub bucket: String,
    /// AWS region (or a value compatible with the chosen provider).
    pub region: String,
}

/// Outbound queue configuration.
#[derive(Debug, Clone)]
pub struct QueueConfig {
    /// Maximum number of delivery attempts before dead-lettering.
    pub max_attempts: u32,
    /// Initial backoff between two delivery attempts.
    pub initial_backoff: Duration,
    /// Maximum backoff between two delivery attempts.
    pub max_backoff: Duration,
}

/// Authentication configuration.
#[derive(Debug, Clone)]
pub struct AuthConfig {
    /// OIDC issuer URL (any `RFC 6749` / OpenID Connect compliant provider).
    pub oidc_issuer: String,
    /// OIDC client identifier for the admin and API surfaces.
    pub oidc_client_id: String,
    /// JWT claim used to resolve the tenant identifier.
    pub tenant_claim: String,
}

/// Some listener that speaks TLS from the first byte is configured: the
/// implicit-TLS submission listener (port 465) or the IMAP listener
/// (port 993).
pub open spec fn needs_tls(server: ServerConfig) -> bool {
    server.smtp_submission_tls_bind@.len() > 0 || server.imap_bind@.len() > 0
}

/// Both the certificate chain and the private key are given.
pub open spec fn tls_configured(tls: TlsConfig) -> bool {
    tls.cert_path@.len() > 0 && tls.key_path@.len() > 0
}

/// The OIDC issuer and client identifier are either both set or both
/// absent, and a configured provider names the tenant claim.
pub open spec fn oidc_consistent(auth: AuthConfig) -> bool {
    &&& (auth.oidc_issuer@.len() == 0) == (auth.oidc_client_id@.len() == 0)
    &&& auth.oidc_issuer@.len() > 0 ==> auth.tenant_claim@.len() > 0
}

/// The first cross-section invariant that `config` breaks, as the message of
/// the resulting [`ConfigError::Invalid`], or `None` when it breaks none.
/// The invariants are checked in order: TLS, DKIM key directory, OIDC.
pub open spec fn config_violation(config: Config) -> Option<Seq<char>> {
    if needs_tls(config.server) && !tls_configured(config.tls) {
        Some("missing tls"@)
    } else if config.dkim.key_dir@.len() == 0 {
        Some("missing dkim key directory"@)
    } else if !oidc_consistent(config.auth) {
        Some("inconsistent oidc settings"@)
    } else {
        None
    }
}

/// A listener that speaks TLS from the first byte, the implicit-TLS
/// submission listener (port 465) or the IMAP listener (port 993), cannot be
/// configured without both a certificate and a private key: such a
/// configuration is refused with "missing tls", whatever else it holds.
pub proof fn implicit_tls_listener_needs_certificate(config: Config)
    requires
        config.server.smtp_submission_tls_bind@.len() > 0 || config.server.imap_bind@.len() > 0,
        config.tls.cert_path@.len() == 0 || config.tls.key_path@.len() == 0,
    ensures
        config_violation(config) == Some("missing tls"@),
{
}

/// A configuration is accepted only if each listener that speaks TLS from
/// the first byte has a certificate and a key, a DKIM key directory is
/// given, and the OIDC issuer and client identifier are set together.
pub proof fn accepted_configuration_is_consistent(config: Config)
    requires
        config_violation(config) is None,
    ensures
        config.server.smtp_submission_tls_bind@.len() > 0 ==> config.tls.cert_path@.len() > 0
            && config.tls.key_path@.len() > 0,
        config.server.imap_bind@.len() > 0 ==> config.tls.cert_path@.len() > 0
            && config.tls.key_path@.len() > 0,
        config.dkim.key_dir@.len() > 0,
        (config.auth.oidc_issuer@.len() == 0) == (config.auth.oidc_client_id@.len() == 0),
{
}

impl Config {
    /// Validates cross-section invariants: a listener that speaks TLS from
    /// the first byte needs a certificate and a key, DKIM keys need a key
    /// directory, and the OIDC settings must be consistent.
    ///
    /// Returns [`ConfigError::Invalid`] with the message of the first broken
    /// invariant (see [`config_violation`]), `Ok(())` when none is broken.
    pub fn validate(&self) -> (r: Result<(), ConfigError>)
        ensures
            match config_violation(*self) {
                None => r is Ok,
                Some(m) => r matches Err(ConfigError::Invalid(d)) && d@ == m,
            },
            (self.server.smtp_submission_tls_bind@.len() > 0 || self.server.imap_bind@.len() > 0)
                && (self.tls.cert_path@.len() == 0 || self.tls.key_path@.len() == 0) ==> (r matches Err(
                ConfigError::Invalid(d),
            ) && d@ == "missing tls"@),
            r is Ok ==> (self.server.smtp_submission_tls_bind@.len() == 0
                && self.server.imap_bind@.len() == 0) || (self.tls.cert_path@.len() > 0
                && self.tls.key_path@.len() > 0),
            r is Ok ==> self.dkim.key_dir@.len() > 0,
            r is Ok ==> (self.auth.oidc_issuer@.len() == 0) == (self.auth.oidc_client_id@.len()
                == 0),
            r is Ok ==> (self.auth.oidc_issuer@.len() > 0 ==> self.auth.tenant_claim@.len() > 0),
    {
        let needs = !self.server.smtp_submission_tls_bind.as_str().is_empty()
            || !self.server.imap_bind.as_str().is_empty();
        let has_tls = !self.tls.cert_path.as_str().is_empty()
            && !self.tls.key_path.as_str().is_empty();
        if needs && !has_tls {
            return Err(ConfigError::Invalid(String::from_str("missing tls")));
        }
        if self.dkim.key_dir.as_str().is_empty() {
            return Err(ConfigError::Invalid(String::from_str("missing dkim key directory")));
        }
        let no_issuer = self.auth.oidc_issuer.as_str().is_empty();
        let no_client = self.auth.oidc_client_id.as_str().is_empty();
        let no_claim = self.auth.tenant_claim.as_str().is_empty();
        if no_issuer != no_client || (!no_issuer && no_claim) {
            return Err(ConfigError::Invalid(String::from_str("inconsistent oidc settings")));
        }
        Ok(())
    }
}

/// Errors raised by configuration parsing and validation.
#[derive(Debug)]
pub enum ConfigError {
    /// Filesystem access failure.
    Io(String),
    /// Malformed TOML input.
    Parse(String),
    /// Cross-section validation failure.
    Invalid(String),
}

impl ConfigError {
    /// The display text of the error.
    pub open spec fn message(&self) -> Seq<char> {
        match self {
            ConfigError::Io(d) => "io error: "@ + d@,
            ConfigError::Parse(d) => "parse error: "@ + d@,
            ConfigError::Invalid(d) => "invalid configuration: "@ + d@,
        }
    }

    /// Renders the error as text.
    pub fn to_string(&self) -> (r: String)
        ensures
            r@ == self.message(),
    {
        match self {
            ConfigError::Io(d) => prefixed("io error: ", d),
            ConfigError::Parse(d) => prefixed("parse error: ", d),
            ConfigError::Invalid(d) => prefixed("invalid configuration: ", d),
        }
    }
}

} // verus!
