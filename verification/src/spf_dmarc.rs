//! SPF (RFC 7208), DMARC (RFC 7489) and ARC (RFC 8617) outcomes and the
//! handles of their evaluators.

use vstd::prelude::*;

use crate::text::prefixed;

verus! {

/// SPF evaluation outcome.
#[derive(Debug, Clone, PartialEq, Eq)]
pub enum SpfResult {
    /// SPF authorised the sender IP.
    Pass,
    /// SPF refused the sender IP.
    Fail,
    /// SPF soft-fails the sender IP (`~all`).
    SoftFail,
    /// SPF policy does not assert anything (`?all`).
    Neutral,
    /// No SPF policy published.
    NoPolicy,
    /// Temporary error during evaluation (DNS failure).
    TempError(String),
    /// Permanent error during evaluation (malformed record).
    PermError(String),
}

/// SPF evaluator backed by an asynchronous DNS resolver.
#[derive(Debug, Clone, Default)]
pub struct SpfChecker;

/// DMARC policy as published in the `_dmarc` TXT record.
#[derive(Debug, Clone, PartialEq, Eq)]
pub enum DmarcPolicy {
    /// `p=none`: monitor only.
    NoAction,
    /// `p=quarantine`: route suspicious mail to spam.
    Quarantine,
    /// `p=reject`: drop suspicious mail outright.
    Reject,
}

/// DMARC evaluator.
#[derive(Debug, Clone, Default)]
pub struct DmarcEvaluator;

/// ARC chain verifier (RFC 8617).
#[derive(Debug, Clone, Default)]
pub struct ArcVerifier;

/// ARC chain verification outcome.
#[derive(Debug, Clone, PartialEq, Eq)]
pub enum ArcResult {
    /// Chain verified.
    Pass,
    /// Chain failed verification.
    Fail(String),
    /// No ARC chain present.
    NoChain,
}

/// SPF / DMARC / ARC errors.
#[derive(Debug)]
pub enum SpfDmarcError {
    /// DNS resolution failure not covered by a per-protocol enum variant.
    Dns(String),
    /// ARC verification error.
    Arc(String),
}

impl SpfDmarcError {
    /// The display text of the error.
    pub open spec fn message(&self) -> Seq<char> {
        match self {
            SpfDmarcError::Dns(d) => "dns error: "@ + d@,
            SpfDmarcError::Arc(d) => "arc error: "@ + d@,
        }
    }

    /// Renders the error as text.
    pub fn to_string(&self) -> (r: String)
        ensures
            r@ == self.message(),
    {
        match self {
            SpfDmarcError::Dns(d) => prefixed("dns error: ", d),
            SpfDmarcError::Arc(d) => prefixed("arc error: ", d),
        }
    }
}

} // verus!
