//! Native antispam: the verdict and the handles of the scoring components
//! (Bayesian classifier, DNS blocklists, greylisting).

use vstd::prelude::*;

use crate::text::prefixed;
use crate::model::TenantId;

verus! {

/// Final spam verdict combining the score with the tenant policy.
#[derive(Debug, Clone, Copy, PartialEq, Eq)]
pub enum Verdict {
    /// Below the warning threshold; deliver normally.
    Ham,
    /// Between warning and reject thresholds; mark and deliver.
    Spam,
    /// Above the reject threshold; reject at SMTP RCPT TO time.
    Reject,
    /// Greylist policy active; ask the remote MTA to retry later.
    Greylist,
}

/// Composes individual scoring components into a final verdict.
#[derive(Debug, Clone)]
pub struct SpamScorer {
    _tenant_id: TenantId,
}

impl View for SpamScorer {
    type V = TenantId;

    /// The tenant the scorer is scoped to.
    closed spec fn view(&self) -> TenantId {
        self._tenant_id
    }
}

impl SpamScorer {
    /// Builds a scorer scoped to a single tenant.
    pub fn new(tenant_id: TenantId) -> (scorer: Self)
        ensures
            scorer@ == tenant_id,
    {
        SpamScorer { _tenant_id: tenant_id }
    }
}

/// Bayesian classifier with an on-disk corpus per tenant.
#[derive(Debug, Clone, Default)]
pub struct BayesianClassifier;

/// DNS blocklist checker.
#[derive(Debug, Clone, Default)]
pub struct DnsblChecker;

/// Tracker for greylisting state, persisted in PostgreSQL.
#[derive(Debug, Clone, Default)]
pub struct GreylistTracker;

/// Spam scoring errors.
#[derive(Debug)]
pub enum SpamError {
    /// Backend failure (DNS, database, filesystem).
    Backend(String),
}

impl SpamError {
    /// The display text of the error.
    pub open spec fn message(&self) -> Seq<char> {
        match self {
            SpamError::Backend(d) => "spam backend error: "@ + d@,
        }
    }

    /// Renders the error as text.
    pub fn to_string(&self) -> (r: String)
        ensures
            r@ == self.message(),
    {
        match self {
            SpamError::Backend(d) => prefixed("spam backend error: ", d),
        }
    }
}

} // verus!
