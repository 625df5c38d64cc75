//! Per-tenant full-text search index over headers and message bodies.

use vstd::prelude::*;

use crate::text::prefixed;
use crate::model::TenantId;

verus! {

/// A built search index for a single tenant.
#[derive(Debug)]
pub struct SearchIndex {
    _tenant_id: TenantId,
}

impl View for SearchIndex {
    type V = TenantId;

    /// The tenant owning the index.
    closed spec fn view(&self) -> TenantId {
        self._tenant_id
    }
}

/// Helper that incrementally builds a [`SearchIndex`].
#[derive(Debug)]
pub struct IndexBuilder {
    _tenant_id: TenantId,
}

impl View for IndexBuilder {
    type V = TenantId;

    /// The tenant the index is built for.
    closed spec fn view(&self) -> TenantId {
        self._tenant_id
    }
}

impl IndexBuilder {
    /// Creates a new builder for the given tenant.
    pub fn new(tenant_id: TenantId) -> (builder: Self)
        ensures
            builder@ == tenant_id,
    {
        IndexBuilder { _tenant_id: tenant_id }
    }
}

/// A parsed search query.
#[derive(Debug, Clone)]
pub struct Query {
    /// Free-text query string.
    pub q: String,
    /// Maximum number of results to return.
    pub limit: u32,
}

/// Search-specific errors.
#[derive(Debug)]
pub enum SearchError {
    /// Underlying I/O or directory error.
    Io(String),
    /// Query parsing or execution error.
    Query(String),
}

impl SearchError {
    /// The display text of the error.
    pub open spec fn message(&self) -> Seq<char> {
        match self {
            SearchError::Io(d) => "search io error: "@ + d@,
            SearchError::Query(d) => "search query error: "@ + d@,
        }
    }

    /// Renders the error as text.
    pub fn to_string(&self) -> (r: String)
        ensures
            r@ == self.message(),
    {
        match self {
            SearchError::Io(d) => prefixed("search io error: ", d),
            SearchError::Query(d) => prefixed("search query error: ", d),
        }
    }
}

} // verus!
