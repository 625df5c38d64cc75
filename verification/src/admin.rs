//! Admin dashboard and webmail served over the HTTP listener under
//! `/admin/` and `/mail/`.

use vstd::prelude::*;

use crate::text::prefixed;

verus! {

/// Admin and webmail HTTP server, mounted under `/admin/` and `/mail/`.
#[derive(Debug, Clone, Default)]
pub struct AdminServer;

/// Router for the `/admin/` subtree.
#[derive(Debug, Clone, Default)]
pub struct AdminRouter;

/// Holder for the compiled page templates.
#[derive(Debug, Clone, Default)]
pub struct Templates;

/// Admin-specific errors.
#[derive(Debug)]
pub enum AdminError {
    /// Template rendering failed.
    Template(String),
    /// Authorisation failure.
    Forbidden(String),
}

impl AdminError {
    /// The display text of the error.
    pub open spec fn message(&self) -> Seq<char> {
        match self {
            AdminError::Template(d) => "admin template error: "@ + d@,
            AdminError::Forbidden(d) => "admin forbidden: "@ + d@,
        }
    }

    /// Renders the error as text.
    pub fn to_string(&self) -> (r: String)
        ensures
            r@ == self.message(),
    {
        match self {
            AdminError::Template(d) => prefixed("admin template error: ", d),
            AdminError::Forbidden(d) => prefixed("admin forbidden: ", d),
        }
    }
}

} // verus!
