//! JMAP core (RFC 8620) and JMAP mail (RFC 8621) data types.

use vstd::prelude::*;

use crate::text::prefixed;
use crate::model::{MailboxId, MessageId, TenantId};

verus! {

/// JMAP server, mounted under `/jmap/`.
#[derive(Debug, Clone, Default)]
pub struct JmapServer;

/// JMAP session for a single authenticated user.
#[derive(Debug, Clone)]
pub struct JmapSession {
    /// Tenant the session is scoped to.
    pub tenant_id: TenantId,
    /// Account identifier in JMAP terms.
    pub account_id: String,
}

/// JMAP `Mailbox` data type (RFC 8621 section 2).
#[derive(Debug, Clone)]
pub struct Mailbox {
    /// Server-assigned identifier.
    pub id: MailboxId,
    /// User-visible name.
    pub name: String,
    /// Optional role (`inbox`, `archive`, `trash`, ...).
    pub role: Option<String>,
}

/// JMAP `Email` data type (RFC 8621 section 4).
#[derive(Debug, Clone)]
pub struct Email {
    /// Server-assigned identifier.
    pub id: MessageId,
    /// Subject of the message.
    pub subject: Option<String>,
    /// Mailboxes this message is filed under.
    pub mailbox_ids: Vec<MailboxId>,
}

/// JMAP `Identity` data type (RFC 8621 section 6).
#[derive(Debug, Clone)]
pub struct Identity {
    /// Server-assigned identifier.
    pub id: String,
    /// Display name.
    pub name: String,
    /// Email address bound to the identity.
    pub email: String,
}

/// JMAP `EmailSubmission` data type (RFC 8621 section 7).
#[derive(Debug, Clone)]
pub struct EmailSubmission {
    /// Server-assigned identifier.
    pub id: String,
    /// Identifier of the message being submitted.
    pub email_id: MessageId,
    /// Status: `pending`, `final`, `canceled`.
    pub status: String,
}

/// JMAP `SearchSnippet` data type (RFC 8621 section 5.4).
#[derive(Debug, Clone)]
pub struct SearchSnippet {
    /// Identifier of the matched message.
    pub email_id: MessageId,
    /// Highlighted subject excerpt.
    pub subject: Option<String>,
    /// Highlighted body excerpt.
    pub preview: Option<String>,
}

/// JMAP-specific errors.
#[derive(Debug)]
pub enum JmapError {
    /// JMAP-defined error code returned to the client.
    Method(String),
    /// Backend failure that should map to a 5xx response.
    Backend(String),
}

impl JmapError {
    /// The display text of the error.
    pub open spec fn message(&self) -> Seq<char> {
        match self {
            JmapError::Method(d) => "jmap method error: "@ + d@,
            JmapError::Backend(d) => "jmap backend error: "@ + d@,
        }
    }

    /// Renders the error as text.
    pub fn to_string(&self) -> (r: String)
        ensures
            r@ == self.message(),
    {
        match self {
            JmapError::Method(d) => prefixed("jmap method error: ", d),
            JmapError::Backend(d) => prefixed("jmap backend error: ", d),
        }
    }
}

} // verus!
