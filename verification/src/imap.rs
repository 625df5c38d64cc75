//! IMAP4rev2 (RFC 9051) listener: commands, responses and session state of
//! the compatibility shim over the JMAP backend.

use vstd::prelude::*;

use crate::text::prefixed;
use crate::model::TenantId;

verus! {

/// IMAP4rev2 listener.
#[derive(Debug, Clone)]
pub struct ImapServer {
    _bind: String,
}

impl View for ImapServer {
    type V = Seq<char>;

    /// The address the listener binds to.
    closed spec fn view(&self) -> Seq<char> {
        self._bind@
    }
}

impl ImapServer {
    /// Builds an IMAP listener bound to the supplied address.
    pub fn new(bind: &str) -> (r: Self)
        ensures
            r@ == bind@,
    {
        ImapServer { _bind: bind.to_owned() }
    }
}

/// IMAP session state for a single authenticated connection.
#[derive(Debug, Clone)]
pub struct ImapSession {
    /// Tenant the session is scoped to.
    pub tenant_id: TenantId,
    /// Currently selected mailbox name.
    pub selected: Option<String>,
}

/// IMAP commands accepted by the shim.
#[derive(Debug, Clone, PartialEq, Eq)]
pub enum ImapCommand {
    /// `CAPABILITY` command.
    Capability,
    /// `LOGIN <user> <pass>` command (kept for compat; submission uses AUTH).
    Login(String, String),
    /// `SELECT <mailbox>` command.
    Select(String),
    /// `FETCH <set> <items>` command.
    Fetch(String, String),
    /// `STORE <set> <items>` command.
    Store(String, String),
    /// `APPEND <mailbox> <flags> <bytes>` command.
    Append(String, Vec<String>, Vec<u8>),
    /// `IDLE` command.
    Idle,
    /// `SEARCH <criteria>` command.
    Search(String),
    /// `LOGOUT` command.
    Logout,
}

/// IMAP server response framing.
#[derive(Debug, Clone)]
pub enum ImapResponse {
    /// Tagged completion response (`OK`, `NO`, `BAD`).
    Tagged(String, ImapStatus, String),
    /// Untagged data response.
    Untagged(String),
}

/// IMAP status (`OK`, `NO`, `BAD`).
#[derive(Debug, Clone, Copy, PartialEq, Eq)]
pub enum ImapStatus {
    /// Command succeeded (`OK`).
    Okay,
    /// Command refused by the server.
    No,
    /// Command was malformed.
    Bad,
}

/// Capability list advertised by the listener.
#[derive(Debug, Clone)]
pub struct Capability {
    /// Capability tokens (`IMAP4rev2`, `STARTTLS`, `AUTH=PLAIN`, ...).
    pub tokens: Vec<String>,
}

/// IMAP-specific errors.
#[derive(Debug)]
pub enum ImapError {
    /// Transport-level failure.
    Transport(String),
    /// Protocol-level failure.
    Protocol(String),
}

impl ImapError {
    /// The display text of the error.
    pub open spec fn message(&self) -> Seq<char> {
        match self {
            ImapError::Transport(d) => "imap transport error: "@ + d@,
            ImapError::Protocol(d) => "imap protocol error: "@ + d@,
        }
    }

    /// Renders the error as text.
    pub fn to_string(&self) -> (r: String)
        ensures
            r@ == self.message(),
    {
        match self {
            ImapError::Transport(d) => prefixed("imap transport error: ", d),
            ImapError::Protocol(d) => prefixed("imap protocol error: ", d),
        }
    }
}

} // verus!
