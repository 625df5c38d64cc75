//! SMTP services: the inbound server on port 25, the submission listener
//! on ports 465 and 587, and the outbound client of the MTA role.

use vstd::prelude::*;

use crate::text::prefixed;

verus! {

/// Inbound SMTP server.
#[derive(Debug, Clone)]
pub struct SmtpServer {
    _bind: String,
}

impl View for SmtpServer {
    type V = Seq<char>;

    /// The address the listener binds to.
    closed spec fn view(&self) -> Seq<char> {
        self._bind@
    }
}

impl SmtpServer {
    /// Builds an inbound SMTP server bound to the supplied address.
    pub fn new(bind: &str) -> (r: Self)
        ensures
            r@ == bind@,
    {
        SmtpServer { _bind: bind.to_owned() }
    }
}

/// Submission listener for authenticated clients.
#[derive(Debug, Clone)]
pub struct Submission {
    _bind: String,
}

impl View for Submission {
    type V = Seq<char>;

    /// The address the listener binds to.
    closed spec fn view(&self) -> Seq<char> {
        self._bind@
    }
}

impl Submission {
    /// Builds a submission listener bound to the supplied address.
    pub fn new(bind: &str) -> (r: Self)
        ensures
            r@ == bind@,
    {
        Submission { _bind: bind.to_owned() }
    }
}

/// Outbound MTA: drains the queue and delivers to remote servers.
#[derive(Debug, Clone, Default)]
pub struct Mta;

/// SMTP outbound client (single-recipient helper, used by [`Mta`]).
#[derive(Debug, Clone, Default)]
pub struct SmtpClient;

/// SASL authentication mechanism advertised on the submission listener.
#[derive(Debug, Clone, Copy, PartialEq, Eq)]
pub enum AuthMechanism {
    /// `PLAIN` mechanism.
    Plain,
    /// `LOGIN` mechanism.
    Login,
    /// `SCRAM-SHA-256` mechanism.
    ScramSha256,
}

/// Report attached to a delivery attempt.
#[derive(Debug, Clone)]
pub struct DeliveryReport {
    /// SMTP response code captured from the remote MTA.
    pub code: u16,
    /// SMTP response text captured from the remote MTA.
    pub text: String,
}

/// SMTP-specific errors.
#[derive(Debug)]
pub enum SmtpError {
    /// Transport-level failure (TCP, TLS, timeout).
    Transport(String),
    /// Protocol-level failure (unexpected response, malformed command).
    Protocol(String),
}

impl SmtpError {
    /// The display text of the error.
    pub open spec fn message(&self) -> Seq<char> {
        match self {
            SmtpError::Transport(d) => "smtp transport error: "@ + d@,
            SmtpError::Protocol(d) => "smtp protocol error: "@ + d@,
        }
    }

    /// Renders the error as text.
    pub fn to_string(&self) -> (r: String)
        ensures
            r@ == self.message(),
    {
        match self {
            SmtpError::Transport(d) => prefixed("smtp transport error: ", d),
            SmtpError::Protocol(d) => prefixed("smtp protocol error: ", d),
        }
    }
}

} // verus!
