//! Outgoing domain events, emitted in the CloudEvents v1.0 envelope, and
//! their typed payloads.

use vstd::prelude::*;

use crate::text::prefixed;
use crate::model::EmailId;

verus! {

/// Helper that builds CloudEvents envelopes from typed payloads.
#[derive(Debug, Clone, Default)]
pub struct CloudEventBuilder;

/// Typed payload of the `mail.delivered` event.
#[derive(Debug, Clone)]
pub struct MailDeliveredEvent {
    /// Identifier of the delivered message.
    pub email_id: EmailId,
    /// Recipients the delivery succeeded for.
    pub to: Vec<String>,
    /// SMTP response captured at delivery time.
    pub smtp_response: String,
}

/// Typed payload of the `mail.bounced` event.
#[derive(Debug, Clone)]
pub struct MailBouncedEvent {
    /// Identifier of the bounced message.
    pub email_id: EmailId,
    /// Recipients the delivery failed for.
    pub to: Vec<String>,
    /// Bounce category (`hard`, `soft`).
    pub category: String,
    /// Reason captured from the remote MTA.
    pub reason: String,
}

/// Typed payload of the `mail.complained` event.
#[derive(Debug, Clone)]
pub struct MailComplainedEvent {
    /// Identifier of the message the complaint refers to.
    pub email_id: EmailId,
    /// Recipient that complained.
    pub recipient: String,
}

/// Hexeract Outbox adapter: lands events in a PostgreSQL outbox table.
#[derive(Debug, Clone, Default)]
pub struct HexeractAdapter;

/// Event emission errors.
#[derive(Debug)]
pub enum EventError {
    /// Sink transport failure (HTTP, AMQP).
    Transport(String),
    /// Serialisation failure.
    Serialise(String),
}

impl EventError {
    /// The display text of the error.
    pub open spec fn message(&self) -> Seq<char> {
        match self {
            EventError::Transport(d) => "event transport error: "@ + d@,
            EventError::Serialise(d) => "event serialise error: "@ + d@,
        }
    }

    /// Renders the error as text.
    pub fn to_string(&self) -> (r: String)
        ensures
            r@ == self.message(),
    {
        match self {
            EventError::Transport(d) => prefixed("event transport error: ", d),
            EventError::Serialise(d) => prefixed("event serialise error: ", d),
        }
    }
}

} // verus!
