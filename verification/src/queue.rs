//! Outbound delivery queue: backoff policy, delivery outcomes and the queue
//! facade used by the SMTP sender worker.

use std::time::Duration;

use vstd::prelude::*;

use crate::text::prefixed;

verus! {

/// Backoff policy used when a delivery attempt fails transiently.
#[derive(Debug, Clone)]
pub struct BackoffPolicy {
    /// Maximum number of attempts before dead-lettering.
    pub max_attempts: u32,
    /// Initial backoff duration.
    pub initial: Duration,
    /// Maximum backoff duration (caps the exponential growth).
    pub max: Duration,
}

/// Outcome of a delivery attempt.
#[derive(Debug, Clone)]
pub enum DeliveryOutcome {
    /// Delivered with the recorded SMTP response.
    Delivered(String),
    /// Soft bounce: retry later.
    SoftBounce(String),
    /// Hard bounce: terminal failure.
    HardBounce(String),
    /// Transport error (TLS failure, timeout, ...).
    Transport(String),
}

/// In-process queue facade used by the SMTP sender worker.
#[derive(Debug, Clone)]
pub struct Queue<S> {
    _store: S,
    _policy: BackoffPolicy,
}

impl<S> Queue<S> {
    /// The storage backend of the queue.
    pub closed spec fn store(&self) -> S {
        self._store
    }

    /// The backoff policy of the queue.
    pub closed spec fn policy(&self) -> BackoffPolicy {
        self._policy
    }

    /// Builds a queue facade from a store and a backoff policy.
    pub fn new(store: S, policy: BackoffPolicy) -> (queue: Self)
        ensures
            queue.store() == store,
            queue.policy() == policy,
    {
        Queue { _store: store, _policy: policy }
    }
}

/// Queue-specific errors.
#[derive(Debug)]
pub enum QueueError {
    /// Database error.
    Database(String),
    /// Malformed item.
    Invalid(String),
}

impl QueueError {
    /// The display text of the error.
    pub open spec fn message(&self) -> Seq<char> {
        match self {
            QueueError::Database(d) => "queue database error: "@ + d@,
            QueueError::Invalid(d) => "invalid queue item: "@ + d@,
        }
    }

    /// Renders the error as text.
    pub fn to_string(&self) -> (r: String)
        ensures
            r@ == self.message(),
    {
        match self {
            QueueError::Database(d) => prefixed("queue database error: ", d),
            QueueError::Invalid(d) => prefixed("invalid queue item: ", d),
        }
    }
}

} // verus!
