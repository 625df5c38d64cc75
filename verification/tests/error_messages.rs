use aerogram::admin::AdminError;
use aerogram::auth::AuthError;
use aerogram::dkim::DkimError;
use aerogram::events::EventError;
use aerogram::imap::ImapError;
use aerogram::jmap::JmapError;
use aerogram::model::Error;
use aerogram::queue::QueueError;
use aerogram::search::SearchError;
use aerogram::smtp::SmtpError;
use aerogram::spam::SpamError;
use aerogram::spf_dmarc::SpfDmarcError;
use aerogram::store::StoreError;

#[test]
fn admin_error_messages() {
    assert_eq!(AdminError::Template("inbox".into()).to_string(), "admin template error: inbox");
    assert_eq!(AdminError::Forbidden("tenant".into()).to_string(), "admin forbidden: tenant");
}

#[test]
fn auth_error_messages() {
    assert_eq!(AuthError::InvalidToken("expired".into()).to_string(), "invalid token: expired");
    assert_eq!(AuthError::MissingScope("mail:send".into()).to_string(), "missing scope: mail:send");
    assert_eq!(AuthError::Discovery("timeout".into()).to_string(), "discovery error: timeout");
}

#[test]
fn core_error_messages() {
    assert_eq!(Error::Invalid("x".into()).to_string(), "invalid input: x");
    assert_eq!(Error::NotFound("x".into()).to_string(), "not found: x");
    assert_eq!(Error::PermissionDenied("x".into()).to_string(), "permission denied: x");
    assert_eq!(Error::Internal("x".into()).to_string(), "internal error: x");
    assert_eq!(Error::Internal(String::new()).to_string(), "internal error: ");
}

#[test]
fn dkim_error_messages() {
    assert_eq!(DkimError::Sign("bad key".into()).to_string(), "dkim sign error: bad key");
    assert_eq!(DkimError::Verify("dns".into()).to_string(), "dkim verify error: dns");
}

#[test]
fn event_error_messages() {
    assert_eq!(EventError::Transport("503".into()).to_string(), "event transport error: 503");
    assert_eq!(EventError::Serialise("nan".into()).to_string(), "event serialise error: nan");
}

#[test]
fn imap_error_messages() {
    assert_eq!(ImapError::Transport("reset".into()).to_string(), "imap transport error: reset");
    assert_eq!(ImapError::Protocol("BAD".into()).to_string(), "imap protocol error: BAD");
}

#[test]
fn jmap_error_messages() {
    assert_eq!(JmapError::Method("notFound".into()).to_string(), "jmap method error: notFound");
    assert_eq!(JmapError::Backend("db".into()).to_string(), "jmap backend error: db");
}

#[test]
fn queue_error_messages() {
    assert_eq!(QueueError::Database("down".into()).to_string(), "queue database error: down");
    assert_eq!(QueueError::Invalid("row 3".into()).to_string(), "invalid queue item: row 3");
}

#[test]
fn search_error_messages() {
    assert_eq!(SearchError::Io("missing".into()).to_string(), "search io error: missing");
    assert_eq!(SearchError::Query("syntax".into()).to_string(), "search query error: syntax");
}

#[test]
fn smtp_error_messages() {
    assert_eq!(SmtpError::Transport("tls".into()).to_string(), "smtp transport error: tls");
    assert_eq!(SmtpError::Protocol("554".into()).to_string(), "smtp protocol error: 554");
}

#[test]
fn spam_error_messages() {
    assert_eq!(SpamError::Backend("dns".into()).to_string(), "spam backend error: dns");
}

#[test]
fn spf_dmarc_error_messages() {
    assert_eq!(SpfDmarcError::Dns("servfail".into()).to_string(), "dns error: servfail");
    assert_eq!(SpfDmarcError::Arc("chain".into()).to_string(), "arc error: chain");
}

#[test]
fn store_error_messages() {
    assert_eq!(StoreError::Io("eio".into()).to_string(), "store io error: eio");
    assert_eq!(StoreError::Database("down".into()).to_string(), "store database error: down");
    assert_eq!(StoreError::NotFound("msg".into()).to_string(), "not found: msg");
}
