use std::time::Duration;

use aerogram::auth::OidcClient;
use aerogram::config::ConfigError;
use aerogram::dkim::DkimAlgorithm;
use aerogram::imap::ImapStatus;
use aerogram::model::TenantId;
use aerogram::queue::BackoffPolicy;
use aerogram::server::ShutdownSignal;
use aerogram::smtp::Submission;
use aerogram::store::FsBlobStore;
use uuid::Uuid;

#[test]
fn oidc_client_constructs() {
    let client = OidcClient::new("https://id.example.org", "aerogram-admin");
    drop(client);
}

#[test]
fn config_error_displays_message() {
    let err = ConfigError::Invalid("missing tls".into());
    assert_eq!(err.to_string(), "invalid configuration: missing tls");
}

#[test]
fn tenant_id_roundtrips_through_uuid() {
    let raw = Uuid::nil();
    let id = TenantId::new(raw);
    assert_eq!(id.as_uuid(), raw);
}

#[test]
fn dkim_algorithm_is_copy() {
    let a = DkimAlgorithm::Ed25519Sha256;
    let b = a;
    assert_eq!(a, b);
}

#[test]
fn imap_status_is_copy() {
    let s = ImapStatus::Okay;
    let t = s;
    assert_eq!(s, t);
}

#[test]
fn backoff_policy_holds_durations() {
    let policy = BackoffPolicy {
        max_attempts: 5,
        initial: Duration::from_secs(30),
        max: Duration::from_secs(3600),
    };
    assert_eq!(policy.max_attempts, 5);
    assert!(policy.max > policy.initial);
}

#[test]
fn shutdown_signal_is_default_constructible() {
    let signal = ShutdownSignal::new();
    signal.shutdown();
}

#[test]
fn submission_records_its_bind() {
    let submission = Submission::new("0.0.0.0:587");
    drop(submission);
}

#[test]
fn fs_blob_store_records_its_root() {
    let store = FsBlobStore::new("/var/lib/aerogram/blobs");
    drop(store);
}
