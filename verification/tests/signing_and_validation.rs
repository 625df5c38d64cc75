use std::time::Duration;

use hmac::{Hmac, Mac};
use sha2::Sha256;

use aerogram::api::{build_signing_input, signature_header_value, ApiError, WebhookSigner};
use aerogram::config::{
    AuthConfig, Config, ConfigError, DkimConfig, QueueConfig, ServerConfig, StoreConfig, TlsConfig,
};

#[test]
fn sign_matches_known_hmac_vector() {
    let signer = WebhookSigner::new(b"whsec_test".to_vec());
    let header = signer.sign(1716729068, br#"{"type":"mail.delivered"}"#).unwrap();
    assert_eq!(
        header,
        "t=1716729068,v1=a888b8f520805fa055dbae610782dade69e96d789d996c9981d745e9cca1904e"
    );
}

#[test]
fn sign_with_empty_secret_and_body_at_time_zero() {
    let signer = WebhookSigner::new(Vec::new());
    let header = signer.sign(0, b"").unwrap();
    assert_eq!(
        header,
        "t=0,v1=b849d5a581847b281957065739df36df2463d1977ea8d6e1e4e6cf33fadc68c3"
    );
}

#[test]
fn sign_agrees_with_the_receiver_side_check() {
    let secret = b"shared-secret";
    let body = b"{\"to\":[\"alice@example.com\"]}";
    let timestamp = 18446744073709551615u64;
    let header = WebhookSigner::new(secret.to_vec()).sign(timestamp, body).unwrap();
    let mut mac = Hmac::<Sha256>::new_from_slice(secret).unwrap();
    mac.update(format!("{timestamp}.").as_bytes());
    mac.update(body);
    let expected: String =
        mac.finalize().into_bytes().iter().map(|b| format!("{b:02x}")).collect();
    assert_eq!(header, format!("t={timestamp},v1={expected}"));
}

#[test]
fn signing_input_is_timestamp_dot_body() {
    assert_eq!(build_signing_input(42, b"abc"), b"42.abc".to_vec());
    assert_eq!(build_signing_input(0, b""), b"0.".to_vec());
    assert_eq!(build_signing_input(1000, b"x"), b"1000.x".to_vec());
}

#[test]
fn signature_header_renders_decimal_and_lower_hex() {
    assert_eq!(signature_header_value(7, &[0x00, 0xff, 0x1a]), "t=7,v1=00ff1a");
    assert_eq!(signature_header_value(1234567890, &[]), "t=1234567890,v1=");
    assert_eq!(signature_header_value(10, &[0xab, 0xcd]), "t=10,v1=abcd");
}

#[test]
fn api_error_messages() {
    assert_eq!(ApiError::Invalid("no to".into()).to_string(), "invalid request: no to");
    assert_eq!(
        ApiError::Suppressed("alice@example.com".into()).to_string(),
        "recipient suppressed: alice@example.com"
    );
    assert_eq!(ApiError::Sign("x".into()).to_string(), "webhook sign error: x");
}

fn sample_config() -> Config {
    Config {
        server: ServerConfig {
            smtp_inbound_bind: "0.0.0.0:25".into(),
            smtp_submission_bind: "0.0.0.0:587".into(),
            smtp_submission_tls_bind: "0.0.0.0:465".into(),
            imap_bind: "0.0.0.0:993".into(),
            http_bind: "0.0.0.0:8080".into(),
        },
        tls: TlsConfig {
            cert_path: "/etc/aerogram/cert.pem".into(),
            key_path: "/etc/aerogram/key.pem".into(),
        },
        dkim: DkimConfig { key_dir: "/var/lib/aerogram/dkim".into() },
        store: StoreConfig {
            postgres_url: "postgres://aerogram@localhost/aerogram".into(),
            blob_dir: Some("/var/lib/aerogram/blobs".into()),
            s3: None,
        },
        queue: QueueConfig {
            max_attempts: 5,
            initial_backoff: Duration::from_secs(30),
            max_backoff: Duration::from_secs(3600),
        },
        auth: AuthConfig {
            oidc_issuer: "https://id.example.org".into(),
            oidc_client_id: "aerogram-admin".into(),
            tenant_claim: "tenant_id".into(),
        },
    }
}

fn invalid_message(config: &Config) -> String {
    match config.validate() {
        Err(ConfigError::Invalid(m)) => m,
        other => panic!("expected an invalid configuration, got {other:?}"),
    }
}

#[test]
fn complete_config_validates() {
    assert!(sample_config().validate().is_ok());
}

#[test]
fn tls_listener_without_certificate_is_rejected() {
    let mut config = sample_config();
    config.tls.key_path = String::new();
    assert_eq!(invalid_message(&config), "missing tls");
    let mut config = sample_config();
    config.tls.cert_path = String::new();
    config.server.smtp_submission_tls_bind = String::new();
    assert_eq!(invalid_message(&config), "missing tls");
}

#[test]
fn no_tls_listener_needs_no_certificate() {
    let mut config = sample_config();
    config.server.smtp_submission_tls_bind = String::new();
    config.server.imap_bind = String::new();
    config.tls.cert_path = String::new();
    config.tls.key_path = String::new();
    assert!(config.validate().is_ok());
}

#[test]
fn missing_dkim_key_directory_is_rejected() {
    let mut config = sample_config();
    config.dkim.key_dir = String::new();
    assert_eq!(invalid_message(&config), "missing dkim key directory");
}

#[test]
fn tls_is_checked_before_dkim() {
    let mut config = sample_config();
    config.dkim.key_dir = String::new();
    config.tls.cert_path = String::new();
    assert_eq!(invalid_message(&config), "missing tls");
}

#[test]
fn inconsistent_oidc_settings_are_rejected() {
    let mut config = sample_config();
    config.auth.oidc_client_id = String::new();
    assert_eq!(invalid_message(&config), "inconsistent oidc settings");
    let mut config = sample_config();
    config.auth.oidc_issuer = String::new();
    assert_eq!(invalid_message(&config), "inconsistent oidc settings");
    let mut config = sample_config();
    config.auth.tenant_claim = String::new();
    assert_eq!(invalid_message(&config), "inconsistent oidc settings");
}

#[test]
fn absent_oidc_provider_is_consistent() {
    let mut config = sample_config();
    config.auth.oidc_issuer = String::new();
    config.auth.oidc_client_id = String::new();
    config.auth.tenant_claim = String::new();
    assert!(config.validate().is_ok());
}

#[test]
fn config_error_messages() {
    assert_eq!(ConfigError::Io("denied".into()).to_string(), "io error: denied");
    assert_eq!(ConfigError::Parse("line 3".into()).to_string(), "parse error: line 3");
}
