use aerogram::api::WebhookSigner;
use aerogram::auth::{JwksValidator, OidcClient};
use aerogram::dkim::DkimSigner;
use aerogram::imap::ImapServer;
use aerogram::model::{Address, Domain};
use aerogram::server::ShutdownSignal;
use aerogram::smtp::{SmtpServer, Submission};
use aerogram::store::{FsBlobStore, S3BlobStore};

#[test]
fn domain_parse_keeps_the_text() {
    let d = Domain::parse("mail.example.org").unwrap();
    assert_eq!(d.as_str(), "mail.example.org");
    assert_eq!(d.clone(), d);
    let a = Address { local: "joe".to_string(), domain: d };
    assert_eq!(a.domain.as_str(), "mail.example.org");
}

#[test]
fn domain_parse_accepts_unicode_labels_and_a_single_label() {
    assert_eq!(Domain::parse("bücher.example").unwrap().as_str(), "bücher.example");
    assert!(Domain::parse("localhost").is_some());
}

#[test]
fn domain_parse_rejects_empty_text_and_empty_labels() {
    assert!(Domain::parse("").is_none());
    assert!(Domain::parse(".").is_none());
    assert!(Domain::parse(".example.org").is_none());
    assert!(Domain::parse("example.org.").is_none());
    assert!(Domain::parse("example..org").is_none());
}

#[test]
fn domain_parse_rejects_at_sign_and_white_space() {
    assert!(Domain::parse("joe@example.org").is_none());
    assert!(Domain::parse("exa mple.org").is_none());
    assert!(Domain::parse("example.org\t").is_none());
    assert!(Domain::parse("example\u{a0}org").is_none());
    assert!(Domain::parse("example\u{3000}org").is_none());
}

#[test]
fn domain_label_length_limit_is_63_bytes() {
    let ok = format!("{}.example", "a".repeat(63));
    assert!(Domain::parse(&ok).is_some());
    let long = format!("{}.example", "a".repeat(64));
    assert!(Domain::parse(&long).is_none());
    // "ü" takes two bytes: 32 of them make a 64-byte label.
    assert!(Domain::parse(&format!("{}.example", "ü".repeat(31))).is_some());
    assert!(Domain::parse(&format!("{}.example", "ü".repeat(32))).is_none());
}

#[test]
fn domain_length_limit_is_253_bytes() {
    let label = "a".repeat(63);
    let at_limit = format!("{label}.{label}.{label}.{}", "a".repeat(61));
    assert_eq!(at_limit.len(), 253);
    assert!(Domain::parse(&at_limit).is_some());
    let over = format!("{label}.{label}.{label}.{}", "a".repeat(62));
    assert_eq!(over.len(), 254);
    assert!(Domain::parse(&over).is_none());
}

#[test]
fn debug_output_names_the_private_fields() {
    assert_eq!(format!("{:?}", ShutdownSignal::new()), "ShutdownSignal { _placeholder: () }");
    assert_eq!(format!("{:?}", WebhookSigner::new(vec![1, 2])), "WebhookSigner { _secret: [1, 2] }");
    assert_eq!(format!("{:?}", DkimSigner::new(vec![])), "DkimSigner { _keys: [] }");
    assert_eq!(
        format!("{:?}", OidcClient::new("https://idp", "aerogram")),
        "OidcClient { _issuer: \"https://idp\", _client_id: \"aerogram\" }"
    );
    assert_eq!(format!("{:?}", JwksValidator::new("https://idp")), "JwksValidator { _issuer: \"https://idp\" }");
    assert_eq!(format!("{:?}", ImapServer::new("0.0.0.0:993")), "ImapServer { _bind: \"0.0.0.0:993\" }");
    assert_eq!(format!("{:?}", SmtpServer::new("0.0.0.0:25")), "SmtpServer { _bind: \"0.0.0.0:25\" }");
    assert_eq!(format!("{:?}", Submission::new("0.0.0.0:587")), "Submission { _bind: \"0.0.0.0:587\" }");
    assert_eq!(format!("{:?}", FsBlobStore::new("/var/blobs")), "FsBlobStore { _root: \"/var/blobs\" }");
    assert_eq!(format!("{:?}", S3BlobStore::new("mail")), "S3BlobStore { _bucket: \"mail\" }");
}
