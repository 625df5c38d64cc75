use aerogram::base64::base64_encode;
use aerogram::dkim::{DkimAlgorithm, DkimError, DkimKey, DkimSigner};
use aerogram::dkim_canon::{
    canonicalize_body, canonicalize_field, group_header_lines, relax_value, split_crlf_lines,
    split_message,
};
use sha2::{Digest, Sha256};

/// PKCS#8 `PrivateKeyInfo` prefix of an Ed25519 key (RFC 8410), followed
/// by the 32-byte seed.
const ED25519_PKCS8_PREFIX: [u8; 16] = [
    0x30, 0x2e, 0x02, 0x01, 0x00, 0x30, 0x05, 0x06, 0x03, 0x2b, 0x65, 0x70, 0x04, 0x22, 0x04, 0x20,
];

/// Seed of the Ed25519 key used in the examples of RFC 8463 (the first
/// test key of RFC 8032).
const ED25519_SEED: [u8; 32] = [
    0x9d, 0x61, 0xb1, 0x9d, 0xef, 0xfd, 0x5a, 0x60, 0xba, 0x84, 0x4a, 0xf4, 0x92, 0xec, 0x2c, 0xc4,
    0x44, 0x49, 0xc5, 0x69, 0x7b, 0x32, 0x69, 0x19, 0x70, 0x3b, 0xac, 0x03, 0x1c, 0xae, 0x7f, 0x60,
];

/// DER (PKCS#8) encoding of a 1024-bit RSA test key.
const RSA_PKCS8_DER: [u8; 635] = [
    0x30, 0x82, 0x02, 0x77, 0x02, 0x01, 0x00, 0x30, 0x0d, 0x06, 0x09, 0x2a,
    0x86, 0x48, 0x86, 0xf7, 0x0d, 0x01, 0x01, 0x01, 0x05, 0x00, 0x04, 0x82,
    0x02, 0x61, 0x30, 0x82, 0x02, 0x5d, 0x02, 0x01, 0x00, 0x02, 0x81, 0x81,
    0x00, 0xcf, 0xb9, 0xd4, 0x12, 0x21, 0xe9, 0x7c, 0x0c, 0xde, 0xfc, 0x32,
    0xe7, 0xfa, 0x3f, 0x35, 0xf8, 0x30, 0x10, 0x01, 0xd7, 0xab, 0xd3, 0xdd,
    0x41, 0xa3, 0x16, 0xa6, 0x2a, 0x11, 0x68, 0xb1, 0x8c, 0x9d, 0x88, 0x6e,
    0xa7, 0x18, 0xb3, 0x6a, 0xa4, 0xfb, 0x38, 0x2f, 0x53, 0x09, 0x3c, 0x49,
    0x3b, 0xe6, 0x40, 0xba, 0x8d, 0xd1, 0x2e, 0xb9, 0xd5, 0x0b, 0x07, 0x5e,
    0xc7, 0x9c, 0xc8, 0xed, 0x76, 0xbd, 0x3e, 0x74, 0x56, 0x69, 0x89, 0x02,
    0x2a, 0x93, 0xf6, 0xc6, 0xf2, 0xd8, 0xc6, 0x5d, 0xf2, 0x2f, 0x68, 0xb4,
    0xe7, 0x69, 0x57, 0x72, 0x2d, 0xa3, 0x5d, 0x44, 0x0b, 0xc1, 0x79, 0x0d,
    0x90, 0x44, 0xf2, 0x03, 0x1a, 0xbd, 0xbb, 0x5d, 0xbb, 0x73, 0x8f, 0x4a,
    0x9e, 0x16, 0xac, 0x04, 0x54, 0x5a, 0x0f, 0x7e, 0x45, 0xe0, 0x82, 0x7b,
    0x76, 0x8e, 0x1d, 0x09, 0x79, 0xcf, 0x9b, 0x06, 0x1b, 0x02, 0x03, 0x01,
    0x00, 0x01, 0x02, 0x81, 0x80, 0x63, 0xaf, 0xdf, 0x59, 0x30, 0x53, 0x17,
    0x88, 0x29, 0xbe, 0xc8, 0x43, 0x51, 0x71, 0xe2, 0x59, 0x8f, 0xdf, 0x2e,
    0xb3, 0x2c, 0xaf, 0xc8, 0xff, 0xc5, 0xdf, 0x89, 0xb0, 0xa8, 0x98, 0x20,
    0x94, 0xc5, 0xc9, 0x02, 0xa9, 0x48, 0x0e, 0x5a, 0x40, 0x80, 0x9b, 0x2f,
    0x02, 0xdf, 0x6c, 0xc2, 0x0c, 0x6f, 0xec, 0x62, 0x5a, 0xca, 0xa7, 0x6c,
    0xe1, 0x13, 0xa0, 0xde, 0xd8, 0x56, 0xa2, 0x8a, 0x6a, 0x53, 0x03, 0x60,
    0xe3, 0xfb, 0x26, 0x96, 0xa6, 0xc5, 0x3e, 0x41, 0xe4, 0x4e, 0xfa, 0xa4,
    0xdb, 0x68, 0x4c, 0x20, 0x90, 0x34, 0x7e, 0x4b, 0x8a, 0x7c, 0xff, 0xde,
    0x4b, 0x9a, 0xd3, 0x5c, 0x25, 0xb0, 0x57, 0x7b, 0xa7, 0x86, 0x46, 0x82,
    0x2b, 0x22, 0xbd, 0x67, 0x13, 0x7f, 0xa3, 0x20, 0x19, 0xe5, 0xc7, 0xc3,
    0x03, 0x4f, 0x94, 0x3f, 0x24, 0xe4, 0x26, 0xbf, 0x46, 0x39, 0x9a, 0x04,
    0xe9, 0x02, 0x41, 0x00, 0xe7, 0x42, 0x4e, 0xff, 0x2e, 0xc5, 0x0d, 0xfe,
    0x29, 0x75, 0xd7, 0x75, 0xc1, 0xfd, 0x1e, 0x22, 0x39, 0xf2, 0xe2, 0x07,
    0x1c, 0xea, 0x66, 0x65, 0xaa, 0x71, 0xfc, 0xf4, 0x8b, 0xdf, 0xf8, 0x8e,
    0x86, 0x8d, 0x31, 0x67, 0xc9, 0x49, 0xb5, 0xd5, 0x10, 0xc9, 0x70, 0x5f,
    0x2f, 0xad, 0x91, 0x79, 0x03, 0x32, 0xc1, 0x94, 0x41, 0xeb, 0xe4, 0xa6,
    0xd2, 0x4c, 0x9c, 0x5e, 0xba, 0x1b, 0xe7, 0x65, 0x02, 0x41, 0x00, 0xe5,
    0xf2, 0xff, 0x68, 0x35, 0x61, 0x68, 0xa1, 0xf4, 0x10, 0x3d, 0xb2, 0xa8,
    0x35, 0x9d, 0x1b, 0xc9, 0x58, 0xdf, 0x45, 0x28, 0x0b, 0xba, 0x67, 0x19,
    0x17, 0x98, 0x7d, 0xcc, 0xec, 0x23, 0xa4, 0x39, 0x2d, 0xd1, 0xd0, 0x1c,
    0x94, 0x8e, 0x17, 0x8e, 0xe4, 0xbc, 0x5f, 0xbf, 0x85, 0x0c, 0x47, 0xe1,
    0xe8, 0x0d, 0x89, 0x44, 0x35, 0x8f, 0x03, 0x36, 0xe9, 0xb8, 0x82, 0xfe,
    0xe6, 0x1f, 0x7f, 0x02, 0x41, 0x00, 0xb8, 0xd2, 0x54, 0xc2, 0x3b, 0x05,
    0xbf, 0xe6, 0x26, 0x0a, 0x89, 0x15, 0x12, 0xe1, 0x91, 0x68, 0xb7, 0x39,
    0x77, 0x0d, 0x4a, 0x3d, 0xc7, 0x72, 0x6f, 0x23, 0x44, 0x8f, 0xc9, 0x0e,
    0x49, 0xde, 0xd6, 0x88, 0x17, 0x39, 0x24, 0x34, 0xe5, 0xbe, 0x8f, 0xf8,
    0xfd, 0xf7, 0x04, 0xea, 0xc9, 0xbd, 0x96, 0x21, 0xc5, 0x76, 0x10, 0xad,
    0x4f, 0x83, 0x47, 0xc5, 0x74, 0x9f, 0x7c, 0x4b, 0xfa, 0xc5, 0x02, 0x41,
    0x00, 0xac, 0x97, 0xb5, 0x08, 0x5c, 0x78, 0x9e, 0x76, 0x60, 0xa0, 0x08,
    0x0f, 0x1e, 0x9e, 0x0f, 0x2c, 0x19, 0xf6, 0x70, 0xae, 0x91, 0x9e, 0x2b,
    0xec, 0xd2, 0x32, 0x99, 0xac, 0x62, 0xb1, 0x23, 0x17, 0x52, 0x2b, 0x87,
    0xfd, 0xb2, 0x55, 0xf6, 0x48, 0xcc, 0x61, 0xf6, 0xd9, 0xcf, 0x00, 0x67,
    0xf5, 0x54, 0x24, 0x3e, 0x74, 0xb7, 0x13, 0x94, 0x22, 0x0f, 0x87, 0x61,
    0x8c, 0x41, 0x12, 0x2c, 0xb5, 0x02, 0x40, 0x47, 0x22, 0xb3, 0xf2, 0x97,
    0x65, 0x6e, 0x15, 0x63, 0x3d, 0xcf, 0xa6, 0x47, 0xd4, 0x2d, 0x18, 0x2d,
    0x6d, 0x7c, 0x91, 0x87, 0xc1, 0x44, 0x76, 0xc2, 0x5c, 0x8d, 0x1e, 0x75,
    0xc5, 0x5a, 0x08, 0xae, 0xca, 0xa5, 0x16, 0x57, 0x6b, 0x34, 0x49, 0x23,
    0xe8, 0x8c, 0x8c, 0xd1, 0xb8, 0xa7, 0xc0, 0x05, 0x36, 0x5a, 0xcc, 0xcb,
    0x10, 0xfe, 0xae, 0x6a, 0xe8, 0x34, 0xac, 0x1b, 0x58, 0x52, 0xc8,
];

/// PEM text (RFC 7468) of a PKCS#8 key given by its DER bytes, with the
/// base64 body wrapped at 64 columns.
fn pkcs8_pem(der: &[u8]) -> Vec<u8> {
    let boundary = "-----";
    let label = ["PRIVATE", "KEY"].join(" ");
    let body = base64_encode(der);
    let mut pem = format!("{boundary}BEGIN {label}{boundary}\n");
    for chunk in body.as_bytes().chunks(64) {
        pem.push_str(std::str::from_utf8(chunk).unwrap());
        pem.push('\n');
    }
    pem.push_str(&format!("{boundary}END {label}{boundary}\n"));
    pem.into_bytes()
}

fn ed25519_pem() -> Vec<u8> {
    let mut der = ED25519_PKCS8_PREFIX.to_vec();
    der.extend_from_slice(&ED25519_SEED);
    pkcs8_pem(&der)
}

fn rsa_pem() -> Vec<u8> {
    pkcs8_pem(&RSA_PKCS8_DER)
}

const RFC8463_MESSAGE: &[u8] = b"From: Joe SixPack <joe@football.example.com>\r\n\
To: Suzie Q <suzie@shopping.example.net>\r\n\
Subject: Is dinner ready?\r\n\
Date: Fri, 11 Jul 2003 21:00:37 -0700 (PDT)\r\n\
Message-ID: <20030712040037.46341.5F8J@football.example.com>\r\n\
\r\n\
Hi.\r\n\
\r\n\
We lost the game.  Are you hungry yet?\r\n\
\r\n\
Joe.\r\n";

fn key(algorithm: DkimAlgorithm, domain: &str, selector: &str, pem: Vec<u8>) -> DkimKey {
    DkimKey {
        algorithm,
        selector: selector.to_string(),
        domain: domain.to_string(),
        pkcs8_pem: pem,
    }
}

fn sign_error(signer: &DkimSigner, message: &[u8]) -> String {
    match signer.sign(message) {
        Err(DkimError::Sign(m)) => m,
        other => panic!("expected a signing error, got {other:?}"),
    }
}

#[test]
fn relaxed_header_canonicalization_example() {
    assert_eq!(canonicalize_field(b"A: X"), b"a:X\r\n".to_vec());
    assert_eq!(canonicalize_field(b"B : Y\t\r\n\tZ  "), b"b:Y Z\r\n".to_vec());
    assert_eq!(relax_value(b"  a \t b\r\n c  "), b"a b c".to_vec());
}

#[test]
fn relaxed_body_canonicalization_example() {
    assert_eq!(canonicalize_body(b" C \r\nD \t E\r\n\r\n\r\n"), b" C\r\nD E\r\n".to_vec());
    assert_eq!(canonicalize_body(b""), Vec::<u8>::new());
    assert_eq!(canonicalize_body(b"\r\n\r\n"), Vec::<u8>::new());
    assert_eq!(canonicalize_body(b"no final line break"), b"no final line break\r\n".to_vec());
}

#[test]
fn message_splits_at_the_first_empty_line() {
    let (head, body) = split_message(b"A: 1\r\nB: 2\r\n\r\nbody\r\n\r\nmore");
    assert_eq!(head, b"A: 1\r\nB: 2\r\n".to_vec());
    assert_eq!(body, b"body\r\n\r\nmore".to_vec());
    let (head, body) = split_message(b"\r\nonly body");
    assert!(head.is_empty());
    assert_eq!(body, b"only body".to_vec());
    let (head, body) = split_message(b"A: 1\r\n");
    assert_eq!(head, b"A: 1\r\n".to_vec());
    assert!(body.is_empty());
}

#[test]
fn folded_lines_join_their_field() {
    let lines = split_crlf_lines(b"Subject: a\r\n b\r\nTo: x\r\n");
    let fields = group_header_lines(lines);
    assert_eq!(fields, vec![b"Subject: a\r\n b".to_vec(), b"To: x".to_vec()]);
}

#[test]
fn body_hash_of_the_rfc8463_example() {
    let (_, body) = split_message(RFC8463_MESSAGE);
    let digest = Sha256::digest(canonicalize_body(&body));
    assert_eq!(base64_encode(&digest), "2jUSOH9NhtVGCQWNr9BrIAPreKQjO6Sn7XIkfJVOzv8=");
}

#[test]
fn base64_padding() {
    assert_eq!(base64_encode(b""), "");
    assert_eq!(base64_encode(b"f"), "Zg==");
    assert_eq!(base64_encode(b"fo"), "Zm8=");
    assert_eq!(base64_encode(b"foo"), "Zm9v");
    assert_eq!(base64_encode(b"foobar"), "Zm9vYmFy");
    assert_eq!(base64_encode(&[0xfb, 0xff, 0xbf]), "+/+/");
}

#[test]
fn ed25519_signature_of_the_rfc8463_message() {
    let signer = DkimSigner::new(vec![key(
        DkimAlgorithm::Ed25519Sha256,
        "football.example.com",
        "brisbane",
        ed25519_pem(),
    )]);
    assert_eq!(
        signer.sign(RFC8463_MESSAGE).unwrap(),
        "v=1; a=ed25519-sha256; c=relaxed/relaxed; d=football.example.com; s=brisbane; \
h=from:subject:date:to:message-id; bh=2jUSOH9NhtVGCQWNr9BrIAPreKQjO6Sn7XIkfJVOzv8=; \
b=XdioG9YHwI+6BUinNGy34I7S9ggwZcFpVfl2q9lqYsGa+U8y/W+e8z4QlbTWqkgoMKgL0s7d/fkUu31R6ncqAw=="
    );
}

#[test]
fn rsa_signature_of_the_rfc8463_message() {
    let signer = DkimSigner::new(vec![
        key(DkimAlgorithm::Ed25519Sha256, "other.example", "x", ed25519_pem()),
        key(DkimAlgorithm::RsaSha256, "football.example.com", "test", rsa_pem()),
    ]);
    assert_eq!(
        signer.sign(RFC8463_MESSAGE).unwrap(),
        "v=1; a=rsa-sha256; c=relaxed/relaxed; d=football.example.com; s=test; \
h=from:subject:date:to:message-id; bh=2jUSOH9NhtVGCQWNr9BrIAPreKQjO6Sn7XIkfJVOzv8=; \
b=wmpfPM197E3KvRB+PZKphSmo08Nr2rC0GRlfZBeysih2q8GMu4KF2iK3CrvM8Eij+GIAffo04DEA2soQE+1o2tiLAEPpcDfhEniZ8BcR7BaN3WodRYTy25Yfvfd6HbjsnpYfVGd0zdKMpAGIAG+obq+aL6QbZ2QYwNgL8Gxnp5A="
    );
}

#[test]
fn last_from_field_and_case_insensitive_domain_choose_the_key() {
    let signer = DkimSigner::new(vec![key(
        DkimAlgorithm::Ed25519Sha256,
        "example.org",
        "s1",
        ed25519_pem(),
    )]);
    let message = b"Subject:  Folded\r\n\tsubject  \r\nFROM : \"Ann\" <ann@Example.ORG>\r\n\
X-Other: 1\r\nfrom: second <ann@example.org>\r\n\r\n  body  line \t\r\n\r\n\r\n";
    assert_eq!(
        signer.sign(message).unwrap(),
        "v=1; a=ed25519-sha256; c=relaxed/relaxed; d=example.org; s=s1; h=from:subject; \
bh=n2izlh7krtmOTNr9anyPLQzFldjm3sJslKQBEbnnAoI=; \
b=oajvcSyPGCfYqOSG9gCtgMs98S8WFZedRJlWBLxYPjTbEi0Hutd8FeRfUY3h6mI+c9eyQpkv9jpdyuZfsBrNCw=="
    );
}

#[test]
fn message_without_from_is_not_signed() {
    let signer = DkimSigner::new(vec![key(DkimAlgorithm::Ed25519Sha256, "a.example", "s", ed25519_pem())]);
    assert_eq!(sign_error(&signer, b"To: b@a.example\r\n\r\nhi\r\n"), "missing From header");
}

#[test]
fn from_without_domain_is_not_signed() {
    let signer = DkimSigner::new(vec![key(DkimAlgorithm::Ed25519Sha256, "a.example", "s", ed25519_pem())]);
    assert_eq!(sign_error(&signer, b"From: nobody\r\n\r\nhi\r\n"), "no domain in From header");
}

#[test]
fn unknown_sender_domain_is_not_signed() {
    let signer = DkimSigner::new(vec![key(DkimAlgorithm::Ed25519Sha256, "a.example", "s", ed25519_pem())]);
    assert_eq!(
        sign_error(&signer, b"From: x@b.example\r\n\r\nhi\r\n"),
        "no signing key for the sender domain"
    );
}

#[test]
fn unreadable_key_fails_to_sign() {
    let signer = DkimSigner::new(vec![key(DkimAlgorithm::RsaSha256, "a.example", "s", b"not a key".to_vec())]);
    assert_eq!(sign_error(&signer, b"From: x@a.example\r\n\r\nhi\r\n"), "signing failed");
    let signer = DkimSigner::new(vec![key(DkimAlgorithm::Ed25519Sha256, "a.example", "s", rsa_pem())]);
    assert_eq!(sign_error(&signer, b"From: x@a.example\r\n\r\nhi\r\n"), "signing failed");
}

#[test]
fn canonical_forms_are_stable() {
    for body in [
        &b" C \r\nD \t E\r\n\r\n\r\n"[..],
        &b"a\r\r\n\nb \r\n"[..],
        &b"x\ty  \r\n \r\n\t\r\n"[..],
        &b"tail without break  "[..],
    ] {
        let once = canonicalize_body(body);
        assert_eq!(canonicalize_body(&once), once);
    }
    for value in [&b"  a \t b\r\n c  "[..], &b"\t lone"[..], &b" "[..]] {
        let once = relax_value(value);
        assert_eq!(relax_value(&once), once);
    }
}

#[test]
fn signed_header_list_starts_with_from() {
    let signer = DkimSigner::new(vec![key(DkimAlgorithm::Ed25519Sha256, "a.example", "s", ed25519_pem())]);
    let header = signer
        .sign(b"Subject: hi\r\nTo: b@a.example\r\nFrom: x@a.example\r\n\r\nhi\r\n")
        .unwrap();
    assert!(header.contains("; h=from:subject:to; "));
}
