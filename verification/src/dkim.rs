//! DKIM (RFC 6376 with RSA-SHA256, RFC 8463 with Ed25519-SHA256): the
//! signing keys, the signer that builds the `DKIM-Signature` header value
//! of an outbound message, and the verifier handle and its outcomes.

use vstd::prelude::*;
use vstd::string::*;

use ed25519_dalek::pkcs8::DecodePrivateKey as _;
use ed25519_dalek::Signer as _;
use rsa::pkcs8::DecodePrivateKey;
use sha2::Digest;

use crate::base64::{base64, base64_encode};
use crate::dkim_canon::{append_bytes, ascii_lower, byte_rows, bytes_equal, canonical_body,
    canonical_field, canonicalize_body, canonicalize_field, copy_range, field_value, find_byte,
    find_byte_from, find_last_field, group_header_lines, header_fields, last_field_named,
    lemma_find_byte_bounds, lemma_rfind_byte_bounds, relax_value, relaxed_value, rfind_byte,
    rfind_byte_in, split_crlf_lines, split_message, to_ascii_lower, body_section};
use crate::text::prefixed;

verus! {

/// DKIM signing algorithm identifier.
#[derive(Debug, Clone, Copy, PartialEq, Eq)]
pub enum DkimAlgorithm {
    /// `rsa-sha256` (RFC 6376).
    RsaSha256,
    /// `ed25519-sha256` (RFC 8463).
    Ed25519Sha256,
}

/// Opaque DKIM signing key paired with a selector and a domain.
#[derive(Debug, Clone)]
pub struct DkimKey {
    /// Algorithm of the key.
    pub algorithm: DkimAlgorithm,
    /// DNS selector (the `<selector>._domainkey.<domain>` label component).
    pub selector: String,
    /// Domain owning the key.
    pub domain: String,
    /// Raw key material in PKCS8 PEM.
    pub pkcs8_pem: Vec<u8>,
}

/// Signs outbound messages with a configured set of [`DkimKey`].
#[derive(Debug, Clone)]
pub struct DkimSigner {
    _keys: Vec<DkimKey>,
}

impl View for DkimSigner {
    type V = Seq<DkimKey>;

    /// The configured keys, in order.
    closed spec fn view(&self) -> Seq<DkimKey> {
        self._keys@
    }
}

impl DkimSigner {
    /// Index of the first configured key for `domain` (ASCII case ignored).
    pub fn key_index_for(&self, domain: &[u8]) -> (r: Option<usize>)
        ensures
            r matches Some(i) ==> first_key_for(self@, domain@, 0) == Some(i as int),
            r is None ==> first_key_for(self@, domain@, 0) is None,
            r matches Some(i) ==> i < self@.len() && ascii_lower(
                vstd::utf8::encode_utf8(self@[i as int].domain@),
            ) == ascii_lower(domain@) && forall|k: int|
                0 <= k < i ==> ascii_lower(vstd::utf8::encode_utf8(#[trigger] self@[k].domain@))
                    != ascii_lower(domain@),
            r is None ==> forall|k: int|
                0 <= k < self@.len() ==> ascii_lower(
                    vstd::utf8::encode_utf8(#[trigger] self@[k].domain@),
                ) != ascii_lower(domain@),
    {
        proof {
            signing_key_is_first_case_insensitive_match(self@, domain@, 0);
        }
        let wanted = to_ascii_lower(domain);
        let n = self._keys.len();
        let mut i: usize = 0;
        while i < n
            invariant
                n == self@.len(),
                i <= n,
                wanted@ == ascii_lower(domain@),
                first_key_for(self@, domain@, 0) == first_key_for(self@, domain@, i as int),
            decreases n - i,
        {
            let key_domain = to_ascii_lower(self._keys[i].domain.as_str().as_bytes());
            if bytes_equal(key_domain.as_slice(), wanted.as_slice()) {
                proof {
                    signing_key_is_first_case_insensitive_match(self@, domain@, i as int);
                }
                return Some(i);
            }
            i = i + 1;
        }
        None
    }

    /// Signs the provided MIME message bytes, returning the
    /// `DKIM-Signature` header value to prepend to the message (see
    /// [`dkim_signing`] for the choices made).
    ///
    /// Returns [`DkimError::Sign`] when the message has no `From` field, when
    /// the `From` mailbox has no domain, when no key is configured for that
    /// domain, or when the key cannot sign.
    pub fn sign(&self, message: &[u8]) -> (r: Result<String, DkimError>)
        ensures
            match dkim_signing(self@, message@) {
                Ok(header) => r matches Ok(h) && h@ == header,
                Err(e) => r matches Err(DkimError::Sign(d)) && d@ == e,
            },
    {
        let (head, body) = split_message(message);
        let lines = split_crlf_lines(head.as_slice());
        let fields = group_header_lines(lines);
        assert(byte_rows(fields@) == header_fields(message@));
        let from_name = signed_header_name(0);
        let from_index = match find_last_field(&fields, from_name.as_slice()) {
            Some(i) => i,
            None => {
                return Err(DkimError::Sign(String::from_str("missing From header")));
            },
        };
        let domain = match sender_domain_of(fields[from_index].as_slice()) {
            Some(d) => d,
            None => {
                return Err(DkimError::Sign(String::from_str("no domain in From header")));
            },
        };
        proof {
            lemma_first_key_for_bounds(self@, domain@, 0);
        }
        let key_index = match self.key_index_for(domain.as_slice()) {
            Some(i) => i,
            None => {
                return Err(
                    DkimError::Sign(String::from_str("no signing key for the sender domain")),
                );
            },
        };
        let key = &self._keys[key_index];
        let canonical = canonicalize_body(body.as_slice());
        let body_digest = compute_sha256(canonical.as_slice());
        let body_hash = base64_encode(body_digest.as_slice());
        let (header_list, fields_input) = signed_headers(&fields);
        let tags = build_signature_tags(key, &header_list, &body_hash);
        let data = build_signed_data(fields_input.as_slice(), &tags);
        let digest = compute_sha256(data.as_slice());
        let signature = match key.algorithm {
            DkimAlgorithm::RsaSha256 => sign_rsa_sha256(key.pkcs8_pem.as_slice(), digest.as_slice()),
            DkimAlgorithm::Ed25519Sha256 => sign_ed25519(
                key.pkcs8_pem.as_slice(),
                digest.as_slice(),
            ),
        };
        match signature {
            Some(sig) => {
                let encoded = base64_encode(sig.as_slice());
                Ok(tags.concat(encoded.as_str()))
            },
            None => Err(DkimError::Sign(String::from_str("signing failed"))),
        }
    }

    /// Builds a signer from the configured keys.
    pub fn new(keys: Vec<DkimKey>) -> (signer: Self)
        ensures
            signer@ == keys@,
    {
        DkimSigner { _keys: keys }
    }
}

/// Names of the header fields that are signed when present, in the order
/// in which they are listed in the `h=` tag (RFC 6376, 5.4.1).
pub open spec fn signed_header_names() -> Seq<Seq<u8>> {
    seq![
        seq![102u8, 114u8, 111u8, 109u8],
        seq![114u8, 101u8, 112u8, 108u8, 121u8, 45u8, 116u8, 111u8],
        seq![115u8, 117u8, 98u8, 106u8, 101u8, 99u8, 116u8],
        seq![100u8, 97u8, 116u8, 101u8],
        seq![116u8, 111u8],
        seq![99u8, 99u8],
        seq![109u8, 101u8, 115u8, 115u8, 97u8, 103u8, 101u8, 45u8, 105u8, 100u8],
        seq![109u8, 105u8, 109u8, 101u8, 45u8, 118u8, 101u8, 114u8, 115u8, 105u8, 111u8, 110u8],
        seq![99u8, 111u8, 110u8, 116u8, 101u8, 110u8, 116u8, 45u8, 116u8, 121u8, 112u8, 101u8],
    ]
}

/// Number of entries of [`signed_header_names`].
pub const SIGNED_HEADER_COUNT: usize = 9;

/// The bytes of an ASCII name read as text.
pub open spec fn ascii_text(name: Seq<u8>) -> Seq<char> {
    name.map_values(|b: u8| b as char)
}

/// The `k`-th entry of [`signed_header_names`].
pub fn signed_header_name(k: usize) -> (name: Vec<u8>)
    requires
        k < SIGNED_HEADER_COUNT,
    ensures
        name@ == signed_header_names()[k as int],
{
    let name = match k {
        0 => vec![102u8, 114u8, 111u8, 109u8],
        1 => vec![114u8, 101u8, 112u8, 108u8, 121u8, 45u8, 116u8, 111u8],
        2 => vec![115u8, 117u8, 98u8, 106u8, 101u8, 99u8, 116u8],
        3 => vec![100u8, 97u8, 116u8, 101u8],
        4 => vec![116u8, 111u8],
        5 => vec![99u8, 99u8],
        6 => vec![109u8, 101u8, 115u8, 115u8, 97u8, 103u8, 101u8, 45u8, 105u8, 100u8],
        7 => vec![109u8, 105u8, 109u8, 101u8, 45u8, 118u8, 101u8, 114u8, 115u8, 105u8, 111u8, 110u8],
        _ => vec![99u8, 111u8, 110u8, 116u8, 101u8, 110u8, 116u8, 45u8, 116u8, 121u8, 112u8, 101u8],
    };
    assert(name@ =~= signed_header_names()[k as int]);
    name
}

/// The `k`-th entry of [`signed_header_names`], as text.
pub fn signed_header_label(k: usize) -> (label: &'static str)
    requires
        k < SIGNED_HEADER_COUNT,
    ensures
        label@ == ascii_text(signed_header_names()[k as int]),
{
    let label = match k {
        0 => "from",
        1 => "reply-to",
        2 => "subject",
        3 => "date",
        4 => "to",
        5 => "cc",
        6 => "message-id",
        7 => "mime-version",
        _ => "content-type",
    };
    proof {
        reveal_strlit("from");
        reveal_strlit("reply-to");
        reveal_strlit("subject");
        reveal_strlit("date");
        reveal_strlit("to");
        reveal_strlit("cc");
        reveal_strlit("message-id");
        reveal_strlit("mime-version");
        reveal_strlit("content-type");
    }
    assert(label@ =~= ascii_text(signed_header_names()[k as int]));
    label
}

/// The mailbox of a relaxed `From` value: the text between the last `<`
/// and the `>` after it when there is a `<`, the whole value otherwise.
pub open spec fn address_of(value: Seq<u8>) -> Seq<u8> {
    match rfind_byte(value, 60) {
        Some(l) => {
            let rest = value.skip(l + 1);
            match find_byte(rest, 62, 0) {
                Some(g) => rest.take(g),
                None => rest,
            }
        },
        None => value,
    }
}

/// The domain of a mailbox: the text after its last `@`.
pub open spec fn domain_of(address: Seq<u8>) -> Option<Seq<u8>> {
    match rfind_byte(address, 64) {
        Some(a) => Some(address.skip(a + 1)),
        None => None,
    }
}

/// The domain of the mailbox in a `From` header field.
pub open spec fn sender_domain(from_field: Seq<u8>) -> Option<Seq<u8>> {
    domain_of(address_of(relaxed_value(field_value(from_field))))
}

/// The domain of the mailbox in a `From` header field (see
/// [`sender_domain`]).
pub fn sender_domain_of(from_field: &[u8]) -> (r: Option<Vec<u8>>)
    ensures
        r matches Some(d) ==> sender_domain(from_field@) == Some(d@),
        r is None ==> sender_domain(from_field@) is None,
{
    let colon = find_byte_from(from_field, 58, 0);
    proof {
        lemma_find_byte_bounds(from_field@, 58, 0);
    }
    let value = match colon {
        Some(c) => {
            let flen = from_field.len();
            assert(c < flen);
            copy_range(from_field, c + 1, flen)
        },
        None => Vec::new(),
    };
    assert(value@ == field_value(from_field@));
    let cv = relax_value(value.as_slice());
    proof {
        lemma_rfind_byte_bounds(cv@, 60);
    }
    let address = match rfind_byte_in(cv.as_slice(), 60) {
        Some(l) => {
            let rest = copy_range(cv.as_slice(), l + 1, cv.len());
            assert(rest@ =~= cv@.skip(l + 1));
            proof {
                lemma_find_byte_bounds(rest@, 62, 0);
            }
            match find_byte_from(rest.as_slice(), 62, 0) {
                Some(g) => {
                    let a = copy_range(rest.as_slice(), 0, g);
                    assert(a@ =~= rest@.take(g as int));
                    a
                },
                None => rest,
            }
        },
        None => cv,
    };
    assert(address@ == address_of(relaxed_value(field_value(from_field@))));
    proof {
        lemma_rfind_byte_bounds(address@, 64);
    }
    match rfind_byte_in(address.as_slice(), 64) {
        Some(a) => {
            let d = copy_range(address.as_slice(), a + 1, address.len());
            assert(d@ =~= address@.skip(a + 1));
            Some(d)
        },
        None => None,
    }
}

/// The key's domain matches `domain`, ignoring ASCII case.
pub open spec fn key_matches(key: DkimKey, domain: Seq<u8>) -> bool {
    ascii_lower(vstd::utf8::encode_utf8(key.domain@)) == ascii_lower(domain)
}

/// Index of the first key at or after `from` whose domain matches `domain`.
pub open spec fn first_key_for(keys: Seq<DkimKey>, domain: Seq<u8>, from: int) -> Option<int>
    decreases keys.len() - from,
{
    if from < 0 || from >= keys.len() {
        None
    } else if key_matches(keys[from], domain) {
        Some(from)
    } else {
        first_key_for(keys, domain, from + 1)
    }
}

/// A key found by [`first_key_for`] is inside `keys`.
pub proof fn lemma_first_key_for_bounds(keys: Seq<DkimKey>, domain: Seq<u8>, from: int)
    ensures
        first_key_for(keys, domain, from) matches Some(i) ==> from <= i < keys.len(),
    decreases keys.len() - from,
{
    if from >= 0 && from < keys.len() && !key_matches(keys[from], domain) {
        lemma_first_key_for_bounds(keys, domain, from + 1);
    }
}

/// [`first_key_for`] from `from` on is the first index at or after `from`
/// whose key's domain equals `domain` once both are lower-cased (ASCII).
pub proof fn lemma_first_key_for_from(keys: Seq<DkimKey>, domain: Seq<u8>, from: int, i: int)
    requires
        0 <= from,
    ensures
        first_key_for(keys, domain, from) == Some(i) <==> {
            &&& from <= i < keys.len()
            &&& ascii_lower(vstd::utf8::encode_utf8(keys[i].domain@)) == ascii_lower(domain)
            &&& forall|k: int|
                from <= k < i ==> ascii_lower(vstd::utf8::encode_utf8(#[trigger] keys[k].domain@))
                    != ascii_lower(domain)
        },
    decreases keys.len() - from,
{
    if from < keys.len() && !key_matches(keys[from], domain) {
        lemma_first_key_for_from(keys, domain, from + 1, i);
    }
}

/// The signing key for `domain` is the key at `i` exactly when `i` is the
/// first configured key whose domain equals `domain` once both are
/// lower-cased (ASCII); there is none exactly when no key's domain equals it
/// that way.
pub proof fn signing_key_is_first_case_insensitive_match(keys: Seq<DkimKey>, domain: Seq<u8>, i: int)
    ensures
        first_key_for(keys, domain, 0) == Some(i) <==> {
            &&& 0 <= i < keys.len()
            &&& ascii_lower(vstd::utf8::encode_utf8(keys[i].domain@)) == ascii_lower(domain)
            &&& forall|k: int|
                0 <= k < i ==> ascii_lower(vstd::utf8::encode_utf8(#[trigger] keys[k].domain@))
                    != ascii_lower(domain)
        },
        first_key_for(keys, domain, 0) is None <==> forall|k: int|
            0 <= k < keys.len() ==> ascii_lower(vstd::utf8::encode_utf8(#[trigger] keys[k].domain@))
                != ascii_lower(domain),
{
    lemma_first_key_for_from(keys, domain, 0, i);
    lemma_first_key_for_bounds(keys, domain, 0);
    if first_key_for(keys, domain, 0) is None {
        assert forall|k: int|
            0 <= k < keys.len() implies ascii_lower(
                vstd::utf8::encode_utf8(#[trigger] keys[k].domain@),
            ) != ascii_lower(domain) by {
            if ascii_lower(vstd::utf8::encode_utf8(keys[k].domain@)) == ascii_lower(domain) {
                lemma_no_key_before(keys, domain, 0, k);
            }
        }
    } else {
        let j = first_key_for(keys, domain, 0)->Some_0;
        lemma_first_key_for_from(keys, domain, 0, j);
    }
}

/// Where the key at `k` (at or after `from`) matches `domain`, some key is
/// found from `from` on.
proof fn lemma_no_key_before(keys: Seq<DkimKey>, domain: Seq<u8>, from: int, k: int)
    requires
        0 <= from <= k < keys.len(),
        key_matches(keys[k], domain),
    ensures
        first_key_for(keys, domain, from) is Some,
    decreases k - from,
{
    if !key_matches(keys[from], domain) {
        lemma_no_key_before(keys, domain, from + 1, k);
    }
}

/// Domains that differ only in ASCII case choose the same signing key.
pub proof fn signing_key_ignores_ascii_case(keys: Seq<DkimKey>, d1: Seq<u8>, d2: Seq<u8>)
    requires
        ascii_lower(d1) == ascii_lower(d2),
    ensures
        first_key_for(keys, d1, 0) == first_key_for(keys, d2, 0),
{
    lemma_same_key_from(keys, d1, d2, 0);
}

proof fn lemma_same_key_from(keys: Seq<DkimKey>, d1: Seq<u8>, d2: Seq<u8>, from: int)
    requires
        ascii_lower(d1) == ascii_lower(d2),
    ensures
        first_key_for(keys, d1, from) == first_key_for(keys, d2, from),
    decreases keys.len() - from,
{
    if from >= 0 && from < keys.len() {
        lemma_same_key_from(keys, d1, d2, from + 1);
    }
}

/// A message whose `From` mailbox has a domain is signed, or fails only
/// because the key cannot sign, as soon as some configured key's domain
/// equals that domain when both are lower-cased (ASCII).
pub proof fn matching_key_is_never_missing(keys: Seq<DkimKey>, message: Seq<u8>, k: int)
    requires
        last_field_named(header_fields(message), signed_header_names()[0]) matches Some(from)
            && sender_domain(from) matches Some(d) && 0 <= k < keys.len() && ascii_lower(
            vstd::utf8::encode_utf8(keys[k].domain@),
        ) == ascii_lower(d),
    ensures
        dkim_signing(keys, message) matches Err(e) ==> e == "signing failed"@,
{
    let from = last_field_named(header_fields(message), signed_header_names()[0])->Some_0;
    let d = sender_domain(from)->Some_0;
    lemma_no_key_before(keys, d, 0, k);
}

/// The names of `names` whose field is present in `fields`, in order.
pub open spec fn present_names(fields: Seq<Seq<u8>>, names: Seq<Seq<u8>>) -> Seq<Seq<u8>>
    decreases names.len(),
{
    if names.len() == 0 {
        Seq::empty()
    } else {
        let before = present_names(fields, names.drop_last());
        if last_field_named(fields, names.last()) is Some {
            before.push(names.last())
        } else {
            before
        }
    }
}

/// The canonical forms, in the order of `names`, of the last field of
/// `fields` with each name, for the names that have one.
pub open spec fn signed_fields_input(fields: Seq<Seq<u8>>, names: Seq<Seq<u8>>) -> Seq<u8>
    decreases names.len(),
{
    if names.len() == 0 {
        Seq::empty()
    } else {
        let before = signed_fields_input(fields, names.drop_last());
        match last_field_named(fields, names.last()) {
            Some(f) => before + canonical_field(f),
            None => before,
        }
    }
}

/// Names joined by `:`, as text (the value of the `h=` tag).
pub open spec fn colon_join(names: Seq<Seq<u8>>) -> Seq<char>
    decreases names.len(),
{
    if names.len() == 0 {
        Seq::empty()
    } else if names.len() == 1 {
        ascii_text(names[0])
    } else {
        colon_join(names.drop_last()) + seq![':'] + ascii_text(names.last())
    }
}

/// The `h=` list and the canonical signed fields of a message's fields.
pub fn signed_headers(fields: &Vec<Vec<u8>>) -> (r: (String, Vec<u8>))
    ensures
        r.0@ == colon_join(present_names(byte_rows(fields@), signed_header_names())),
        r.1@ == signed_fields_input(byte_rows(fields@), signed_header_names()),
{
    let ghost rows = byte_rows(fields@);
    let ghost names = signed_header_names();
    let mut list = String::new();
    let mut data: Vec<u8> = Vec::new();
    let mut any = false;
    let mut k: usize = 0;
    assert(names.take(0) =~= Seq::<Seq<u8>>::empty());
    while k < SIGNED_HEADER_COUNT
        invariant
            rows == byte_rows(fields@),
            names == signed_header_names(),
            k <= SIGNED_HEADER_COUNT,
            list@ == colon_join(present_names(rows, names.take(k as int))),
            data@ == signed_fields_input(rows, names.take(k as int)),
            any == (present_names(rows, names.take(k as int)).len() > 0),
        decreases SIGNED_HEADER_COUNT - k,
    {
        let name = signed_header_name(k);
        assert(names.take(k + 1).drop_last() =~= names.take(k as int));
        assert(names.take(k + 1).last() == names[k as int]);
        match find_last_field(fields, name.as_slice()) {
            Some(i) => {
                let ghost before = present_names(rows, names.take(k as int));
                if any {
                    list.append(":");
                    proof {
                        reveal_strlit(":");
                    }
                }
                list.append(signed_header_label(k));
                let canon = canonicalize_field(fields[i].as_slice());
                append_bytes(&mut data, canon.as_slice());
                any = true;
                proof {
                    assert(before.push(names[k as int]).drop_last() =~= before);
                    if before.len() == 0 {
                        assert(list@ =~= colon_join(before.push(names[k as int])));
                    }
                }
            },
            None => {},
        }
        k = k + 1;
    }
    assert(names.take(SIGNED_HEADER_COUNT as int) =~= names);
    (list, data)
}

/// Every signature covers the `From` field (RFC 6376, 5.4: the `From`
/// header field must be signed): whenever a message has a `From` field,
/// the `h=` list of its signature starts with `from`.
pub proof fn from_field_is_always_signed(fields: Seq<Seq<u8>>)
    requires
        last_field_named(fields, signed_header_names()[0]) is Some,
    ensures
        present_names(fields, signed_header_names()).len() > 0,
        present_names(fields, signed_header_names())[0] == signed_header_names()[0],
{
    let names = signed_header_names();
    assert forall|k: int| 1 <= k <= names.len() implies {
        let p = #[trigger] present_names(fields, names.take(k));
        p.len() > 0 && p[0] == names[0]
    } by {
        lemma_present_names_first(fields, names, k);
    }
    assert(names.take(names.len() as int) =~= names);
}

/// The first name of a list, when its field is present, stays first among
/// the present names of every longer prefix.
proof fn lemma_present_names_first(fields: Seq<Seq<u8>>, names: Seq<Seq<u8>>, k: int)
    requires
        1 <= k <= names.len(),
        last_field_named(fields, names[0]) is Some,
    ensures
        present_names(fields, names.take(k)).len() > 0,
        present_names(fields, names.take(k))[0] == names[0],
    decreases k,
{
    assert(names.take(k).drop_last() =~= names.take(k - 1));
    if k == 1 {
        assert(names.take(0) =~= Seq::<Seq<u8>>::empty());
        assert(names.take(1).last() == names[0]);
        let e = present_names(fields, names.take(0));
        assert(e.len() == 0);
        assert(present_names(fields, names.take(1)) == e.push(names[0]));
        assert(e.push(names[0])[0] == names[0]);
    } else {
        lemma_present_names_first(fields, names, k - 1);
        let p = present_names(fields, names.take(k - 1));
        assert(p.push(names.take(k).last())[0] == p[0]);
    }
}

/// The name of the signature field as it enters the signed data.
pub open spec fn dkim_signature_field_name() -> Seq<u8> {
    seq![100u8, 107u8, 105u8, 109u8, 45u8, 115u8, 105u8, 103u8, 110u8, 97u8, 116u8, 117u8, 114u8, 101u8, 58u8]
}

/// The bytes that are hashed and signed: the canonical signed fields, then
/// the relaxed `dkim-signature` field carrying `tags`, without its CRLF
/// (RFC 6376, 3.7).
pub open spec fn signed_data(fields_input: Seq<u8>, tags: Seq<char>) -> Seq<u8> {
    fields_input + dkim_signature_field_name() + relaxed_value(vstd::utf8::encode_utf8(tags))
}

/// Builds the bytes that are hashed and signed (see [`signed_data`]).
pub fn build_signed_data(fields_input: &[u8], tags: &String) -> (data: Vec<u8>)
    ensures
        data@ == signed_data(fields_input@, tags@),
{
    let mut data = copy_range(fields_input, 0, fields_input.len());
    assert(fields_input@.subrange(0, fields_input@.len() as int) =~= fields_input@);
    let name: Vec<u8> = vec![100u8, 107u8, 105u8, 109u8, 45u8, 115u8, 105u8, 103u8, 110u8, 97u8, 116u8, 117u8, 114u8, 101u8, 58u8];
    append_bytes(&mut data, name.as_slice());
    let value = relax_value(tags.as_str().as_bytes());
    append_bytes(&mut data, value.as_slice());
    assert(data@ =~= signed_data(fields_input@, tags@));
    data
}

/// The `a=` tag value of an algorithm.
pub open spec fn algorithm_name(algorithm: DkimAlgorithm) -> Seq<char> {
    match algorithm {
        DkimAlgorithm::RsaSha256 => "rsa-sha256"@,
        DkimAlgorithm::Ed25519Sha256 => "ed25519-sha256"@,
    }
}

/// The tag list of a signature up to the empty `b=` tag:
/// `v=1; a=<alg>; c=relaxed/relaxed; d=<domain>; s=<selector>; h=<names>;
/// bh=<body hash>; b=`.
pub open spec fn signature_tags(key: DkimKey, header_list: Seq<char>, body_hash: Seq<char>) -> Seq<
    char,
> {
    "v=1; a="@ + algorithm_name(key.algorithm) + "; c=relaxed/relaxed; d="@ + key.domain@
        + "; s="@ + key.selector@ + "; h="@ + header_list + "; bh="@ + body_hash + "; b="@
}

/// Builds the tag list of a signature up to the empty `b=` tag (see
/// [`signature_tags`]).
pub fn build_signature_tags(key: &DkimKey, header_list: &String, body_hash: &String) -> (tags:
    String)
    ensures
        tags@ == signature_tags(*key, header_list@, body_hash@),
{
    let mut tags = String::from_str("v=1; a=");
    match key.algorithm {
        DkimAlgorithm::RsaSha256 => tags.append("rsa-sha256"),
        DkimAlgorithm::Ed25519Sha256 => tags.append("ed25519-sha256"),
    }
    tags.append("; c=relaxed/relaxed; d=");
    tags.append(key.domain.as_str());
    tags.append("; s=");
    tags.append(key.selector.as_str());
    tags.append("; h=");
    tags.append(header_list.as_str());
    tags.append("; bh=");
    tags.append(body_hash.as_str());
    tags.append("; b=");
    tags
}

/// SHA-256 digest of `data`, as computed by the `sha2` crate.
pub uninterp spec fn sha256_digest(data: Seq<u8>) -> Seq<u8>;

/// Computes SHA-256 through `sha2::Sha256::digest`.
///
/// Trusted: the result is the named value `sha256_digest(data)`, 32 bytes
/// long (the SHA-256 output size).
#[verifier::external_body]
fn compute_sha256(data: &[u8]) -> (digest: Vec<u8>)
    ensures
        digest@ == sha256_digest(data@),
        digest@.len() == 32,
{
    sha2::Sha256::digest(data).to_vec()
}

/// Ed25519 signature of `message` under the PKCS#8 PEM private key
/// `pkcs8_pem`, as computed by the `ed25519-dalek` crate; `None` when the
/// key does not parse.
pub uninterp spec fn ed25519_signature(pkcs8_pem: Seq<u8>, message: Seq<u8>) -> Option<Seq<u8>>;

/// Signs through `ed25519_dalek::SigningKey::from_pkcs8_pem` and
/// `Signer::sign`.
///
/// Trusted: the result is the named value `ed25519_signature(pkcs8_pem,
/// message)`; Ed25519 signing is deterministic. The PEM text is read with
/// `std::str::from_utf8`, and bytes that are not UTF-8 give `None` like a
/// key that does not parse.
#[verifier::external_body]
fn sign_ed25519(pkcs8_pem: &[u8], message: &[u8]) -> (r: Option<Vec<u8>>)
    ensures
        r is Some <==> ed25519_signature(pkcs8_pem@, message@) is Some,
        r is Some ==> r.unwrap()@ == ed25519_signature(pkcs8_pem@, message@).unwrap(),
{
    let pem = std::str::from_utf8(pkcs8_pem).ok()?;
    let key = ed25519_dalek::SigningKey::from_pkcs8_pem(pem).ok()?;
    Some(key.sign(message).to_bytes().to_vec())
}

/// RSASSA-PKCS1-v1_5 signature with SHA-256 of the already computed
/// `digest` under the PKCS#8 PEM private key `pkcs8_pem`, as computed by the
/// `rsa` crate; `None` when the key does not parse or the signing fails.
pub uninterp spec fn rsa_sha256_signature(pkcs8_pem: Seq<u8>, digest: Seq<u8>) -> Option<Seq<u8>>;

/// Signs through `rsa::RsaPrivateKey::from_pkcs8_pem` and
/// `RsaPrivateKey::sign` with `Pkcs1v15Sign::new::<Sha256>()`.
///
/// Trusted: the result is the named value `rsa_sha256_signature(pkcs8_pem,
/// digest)`; signing without a random source is deterministic. The PEM
/// text is read with `std::str::from_utf8`, and bytes that are not UTF-8
/// give `None` like a key that does not parse.
#[verifier::external_body]
fn sign_rsa_sha256(pkcs8_pem: &[u8], digest: &[u8]) -> (r: Option<Vec<u8>>)
    ensures
        r is Some <==> rsa_sha256_signature(pkcs8_pem@, digest@) is Some,
        r is Some ==> r.unwrap()@ == rsa_sha256_signature(pkcs8_pem@, digest@).unwrap(),
{
    let pem = std::str::from_utf8(pkcs8_pem).ok()?;
    let key = rsa::RsaPrivateKey::from_pkcs8_pem(pem).ok()?;
    key.sign(rsa::Pkcs1v15Sign::new::<sha2::Sha256>(), digest).ok()
}

/// The signature of `digest` under `key`, with the key's algorithm.
pub open spec fn key_signature(key: DkimKey, digest: Seq<u8>) -> Option<Seq<u8>> {
    match key.algorithm {
        DkimAlgorithm::RsaSha256 => rsa_sha256_signature(key.pkcs8_pem@, digest),
        DkimAlgorithm::Ed25519Sha256 => ed25519_signature(key.pkcs8_pem@, digest),
    }
}

/// The outcome of signing `message` with `keys`: the `DKIM-Signature`
/// header value, or the message of the signing error.
///
/// The signing key is the first one whose domain is the domain of the
/// mailbox in the last `From` field (ASCII case ignored). The signature
/// uses relaxed canonicalization for header and body, covers the last
/// instance of each field of [`signed_header_names`] that is present, and
/// hashes with SHA-256.
pub open spec fn dkim_signing(keys: Seq<DkimKey>, message: Seq<u8>) -> Result<Seq<char>, Seq<char>> {
    let fields = header_fields(message);
    match last_field_named(fields, signed_header_names()[0]) {
        None => Err("missing From header"@),
        Some(from) => match sender_domain(from) {
            None => Err("no domain in From header"@),
            Some(domain) => match first_key_for(keys, domain, 0) {
                None => Err("no signing key for the sender domain"@),
                Some(i) => {
                    let key = keys[i];
                    let header_list = colon_join(present_names(fields, signed_header_names()));
                    let body_hash = base64(sha256_digest(canonical_body(body_section(message))));
                    let tags = signature_tags(key, header_list, body_hash);
                    let digest = sha256_digest(
                        signed_data(signed_fields_input(fields, signed_header_names()), tags),
                    );
                    match key_signature(key, digest) {
                        None => Err("signing failed"@),
                        Some(signature) => Ok(tags + base64(signature)),
                    }
                },
            },
        },
    }
}

/// Verifies DKIM signatures on inbound messages.
#[derive(Debug, Clone, Default)]
pub struct DkimVerifier;

/// Outcome of a DKIM verification.
#[derive(Debug, Clone, PartialEq, Eq)]
pub enum DkimResult {
    /// Signature verified successfully.
    Pass,
    /// Signature does not verify.
    Fail(String),
    /// Verification could not run (DNS failure, malformed signature).
    TempError(String),
    /// Permanent error (key not found, algorithm unsupported).
    PermError(String),
    /// Message had no DKIM signature to verify.
    NoSignature,
}

/// DKIM-specific errors.
#[derive(Debug)]
pub enum DkimError {
    /// Signing failure (key parsing, hash, signature).
    Sign(String),
    /// Verification failure (parse, key lookup, signature mismatch).
    Verify(String),
}

impl DkimError {
    /// The display text of the error.
    pub open spec fn message(&self) -> Seq<char> {
        match self {
            DkimError::Sign(d) => "dkim sign error: "@ + d@,
            DkimError::Verify(d) => "dkim verify error: "@ + d@,
        }
    }

    /// Renders the error as text.
    pub fn to_string(&self) -> (r: String)
        ensures
            r@ == self.message(),
    {
        match self {
            DkimError::Sign(d) => prefixed("dkim sign error: ", d),
            DkimError::Verify(d) => prefixed("dkim verify error: ", d),
        }
    }
}

} // verus!
