//! Domain types shared by every part of the server: tenant and mailbox
//! identifiers, addresses, envelopes, headers, MIME types and the common
//! error enum.

use uuid::Uuid;
use vstd::prelude::*;
use vstd::string::*;
use vstd::utf8::encode_utf8;

use crate::text::prefixed;

verus! {

/// The `uuid` crate's identifier type, carried opaquely.
#[verifier::external_type_specification]
#[verifier::external_body]
pub struct ExUuid(Uuid);

/// Opaque tenant identifier carried in every multi-tenant operation.
///
/// The value is sourced from a verified JWT claim or from the operator-side
/// CLI; a tenant identifier supplied in a request body or query parameter
/// is never trusted.
#[derive(Debug, Clone, Copy, PartialEq, Eq, Hash)]
pub struct TenantId(Uuid);

impl View for TenantId {
    type V = Uuid;

    /// The wrapped identifier.
    closed spec fn view(&self) -> Uuid {
        self.0
    }
}

impl TenantId {
    /// Wraps a raw [`Uuid`] as a [`TenantId`].
    pub fn new(value: Uuid) -> (id: Self)
        ensures
            id@ == value,
    {
        TenantId(value)
    }

    /// Returns the wrapped [`Uuid`].
    pub fn as_uuid(&self) -> (value: Uuid)
        ensures
            value == self@,
    {
        self.0
    }
}

/// Opaque mailbox identifier (UUID v7, monotonic).
#[derive(Debug, Clone, Copy, PartialEq, Eq, Hash)]
pub struct MailboxId(Uuid);

impl View for MailboxId {
    type V = Uuid;

    /// The wrapped identifier.
    closed spec fn view(&self) -> Uuid {
        self.0
    }
}

impl MailboxId {
    /// Wraps a raw [`Uuid`] as a [`MailboxId`].
    pub fn new(value: Uuid) -> (id: Self)
        ensures
            id@ == value,
    {
        MailboxId(value)
    }

    /// Returns the wrapped [`Uuid`].
    pub fn as_uuid(&self) -> (value: Uuid)
        ensures
            value == self@,
    {
        self.0
    }
}

/// Opaque outbound message identifier returned by the transactional API.
#[derive(Debug, Clone, Copy, PartialEq, Eq, Hash)]
pub struct EmailId(Uuid);

impl View for EmailId {
    type V = Uuid;

    /// The wrapped identifier.
    closed spec fn view(&self) -> Uuid {
        self.0
    }
}

impl EmailId {
    /// Wraps a raw [`Uuid`] as an [`EmailId`].
    pub fn new(value: Uuid) -> (id: Self)
        ensures
            id@ == value,
    {
        EmailId(value)
    }

    /// Returns the wrapped [`Uuid`].
    pub fn as_uuid(&self) -> (value: Uuid)
        ensures
            value == self@,
    {
        self.0
    }
}

/// Opaque on-disk message identifier in the metadata store.
#[derive(Debug, Clone, Copy, PartialEq, Eq, Hash)]
pub struct MessageId(Uuid);

impl View for MessageId {
    type V = Uuid;

    /// The wrapped identifier.
    closed spec fn view(&self) -> Uuid {
        self.0
    }
}

impl MessageId {
    /// Wraps a raw [`Uuid`] as a [`MessageId`].
    pub fn new(value: Uuid) -> (id: Self)
        ensures
            id@ == value,
    {
        MessageId(value)
    }

    /// Returns the wrapped [`Uuid`].
    pub fn as_uuid(&self) -> (value: Uuid)
        ensures
            value == self@,
    {
        self.0
    }
}

/// Parsed RFC 5321 mailbox: `local-part@domain`.
#[derive(Debug, Clone, PartialEq, Eq, Hash)]
pub struct Address {
    /// The local-part of the address (before the `@`).
    pub local: String,
    /// The domain of the address (after the `@`).
    pub domain: Domain,
}

/// Whether `c` has the Unicode `White_Space` property, which is what
/// `char::is_whitespace` tests.
pub open spec fn is_white_space(c: char) -> bool {
    let v = c as u32;
    (0x09 <= v && v <= 0x0d) || v == 0x20 || v == 0x85 || v == 0xa0 || v == 0x1680
        || (0x2000 <= v && v <= 0x200a) || v == 0x2028 || v == 0x2029 || v == 0x202f
        || v == 0x205f || v == 0x3000
}

/// Number of bytes of `bytes` before position `i` and after the last `.`
/// in front of it: the length of the label that runs up to `i`.
pub open spec fn label_length_before(bytes: Seq<u8>, i: int) -> int
    decreases i,
{
    if i <= 0 {
        0
    } else if bytes[i - 1] == 46u8 {
        0
    } else {
        label_length_before(bytes, i - 1) + 1
    }
}

/// Every `.`-separated label of `bytes` is 1 to 63 bytes long: at each
/// `.` and at the end, the label that ends there has that length.
pub open spec fn labels_within_limits(bytes: Seq<u8>) -> bool {
    forall|i: int|
        0 <= i <= bytes.len() && (i == bytes.len() || bytes[i] == 46u8) ==> 1
            <= #[trigger] label_length_before(bytes, i) <= 63
}

/// A mail domain: 1 to 253 bytes in UTF-8, no `@` and no white space, and
/// every `.`-separated label 1 to 63 bytes long.
pub open spec fn is_mail_domain(text: Seq<char>) -> bool {
    let bytes = encode_utf8(text);
    &&& 1 <= bytes.len() <= 253
    &&& forall|i: int| 0 <= i < text.len() ==> #[trigger] text[i] != '@' && !is_white_space(text[i])
    &&& labels_within_limits(bytes)
}

/// Whether `c` is white space (see [`is_white_space`]).
fn white_space(c: char) -> (b: bool)
    ensures
        b == is_white_space(c),
{
    let v: u32 = c as u32;
    (0x09 <= v && v <= 0x0d) || v == 0x20 || v == 0x85 || v == 0xa0 || v == 0x1680
        || (0x2000 <= v && v <= 0x200a) || v == 0x2028 || v == 0x2029 || v == 0x202f
        || v == 0x205f || v == 0x3000
}

/// Parsed and validated mail domain.
#[derive(Debug, PartialEq, Eq, Hash)]
pub struct Domain(String);

impl Clone for Domain {
    /// A copy of the domain.
    fn clone(&self) -> (d: Self)
        ensures
            d@ == self@,
    {
        proof {
            use_type_invariant(self);
        }
        Domain(self.0.clone())
    }
}

impl View for Domain {
    type V = Seq<char>;

    /// The domain text.
    closed spec fn view(&self) -> Seq<char> {
        self.0@
    }
}

impl Domain {
    /// A domain always holds a valid mail domain.
    #[verifier::type_invariant]
    spec fn is_valid(self) -> bool {
        is_mail_domain(self.0@)
    }

    /// Parses `text` as a mail domain: `None` unless it is 1 to 253 bytes
    /// long, holds no `@` and no white space, and each of its
    /// `.`-separated labels is 1 to 63 bytes long.
    pub fn parse(text: &str) -> (r: Option<Domain>)
        ensures
            r is Some <==> is_mail_domain(text@),
            r matches Some(d) ==> d@ == text@,
    {
        let bytes = text.as_bytes();
        assert(bytes@ == encode_utf8(text@));
        let n = bytes.len();
        if n == 0 || n > 253 {
            return None;
        }
        let mut run: usize = 0;
        let mut i: usize = 0;
        while i < n
            invariant
                bytes@ == encode_utf8(text@),
                n == bytes@.len(),
                n <= 253,
                i <= n,
                run == label_length_before(bytes@, i as int),
                run <= i,
                forall|k: int|
                    0 <= k < i && bytes@[k] == 46u8 ==> 1 <= #[trigger] label_length_before(
                        bytes@,
                        k,
                    ) <= 63,
            decreases n - i,
        {
            if bytes[i] == 46u8 {
                if run == 0 || run > 63 {
                    assert(!(1 <= label_length_before(bytes@, i as int) <= 63));
                    return None;
                }
                run = 0;
            } else {
                run = run + 1;
            }
            i = i + 1;
        }
        if run == 0 || run > 63 {
            assert(!(1 <= label_length_before(bytes@, n as int) <= 63));
            return None;
        }
        assert(labels_within_limits(bytes@));
        let len = text.unicode_len();
        let mut j: usize = 0;
        while j < len
            invariant
                len == text@.len(),
                j <= len,
                forall|k: int| 0 <= k < j ==> #[trigger] text@[k] != '@' && !is_white_space(text@[k]),
            decreases len - j,
        {
            let c = text.get_char(j);
            if c == '@' || white_space(c) {
                return None;
            }
            j = j + 1;
        }
        Some(Domain(text.to_owned()))
    }

    /// Returns the domain as a string slice.
    pub fn as_str(&self) -> (s: &str)
        ensures
            s@ == self@,
            is_mail_domain(s@),
    {
        proof {
            use_type_invariant(self);
        }
        self.0.as_str()
    }
}

/// SMTP envelope: sender and recipient list as observed on the wire.
#[derive(Debug, Clone, PartialEq, Eq)]
pub struct Envelope {
    /// `MAIL FROM` address (the return path).
    pub from: Address,
    /// `RCPT TO` addresses.
    pub to: Vec<Address>,
}

/// A single MIME header field.
#[derive(Debug, Clone, PartialEq, Eq)]
pub struct Header {
    /// Header field name (case-insensitive comparison upstream).
    pub name: String,
    /// Raw header value (unfolded but not decoded).
    pub value: String,
}

/// Parsed `Content-Type` with parameters.
#[derive(Debug, Clone, PartialEq, Eq)]
pub struct MimeType {
    /// The top-level type (`text`, `application`, `multipart`, ...).
    pub kind: String,
    /// The subtype (`plain`, `html`, `pdf`, ...).
    pub subtype: String,
    /// Optional parameters (`charset`, `boundary`, ...).
    pub params: Vec<(String, String)>,
}

/// Common error type returned to outside callers.
#[derive(Debug)]
pub enum Error {
    /// Invalid input from a request, a config file or a parsing routine.
    Invalid(String),
    /// Resource was not found.
    NotFound(String),
    /// Permission was denied for the requested operation.
    PermissionDenied(String),
    /// Internal error that should never reach a caller untouched.
    Internal(String),
}

impl Error {
    /// The display text of the error.
    pub open spec fn message(&self) -> Seq<char> {
        match self {
            Error::Invalid(d) => "invalid input: "@ + d@,
            Error::NotFound(d) => "not found: "@ + d@,
            Error::PermissionDenied(d) => "permission denied: "@ + d@,
            Error::Internal(d) => "internal error: "@ + d@,
        }
    }

    /// Renders the error as text.
    pub fn to_string(&self) -> (r: String)
        ensures
            r@ == self.message(),
    {
        match self {
            Error::Invalid(d) => prefixed("invalid input: ", d),
            Error::NotFound(d) => prefixed("not found: ", d),
            Error::PermissionDenied(d) => prefixed("permission denied: ", d),
            Error::Internal(d) => prefixed("internal error: ", d),
        }
    }
}

} // verus!
