//! Message store: references to stored messages and the blob backends
//! (filesystem by default, S3-compatible as an option).

use vstd::prelude::*;

use crate::text::prefixed;
use crate::model::{MailboxId, MessageId, TenantId};

verus! {

/// Strongly-typed reference to a stored message.
#[derive(Debug, Clone)]
pub struct MessageRef {
    /// Owning tenant.
    pub tenant_id: TenantId,
    /// Owning mailbox.
    pub mailbox_id: MailboxId,
    /// Stored message identifier.
    pub message_id: MessageId,
    /// Opaque blob locator (filesystem path or S3 object key).
    pub blob_key: String,
    /// Stored size in bytes.
    pub size_bytes: u64,
}

/// Filesystem blob store.
#[derive(Debug, Clone)]
pub struct FsBlobStore {
    _root: String,
}

impl View for FsBlobStore {
    type V = Seq<char>;

    /// The root directory of the blobs.
    closed spec fn view(&self) -> Seq<char> {
        self._root@
    }
}

impl FsBlobStore {
    /// Builds a filesystem-backed blob store rooted at the given directory.
    pub fn new(root: &str) -> (r: Self)
        ensures
            r@ == root@,
    {
        FsBlobStore { _root: root.to_owned() }
    }
}

/// S3-compatible blob store.
#[derive(Debug, Clone)]
pub struct S3BlobStore {
    _bucket: String,
}

impl View for S3BlobStore {
    type V = Seq<char>;

    /// The bucket holding the blobs.
    closed spec fn view(&self) -> Seq<char> {
        self._bucket@
    }
}

impl S3BlobStore {
    /// Builds an S3-compatible blob store targeting the given bucket.
    pub fn new(bucket: &str) -> (r: Self)
        ensures
            r@ == bucket@,
    {
        S3BlobStore { _bucket: bucket.to_owned() }
    }
}

/// Store-specific errors.
#[derive(Debug)]
pub enum StoreError {
    /// Backend I/O failure.
    Io(String),
    /// Database error.
    Database(String),
    /// Row not found.
    NotFound(String),
}

impl StoreError {
    /// The display text of the error.
    pub open spec fn message(&self) -> Seq<char> {
        match self {
            StoreError::Io(d) => "store io error: "@ + d@,
            StoreError::Database(d) => "store database error: "@ + d@,
            StoreError::NotFound(d) => "not found: "@ + d@,
        }
    }

    /// Renders the error as text.
    pub fn to_string(&self) -> (r: String)
        ensures
            r@ == self.message(),
    {
        match self {
            StoreError::Io(d) => prefixed("store io error: ", d),
            StoreError::Database(d) => prefixed("store database error: ", d),
            StoreError::NotFound(d) => prefixed("not found: ", d),
        }
    }
}

} // verus!
