//! The fingerprint by which an unchanged document is recognised.

use vstd::prelude::*;

use sha2::Digest;

use crate::catalog::{Availability, CatalogDocument, DocumentModel, FileKind};
use crate::graph::error::{GraphError, GraphResult};

verus! {

#[verifier::external_type_specification]
#[verifier::external_body]
pub struct ExJsonError(serde_json::Error);

/// The JSON that `serde_json::to_vec` writes for the content of a document.
pub uninterp spec fn content_json(
    identity: (u128, u128, u128, u128),
    name: Seq<char>,
    path: Seq<char>,
    extension: Option<Seq<char>>,
    metadata: (u8, u64, Option<i64>, Option<i64>, bool, u8),
) -> Seq<u8>;

/// What `sha2::Sha256::digest` makes of bytes.
pub uninterp spec fn sha256(bytes: Seq<u8>) -> Seq<u8>;

/// The number that stands for a kind.
pub open spec fn kind_code(kind: FileKind) -> u8 {
    match kind {
        FileKind::File => 0,
        FileKind::Directory => 1,
        FileKind::Symlink => 2,
        FileKind::Special => 3,
        FileKind::Other => 4,
    }
}

/// The number that stands for an availability.
pub open spec fn availability_number(availability: Availability) -> u8 {
    match availability {
        Availability::Online => 0,
        Availability::Offline => 1,
        Availability::Unknown => 2,
    }
}

/// The fingerprint of the content of a document; its version does not count.
pub open spec fn document_fingerprint(document: DocumentModel) -> Seq<u8> {
    sha256(
        content_json(
            (
                document.identity.object_key.volume_id.value,
                document.identity.object_key.file_id.value,
                document.identity.file_link_id.value,
                document.identity.document_id.value,
            ),
            document.name,
            document.resolved_path,
            document.extension,
            (
                kind_code(document.metadata.kind),
                document.metadata.size,
                document.metadata.created_at_unix_ms,
                document.metadata.modified_at_unix_ms,
                document.metadata.hidden,
                availability_number(document.metadata.availability),
            ),
        ),
    )
}

/// Calls `serde_json::to_vec` on the content of a document as a tuple of plain values. Writing
/// numbers, flags and text into memory does not fail, and the bytes depend on the values alone.
#[verifier::external_body]
fn encode_content(
    identity: (u128, u128, u128, u128),
    name: &String,
    path: &String,
    extension: &Option<String>,
    metadata: (u8, u64, Option<i64>, Option<i64>, bool, u8),
) -> (r: Result<Vec<u8>, serde_json::Error>)
    ensures
        r is Ok,
        r->Ok_0@ == content_json(
            identity,
            name@,
            path@,
            crate::text::optional_text(*extension),
            metadata,
        ),
{
    serde_json::to_vec(&(identity, name, path, extension, metadata))
}

/// Calls `sha2::Sha256::digest`. The digest has 32 bytes and depends on the input alone.
#[verifier::external_body]
pub(crate) fn digest(bytes: &Vec<u8>) -> (r: Vec<u8>)
    ensures
        r@ == sha256(bytes@),
        r@.len() == 32,
{
    sha2::Sha256::digest(bytes).to_vec()
}

/// The fingerprint of the content of a document: the digest of its plain values, written as one
/// JSON array. Where a stored fingerprint was made of another form of the content, the document
/// counts as changed and is stored once more.
pub fn catalog_content_fingerprint(document: &CatalogDocument) -> (r: GraphResult<Vec<u8>>)
    ensures
        r is Ok,
        r->Ok_0@ == document_fingerprint(document@),
        r->Ok_0@.len() == 32,
{
    let kind: u8 = match document.metadata.kind {
        FileKind::File => 0,
        FileKind::Directory => 1,
        FileKind::Symlink => 2,
        FileKind::Special => 3,
        FileKind::Other => 4,
    };
    let availability: u8 = match document.metadata.availability {
        Availability::Online => 0,
        Availability::Offline => 1,
        Availability::Unknown => 2,
    };
    let encoded = encode_content(
        (
            document.identity.object_key.volume_id.value,
            document.identity.object_key.file_id.value,
            document.identity.file_link_id.value,
            document.identity.document_id.value,
        ),
        &document.name,
        &document.resolved_path,
        &document.extension,
        (
            kind,
            document.metadata.size,
            document.metadata.created_at_unix_ms,
            document.metadata.modified_at_unix_ms,
            document.metadata.hidden,
            availability,
        ),
    );
    match encoded {
        Ok(bytes) => Ok(digest(&bytes)),
        Err(_) => Err(GraphError::Serialization),
    }
}

/// The content of a document as plain values; its version does not count.
pub open spec fn plain_content(document: DocumentModel) -> (
    (u128, u128, u128, u128),
    Seq<char>,
    Seq<char>,
    Option<Seq<char>>,
    (u8, u64, Option<i64>, Option<i64>, bool, u8),
) {
    let key = document.identity.object_key;
    let metadata = document.metadata;
    (
        (
            key.volume_id.value,
            key.file_id.value,
            document.identity.file_link_id.value,
            document.identity.document_id.value,
        ),
        document.name,
        document.resolved_path,
        document.extension,
        (
            kind_code(metadata.kind),
            metadata.size,
            metadata.created_at_unix_ms,
            metadata.modified_at_unix_ms,
            metadata.hidden,
            availability_number(metadata.availability),
        ),
    )
}

/// The digest of the JSON tells the plain values of the two documents apart, if they differ.
pub open spec fn is_told_apart(a: DocumentModel, b: DocumentModel) -> bool {
    let x = plain_content(a);
    let y = plain_content(b);
    x != y ==> sha256(content_json(x.0, x.1, x.2, x.3, x.4)) != sha256(
        content_json(y.0, y.1, y.2, y.3, y.4),
    )
}

/// Nothing that a document says is lost in its plain values: two documents have the same ones
/// exactly when they differ in nothing but their version. Identity, name, path, extension, kind,
/// size, both times, the hidden flag and the availability all count.
pub proof fn plain_content_tells_everything(a: DocumentModel, b: DocumentModel)
    ensures
        plain_content(a) == plain_content(b) <==> b == (DocumentModel {
            document_version: b.document_version,
            ..a
        }),
{
}

/// Documents share a fingerprint exactly when they differ in nothing but their version, unless
/// the digests of different values are the same.
pub proof fn fingerprints_tell_contents_apart(a: DocumentModel, b: DocumentModel)
    requires
        is_told_apart(a, b),
    ensures
        document_fingerprint(a) == document_fingerprint(b) <==> b == (DocumentModel {
            document_version: b.document_version,
            ..a
        }),
{
    plain_content_tells_everything(a, b);
}

} // verus!
