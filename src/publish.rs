//! Publishing: the metadata of a publish request, the ways a request fails,
//! and the step that validates metadata and stores the artifact.
use std::collections::BTreeMap;
use std::path::PathBuf;

use vstd::prelude::*;
use vstd::string::StringExecFns;

use crate::crate_files::{store_step, Contents, CrateFileStorage, KeyView, StoreError};
use crate::dependency_kind::DependencyKind;
use crate::framing::{encode, extract_body, frame, lemma_frame_round_trip, FramingError};
use crate::package_name::{name_error, InvalidPackageName, PackageName};

verus! {

/// One dependency as the publish metadata declares it.
#[derive(Debug, Clone)]
pub struct PublishDependencyMetadata {
    pub name: String,
    pub version_req: String,
    pub features: Vec<String>,
    pub optional: bool,
    pub default_features: bool,
    pub target: Option<String>,
    pub kind: DependencyKind,
    pub registry: Option<String>,
    pub explicit_name_in_toml: Option<String>,
}

/// The metadata segment of a publish request, once parsed.
#[derive(Debug, Clone)]
pub struct PublishMetadata {
    pub name: String,
    pub vers: String,
    pub deps: Vec<PublishDependencyMetadata>,
    pub features: BTreeMap<String, Vec<String>>,
    pub authors: Vec<String>,
    pub description: Option<String>,
    pub documentation: Option<String>,
    pub homepage: Option<String>,
    pub readme: Option<String>,
    pub readme_file: Option<PathBuf>,
    pub keywords: Vec<String>,
    pub categories: Vec<String>,
    pub license: Option<String>,
    pub license_file: Option<String>,
    pub repository: Option<String>,
    pub badges: BTreeMap<String, BTreeMap<String, String>>,
    pub links: Option<String>,
    pub rust_version: Option<String>,
}

/// Why the metadata segment could not be parsed into `PublishMetadata`.
#[derive(Debug, Clone)]
pub enum MetadataError {
    /// The bytes are not well-formed structured data (truncated or syntactically broken).
    MalformedInput,
    /// The data is well-formed but does not fit the schema; the detail says how.
    SchemaViolation(String),
}

/// How well-formed metadata breaks the schema.
#[derive(Debug, Clone)]
pub enum SchemaViolation {
    /// A field has the wrong type, a value is unknown, or a field is missing.
    Data(String),
    /// The declared package name breaks the naming grammar.
    Name(InvalidPackageName),
}

/// The kind of response a rejected request gets.
#[derive(Debug, Clone, Copy, PartialEq, Eq, Structural)]
pub enum ResponseClass {
    /// The request itself is malformed or invalid.
    BadRequest,
    /// The caller's identity was not accepted.
    Unauthorized,
    /// The version is already published.
    Conflict,
    /// The server could not complete the request.
    InternalError,
}

/// Why a publish request was rejected.
#[derive(Debug, Clone)]
pub enum PublishError {
    UnexpectedEOF,
    BodyTooLong,
    InvalidJson,
    InvalidMetadata(SchemaViolation),
    /// The identity check rejected the caller.
    Unauthenticated,
    /// The version is already published and cannot be changed.
    AlreadyExists,
    /// The store could not carry out the write.
    StorageFailure,
}

impl PublishError {
    /// The error that a framing failure is reported as.
    pub fn from_framing(e: FramingError) -> (r: PublishError)
        ensures
            r == framing_error(e),
    {
        match e {
            FramingError::UnexpectedEndOfInput => PublishError::UnexpectedEOF,
            FramingError::TrailingData => PublishError::BodyTooLong,
        }
    }

    /// A human-readable message for the client.
    pub fn message(&self) -> (r: String)
        ensures
            r@ == self.message_spec(),
    {
        proof {
            reveal_strlit("Unexpected end of input");
            reveal_strlit("body longer than expected");
            reveal_strlit("Metadata is not a valid JSON");
            reveal_strlit("Invalid metadata: ");
            reveal_strlit("this version is already published");
            reveal_strlit("internal storage failure");
            reveal_strlit("authentication failed");
        }
        match self {
            PublishError::UnexpectedEOF => "Unexpected end of input".to_owned(),
            PublishError::BodyTooLong => "body longer than expected".to_owned(),
            PublishError::InvalidJson => "Metadata is not a valid JSON".to_owned(),
            PublishError::InvalidMetadata(SchemaViolation::Data(detail)) => {
                "Invalid metadata: ".to_owned().concat(detail.as_str())
            },
            PublishError::InvalidMetadata(SchemaViolation::Name(e)) => e.message().to_owned(),
            PublishError::AlreadyExists => "this version is already published".to_owned(),
            PublishError::StorageFailure => "internal storage failure".to_owned(),
            PublishError::Unauthenticated => "authentication failed".to_owned(),
        }
    }

    /// The text reported for each error.
    pub open spec fn message_spec(&self) -> Seq<char> {
        match self {
            PublishError::UnexpectedEOF => "Unexpected end of input"@,
            PublishError::BodyTooLong => "body longer than expected"@,
            PublishError::InvalidJson => "Metadata is not a valid JSON"@,
            PublishError::InvalidMetadata(SchemaViolation::Data(detail)) => "Invalid metadata: "@
                + detail@,
            PublishError::InvalidMetadata(SchemaViolation::Name(e)) => e.message_spec(),
            PublishError::AlreadyExists => "this version is already published"@,
            PublishError::StorageFailure => "internal storage failure"@,
            PublishError::Unauthenticated => "authentication failed"@,
        }
    }

    /// How the error is reported to the client.
    pub open spec fn response_class_spec(&self) -> ResponseClass {
        match self {
            PublishError::Unauthenticated => ResponseClass::Unauthorized,
            PublishError::AlreadyExists => ResponseClass::Conflict,
            PublishError::StorageFailure => ResponseClass::InternalError,
            _ => ResponseClass::BadRequest,
        }
    }

    /// How the error is reported to the client: a malformed or invalid
    /// request, a rejected identity, a conflict with a published version, or
    /// a failure on the server's side.
    pub fn response_class(&self) -> (r: ResponseClass)
        ensures
            r == self.response_class_spec(),
    {
        match self {
            PublishError::Unauthenticated => ResponseClass::Unauthorized,
            PublishError::AlreadyExists => ResponseClass::Conflict,
            PublishError::StorageFailure => ResponseClass::InternalError,
            _ => ResponseClass::BadRequest,
        }
    }
}

pub open spec fn framing_error(e: FramingError) -> PublishError {
    match e {
        FramingError::UnexpectedEndOfInput => PublishError::UnexpectedEOF,
        FramingError::TrailingData => PublishError::BodyTooLong,
    }
}

/// The first steps of a request: the identity check, then framing.
pub open spec fn request_segments(authenticated: bool, body: Seq<u8>) -> Result<
    (Seq<u8>, Seq<u8>),
    PublishError,
> {
    if !authenticated {
        Err(PublishError::Unauthenticated)
    } else {
        match frame(body) {
            Ok(p) => Ok(p),
            Err(e) => Err(framing_error(e)),
        }
    }
}

/// Rejects a caller whose identity check failed, then splits the body into
/// its metadata and artifact segments.
pub fn begin_publish(authenticated: bool, body: &[u8]) -> (r: Result<(&[u8], &[u8]), PublishError>)
    ensures
        match (r, request_segments(authenticated, body@)) {
            (Ok((j, a)), Ok((sj, sa))) => j@ == sj && a@ == sa,
            (Err(e), Err(se)) => e == se,
            _ => false,
        },
{
    if !authenticated {
        return Err(PublishError::Unauthenticated);
    }
    match extract_body(body) {
        Ok(p) => Ok(p),
        Err(e) => Err(PublishError::from_framing(e)),
    }
}

/// An authenticated caller's well-formed envelope passes the first steps with
/// exactly its metadata and artifact; an unauthenticated one is rejected
/// whatever the body.
pub proof fn lemma_request_segments_of_envelope(j: Seq<u8>, a: Seq<u8>, body: Seq<u8>)
    requires
        j.len() < 4294967296,
        a.len() < 4294967296,
    ensures
        request_segments(true, encode(j, a)) == Ok::<(Seq<u8>, Seq<u8>), PublishError>((j, a)),
        request_segments(false, body) == Err::<(Seq<u8>, Seq<u8>), PublishError>(
            PublishError::Unauthenticated,
        ),
{
    lemma_frame_round_trip(j, a);
}

/// The key that metadata declares: (name, version).
pub open spec fn metadata_key(md: PublishMetadata) -> KeyView {
    (md.name@, md.vers@)
}

/// Why a parsed-or-failed metadata segment is rejected before any store, if it is.
pub open spec fn metadata_rejection(md: Result<PublishMetadata, MetadataError>) -> Option<
    PublishError,
> {
    match md {
        Err(MetadataError::MalformedInput) => Some(PublishError::InvalidJson),
        Err(MetadataError::SchemaViolation(d)) => Some(
            PublishError::InvalidMetadata(SchemaViolation::Data(d)),
        ),
        Ok(m) => match name_error(m.name@) {
            Some(e) => Some(PublishError::InvalidMetadata(SchemaViolation::Name(e))),
            None => None,
        },
    }
}

/// The error that a store failure is reported as.
pub open spec fn store_rejection(e: StoreError) -> PublishError {
    match e {
        StoreError::AlreadyExists => PublishError::AlreadyExists,
        StoreError::StorageFailure => PublishError::StorageFailure,
    }
}

/// What publishing `artifact` with metadata `md` does to store contents `c`, and
/// its result, where the store's medium does not fail.
pub open spec fn publish_step(c: Contents, md: Result<PublishMetadata, MetadataError>, artifact: Seq<
    u8,
>) -> (Contents, Result<(), PublishError>) {
    match metadata_rejection(md) {
        Some(e) => (c, Err(e)),
        None => {
            let (c2, r) = store_step(c, metadata_key(md->Ok_0), artifact);
            (
                c2,
                match r {
                    Ok(()) => Ok(()),
                    Err(e) => Err(store_rejection(e)),
                },
            )
        },
    }
}

/// Validates parsed metadata and stores `crate_file` under the declared name and
/// version. Nothing is stored unless the metadata is valid.
pub fn publish_metadata<S: CrateFileStorage>(
    store: &mut S,
    md: Result<PublishMetadata, MetadataError>,
    crate_file: &[u8],
) -> (r: Result<(), PublishError>)
    requires
        old(store).well_formed(),
    ensures
        final(store).well_formed(),
        old(store).infallible() ==> !(r matches Err(PublishError::StorageFailure)),
        final(store).infallible() == old(store).infallible(),
        r matches Err(PublishError::StorageFailure) ==> metadata_rejection(md) is None
            && final(store).contents() == old(store).contents(),
        !(r matches Err(PublishError::StorageFailure)) ==> (final(store).contents(), r)
            == publish_step(old(store).contents(), md, crate_file@),
{
    let metadata = match md {
        Ok(m) => m,
        Err(MetadataError::MalformedInput) => return Err(PublishError::InvalidJson),
        Err(MetadataError::SchemaViolation(d)) => {
            return Err(PublishError::InvalidMetadata(SchemaViolation::Data(d)));
        },
    };
    let name = match PackageName::new(metadata.name.clone()) {
        Ok(n) => n,
        Err(e) => return Err(PublishError::InvalidMetadata(SchemaViolation::Name(e))),
    };
    match store.store_file(name.as_str(), metadata.vers.as_str(), crate_file) {
        Ok(()) => Ok(()),
        Err(StoreError::AlreadyExists) => Err(PublishError::AlreadyExists),
        Err(StoreError::StorageFailure) => Err(PublishError::StorageFailure),
    }
}

/// Replaying one publish: metadata with a valid name, for a key not yet stored,
/// stores the artifact and succeeds; the same request again fails with
/// `AlreadyExists` and leaves the stored bytes as they were.
pub proof fn lemma_publish_replay(c: Contents, md: PublishMetadata, artifact: Seq<u8>)
    requires
        name_error(md.name@) is None,
        !c.contains_key(metadata_key(md)),
    ensures
        publish_step(c, Ok(md), artifact) == (
            c.insert(metadata_key(md), artifact),
            Ok::<(), PublishError>(()),
        ),
        publish_step(c.insert(metadata_key(md), artifact), Ok(md), artifact) == (
            c.insert(metadata_key(md), artifact),
            Err::<(), PublishError>(PublishError::AlreadyExists),
        ),
{
}

} // verus!
