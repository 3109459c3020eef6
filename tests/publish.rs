use std::collections::BTreeMap;

use speicherstadt::crate_files::{CrateFileStorage, MemoryStore};
use speicherstadt::dependency_kind::DependencyKind;
use speicherstadt::framing::{extract_body, FramingError};
use speicherstadt::package_name::InvalidPackageName;
use speicherstadt::publish::{
    begin_publish, publish_metadata, MetadataError, ResponseClass, PublishDependencyMetadata, PublishError, PublishMetadata,
    SchemaViolation,
};
use speicherstadt::RegistryServer;

fn metadata(name: &str, vers: &str) -> PublishMetadata {
    PublishMetadata {
        name: name.to_string(),
        vers: vers.to_string(),
        deps: vec![PublishDependencyMetadata {
            name: "serde".to_string(),
            version_req: "^1".to_string(),
            features: vec!["derive".to_string()],
            optional: false,
            default_features: true,
            target: None,
            kind: DependencyKind::default(),
            registry: None,
            explicit_name_in_toml: None,
        }],
        features: BTreeMap::new(),
        authors: vec!["someone".to_string()],
        description: Some("a demo".to_string()),
        documentation: None,
        homepage: None,
        readme: None,
        readme_file: None,
        keywords: Vec::new(),
        categories: Vec::new(),
        license: Some("MIT".to_string()),
        license_file: None,
        repository: None,
        badges: BTreeMap::new(),
        links: None,
        rust_version: None,
    }
}

fn envelope(j: &[u8], a: &[u8]) -> Vec<u8> {
    let mut out = Vec::new();
    out.extend_from_slice(&(j.len() as u32).to_le_bytes());
    out.extend_from_slice(j);
    out.extend_from_slice(&(a.len() as u32).to_le_bytes());
    out.extend_from_slice(a);
    out
}

#[test]
fn end_to_end_publish_then_replay() {
    let mut store = MemoryStore::new();
    let body = envelope(b"{\"name\":\"demo\",\"vers\":\"1.0.0\"}", b"crate bytes");
    let (_, artifact) = extract_body(&body).unwrap();
    let r = publish_metadata(&mut store, Ok(metadata("demo", "1.0.0")), artifact);
    assert!(r.is_ok());
    assert_eq!(store.get_file("demo", "1.0.0"), Ok(Some(b"crate bytes".to_vec())));

    let (_, artifact) = extract_body(&body).unwrap();
    let r = publish_metadata(&mut store, Ok(metadata("demo", "1.0.0")), artifact);
    assert!(matches!(r, Err(PublishError::AlreadyExists)));
    assert_eq!(store.get_file("demo", "1.0.0"), Ok(Some(b"crate bytes".to_vec())));
}

#[test]
fn invalid_name_never_reaches_store() {
    let mut store = MemoryStore::new();
    let r = publish_metadata(&mut store, Ok(metadata("CON", "1.0.0")), b"x");
    assert!(matches!(
        r,
        Err(PublishError::InvalidMetadata(SchemaViolation::Name(InvalidPackageName::ForbiddenReservedName)))
    ));
    assert_eq!(store.get_file("CON", "1.0.0"), Ok(None));
    let r = publish_metadata(&mut store, Ok(metadata("2cool", "1.0.0")), b"x");
    assert!(matches!(
        r,
        Err(PublishError::InvalidMetadata(SchemaViolation::Name(InvalidPackageName::StartsWithDigit)))
    ));
    assert_eq!(store.get_file("2cool", "1.0.0"), Ok(None));
}

#[test]
fn metadata_failures_are_reported_apart() {
    let mut store = MemoryStore::new();
    let r = publish_metadata(&mut store, Err(MetadataError::MalformedInput), b"x");
    assert!(matches!(r, Err(PublishError::InvalidJson)));
    let r = publish_metadata(
        &mut store,
        Err(MetadataError::SchemaViolation("unknown variant `test`".to_string())),
        b"x",
    );
    match r {
        Err(e @ PublishError::InvalidMetadata(SchemaViolation::Data(_))) => {
            assert_eq!(e.message(), "Invalid metadata: unknown variant `test`");
        }
        other => panic!("unexpected {other:?}"),
    }
}

#[test]
fn framing_errors_map_to_publish_errors() {
    assert!(matches!(
        PublishError::from_framing(FramingError::UnexpectedEndOfInput),
        PublishError::UnexpectedEOF
    ));
    assert!(matches!(PublishError::from_framing(FramingError::TrailingData), PublishError::BodyTooLong));
    assert_eq!(PublishError::UnexpectedEOF.message(), "Unexpected end of input");
    assert_eq!(PublishError::BodyTooLong.message(), "body longer than expected");
    assert_eq!(PublishError::InvalidJson.message(), "Metadata is not a valid JSON");
    assert_eq!(PublishError::AlreadyExists.message(), "this version is already published");
    assert_eq!(PublishError::StorageFailure.message(), "internal storage failure");
    assert_eq!(
        PublishError::InvalidMetadata(SchemaViolation::Name(InvalidPackageName::Empty)).message(),
        "package name is empty"
    );
}

#[test]
fn registry_server_keeps_its_parts() {
    let server = RegistryServer::new(MemoryStore::new(), 7u32);
    let (store, auth) = server.into_parts();
    assert_eq!(auth, 7);
    assert_eq!(store.get_file("a", "1"), Ok(None));
}

#[test]
fn dependency_kind_defaults_to_normal() {
    assert_eq!(DependencyKind::default(), DependencyKind::Normal);
    assert_ne!(DependencyKind::Dev, DependencyKind::Build);
}

#[test]
fn identity_is_checked_before_framing() {
    assert!(matches!(begin_publish(false, &[1, 2]), Err(PublishError::Unauthenticated)));
    let body = envelope(b"{}", b"x");
    assert!(matches!(begin_publish(false, &body), Err(PublishError::Unauthenticated)));
    assert_eq!(begin_publish(true, &body).unwrap(), (&b"{}"[..], &b"x"[..]));
    assert!(matches!(begin_publish(true, &body[..5]), Err(PublishError::UnexpectedEOF)));
    let mut long = body.clone();
    long.push(0);
    assert!(matches!(begin_publish(true, &long), Err(PublishError::BodyTooLong)));
    assert_eq!(PublishError::Unauthenticated.message(), "authentication failed");
}

#[test]
fn errors_are_classed_for_the_client() {
    assert_eq!(PublishError::Unauthenticated.response_class(), ResponseClass::Unauthorized);
    assert_eq!(PublishError::AlreadyExists.response_class(), ResponseClass::Conflict);
    assert_eq!(PublishError::StorageFailure.response_class(), ResponseClass::InternalError);
    assert_eq!(PublishError::UnexpectedEOF.response_class(), ResponseClass::BadRequest);
    assert_eq!(PublishError::InvalidJson.response_class(), ResponseClass::BadRequest);
    assert_eq!(
        PublishError::InvalidMetadata(SchemaViolation::Data("x".to_string())).response_class(),
        ResponseClass::BadRequest
    );
}
