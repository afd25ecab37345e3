use sling::index::{Entry, Index};
use sling::install::{install_plan, pip_install_args, InstallError};
use sling::package::Package;
use sling::package_version::PackageVersion;
use sling::publish::{publish_plan, PublishError};
use sling::runtime_config::RuntimeConfig;
use sling::storage::ObjectRef;

fn config_with_bucket() -> RuntimeConfig {
    RuntimeConfig {
        bucket: Some("bucket".to_string()),
        pip_args: None,
        python: None,
    }
}

fn entry(name: &str, version: &str) -> Entry {
    let key = format!("{name}/{name}-{version}.tar.gz");
    Entry::new(name, version, &ObjectRef::new("bucket", key.as_str(), "s3"))
}

#[test]
fn test_publish_refuses_overwrite_without_permission() {
    let mut index = Index::new();
    index.add(entry("foo", "1.0.0"));
    // the decision fails before any upload: no object key is ever handed out
    let r = publish_plan(&config_with_bucket(), &index, "foo-1.0.0.tar.gz", false);
    assert!(matches!(r, Err(PublishError::OverwriteDisallowedError)));
}

#[test]
fn test_publish_goes_ahead_with_overwrite() {
    let mut index = Index::new();
    index.add(entry("foo", "1.0.0"));
    let (package, key) =
        publish_plan(&config_with_bucket(), &index, "foo-1.0.0.tar.gz", true).unwrap();
    assert_eq!(package.name, "foo".to_string());
    assert_eq!(key, "foo/foo-1.0.0.tar.gz".to_string());
}

#[test]
fn test_publish_of_a_new_identity_needs_no_overwrite() {
    let mut index = Index::new();
    index.add(entry("foo", "1.0.0"));
    let (_, key) =
        publish_plan(&config_with_bucket(), &index, "foo-2.0.0.tar.gz", false).unwrap();
    assert_eq!(key, "foo/foo-2.0.0.tar.gz".to_string());
}

#[test]
fn test_publish_needs_a_bucket() {
    let index = Index::new();
    let r = publish_plan(
        &RuntimeConfig::default(),
        &index,
        "foo-1.0.0.tar.gz",
        false,
    );
    assert!(matches!(r, Err(PublishError::NoBucketDefined)));
}

#[test]
fn test_publish_rejects_a_malformed_file_name() {
    let index = Index::new();
    let r = publish_plan(&config_with_bucket(), &index, "README.md", false);
    match r {
        Err(PublishError::InvalidPackage(t)) => assert_eq!(t, "README.md".to_string()),
        other => panic!("expected InvalidPackage, got {other:?}"),
    }
}

#[test]
fn test_publish_error_messages() {
    assert_eq!(
        PublishError::NoBucketDefined.message(),
        "no bucket was provided".to_string()
    );
    assert_eq!(
        PublishError::InvalidPackage("x".to_string()).message(),
        "invalid package file: x".to_string()
    );
    assert_eq!(
        PublishError::OverwriteDisallowedError.message(),
        "OverwriteDisallowedError: refusing to overwrite published package".to_string()
    );
    assert_eq!(
        PublishError::UploadError("boom".to_string()).message(),
        "package upload failed: boom".to_string()
    );
}

#[test]
fn test_install_plan_resolves_latest_and_literal() {
    let mut index = Index::new();
    index.add(entry("foo", "1.0.0"));
    index.add(entry("foo", "1.2.0"));
    index.add(entry("bar", "0.1.0"));
    let requests = vec![
        Package::from_str("foo").unwrap(),
        Package::from_str("bar@0.1.0").unwrap(),
    ];
    let plan = install_plan(&config_with_bucket(), &index, &requests).unwrap();
    assert_eq!(plan.len(), 2);
    assert_eq!(plan[0].name, "foo".to_string());
    assert!(matches!(plan[0].version, PackageVersion::Literal(ref v) if v == "1.2.0"));
    assert_eq!(plan[0].object_key(), "foo/foo-1.2.0.tar.gz".to_string());
    assert!(matches!(plan[1].version, PackageVersion::Literal(ref v) if v == "0.1.0"));
}

#[test]
fn test_install_plan_aborts_the_whole_batch_on_a_missing_package() {
    let mut index = Index::new();
    index.add(entry("foo", "1.0.0"));
    let requests = vec![
        Package::from_str("foo@1.0.0").unwrap(),
        Package::from_str("missing@9.9.9").unwrap(),
    ];
    let r = install_plan(&config_with_bucket(), &index, &requests);
    match r {
        Err(InstallError::PackageNotFound(t)) => assert_eq!(t, "missing@9.9.9".to_string()),
        other => panic!("expected PackageNotFound, got {other:?}"),
    }
}

#[test]
fn test_install_plan_fails_latest_resolution_without_parseable_versions() {
    let mut index = Index::new();
    index.add(entry("foo", "not-a-version"));
    let requests = vec![Package::from_str("foo").unwrap()];
    let r = install_plan(&config_with_bucket(), &index, &requests);
    match r {
        Err(InstallError::VersionResolutionFailed(t)) => assert_eq!(t, "foo".to_string()),
        other => panic!("expected VersionResolutionFailed, got {other:?}"),
    }
}

#[test]
fn test_install_plan_needs_a_bucket() {
    let index = Index::new();
    let r = install_plan(&RuntimeConfig::default(), &index, &Vec::new());
    assert!(matches!(r, Err(InstallError::NoBucketDefined)));
}

#[test]
fn test_install_plan_of_an_empty_batch_is_empty() {
    let index = Index::new();
    let plan = install_plan(&config_with_bucket(), &index, &Vec::new()).unwrap();
    assert!(plan.is_empty());
}

#[test]
fn test_install_error_messages() {
    assert_eq!(
        InstallError::NoBucketDefined.message(),
        "no bucket was provided".to_string()
    );
    assert_eq!(
        InstallError::PackageNotFound("foo".to_string()).message(),
        "package not found: foo".to_string()
    );
    assert_eq!(
        InstallError::VersionResolutionFailed("foo".to_string()).message(),
        "latest version failed: foo".to_string()
    );
}

#[test]
fn test_pip_install_args_splits_extra_arguments_on_whitespace() {
    let args = pip_install_args("--index-url  https://example ", "pkg.tar.gz");
    let expected = vec![
        "-m".to_string(),
        "pip".to_string(),
        "install".to_string(),
        "--upgrade".to_string(),
        "--index-url".to_string(),
        "https://example".to_string(),
        "pkg.tar.gz".to_string(),
    ];
    assert_eq!(args, expected);
}

#[test]
fn test_pip_install_args_with_no_extra_arguments() {
    let args = pip_install_args("", "pkg.tar.gz");
    let expected = vec![
        "-m".to_string(),
        "pip".to_string(),
        "install".to_string(),
        "--upgrade".to_string(),
        "pkg.tar.gz".to_string(),
    ];
    assert_eq!(args, expected);
}
