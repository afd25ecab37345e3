//! Deciding whether a publish may go ahead.
//!
//! Publishing parses the local artifact's file name into an identity and
//! checks it against the catalog before any upload: when the exact identity
//! is already published and the caller did not ask to overwrite, the
//! operation fails and no byte is sent.  The surrounding program uploads to
//! the object key decided here only on success.

use crate::index::{has_key, Index};
use crate::package::{object_key_text, Package};
use crate::package_version::PackageVersionView;
use crate::runtime_config::RuntimeConfig;
use crate::specifier::parse_filename;
use vstd::prelude::*;
use vstd::string::{StrSliceExecFns, StringExecFns};

verus! {

/// Why a publish was refused.
#[derive(Debug)]
pub enum PublishError {
    /// No layer of the configuration names a bucket.
    NoBucketDefined,
    /// The file name does not parse as `name-version.ext`; carries the
    /// offending text.
    InvalidPackage(String),
    /// The identity is already published and overwriting was not asked for.
    OverwriteDisallowedError,
    /// The upload itself failed; carries the transport's message.
    UploadError(String),
}

impl PublishError {
    /// A display message for the failure.
    pub fn message(&self) -> (r: String)
        ensures
            self is NoBucketDefined ==> r@ == "no bucket was provided"@,
            self matches PublishError::InvalidPackage(p) ==> r@ == "invalid package file: "@ + p@,
            self is OverwriteDisallowedError ==> r@
                == "OverwriteDisallowedError: refusing to overwrite published package"@,
            self matches PublishError::UploadError(m) ==> r@ == "package upload failed: "@ + m@,
    {
        match self {
            PublishError::NoBucketDefined => String::from_str("no bucket was provided"),
            PublishError::InvalidPackage(p) => String::from_str("invalid package file: ").concat(
                p.as_str(),
            ),
            PublishError::OverwriteDisallowedError => String::from_str(
                "OverwriteDisallowedError: refusing to overwrite published package",
            ),
            PublishError::UploadError(m) => String::from_str("package upload failed: ").concat(
                m.as_str(),
            ),
        }
    }
}

/// Decides one publish.  The configuration must name a bucket and the file
/// name must parse; the parsed identity must not already be published
/// unless overwriting was asked for.  Success yields the identity and the
/// object key to upload to; the upload is never attempted before this
/// decision, so a refusal means nothing was sent.
pub fn publish_plan(config: &RuntimeConfig, index: &Index, filename: &str, overwrite: bool) -> (r:
    Result<(Package, String), PublishError>)
    ensures
        config@.bucket is None <==> (r matches Err(e) && e is NoBucketDefined),
        config@.bucket is Some ==> match parse_filename(filename@) {
            None => r matches Err(e) && (e matches PublishError::InvalidPackage(t) && t@
                == filename@),
            Some(f) => {
                if !overwrite && has_key(index@, f.name, f.raw_version) {
                    r matches Err(e) && e is OverwriteDisallowedError
                } else {
                    r matches Ok(pr) && pr.0@.name == f.name && pr.0@.version
                        == PackageVersionView::Literal(f.raw_version) && pr.1@ == object_key_text(
                        pr.0@,
                    )
                }
            },
        },
{
    if config.bucket.is_none() {
        return Err(PublishError::NoBucketDefined);
    }
    match Package::from_path(filename) {
        Err(_) => Err(PublishError::InvalidPackage(filename.to_owned())),
        Ok(package) => {
            if !overwrite && index.contains(&package) {
                Err(PublishError::OverwriteDisallowedError)
            } else {
                let key = package.object_key();
                Ok((package, key))
            }
        },
    }
}

} // verus!
