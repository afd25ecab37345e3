//! The version part of a package request.
//!
//! A request either names a concrete version literally or asks for the
//! `Latest` sentinel, which resolves to the greatest known version at
//! lookup time.  A literal carries the raw text as written; nothing is
//! normalised here.

use vstd::prelude::*;
use vstd::string::StringExecFns;

verus! {

/// A requested version: the `Latest` sentinel or a literal version string.
#[derive(Debug)]
pub enum PackageVersion {
    Latest,
    Literal(String),
}

/// The mathematical value of a [`PackageVersion`].
pub enum PackageVersionView {
    Latest,
    Literal(Seq<char>),
}

impl View for PackageVersion {
    type V = PackageVersionView;

    open spec fn view(&self) -> PackageVersionView {
        match self {
            PackageVersion::Latest => PackageVersionView::Latest,
            PackageVersion::Literal(v) => PackageVersionView::Literal(v@),
        }
    }
}

/// The display text of a version: the word `latest` for the sentinel, the
/// raw string for a literal.
pub open spec fn version_text(v: PackageVersionView) -> Seq<char> {
    match v {
        PackageVersionView::Latest => "latest"@,
        PackageVersionView::Literal(x) => x,
    }
}

impl Clone for PackageVersion {
    /// A copy denotes the same version.
    fn clone(&self) -> (r: Self)
        ensures
            r@ == self@,
    {
        match self {
            PackageVersion::Latest => PackageVersion::Latest,
            PackageVersion::Literal(v) => PackageVersion::Literal(v.clone()),
        }
    }
}

impl PackageVersion {
    /// Whether this is the `Latest` sentinel.
    pub fn is_latest(&self) -> (r: bool)
        ensures
            r == (self@ == PackageVersionView::Latest),
    {
        match self {
            PackageVersion::Latest => true,
            PackageVersion::Literal(_) => false,
        }
    }

    /// Renders the version for display: `latest` or the literal text.
    pub fn to_string(&self) -> (r: String)
        ensures
            r@ == version_text(self@),
    {
        match self {
            PackageVersion::Latest => String::from_str("latest"),
            PackageVersion::Literal(v) => v.clone(),
        }
    }
}

} // verus!
