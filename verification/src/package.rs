//! Package identities and the request-text grammar.
//!
//! A request names a package as `name@version` or as a bare `name`, which
//! asks for the latest version.  The text is split on `@`: no `@` means
//! `Latest`, exactly one `@` means a literal version, and more than one `@`
//! or an empty name is an invalid format.  A valid identity round-trips
//! through its canonical text: `name@version`, or the bare `name` when the
//! version is the `Latest` sentinel.

use crate::chars::{first_at, lemma_first_at};
use crate::package_version::{version_text, PackageVersion, PackageVersionView};
use vstd::prelude::*;
use vstd::string::{StrSliceExecFns, StringExecFns};

verus! {

/// Why request text was rejected.
#[derive(Clone, Copy, Debug, PartialEq, Eq, Structural)]
pub enum ParsePackageError {
    /// The text is not `name` or `name@version` with a non-empty name.
    InvalidFormat,
}

impl ParsePackageError {
    /// A short message naming the expected request format.
    pub fn message(&self) -> (r: String)
        ensures
            r@ == "InvalidFormat: Use the format PKG[@(x.y.z|latest)]"@,
    {
        String::from_str("InvalidFormat: Use the format PKG[@(x.y.z|latest)]")
    }

    /// The display text of this error; the same message.
    pub fn to_string(&self) -> (r: String)
        ensures
            r@ == "InvalidFormat: Use the format PKG[@(x.y.z|latest)]"@,
    {
        self.message()
    }
}

/// One package identity: a name and a requested version.
#[derive(Debug)]
pub struct Package {
    pub name: String,
    pub version: PackageVersion,
}

/// The mathematical value of a [`Package`].
pub struct PackageView {
    pub name: Seq<char>,
    pub version: PackageVersionView,
}

impl View for Package {
    type V = PackageView;

    open spec fn view(&self) -> PackageView {
        PackageView { name: self.name@, version: self.version@ }
    }
}

impl Clone for Package {
    /// A copy denotes the same identity.
    fn clone(&self) -> (r: Self)
        ensures
            r@ == self@,
    {
        Package { name: self.name.clone(), version: self.version.clone() }
    }
}

/// What parsing request text yields: split on `@`; no `@` means the latest
/// version of the named package, one `@` a literal version; more than one
/// `@` or an empty name is rejected.
pub open spec fn parse_pkg(s: Seq<char>) -> Option<PackageView> {
    let a1 = first_at(s, '@', 0);
    if a1 == s.len() {
        if s.len() > 0 {
            Some(PackageView { name: s, version: PackageVersionView::Latest })
        } else {
            None
        }
    } else {
        if first_at(s, '@', a1 + 1) != s.len() || a1 == 0 {
            None
        } else {
            Some(
                PackageView {
                    name: s.subrange(0, a1),
                    version: PackageVersionView::Literal(s.subrange(a1 + 1, s.len() as int)),
                },
            )
        }
    }
}

/// The canonical text of an identity: `name@version`, or the bare name when
/// the latest version is asked for.
pub open spec fn pkg_text(p: PackageView) -> Seq<char> {
    match p.version {
        PackageVersionView::Latest => p.name,
        PackageVersionView::Literal(v) => p.name + "@"@ + v,
    }
}

/// The slug of an identity: `name-version`, with the sentinel rendered as
/// the word `latest`.
pub open spec fn slug_text(p: PackageView) -> Seq<char> {
    p.name + "-"@ + version_text(p.version)
}

/// The artifact file name of an identity: its slug with the archive suffix.
pub open spec fn filename_text(p: PackageView) -> Seq<char> {
    slug_text(p) + ".tar.gz"@
}

/// The object key under which the artifact is stored: `name/filename`.
pub open spec fn object_key_text(p: PackageView) -> Seq<char> {
    p.name + "/"@ + filename_text(p)
}

impl Package {
    /// Parses request text of the form `name` or `name@version`.
    pub fn from_str(s: &str) -> (r: Result<Package, ParsePackageError>)
        ensures
            r is Ok <==> parse_pkg(s@) is Some,
            r matches Ok(p) ==> parse_pkg(s@) == Some(p@),
            r matches Err(e) ==> e == ParsePackageError::InvalidFormat,
    {
        let len = s.unicode_len();
        let a1 = find_char_pkg(s, 0);
        if a1 == len {
            if len > 0 {
                Ok(Package { name: s.to_owned(), version: PackageVersion::Latest })
            } else {
                Err(ParsePackageError::InvalidFormat)
            }
        } else {
            let a2 = find_char_pkg(s, a1 + 1);
            if a2 != len || a1 == 0 {
                Err(ParsePackageError::InvalidFormat)
            } else {
                let name = s.substring_char(0, a1).to_owned();
                let version = s.substring_char(a1 + 1, len).to_owned();
                Ok(Package { name, version: PackageVersion::Literal(version) })
            }
        }
    }

    /// Renders the canonical request text of this identity.
    pub fn to_string(&self) -> (r: String)
        ensures
            r@ == pkg_text(self@),
    {
        match &self.version {
            PackageVersion::Latest => self.name.clone(),
            PackageVersion::Literal(v) => self.name.clone().concat("@").concat(v.as_str()),
        }
    }

    /// The slug `name-version` used to build file names.
    pub fn slug(&self) -> (r: String)
        ensures
            r@ == slug_text(self@),
    {
        self.name.clone().concat("-").concat(self.version.to_string().as_str())
    }

    /// The artifact file name `name-version.tar.gz`.
    pub fn filename(&self) -> (r: String)
        ensures
            r@ == filename_text(self@),
    {
        self.slug().concat(".tar.gz")
    }

    /// The object key `name/name-version.tar.gz` under which the artifact
    /// is stored.
    pub fn object_key(&self) -> (r: String)
        ensures
            r@ == object_key_text(self@),
    {
        self.name.clone().concat("/").concat(self.filename().as_str())
    }
}

/// Finds the next `@` in request text.
fn find_char_pkg(s: &str, from: usize) -> (r: usize)
    requires
        from <= s@.len(),
    ensures
        r == first_at(s@, '@', from as int),
        from <= r <= s@.len(),
        r < s@.len() ==> s@[r as int] == '@',
        forall|j: int| from <= j < r ==> s@[j] != '@',
{
    proof {
        lemma_first_at(s@, '@', from as int);
    }
    crate::chars::find_char(s, '@', from)
}

/// Request text that is in canonical form: non-empty, with a non-empty name
/// and at most one `@`.
pub open spec fn canonical_request(s: Seq<char>) -> bool {
    &&& s.len() > 0
    &&& first_at(s, '@', 0) != 0
    &&& (first_at(s, '@', 0) == s.len() || first_at(s, '@', first_at(s, '@', 0) + 1) == s.len())
}

/// Round trip: parsing canonical request text succeeds, and rendering the
/// parsed identity gives the text back unchanged.
pub proof fn lemma_request_round_trip(s: Seq<char>)
    requires
        canonical_request(s),
    ensures
        parse_pkg(s) is Some,
        pkg_text(parse_pkg(s).unwrap()) == s,
{
    let a1 = first_at(s, '@', 0);
    lemma_first_at(s, '@', 0);
    if a1 != s.len() {
        lemma_first_at(s, '@', a1 + 1);
        reveal_strlit("@");
        let p = parse_pkg(s).unwrap();
        assert(pkg_text(p) =~= s);
    }
}

/// Parsing succeeds exactly on canonical request text.
pub proof fn lemma_parse_pkg_canonical(s: Seq<char>)
    ensures
        parse_pkg(s) is Some <==> canonical_request(s),
{
    lemma_first_at(s, '@', 0);
    let a1 = first_at(s, '@', 0);
    if a1 != s.len() {
        lemma_first_at(s, '@', a1 + 1);
    }
}

} // verus!
