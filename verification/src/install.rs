//! Resolving an install request against the catalog.
//!
//! Installing takes a batch of package requests, resolves every one against
//! the index, and only then starts any transfer: a single request that does
//! not resolve aborts the whole batch with no partial success.  A request
//! whose identity is absent fails as not found; a `Latest` request whose
//! name exists but has no parseable version fails version resolution.  The
//! surrounding program downloads each resolved package and hands it to the
//! external installer with the argument list built here.

use crate::chars::{
    lemma_space_run_end, lemma_token_end, space_run_end, token_end,
};
use crate::index::{has_key, has_name, latest_in, Index};
use crate::package::{pkg_text, Package, PackageView};
use crate::package_version::{PackageVersion, PackageVersionView};
use crate::runtime_config::RuntimeConfig;
use vstd::prelude::*;
use vstd::string::{StrSliceExecFns, StringExecFns};

verus! {

/// Why an install batch was aborted.
#[derive(Debug)]
pub enum InstallError {
    /// No layer of the configuration names a bucket.
    NoBucketDefined,
    /// The named identity is not in the catalog; carries its display text.
    PackageNotFound(String),
    /// The name exists but no entry has a parseable version; carries the
    /// name.
    VersionResolutionFailed(String),
}

impl InstallError {
    /// A display message for the failure.
    pub fn message(&self) -> (r: String)
        ensures
            self is NoBucketDefined ==> r@ == "no bucket was provided"@,
            self matches InstallError::PackageNotFound(p) ==> r@ == "package not found: "@ + p@,
            self matches InstallError::VersionResolutionFailed(p) ==> r@
                == "latest version failed: "@ + p@,
    {
        match self {
            InstallError::NoBucketDefined => String::from_str("no bucket was provided"),
            InstallError::PackageNotFound(p) => String::from_str("package not found: ").concat(
                p.as_str(),
            ),
            InstallError::VersionResolutionFailed(p) => String::from_str(
                "latest version failed: ",
            ).concat(p.as_str()),
        }
    }
}

/// Whether the catalog contains the requested identity, as `contains`
/// checks it: by name for `Latest`, by raw version text for a literal.
pub open spec fn contains_spec(s: Seq<crate::index::EntryView>, p: PackageView) -> bool {
    match p.version {
        PackageVersionView::Latest => has_name(s, p.name),
        PackageVersionView::Literal(v) => has_key(s, p.name, v),
    }
}

/// Whether one request resolves: a contained literal resolves as itself,
/// and a `Latest` request also needs a winner among the parseable versions.
pub open spec fn pkg_ok(s: Seq<crate::index::EntryView>, p: PackageView) -> bool {
    match p.version {
        PackageVersionView::Latest => has_name(s, p.name) && latest_in(s, p.name) is Some,
        PackageVersionView::Literal(v) => has_key(s, p.name, v),
    }
}

/// The version text a resolving request installs: the literal itself, or
/// the raw version of the latest entry.
pub open spec fn resolved_version(s: Seq<crate::index::EntryView>, p: PackageView) -> Seq<char> {
    match p.version {
        PackageVersionView::Latest => latest_in(s, p.name).unwrap().version,
        PackageVersionView::Literal(v) => v,
    }
}

/// The first request of the batch that does not resolve, or the batch
/// length when all do.
pub open spec fn first_bad(s: Seq<crate::index::EntryView>, ps: Seq<PackageView>) -> int
    decreases ps.len(),
{
    if ps.len() == 0 {
        0
    } else if !pkg_ok(s, ps[0]) {
        0
    } else {
        1 + first_bad(s, ps.drop_first())
    }
}

/// `first_bad` names the first failing request, and everything before it
/// resolves.
pub proof fn lemma_first_bad(s: Seq<crate::index::EntryView>, ps: Seq<PackageView>)
    ensures
        0 <= first_bad(s, ps) <= ps.len(),
        first_bad(s, ps) < ps.len() ==> !pkg_ok(s, ps[first_bad(s, ps)]),
        forall|j: int| 0 <= j < first_bad(s, ps) ==> pkg_ok(s, ps[j]),
        first_bad(s, ps) == ps.len() ==> forall|j: int| 0 <= j < ps.len() ==> pkg_ok(s, ps[j]),
    decreases ps.len(),
{
    if ps.len() > 0 && pkg_ok(s, ps[0]) {
        let d = ps.drop_first();
        lemma_first_bad(s, d);
        let r = first_bad(s, d);
        assert(first_bad(s, ps) == 1 + r);
        if r < d.len() {
            assert(ps[1 + r] == d[r]);
        }
        assert forall|j: int| 0 <= j < first_bad(s, ps) implies pkg_ok(s, ps[j]) by {
            if j > 0 {
                assert(d[j - 1] == ps[j]);
            }
        }
        if first_bad(s, ps) == ps.len() {
            assert forall|j: int| 0 <= j < ps.len() implies pkg_ok(s, ps[j]) by {
                if j > 0 {
                    assert(d[j - 1] == ps[j]);
                }
            }
        }
    }
}

/// From a scan that resolved everything before `i`, and a failure at `i`
/// (or none at all), the first failure is at `i`.
pub proof fn lemma_first_bad_is(s: Seq<crate::index::EntryView>, ps: Seq<PackageView>, i: int)
    requires
        0 <= i <= ps.len(),
        forall|j: int| 0 <= j < i ==> pkg_ok(s, ps[j]),
        i < ps.len() ==> !pkg_ok(s, ps[i]),
        i == ps.len() ==> forall|j: int| 0 <= j < ps.len() ==> pkg_ok(s, ps[j]),
    ensures
        first_bad(s, ps) == i,
{
    lemma_first_bad(s, ps);
    if i < ps.len() {
        if first_bad(s, ps) < i {
            assert(!pkg_ok(s, ps[first_bad(s, ps)]));
        }
    }
}

/// Resolves a whole install batch.  Every request must be in the catalog
/// and, for `Latest`, must have a parseable version to win; the first
/// failure aborts the batch.  On success each request comes back with its
/// concrete version: literals as requested, `Latest` replaced by the raw
/// version text of the winning entry.
pub fn install_plan(config: &RuntimeConfig, index: &Index, packages: &Vec<Package>) -> (r: Result<
    Vec<Package>,
    InstallError,
>)
    ensures
        config@.bucket is None <==> (r matches Err(e) && e is NoBucketDefined),
        r is Ok <==> (config@.bucket is Some && first_bad(
            index@,
            packages@.map_values(|p: Package| p@),
        ) == packages@.len()),
        r matches Ok(out) ==> {
            let pv = packages@.map_values(|p: Package| p@);
            &&& out@.len() == pv.len()
            &&& forall|k: int|
                0 <= k < pv.len() ==> (#[trigger] out@[k])@.name == pv[k].name && out@[k]@.version
                    == PackageVersionView::Literal(resolved_version(index@, pv[k]))
        },
        r matches Err(e) ==> {
            let pv = packages@.map_values(|p: Package| p@);
            let k = first_bad(index@, pv);
            match e {
                InstallError::NoBucketDefined => config@.bucket is None,
                InstallError::PackageNotFound(t) => k < pv.len() && !contains_spec(index@, pv[k])
                    && t@ == pkg_text(pv[k]),
                InstallError::VersionResolutionFailed(t) => k < pv.len() && contains_spec(
                    index@,
                    pv[k],
                ) && t@ == pv[k].name,
            }
        },
{
    let ghost pv = packages@.map_values(|p: Package| p@);
    if config.bucket.is_none() {
        return Err(InstallError::NoBucketDefined);
    }
    let n = packages.len();
    let mut out: Vec<Package> = Vec::new();
    let mut k: usize = 0;
    while k < n
        invariant
            pv == packages@.map_values(|p: Package| p@),
            n == packages.len(),
            pv.len() == n,
            k <= n,
            config@.bucket is Some,
            forall|j: int| 0 <= j < k ==> pkg_ok(index@, pv[j]),
            out@.len() == k,
            forall|j: int|
                0 <= j < k ==> (#[trigger] out@[j])@.name == pv[j].name && out@[j]@.version
                    == PackageVersionView::Literal(resolved_version(index@, pv[j])),
        decreases n - k,
    {
        assert(pv[k as int] == packages@[k as int]@);
        let p = &packages[k];
        if !index.contains(p) {
            proof {
                assert(!contains_spec(index@, pv[k as int]));
                if pv[k as int].version is Latest {
                    crate::index::lemma_latest_in(index@, pv[k as int].name);
                }
                lemma_first_bad_is(index@, pv, k as int);
            }
            return Err(InstallError::PackageNotFound(p.to_string()));
        }
        match &p.version {
            PackageVersion::Latest => {
                match index.find_latest(p.name.as_str()) {
                    None => {
                        proof {
                            lemma_first_bad_is(index@, pv, k as int);
                        }
                        return Err(InstallError::VersionResolutionFailed(p.name.clone()));
                    },
                    Some(e) => {
                        out.push(
                            Package {
                                name: p.name.clone(),
                                version: PackageVersion::Literal(e.version),
                            },
                        );
                    },
                }
            },
            PackageVersion::Literal(_) => {
                out.push(p.clone());
            },
        }
        k += 1;
    }
    proof {
        lemma_first_bad_is(index@, pv, n as int);
    }
    Ok(out)
}

/// The fixed arguments every installer invocation starts with.
pub open spec fn pip_base_args() -> Seq<Seq<char>> {
    seq!["-m"@, "pip"@, "install"@, "--upgrade"@]
}

/// The whitespace-separated tokens of `s` from `from` on.
pub open spec fn ws_tokens_from(s: Seq<char>, from: int) -> Seq<Seq<char>>
    decreases s.len() - from,
    when 0 <= from <= s.len()
    via ws_tokens_from_decreases
{
    let b = space_run_end(s, from);
    if b == s.len() {
        Seq::empty()
    } else {
        let e = token_end(s, b);
        seq![s.subrange(b, e)] + ws_tokens_from(s, e)
    }
}

#[via_fn]
proof fn ws_tokens_from_decreases(s: Seq<char>, from: int) {
    lemma_space_run_end(s, from);
    let b = space_run_end(s, from);
    if b < s.len() {
        lemma_token_end(s, b);
        assert(token_end(s, b) == token_end(s, b + 1));
        lemma_token_end(s, b + 1);
    }
}

/// The whitespace-separated tokens of an argument string: what splitting on
/// runs of whitespace leaves, with no empty tokens.
pub open spec fn ws_tokens(s: Seq<char>) -> Seq<Seq<char>> {
    ws_tokens_from(s, 0)
}

/// Builds the installer's argument list: the fixed arguments, then each
/// whitespace-separated token of the extra argument text, then the package
/// file path.
pub fn pip_install_args(pip_args: &str, path: &str) -> (r: Vec<String>)
    ensures
        r@.map_values(|t: String| t@) == pip_base_args() + ws_tokens(pip_args@) + seq![path@],
{
    let mut out: Vec<String> = Vec::new();
    out.push(String::from_str("-m"));
    out.push(String::from_str("pip"));
    out.push(String::from_str("install"));
    out.push(String::from_str("--upgrade"));
    assert(out@.map_values(|t: String| t@) =~= pip_base_args());
    let ghost s = pip_args@;
    let len = pip_args.unicode_len();
    let mut i = find_space_run_end_str(pip_args, 0);
    proof {
        lemma_space_run_end(s, 0);
        lemma_space_run_end(s, i as int);
        assert(ws_tokens_from(s, 0) == ws_tokens_from(s, i as int));
    }
    while i < len
        invariant
            i <= len,
            len == s.len(),
            s == pip_args@,
            space_run_end(s, i as int) == i,
            pip_base_args() + ws_tokens(s) == out@.map_values(|t: String| t@) + ws_tokens_from(
                s,
                i as int,
            ),
        decreases len - i,
    {
        proof {
            lemma_space_run_end(s, i as int);
            lemma_token_end(s, i as int);
            assert(token_end(s, i as int) == token_end(s, i + 1 as int));
            lemma_token_end(s, i + 1 as int);
        }
        let e = crate::chars::find_token_end(pip_args, i);
        assert(e > i);
        let token = pip_args.substring_char(i, e).to_owned();
        out.push(token);
        proof {
            assert(ws_tokens_from(s, i as int) == seq![s.subrange(i as int, e as int)]
                + ws_tokens_from(s, e as int));
            assert(pip_base_args() + ws_tokens(s) =~= out@.map_values(|t: String| t@)
                + ws_tokens_from(s, e as int));
        }
        let next = find_space_run_end_str(pip_args, e);
        proof {
            lemma_space_run_end(s, e as int);
            lemma_space_run_end(s, next as int);
            assert(ws_tokens_from(s, e as int) == ws_tokens_from(s, next as int));
        }
        i = next;
    }
    assert(ws_tokens_from(s, i as int) =~= Seq::<Seq<char>>::empty());
    out.push(path.to_owned());
    assert(out@.map_values(|t: String| t@) =~= pip_base_args() + ws_tokens(pip_args@) + seq![
        path@,
    ]);
    out
}

/// Finds the end of the run of whitespace starting at `from`.
fn find_space_run_end_str(s: &str, from: usize) -> (r: usize)
    requires
        from <= s@.len(),
    ensures
        r == space_run_end(s@, from as int),
        from <= r <= s@.len(),
{
    proof {
        lemma_space_run_end(s@, from as int);
    }
    crate::chars::find_space_run_end(s, from)
}

} // verus!
