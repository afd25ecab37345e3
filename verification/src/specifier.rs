//! The rich version grammar and the artifact file-name grammar.
//!
//! A version text is `[epoch!]core[pre][post][dev][+local]` where `core` is
//! `v?` followed by dotted numeric segments, the qualifiers are an optional
//! separator (`.`, `-` or `_`) followed by a keyword and optional digits, and
//! `local` is a dotted alphanumeric tail.  Keywords and the optional leading
//! `v` match case-insensitively.  An artifact file name is
//! `name-version.ext` with `ext` one of `tar.gz`, `tgz`, `zip` and `whl`
//! (case-insensitive); in file names the epoch marker may be written `_` as
//! well as `!`.  The name token is greedy: it is the longest prefix of name
//! characters whose remainder still parses as a version and extension.

use crate::chars::{
    alnum_char, chars_eq_ci, digit, digits_end, eq_ci, find_digits_end, is_alnum, is_digit,
    is_name, is_qual_sep, lemma_digits_end, qual_sep_char, seq_eq_ci, whole_is_name,
};
use crate::package::{Package, ParsePackageError};
use crate::package_version::PackageVersion;
use crate::semantic_version::parse_u64_range;
use vstd::prelude::*;
use vstd::string::{StrSliceExecFns, StringExecFns};

verus! {

/// A parsed version specifier: comparison operator, epoch, numeric core and
/// the qualifier components, each with its presence flag and number.
#[derive(Debug)]
pub struct Specifier {
    pub op: String,
    pub epoch: u32,
    pub version: String,
    pub pre: (bool, u32),
    pub post: (bool, u32),
    pub dev: (bool, u32),
    pub local: (bool, String),
}

/// The mathematical value of a [`Specifier`].
pub struct SpecifierView {
    pub op: Seq<char>,
    pub epoch: u32,
    pub version: Seq<char>,
    pub pre: (bool, u32),
    pub post: (bool, u32),
    pub dev: (bool, u32),
    pub local: (bool, Seq<char>),
}

impl View for Specifier {
    type V = SpecifierView;

    open spec fn view(&self) -> SpecifierView {
        SpecifierView {
            op: self.op@,
            epoch: self.epoch,
            version: self.version@,
            pre: self.pre,
            post: self.post,
            dev: self.dev,
            local: (self.local.0, self.local.1@),
        }
    }
}

/// The components of a version text after the epoch: numeric core and
/// qualifiers.
pub struct VersionParts {
    pub version: String,
    pub pre: (bool, u32),
    pub post: (bool, u32),
    pub dev: (bool, u32),
    pub local: (bool, String),
}

/// The mathematical value of [`VersionParts`].
pub struct VersionBody {
    pub version: Seq<char>,
    pub pre: (bool, u32),
    pub post: (bool, u32),
    pub dev: (bool, u32),
    pub local: (bool, Seq<char>),
}

impl View for VersionParts {
    type V = VersionBody;

    open spec fn view(&self) -> VersionBody {
        VersionBody {
            version: self.version@,
            pre: self.pre,
            post: self.post,
            dev: self.dev,
            local: (self.local.0, self.local.1@),
        }
    }
}

/// Which qualifier a scan is looking for.
#[derive(Clone, Copy, Debug, PartialEq, Eq, Structural)]
pub enum QualClass {
    Pre,
    Post,
    Dev,
}

/// The keyword `kw` occurs at position `from` of `s`, compared
/// case-insensitively.
pub open spec fn kw_at(s: Seq<char>, from: int, kw: Seq<char>) -> bool {
    0 <= from && from + kw.len() <= s.len() && seq_eq_ci(s.subrange(from, from + kw.len()), kw)
}

/// The length of the pre-release keyword at `from`, longest match first;
/// zero when none matches.
pub open spec fn pre_kw_len(s: Seq<char>, from: int) -> int {
    if kw_at(s, from, "preview"@) {
        7
    } else if kw_at(s, from, "alpha"@) {
        5
    } else if kw_at(s, from, "beta"@) {
        4
    } else if kw_at(s, from, "pre"@) {
        3
    } else if kw_at(s, from, "rc"@) {
        2
    } else if kw_at(s, from, "a"@) || kw_at(s, from, "b"@) || kw_at(s, from, "c"@) {
        1
    } else {
        0
    }
}

/// The length of the post-release keyword at `from`; zero when none matches.
pub open spec fn post_kw_len(s: Seq<char>, from: int) -> int {
    if kw_at(s, from, "post"@) {
        4
    } else if kw_at(s, from, "rev"@) {
        3
    } else if kw_at(s, from, "r"@) {
        1
    } else {
        0
    }
}

/// The length of the development keyword at `from`; zero when none matches.
pub open spec fn dev_kw_len(s: Seq<char>, from: int) -> int {
    if kw_at(s, from, "dev"@) {
        3
    } else {
        0
    }
}

/// The keyword length of the wanted qualifier class at `from`.
pub open spec fn qual_kw_len(s: Seq<char>, from: int, q: QualClass) -> int {
    match q {
        QualClass::Pre => pre_kw_len(s, from),
        QualClass::Post => post_kw_len(s, from),
        QualClass::Dev => dev_kw_len(s, from),
    }
}

/// The number carried by a qualifier: the digits read in base ten, or zero
/// when they are absent or do not fit.
pub open spec fn qual_num(d: Seq<char>) -> u32 {
    if d.len() > 0 && crate::chars::dec_val(d) <= u32::MAX {
        crate::chars::dec_val(d) as u32
    } else {
        0
    }
}

/// Scans one qualifier at `from`: an optional separator, the class keyword,
/// then optional digits.  Yields its presence, its number and the position
/// after it; an absent qualifier leaves the position unchanged.
#[verifier::opaque]
pub open spec fn qual_parse(s: Seq<char>, from: int, q: QualClass) -> (bool, u32, int) {
    let k0 = qual_kw_len(s, from, q);
    if k0 > 0 {
        let nd = digits_end(s, from + k0);
        (true, qual_num(s.subrange(from + k0, nd)), nd)
    } else if 0 <= from && from < s.len() && is_qual_sep(s[from]) && qual_kw_len(s, from + 1, q)
        > 0 {
        let k1 = qual_kw_len(s, from + 1, q);
        let nd = digits_end(s, from + 1 + k1);
        (true, qual_num(s.subrange(from + 1 + k1, nd)), nd)
    } else {
        (false, 0, from)
    }
}

/// The end of the numeric core that starts at `i`: digits, with further
/// dot-separated digit groups taken greedily.
pub open spec fn core_end(s: Seq<char>, i: int) -> int
    decreases s.len() - i,
{
    if i < 0 || i >= s.len() {
        i
    } else if is_digit(s[i]) {
        core_end(s, i + 1)
    } else if s[i] == '.' && i + 1 < s.len() && is_digit(s[i + 1]) {
        core_end(s, i + 1)
    } else {
        i
    }
}

/// A well-formed local version tail: letters and digits in groups joined by
/// single separators.
pub open spec fn is_local(t: Seq<char>) -> bool {
    &&& t.len() > 0
    &&& forall|i: int| 0 <= i < t.len() ==> is_alnum(#[trigger] t[i]) || is_qual_sep(t[i])
    &&& is_alnum(t[0])
    &&& is_alnum(t[t.len() - 1])
    &&& forall|i: int| 0 <= i < t.len() - 1 && is_qual_sep(#[trigger] t[i]) ==> is_alnum(t[i + 1])
}

/// Parses a version text from `from` on, without its epoch: an optional
/// case-insensitive `v`, the numeric core, the three qualifiers in order,
/// and an optional `+local` tail reaching the end.
#[verifier::opaque]
pub open spec fn vbody_parse(s: Seq<char>, from: int) -> Option<VersionBody> {
    let vstart = if 0 <= from && from < s.len() && eq_ci(s[from], 'v') {
        from + 1
    } else {
        from
    };
    if 0 <= vstart && vstart < s.len() && is_digit(s[vstart]) {
        let ce = core_end(s, vstart);
        let pre = qual_parse(s, ce, QualClass::Pre);
        let post = qual_parse(s, pre.2, QualClass::Post);
        let dev = qual_parse(s, post.2, QualClass::Dev);
        let e = dev.2;
        if e == s.len() {
            Some(
                VersionBody {
                    version: s.subrange(vstart, ce),
                    pre: (pre.0, pre.1),
                    post: (post.0, post.1),
                    dev: (dev.0, dev.1),
                    local: (false, Seq::empty()),
                },
            )
        } else if s[e] == '+' && is_local(s.subrange(e + 1, s.len() as int)) {
            Some(
                VersionBody {
                    version: s.subrange(vstart, ce),
                    pre: (pre.0, pre.1),
                    post: (post.0, post.1),
                    dev: (dev.0, dev.1),
                    local: (true, s.subrange(e + 1, s.len() as int)),
                },
            )
        } else {
            None
        }
    } else {
        None
    }
}

/// Parses a whole version text: a leading `epoch!` (also `epoch_` in file
/// names, when `underscore_marker` holds) is taken greedily when the rest
/// parses, and an absent epoch reads as zero.
#[verifier::opaque]
pub open spec fn vparse(s: Seq<char>, underscore_marker: bool) -> Option<(u32, VersionBody)> {
    let d = digits_end(s, 0);
    let marker_ok = d > 0 && d < s.len() && (s[d] == '!' || (underscore_marker && s[d] == '_'));
    if marker_ok && vbody_parse(s, d + 1) is Some {
        Some((qual_num(s.subrange(0, d)), vbody_parse(s, d + 1).unwrap()))
    } else if vbody_parse(s, 0) is Some {
        Some((0, vbody_parse(s, 0).unwrap()))
    } else {
        None
    }
}

/// Where the archive extension starts: the longest case-insensitive match
/// among `.tar.gz`, `.tgz`, `.zip` and `.whl` at the end of `s`.
pub open spec fn ext_start(s: Seq<char>) -> Option<int> {
    if s.len() >= 7 && kw_at(s, s.len() - 7, ".tar.gz"@) {
        Some(s.len() - 7)
    } else if s.len() >= 4 && (kw_at(s, s.len() - 4, ".tgz"@) || kw_at(s, s.len() - 4, ".zip"@)
        || kw_at(s, s.len() - 4, ".whl"@)) {
        Some(s.len() - 4)
    } else {
        None
    }
}

/// The greatest split position at most `i` where `body` divides into a name
/// token, a `-`, and a parsable version text.
pub open spec fn name_split(body: Seq<char>, i: int) -> Option<int>
    decreases i,
{
    if i < 1 {
        None
    } else if i < body.len() && body[i] == '-' && is_name(body.take(i)) && vparse(
        body.subrange(i + 1, body.len() as int),
        true,
    ) is Some {
        Some(i)
    } else {
        name_split(body, i - 1)
    }
}

/// What an artifact file name denotes: the package name, the raw version
/// text between the name and the extension, and the parsed version.
pub struct FileIdentity {
    pub name: Seq<char>,
    pub raw_version: Seq<char>,
    pub epoch: u32,
    pub body: VersionBody,
}

/// Parses an artifact file name `name-version.ext`.  The name is the
/// longest prefix of name characters whose remainder parses as a version
/// text followed by a known extension.
pub open spec fn parse_filename(s: Seq<char>) -> Option<FileIdentity> {
    match ext_start(s) {
        None => None,
        Some(es) => {
            let body = s.take(es);
            match name_split(body, body.len() - 1) {
                None => None,
                Some(i) => {
                    let raw = body.subrange(i + 1, body.len() as int);
                    let parsed = vparse(raw, true).unwrap();
                    Some(
                        FileIdentity {
                            name: body.take(i),
                            raw_version: raw,
                            epoch: parsed.0,
                            body: parsed.1,
                        },
                    )
                },
            }
        },
    }
}

/// The length of the comparison operator at the head of `s`, longest match
/// first; zero when there is none.
pub open spec fn op_len(s: Seq<char>) -> int {
    if kw_at(s, 0, "==="@) {
        3
    } else if kw_at(s, 0, "=="@) || kw_at(s, 0, "~="@) || kw_at(s, 0, "!="@) || kw_at(s, 0, "<="@)
        || kw_at(s, 0, ">="@) {
        2
    } else if kw_at(s, 0, "<"@) || kw_at(s, 0, ">"@) {
        1
    } else {
        0
    }
}

/// Parses specifier text: an optional comparison operator (defaulting to
/// `==`) followed by a version text whose epoch marker is `!`.
pub open spec fn parse_specifier(s: Seq<char>) -> Option<SpecifierView> {
    let ol = op_len(s);
    match vparse(s.subrange(ol, s.len() as int), false) {
        None => None,
        Some(p) => Some(
            SpecifierView {
                op: if ol > 0 {
                    s.take(ol)
                } else {
                    "=="@
                },
                epoch: p.0,
                version: p.1.version,
                pre: p.1.pre,
                post: p.1.post,
                dev: p.1.dev,
                local: p.1.local,
            },
        ),
    }
}

/// Tests whether `kw` occurs at position `from` of `s`, case-insensitively.
fn kw_at_exec(s: &str, from: usize, kw: &str) -> (r: bool)
    requires
        from <= s@.len(),
    ensures
        r == kw_at(s@, from as int, kw@),
{
    let klen = kw.unicode_len();
    let slen = s.unicode_len();
    if klen > slen - from {
        return false;
    }
    let mut j: usize = 0;
    while j < klen
        invariant
            from + klen <= s@.len(),
            s@.len() == slen,
            klen == kw@.len(),
            j <= klen,
            forall|k: int| 0 <= k < j ==> eq_ci(s@[from + k], kw@[k]),
        decreases klen - j,
    {
        if !chars_eq_ci(s.get_char(from + j), kw.get_char(j)) {
            assert(!eq_ci(s@.subrange(from as int, from + klen as int)[j as int], kw@[j as int]));
            return false;
        }
        j += 1;
    }
    assert forall|k: int| 0 <= k < klen implies eq_ci(
        #[trigger] s@.subrange(from as int, from + klen as int)[k],
        kw@[k],
    ) by {
        assert(eq_ci(s@[from + k], kw@[k]));
    }
    true
}

/// The keyword length of the wanted qualifier class at `from`.
fn qual_kw_len_exec(s: &str, from: usize, q: QualClass) -> (r: usize)
    requires
        from <= s@.len(),
    ensures
        r as int == qual_kw_len(s@, from as int, q),
        from + r <= s@.len(),
{
    let r = match q {
        QualClass::Pre => {
            if kw_at_exec(s, from, "preview") {
                7
            } else if kw_at_exec(s, from, "alpha") {
                5
            } else if kw_at_exec(s, from, "beta") {
                4
            } else if kw_at_exec(s, from, "pre") {
                3
            } else if kw_at_exec(s, from, "rc") {
                2
            } else if kw_at_exec(s, from, "a") || kw_at_exec(s, from, "b") || kw_at_exec(
                s,
                from,
                "c",
            ) {
                1
            } else {
                0
            }
        },
        QualClass::Post => {
            if kw_at_exec(s, from, "post") {
                4
            } else if kw_at_exec(s, from, "rev") {
                3
            } else if kw_at_exec(s, from, "r") {
                1
            } else {
                0
            }
        },
        QualClass::Dev => {
            if kw_at_exec(s, from, "dev") {
                3
            } else {
                0
            }
        },
    };
    proof {
        reveal_strlit("preview");
        reveal_strlit("alpha");
        reveal_strlit("beta");
        reveal_strlit("pre");
        reveal_strlit("rc");
        reveal_strlit("a");
        reveal_strlit("b");
        reveal_strlit("c");
        reveal_strlit("post");
        reveal_strlit("rev");
        reveal_strlit("r");
        reveal_strlit("dev");
    }
    r
}

/// Reads a run of digits as a qualifier number: zero when absent or too
/// large.
fn qual_num_exec(s: &str, a: usize, b: usize) -> (r: u32)
    requires
        a <= b <= s@.len(),
        forall|j: int| a <= j < b ==> is_digit(#[trigger] s@[j]),
    ensures
        r == qual_num(s@.subrange(a as int, b as int)),
{
    let ghost d = s@.subrange(a as int, b as int);
    proof {
        assert forall|j: int| 0 <= j < d.len() implies is_digit(#[trigger] d[j]) by {
            assert(d[j] == s@[a + j]);
        }
    }
    match parse_u64_range(s, a, b) {
        Some(v) => {
            if v <= 0xFFFF_FFFFu64 {
                v as u32
            } else {
                0
            }
        },
        None => 0,
    }
}

/// Scans one qualifier of class `q` at `from`.
fn parse_qual(s: &str, from: usize, q: QualClass) -> (r: (bool, u32, usize))
    requires
        from <= s@.len(),
    ensures
        (r.0, r.1, r.2 as int) == qual_parse(s@, from as int, q),
        from <= r.2 <= s@.len(),
{
    proof {
        reveal(qual_parse);
    }
    let slen = s.unicode_len();
    let k0 = qual_kw_len_exec(s, from, q);
    if k0 > 0 {
        proof {
            lemma_digits_end(s@, from + k0);
        }
        let nd = find_digits_end(s, from + k0);
        let n = qual_num_exec(s, from + k0, nd);
        (true, n, nd)
    } else if from < s.unicode_len() && qual_sep_char(s.get_char(from)) {
        let k1 = qual_kw_len_exec(s, from + 1, q);
        if k1 > 0 {
            proof {
                lemma_digits_end(s@, from + 1 + k1);
            }
            let nd = find_digits_end(s, from + 1 + k1);
            let n = qual_num_exec(s, from + 1 + k1, nd);
            (true, n, nd)
        } else {
            (false, 0, from)
        }
    } else {
        (false, 0, from)
    }
}

/// Finds the end of the numeric core that starts at `i`.
fn core_end_exec(s: &str, i: usize) -> (r: usize)
    requires
        i <= s@.len(),
    ensures
        r as int == core_end(s@, i as int),
        i <= r <= s@.len(),
    decreases s@.len() - i,
{
    let len = s.unicode_len();
    if i >= len {
        i
    } else if digit(s.get_char(i)) {
        core_end_exec(s, i + 1)
    } else if s.get_char(i) == '.' && i + 1 < len && digit(s.get_char(i + 1)) {
        core_end_exec(s, i + 1)
    } else {
        i
    }
}

/// Tests whether the tail of `s` from `from` is a well-formed local version.
fn check_local(s: &str, from: usize) -> (r: bool)
    requires
        from <= s@.len(),
    ensures
        r == is_local(s@.subrange(from as int, s@.len() as int)),
{
    let ghost t = s@.subrange(from as int, s@.len() as int);
    let len = s.unicode_len();
    if from == len {
        return false;
    }
    if !alnum_char(s.get_char(from)) {
        assert(t[0] == s@[from as int]);
        return false;
    }
    let mut i: usize = from;
    while i < len
        invariant
            from <= i <= len,
            len == s@.len(),
            t == s@.subrange(from as int, s@.len() as int),
            forall|j: int|
                from <= j < i ==> is_alnum(#[trigger] s@[j]) || is_qual_sep(s@[j]),
            forall|j: int|
                from <= j < i - 1 && is_qual_sep(#[trigger] s@[j]) ==> is_alnum(s@[j + 1]),
            i > from ==> (is_qual_sep(s@[i - 1]) || is_alnum(s@[i - 1])),
        decreases len - i,
    {
        let c = s.get_char(i);
        if !alnum_char(c) && !qual_sep_char(c) {
            assert(t[i - from] == s@[i as int]);
            return false;
        }
        if i > from && qual_sep_char(s.get_char(i - 1)) && !alnum_char(c) {
            assert(t[i - 1 - from] == s@[i - 1]);
            assert(t[i - from] == s@[i as int]);
            return false;
        }
        i += 1;
    }
    if !alnum_char(s.get_char(len - 1)) {
        assert(t[t.len() - 1] == s@[len - 1]);
        return false;
    }
    proof {
        assert(t[0] == s@[from as int]);
        assert(t[t.len() - 1] == s@[len - 1]);
        assert forall|j: int| 0 <= j < t.len() implies is_alnum(#[trigger] t[j]) || is_qual_sep(
            t[j],
        ) by {
            assert(t[j] == s@[from + j]);
        }
        assert forall|j: int| 0 <= j < t.len() - 1 && is_qual_sep(#[trigger] t[j]) implies is_alnum(
            t[j + 1],
        ) by {
            assert(t[j] == s@[from + j]);
            assert(t[j + 1] == s@[from + j + 1]);
        }
    }
    true
}

/// Parses a version text from `from` on, without its epoch.
fn parse_version_body(s: &str, from: usize) -> (r: Option<VersionParts>)
    requires
        from <= s@.len(),
    ensures
        r is Some <==> vbody_parse(s@, from as int) is Some,
        r matches Some(p) ==> vbody_parse(s@, from as int) == Some(p@),
{
    proof {
        reveal(vbody_parse);
    }
    let len = s.unicode_len();
    let vstart = if from < len && chars_eq_ci(s.get_char(from), 'v') {
        from + 1
    } else {
        from
    };
    if vstart < len && digit(s.get_char(vstart)) {
        let ce = core_end_exec(s, vstart);
        let pre = parse_qual(s, ce, QualClass::Pre);
        let post = parse_qual(s, pre.2, QualClass::Post);
        let dev = parse_qual(s, post.2, QualClass::Dev);
        let e = dev.2;
        let version = s.substring_char(vstart, ce).to_owned();
        if e == len {
            Some(
                VersionParts {
                    version,
                    pre: (pre.0, pre.1),
                    post: (post.0, post.1),
                    dev: (dev.0, dev.1),
                    local: (false, String::new()),
                },
            )
        } else if s.get_char(e) == '+' {
            if check_local(s, e + 1) {
                Some(
                    VersionParts {
                        version,
                        pre: (pre.0, pre.1),
                        post: (post.0, post.1),
                        dev: (dev.0, dev.1),
                        local: (true, s.substring_char(e + 1, len).to_owned()),
                    },
                )
            } else {
                None
            }
        } else {
            None
        }
    } else {
        None
    }
}

/// Parses a whole version text, with `epoch_` accepted as the epoch marker
/// in file names.
pub fn parse_version_text(s: &str, underscore_marker: bool) -> (r: Option<(u32, VersionParts)>)
    ensures
        r is Some <==> vparse(s@, underscore_marker) is Some,
        r matches Some(p) ==> vparse(s@, underscore_marker) == Some((p.0, p.1@)),
{
    proof {
        reveal(vparse);
        lemma_digits_end(s@, 0);
    }
    let len = s.unicode_len();
    let d = find_digits_end(s, 0);
    if d > 0 && d < len && (s.get_char(d) == '!' || (underscore_marker && s.get_char(d) == '_')) {
        match parse_version_body(s, d + 1) {
            Some(b) => {
                let e = qual_num_exec(s, 0, d);
                return Some((e, b));
            },
            None => {},
        }
    }
    match parse_version_body(s, 0) {
        Some(b) => Some((0, b)),
        None => None,
    }
}

/// Finds where the archive extension starts.
fn find_ext_start(s: &str) -> (r: Option<usize>)
    ensures
        r is Some <==> ext_start(s@) is Some,
        r matches Some(e) ==> ext_start(s@) == Some(e as int) && e + 4 <= s@.len(),
{
    let len = s.unicode_len();
    if len >= 7 && kw_at_exec(s, len - 7, ".tar.gz") {
        Some(len - 7)
    } else if len >= 4 && (kw_at_exec(s, len - 4, ".tgz") || kw_at_exec(s, len - 4, ".zip")
        || kw_at_exec(s, len - 4, ".whl")) {
        Some(len - 4)
    } else {
        None
    }
}

/// Finds the greatest name/version split at most `i` within `s` up to `es`.
#[verifier::rlimit(60)]
fn find_name_split(s: &str, es: usize, i: usize) -> (r: Option<usize>)
    requires
        es <= s@.len(),
        i < es || i == 0,
    ensures
        r is Some <==> name_split(s@.take(es as int), i as int) is Some,
        r matches Some(k) ==> name_split(s@.take(es as int), i as int) == Some(k as int) && 1 <= k
            < es,
    decreases i,
{
    let ghost body = s@.take(es as int);
    if i < 1 {
        return None;
    }
    assert(body[i as int] == s@[i as int]);
    assert(body.take(i as int) =~= s@.subrange(0, i as int));
    let dash = s.get_char(i) == '-';
    let named = whole_is_name(s, 0, i);
    if dash && named {
        let rest = s.substring_char(i + 1, es);
        assert(rest@ =~= body.subrange(i + 1, body.len() as int));
        match parse_version_text(rest, true) {
            Some(_) => {
                assert(name_split(body, i as int) == Some(i as int));
                return Some(i);
            },
            None => {
                assert(name_split(body, i as int) == name_split(body, i as int - 1));
            },
        }
        find_name_split(s, es, i - 1)
    } else {
        assert(!(body[i as int] == '-' && is_name(body.take(i as int))));
        assert(name_split(body, i as int) == name_split(body, i as int - 1));
        find_name_split(s, es, i - 1)
    }
}

impl Package {
    /// Parses an artifact file name of the form `name-version.ext` into a
    /// package identity; the literal version carries the raw version text
    /// exactly as written in the file name.
    pub fn from_path(filename: &str) -> (r: Result<Package, ParsePackageError>)
        ensures
            r is Ok <==> parse_filename(filename@) is Some,
            r matches Ok(p) ==> {
                let f = parse_filename(filename@).unwrap();
                p@.name == f.name && p@.version
                    == crate::package_version::PackageVersionView::Literal(f.raw_version)
            },
            r matches Err(e) ==> e == ParsePackageError::InvalidFormat,
    {
        let es = match find_ext_start(filename) {
            None => {
                return Err(ParsePackageError::InvalidFormat);
            },
            Some(e) => e,
        };
        let ghost body = filename@.take(es as int);
        let start = if es >= 1 {
            es - 1
        } else {
            0
        };
        match find_name_split(filename, es, start) {
            None => Err(ParsePackageError::InvalidFormat),
            Some(i) => {
                let name = filename.substring_char(0, i).to_owned();
                let raw = filename.substring_char(i + 1, es).to_owned();
                proof {
                    assert(body.take(i as int) =~= filename@.subrange(0, i as int));
                    assert(body.subrange(i + 1, body.len() as int) =~= filename@.subrange(
                        i + 1,
                        es as int,
                    ));
                }
                Ok(Package { name, version: PackageVersion::Literal(raw) })
            },
        }
    }
}

impl Specifier {
    /// Parses specifier text: an optional comparison operator, defaulting
    /// to `==`, followed by a version text.
    pub fn from_str(s: &str) -> (r: Result<Specifier, ParsePackageError>)
        ensures
            r is Ok <==> parse_specifier(s@) is Some,
            r matches Ok(p) ==> parse_specifier(s@) == Some(p@),
            r matches Err(e) ==> e == ParsePackageError::InvalidFormat,
    {
        let len = s.unicode_len();
        proof {
            reveal_strlit("===");
            reveal_strlit("==");
            reveal_strlit("~=");
            reveal_strlit("!=");
            reveal_strlit("<=");
            reveal_strlit(">=");
            reveal_strlit("<");
            reveal_strlit(">");
        }
        let ol = if kw_at_exec(s, 0, "===") {
            3
        } else if kw_at_exec(s, 0, "==") || kw_at_exec(s, 0, "~=") || kw_at_exec(s, 0, "!=")
            || kw_at_exec(s, 0, "<=") || kw_at_exec(s, 0, ">=") {
            2
        } else if kw_at_exec(s, 0, "<") || kw_at_exec(s, 0, ">") {
            1
        } else {
            0
        };
        assert(ol as int == op_len(s@));
        let rest = s.substring_char(ol, len);
        assert(rest@ =~= s@.subrange(ol as int, s@.len() as int));
        match parse_version_text(rest, false) {
            None => Err(ParsePackageError::InvalidFormat),
            Some(p) => {
                let op = if ol > 0 {
                    s.substring_char(0, ol).to_owned()
                } else {
                    String::from_str("==")
                };
                proof {
                    if ol > 0 {
                        assert(s@.subrange(0, ol as int) =~= s@.take(ol as int));
                    }
                }
                Ok(
                    Specifier {
                        op,
                        epoch: p.0,
                        version: p.1.version,
                        pre: p.1.pre,
                        post: p.1.post,
                        dev: p.1.dev,
                        local: p.1.local,
                    },
                )
            },
        }
    }
}

} // verus!
