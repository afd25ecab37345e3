//! The in-memory package catalog.
//!
//! An index is built once from a flat bucket listing and then only queried.
//! Each stored key of the form `name/name-version.ext` becomes one entry
//! carrying the directory name, the raw version text and the object
//! reference; keys of any other shape are skipped.  Entries are upserted:
//! a later entry with the same name and the same raw version text replaces
//! the earlier one silently.  Existence checks (`contains`) compare raw
//! version strings byte for byte, while resolution (`find`, `find_latest`)
//! goes through parsed [`SemanticVersion`] triples; an entry whose version
//! text does not parse still counts for existence but never resolves.

use crate::chars::{first_at, is_name, lemma_first_at, str_eq, whole_is_name};
use crate::package::Package;
use crate::package_version::{PackageVersion, PackageVersionView};
use crate::semantic_version::{sem_lt, sem_parse, SemanticVersion};
use crate::specifier::parse_filename;
use crate::storage::{ObjectRef, ObjectRefView};
use vstd::prelude::*;
use vstd::string::{StrSliceExecFns, StringExecFns};

verus! {

/// One catalog entry: a package name, the raw version text as it stood in
/// the stored key, and the object that holds the artifact.
#[derive(Debug)]
pub struct Entry {
    pub name: String,
    pub version: String,
    pub object: ObjectRef,
}

/// The mathematical value of an [`Entry`].
pub struct EntryView {
    pub name: Seq<char>,
    pub version: Seq<char>,
    pub object: ObjectRefView,
}

impl View for Entry {
    type V = EntryView;

    open spec fn view(&self) -> EntryView {
        EntryView { name: self.name@, version: self.version@, object: self.object@ }
    }
}

impl Clone for Entry {
    /// A copy denotes the same entry.
    fn clone(&self) -> (r: Self)
        ensures
            r@ == self@,
    {
        Entry { name: self.name.clone(), version: self.version.clone(), object: self.object.clone() }
    }
}

impl Entry {
    /// Builds one entry from its parts.
    pub fn new(name: &str, version: &str, object: &ObjectRef) -> (r: Entry)
        ensures
            r@.name == name@,
            r@.version == version@,
            r@.object == object@,
    {
        Entry { name: name.to_owned(), version: version.to_owned(), object: object.clone() }
    }

    /// The identity this entry answers to: its name with its raw version
    /// text as the literal version.
    pub fn as_package(&self) -> (r: Package)
        ensures
            r@.name == self@.name,
            r@.version == PackageVersionView::Literal(self@.version),
    {
        Package {
            name: self.name.clone(),
            version: PackageVersion::Literal(self.version.clone()),
        }
    }
}

/// Whether an entry carries exactly this name and this raw version text.
pub open spec fn entry_matches(e: EntryView, name: Seq<char>, version: Seq<char>) -> bool {
    e.name == name && e.version == version
}

/// The first position holding the (name, version) key, or the length when
/// there is none.
pub open spec fn key_idx(s: Seq<EntryView>, name: Seq<char>, version: Seq<char>) -> int
    decreases s.len(),
{
    if s.len() == 0 {
        0
    } else if entry_matches(s[0], name, version) {
        0
    } else {
        1 + key_idx(s.drop_first(), name, version)
    }
}

/// Some entry holds the (name, version) key.
pub open spec fn has_key(s: Seq<EntryView>, name: Seq<char>, version: Seq<char>) -> bool {
    key_idx(s, name, version) < s.len()
}

/// Some entry carries this name.
pub open spec fn has_name(s: Seq<EntryView>, name: Seq<char>) -> bool {
    exists|i: int| 0 <= i < s.len() && (#[trigger] s[i]).name == name
}

/// What adding an entry does: the entry replaces the one holding its
/// (name, raw version) key, or is appended when the key is new.
pub open spec fn upsert(s: Seq<EntryView>, e: EntryView) -> Seq<EntryView> {
    if has_key(s, e.name, e.version) {
        s.update(key_idx(s, e.name, e.version), e)
    } else {
        s.push(e)
    }
}

/// No two entries share a (name, raw version) key.
pub open spec fn entries_wf(s: Seq<EntryView>) -> bool {
    forall|i: int, j: int|
        0 <= i < j < s.len() ==> !entry_matches(#[trigger] s[i], (#[trigger] s[j]).name, s[j].version)
}

/// `key_idx` names the first match, and everything before it differs.
pub proof fn lemma_key_idx(s: Seq<EntryView>, name: Seq<char>, version: Seq<char>)
    ensures
        0 <= key_idx(s, name, version) <= s.len(),
        key_idx(s, name, version) < s.len() ==> entry_matches(
            s[key_idx(s, name, version)],
            name,
            version,
        ),
        forall|j: int| 0 <= j < key_idx(s, name, version) ==> !entry_matches(s[j], name, version),
        key_idx(s, name, version) == s.len() ==> forall|j: int|
            0 <= j < s.len() ==> !entry_matches(s[j], name, version),
    decreases s.len(),
{
    if s.len() > 0 && !entry_matches(s[0], name, version) {
        let d = s.drop_first();
        lemma_key_idx(d, name, version);
        let r = key_idx(d, name, version);
        assert(key_idx(s, name, version) == 1 + r);
        if r < d.len() {
            assert(s[1 + r] == d[r]);
        }
        assert forall|j: int| 0 <= j < key_idx(s, name, version) implies !entry_matches(
            s[j],
            name,
            version,
        ) by {
            if j > 0 {
                assert(d[j - 1] == s[j]);
                assert(!entry_matches(d[j - 1], name, version));
            }
        }
        if key_idx(s, name, version) == s.len() {
            assert forall|j: int| 0 <= j < s.len() implies !entry_matches(s[j], name, version) by {
                if j > 0 {
                    assert(d[j - 1] == s[j]);
                    assert(!entry_matches(d[j - 1], name, version));
                }
            }
        }
    }
}

/// From a scan that saw no match before `i`, and a match at `i` (or none at
/// all), the first match is at `i`.
pub proof fn lemma_key_idx_is(s: Seq<EntryView>, name: Seq<char>, version: Seq<char>, i: int)
    requires
        0 <= i <= s.len(),
        forall|j: int| 0 <= j < i ==> !entry_matches(s[j], name, version),
        i < s.len() ==> entry_matches(s[i], name, version),
        i == s.len() ==> forall|j: int| 0 <= j < s.len() ==> !entry_matches(s[j], name, version),
    ensures
        key_idx(s, name, version) == i,
    decreases i,
{
    lemma_key_idx(s, name, version);
    if i < s.len() {
        if key_idx(s, name, version) < i {
            assert(entry_matches(s[key_idx(s, name, version)], name, version));
        }
    }
}

/// Upserting keeps the keys pairwise distinct.
pub proof fn lemma_upsert_wf(s: Seq<EntryView>, e: EntryView)
    requires
        entries_wf(s),
    ensures
        entries_wf(upsert(s, e)),
{
    lemma_key_idx(s, e.name, e.version);
}

/// Adding the same entry twice is the same as adding it once.
pub proof fn lemma_upsert_idempotent(s: Seq<EntryView>, e: EntryView)
    ensures
        upsert(upsert(s, e), e) == upsert(s, e),
{
    lemma_key_idx(s, e.name, e.version);
    let t = upsert(s, e);
    if has_key(s, e.name, e.version) {
        let i = key_idx(s, e.name, e.version);
        assert forall|j: int| 0 <= j < i implies !entry_matches(t[j], e.name, e.version) by {
            assert(t[j] == s[j]);
        }
        lemma_key_idx_is(t, e.name, e.version, i);
        assert(upsert(t, e) =~= t);
    } else {
        let n = s.len() as int;
        assert forall|j: int| 0 <= j < n implies !entry_matches(t[j], e.name, e.version) by {
            assert(t[j] == s[j]);
        }
        lemma_key_idx_is(t, e.name, e.version, n);
        assert(upsert(t, e) =~= t);
    }
}

/// The winner of a latest-version scan: among the entries for `name` whose
/// raw version parses, the one with the greatest parsed version; on equal
/// parsed versions the earlier entry is kept.
pub open spec fn latest_in(s: Seq<EntryView>, name: Seq<char>) -> Option<EntryView>
    decreases s.len(),
{
    if s.len() == 0 {
        None
    } else {
        let rest = latest_in(s.drop_last(), name);
        let e = s.last();
        if e.name == name && sem_parse(e.version) is Ok {
            match rest {
                None => Some(e),
                Some(b) => {
                    if sem_lt(sem_parse(b.version)->Ok_0, sem_parse(e.version)->Ok_0) {
                        Some(e)
                    } else {
                        Some(b)
                    }
                },
            }
        } else {
            rest
        }
    }
}

/// What the latest-version scan guarantees: it finds a winner exactly when
/// some entry for the name parses; the winner carries the name, parses, is
/// one of the entries, and no parsing entry for the name is greater.
pub proof fn lemma_latest_in(s: Seq<EntryView>, name: Seq<char>)
    ensures
        latest_in(s, name) is Some <==> exists|i: int|
            0 <= i < s.len() && (#[trigger] s[i]).name == name && sem_parse(s[i].version) is Ok,
        latest_in(s, name) matches Some(e) ==> e.name == name && sem_parse(e.version) is Ok,
        latest_in(s, name) matches Some(e) ==> exists|i: int| 0 <= i < s.len() && s[i] == e,
        latest_in(s, name) matches Some(e) ==> forall|i: int|
            0 <= i < s.len() && (#[trigger] s[i]).name == name && sem_parse(s[i].version) is Ok
                ==> !sem_lt(sem_parse(e.version)->Ok_0, sem_parse(s[i].version)->Ok_0),
    decreases s.len(),
{
    if s.len() > 0 {
        lemma_latest_in(s.drop_last(), name);
        let d = s.drop_last();
        assert(forall|i: int| 0 <= i < s.len() - 1 ==> d[i] == s[i]);
        let e = s.last();
        if e.name == name && sem_parse(e.version) is Ok {
            assert(s[s.len() - 1] == e);
        }
        if latest_in(s, name) is Some {
            let w = latest_in(s, name).unwrap();
            if latest_in(d, name) is Some {
                let b = latest_in(d, name).unwrap();
                if w == b {
                    let i = choose|i: int| 0 <= i < d.len() && d[i] == b;
                    assert(s[i] == b);
                }
                assert forall|i: int|
                    0 <= i < s.len() && (#[trigger] s[i]).name == name && sem_parse(
                        s[i].version,
                    ) is Ok implies !sem_lt(
                    sem_parse(w.version)->Ok_0,
                    sem_parse(s[i].version)->Ok_0,
                ) by {
                    if i < s.len() - 1 {
                        assert(d[i] == s[i]);
                        crate::semantic_version::lemma_sem_order_total(
                            sem_parse(b.version)->Ok_0,
                            sem_parse(s[i].version)->Ok_0,
                        );
                        if sem_lt(sem_parse(b.version)->Ok_0, sem_parse(e.version)->Ok_0) {
                            crate::semantic_version::lemma_sem_order_total(
                                sem_parse(e.version)->Ok_0,
                                sem_parse(b.version)->Ok_0,
                            );
                            if sem_lt(sem_parse(e.version)->Ok_0, sem_parse(s[i].version)->Ok_0) {
                                crate::semantic_version::lemma_sem_order_transitive(
                                    sem_parse(b.version)->Ok_0,
                                    sem_parse(e.version)->Ok_0,
                                    sem_parse(s[i].version)->Ok_0,
                                );
                            }
                        }
                    }
                }
            }
        }
        if exists|i: int|
            0 <= i < s.len() && (#[trigger] s[i]).name == name && sem_parse(s[i].version) is Ok {
            let i = choose|i: int|
                0 <= i < s.len() && (#[trigger] s[i]).name == name && sem_parse(
                    s[i].version,
                ) is Ok;
            if i < s.len() - 1 {
                assert(d[i] == s[i]);
            }
        }
    }
}

/// The first position whose entry carries `name` and parses to exactly
/// `target`, or the length when there is none.
pub open spec fn find_idx(s: Seq<EntryView>, name: Seq<char>, target: SemanticVersion) -> int
    decreases s.len(),
{
    if s.len() == 0 {
        0
    } else if s[0].name == name && sem_parse(s[0].version) == Ok::<
        SemanticVersion,
        crate::semantic_version::ParseSemanticVersionError,
    >(target) {
        0
    } else {
        1 + find_idx(s.drop_first(), name, target)
    }
}

/// What looking a version up yields: nothing when the requested text does
/// not parse, else the first entry for the name whose parsed version equals
/// the requested one.
pub open spec fn find_spec(s: Seq<EntryView>, name: Seq<char>, version: Seq<char>) -> Option<
    EntryView,
> {
    match sem_parse(version) {
        Err(_) => None,
        Ok(t) => {
            if find_idx(s, name, t) < s.len() {
                Some(s[find_idx(s, name, t)])
            } else {
                None
            }
        },
    }
}

/// Whether this entry is the target of a version lookup.
pub open spec fn find_matches(e: EntryView, name: Seq<char>, target: SemanticVersion) -> bool {
    e.name == name && sem_parse(e.version) == Ok::<
        SemanticVersion,
        crate::semantic_version::ParseSemanticVersionError,
    >(target)
}

/// `find_idx` names the first lookup match, and everything before it
/// differs.
pub proof fn lemma_find_idx(s: Seq<EntryView>, name: Seq<char>, target: SemanticVersion)
    ensures
        0 <= find_idx(s, name, target) <= s.len(),
        find_idx(s, name, target) < s.len() ==> find_matches(s[find_idx(s, name, target)], name, target),
        forall|j: int| 0 <= j < find_idx(s, name, target) ==> !find_matches(s[j], name, target),
        find_idx(s, name, target) == s.len() ==> forall|j: int|
            0 <= j < s.len() ==> !find_matches(s[j], name, target),
    decreases s.len(),
{
    if s.len() > 0 && !find_matches(s[0], name, target) {
        let d = s.drop_first();
        lemma_find_idx(d, name, target);
        let r = find_idx(d, name, target);
        assert(find_idx(s, name, target) == 1 + r);
        if r < d.len() {
            assert(s[1 + r] == d[r]);
        }
        assert forall|j: int| 0 <= j < find_idx(s, name, target) implies !find_matches(
            s[j],
            name,
            target,
        ) by {
            if j > 0 {
                assert(d[j - 1] == s[j]);
                assert(!find_matches(d[j - 1], name, target));
            }
        }
        if find_idx(s, name, target) == s.len() {
            assert forall|j: int| 0 <= j < s.len() implies !find_matches(s[j], name, target) by {
                if j > 0 {
                    assert(d[j - 1] == s[j]);
                    assert(!find_matches(d[j - 1], name, target));
                }
            }
        }
    }
}

/// From a scan that saw no lookup match before `i`, and a match at `i` (or
/// none at all), the first match is at `i`.
pub proof fn lemma_find_idx_is(
    s: Seq<EntryView>,
    name: Seq<char>,
    target: SemanticVersion,
    i: int,
)
    requires
        0 <= i <= s.len(),
        forall|j: int| 0 <= j < i ==> !find_matches(s[j], name, target),
        i < s.len() ==> find_matches(s[i], name, target),
        i == s.len() ==> forall|j: int| 0 <= j < s.len() ==> !find_matches(s[j], name, target),
    ensures
        find_idx(s, name, target) == i,
{
    lemma_find_idx(s, name, target);
    if i < s.len() {
        if find_idx(s, name, target) < i {
            assert(find_matches(s[find_idx(s, name, target)], name, target));
        }
    }
}

/// What one stored key contributes: the key must read `dir/filename` where
/// `dir` is a name token and `filename` parses under the artifact file-name
/// grammar; the entry then carries the directory name and the raw version
/// text of the file name.
pub open spec fn parse_key(s: Seq<char>) -> Option<(Seq<char>, Seq<char>)> {
    let sl = first_at(s, '/', 0);
    if sl == s.len() {
        None
    } else if !is_name(s.take(sl)) {
        None
    } else {
        match parse_filename(s.subrange(sl + 1, s.len() as int)) {
            None => None,
            Some(f) => Some((s.take(sl), f.raw_version)),
        }
    }
}

/// The catalog that one full bucket listing builds: every key that parses
/// is upserted in listing order.
pub open spec fn from_listing_spec(objs: Seq<ObjectRefView>) -> Seq<EntryView>
    decreases objs.len(),
{
    if objs.len() == 0 {
        Seq::empty()
    } else {
        let prev = from_listing_spec(objs.drop_last());
        match parse_key(objs.last().key) {
            None => prev,
            Some(nv) => upsert(
                prev,
                EntryView { name: nv.0, version: nv.1, object: objs.last() },
            ),
        }
    }
}

/// The catalog: package name and raw version text to stored object, built
/// once from a listing and then read-only.
#[derive(Debug)]
pub struct Index {
    entries: Vec<Entry>,
}

impl View for Index {
    type V = Seq<EntryView>;

    closed spec fn view(&self) -> Seq<EntryView> {
        self.entries@.map_values(|e: Entry| e@)
    }
}

impl Index {
    /// The empty catalog.
    pub fn new() -> (r: Index)
        ensures
            r@ =~= Seq::<EntryView>::empty(),
    {
        Index { entries: Vec::new() }
    }

    /// Finds the position of the entry holding this (name, raw version)
    /// key, if any.
    fn find_key_pos(&self, name: &str, version: &str) -> (r: Option<usize>)
        ensures
            r matches Some(i) ==> i < self@.len() && i == key_idx(self@, name@, version@),
            r is None ==> !has_key(self@, name@, version@),
    {
        let n = self.entries.len();
        let mut i: usize = 0;
        while i < n
            invariant
                n == self.entries.len(),
                self@.len() == n,
                i <= n,
                forall|j: int| 0 <= j < i ==> !entry_matches(self@[j], name@, version@),
            decreases n - i,
        {
            assert(self@[i as int] == self.entries@[i as int]@);
            let e = &self.entries[i];
            if str_eq(e.name.as_str(), name) && str_eq(e.version.as_str(), version) {
                proof {
                    lemma_key_idx_is(self@, name@, version@, i as int);
                }
                return Some(i);
            }
            i += 1;
        }
        proof {
            lemma_key_idx_is(self@, name@, version@, n as int);
        }
        None
    }

    /// Upserts one entry: the last write for a (name, raw version) key
    /// wins, silently replacing the earlier entry.
    pub fn add(&mut self, entry: Entry)
        ensures
            final(self)@ == upsert(old(self)@, entry@),
            entries_wf(old(self)@) ==> entries_wf(final(self)@),
    {
        proof {
            if entries_wf(old(self)@) {
                lemma_upsert_wf(old(self)@, entry@);
            }
        }
        match self.find_key_pos(entry.name.as_str(), entry.version.as_str()) {
            Some(i) => {
                self.entries[i] = entry;
                assert(self@ =~= upsert(old(self)@, entry@));
            },
            None => {
                self.entries.push(entry);
                assert(self@ =~= upsert(old(self)@, entry@));
            },
        }
    }

    /// Whether the catalog answers for this request: a `Latest` request
    /// needs any entry with the name, however its version text reads; a
    /// literal request needs an entry whose raw version text equals the
    /// request exactly.
    pub fn contains(&self, package: &Package) -> (r: bool)
        ensures
            package@.version == PackageVersionView::Latest ==> r == has_name(self@, package@.name),
            package@.version matches PackageVersionView::Literal(v) ==> r == has_key(
                self@,
                package@.name,
                v,
            ),
    {
        match &package.version {
            PackageVersion::Latest => {
                assert(package@.version == PackageVersionView::Latest);
                let n = self.entries.len();
                let mut i: usize = 0;
                while i < n
                    invariant
                        package@.version == PackageVersionView::Latest,
                        n == self.entries.len(),
                        self@.len() == n,
                        i <= n,
                        forall|j: int| 0 <= j < i ==> (#[trigger] self@[j]).name != package@.name,
                    decreases n - i,
                {
                    assert(self@[i as int] == self.entries@[i as int]@);
                    if str_eq(self.entries[i].name.as_str(), package.name.as_str()) {
                        assert((self@[i as int]).name == package@.name);
                        assert(has_name(self@, package@.name));
                        return true;
                    }
                    i += 1;
                }
                false
            },
            PackageVersion::Literal(v) => {
                proof {
                    lemma_key_idx(self@, package@.name, v@);
                }
                self.find_key_pos(package.name.as_str(), v.as_str()).is_some()
            },
        }
    }

    /// Resolves a name to its entry with the greatest parsed version.
    /// Entries whose raw version text does not parse are never returned,
    /// even when they are all a name has; on equal parsed versions the
    /// entry that stands earlier in the catalog wins.
    pub fn find_latest(&self, name: &str) -> (r: Option<Entry>)
        ensures
            r is Some <==> latest_in(self@, name@) is Some,
            r matches Some(e) ==> latest_in(self@, name@) == Some(e@),
    {
        let n = self.entries.len();
        let mut best: Option<(SemanticVersion, Entry)> = None;
        let mut i: usize = 0;
        while i < n
            invariant
                n == self.entries.len(),
                self@.len() == n,
                i <= n,
                best is Some <==> latest_in(self@.take(i as int), name@) is Some,
                best matches Some(p) ==> latest_in(self@.take(i as int), name@) == Some(p.1@)
                    && sem_parse(p.1@.version) == Ok::<
                    SemanticVersion,
                    crate::semantic_version::ParseSemanticVersionError,
                >(p.0),
            decreases n - i,
        {
            assert(self@[i as int] == self.entries@[i as int]@);
            proof {
                assert(self@.take(i + 1 as int).drop_last() =~= self@.take(i as int));
                assert(self@.take(i + 1 as int).last() == self@[i as int]);
            }
            let e = &self.entries[i];
            if str_eq(e.name.as_str(), name) {
                match SemanticVersion::from_str(e.version.as_str()) {
                    Ok(sv) => {
                        match &best {
                            None => {
                                best = Some((sv, e.clone()));
                            },
                            Some(p) => {
                                if p.0 < sv {
                                    best = Some((sv, e.clone()));
                                }
                            },
                        }
                    },
                    Err(_) => {},
                }
            }
            i += 1;
        }
        assert(self@.take(n as int) =~= self@);
        match best {
            None => None,
            Some(p) => Some(p.1),
        }
    }

    /// Looks a literal version up: the request must parse, and the first
    /// entry for the name whose parsed version equals the parsed request is
    /// returned, whatever either raw text looks like.
    pub fn find(&self, name: &str, version: &str) -> (r: Option<Entry>)
        ensures
            r is Some <==> find_spec(self@, name@, version@) is Some,
            r matches Some(e) ==> find_spec(self@, name@, version@) == Some(e@),
    {
        let target = match SemanticVersion::from_str(version) {
            Err(_) => {
                return None;
            },
            Ok(t) => t,
        };
        let n = self.entries.len();
        let mut i: usize = 0;
        while i < n
            invariant
                n == self.entries.len(),
                self@.len() == n,
                i <= n,
                sem_parse(version@) == Ok::<
                    SemanticVersion,
                    crate::semantic_version::ParseSemanticVersionError,
                >(target),
                forall|j: int| 0 <= j < i ==> !find_matches(self@[j], name@, target),
            decreases n - i,
        {
            assert(self@[i as int] == self.entries@[i as int]@);
            let e = &self.entries[i];
            if str_eq(e.name.as_str(), name) {
                match SemanticVersion::from_str(e.version.as_str()) {
                    Ok(sv) => {
                        if sv == target {
                            proof {
                                lemma_find_idx_is(self@, name@, target, i as int);
                            }
                            return Some(e.clone());
                        }
                    },
                    Err(_) => {},
                }
            }
            i += 1;
        }
        proof {
            lemma_find_idx_is(self@, name@, target, n as int);
        }
        None
    }

    /// All entries for a name whose raw version text parses, in catalog
    /// order, each with its parsed version.
    pub fn get_available_versions(&self, name: &str) -> (r: Vec<(SemanticVersion, Entry)>)
        ensures
            r@.map_values(|p: (SemanticVersion, Entry)| (p.0, p.1@)) == avail(self@, name@),
    {
        let n = self.entries.len();
        let mut out: Vec<(SemanticVersion, Entry)> = Vec::new();
        let mut i: usize = 0;
        while i < n
            invariant
                n == self.entries.len(),
                self@.len() == n,
                i <= n,
                out@.map_values(|p: (SemanticVersion, Entry)| (p.0, p.1@)) == avail(
                    self@.take(i as int),
                    name@,
                ),
            decreases n - i,
        {
            assert(self@[i as int] == self.entries@[i as int]@);
            proof {
                assert(self@.take(i + 1 as int).drop_last() =~= self@.take(i as int));
                assert(self@.take(i + 1 as int).last() == self@[i as int]);
            }
            let e = &self.entries[i];
            if str_eq(e.name.as_str(), name) {
                match SemanticVersion::from_str(e.version.as_str()) {
                    Ok(sv) => {
                        out.push((sv, e.clone()));
                        assert(out@.map_values(|p: (SemanticVersion, Entry)| (p.0, p.1@)) =~= avail(
                            self@.take(i + 1 as int),
                            name@,
                        ));
                    },
                    Err(_) => {},
                }
            }
            i += 1;
            assert(out@.map_values(|p: (SemanticVersion, Entry)| (p.0, p.1@)) =~= avail(
                self@.take(i as int),
                name@,
            ));
        }
        assert(self@.take(n as int) =~= self@);
        out
    }

    /// Builds the catalog from a full bucket listing: every key that reads
    /// `name/name-version.ext` becomes one upsert, in listing order, and
    /// any other key is skipped silently.
    pub fn from_listing(objects: &Vec<ObjectRef>) -> (r: Index)
        ensures
            r@ == from_listing_spec(objects@.map_values(|o: ObjectRef| o@)),
            entries_wf(r@),
    {
        let ghost all = objects@.map_values(|o: ObjectRef| o@);
        let mut index = Index::new();
        let n = objects.len();
        let mut i: usize = 0;
        while i < n
            invariant
                n == objects.len(),
                all == objects@.map_values(|o: ObjectRef| o@),
                i <= n,
                index@ == from_listing_spec(all.take(i as int)),
                entries_wf(index@),
            decreases n - i,
        {
            proof {
                assert(all.take(i + 1 as int).drop_last() =~= all.take(i as int));
                assert(all.take(i + 1 as int).last() == all[i as int]);
                assert(all[i as int] == objects@[i as int]@);
            }
            let o = &objects[i];
            match key_to_entry(o) {
                Some(entry) => {
                    index.add(entry);
                },
                None => {},
            }
            i += 1;
        }
        assert(all.take(n as int) =~= all);
        index
    }
}

/// The entries for a name whose raw version parses, in catalog order, with
/// their parsed versions.
pub open spec fn avail(s: Seq<EntryView>, name: Seq<char>) -> Seq<(SemanticVersion, EntryView)>
    decreases s.len(),
{
    if s.len() == 0 {
        Seq::empty()
    } else {
        let rest = avail(s.drop_last(), name);
        let e = s.last();
        if e.name == name && sem_parse(e.version) is Ok {
            rest.push((sem_parse(e.version)->Ok_0, e))
        } else {
            rest
        }
    }
}

/// Turns one stored key into a catalog entry when it matches the key
/// grammar `name/name-version.ext`.
fn key_to_entry(o: &ObjectRef) -> (r: Option<Entry>)
    ensures
        r is Some <==> parse_key(o@.key) is Some,
        r matches Some(e) ==> parse_key(o@.key) matches Some(nv) && e@.name == nv.0 && e@.version
            == nv.1 && e@.object == o@,
{
    let key = o.key.as_str();
    let len = key.unicode_len();
    proof {
        lemma_first_at(key@, '/', 0);
    }
    let sl = crate::chars::find_char(key, '/', 0);
    if sl == len {
        return None;
    }
    if !whole_is_name(key, 0, sl) {
        assert(key@.take(sl as int) =~= key@.subrange(0, sl as int));
        return None;
    }
    assert(key@.take(sl as int) =~= key@.subrange(0, sl as int));
    let rest = key.substring_char(sl + 1, len);
    assert(rest@ =~= key@.subrange(sl + 1, key@.len() as int));
    match Package::from_path(rest) {
        Err(_) => None,
        Ok(p) => {
            match p.version {
                PackageVersion::Literal(raw) => {
                    let dir = key.substring_char(0, sl);
                    Some(Entry::new(dir, raw.as_str(), o))
                },
                PackageVersion::Latest => {
                    // from_path always yields a literal version
                    proof {
                        assert(false);
                    }
                    None
                },
            }
        },
    }
}

} // verus!
