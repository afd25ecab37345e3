//! Three-part numeric versions and their total order.
//!
//! A semantic version is an ordered triple `(major, minor, patch)` of
//! non-negative integers.  Parsing accepts one to three dot-separated numeric
//! segments; missing trailing segments default to zero.  More than three
//! segments is an invalid format, and a segment that is empty, non-numeric or
//! too large to represent is a non-numeric segment.  Ordering is
//! lexicographic on the triple and numeric within each part, so `"9" < "10"`.

use crate::chars::{
    all_digits, dec_val, digit, digit_val, digits_end, find_char, first_at, is_digit,
    lemma_digits_end,
};
use core::cmp::Ordering;
use vstd::prelude::*;
use vstd::string::StrSliceExecFns;

verus! {

/// Why a version string was rejected.
#[derive(Clone, Copy, Debug, PartialEq, Eq, Structural)]
pub enum ParseSemanticVersionError {
    /// More than three dot-separated segments.
    InvalidFormat,
    /// A segment that is empty, holds a non-digit, or does not fit.
    NonNumericSegment,
}

/// An ordered `(major, minor, patch)` triple.
#[derive(Clone, Copy, Debug, PartialEq, Eq, Structural)]
pub struct SemanticVersion {
    pub major: u64,
    pub minor: u64,
    pub patch: u64,
}

/// A version segment that parses: non-empty, digits only, and small enough
/// to be represented.
pub open spec fn valid_segment(s: Seq<char>) -> bool {
    s.len() > 0 && all_digits(s) && dec_val(s) <= u64::MAX
}

/// What parsing a version string yields: the segments are the dot-separated
/// pieces of the text, at most three are allowed, and absent minor and patch
/// segments read as zero.
pub open spec fn sem_parse(s: Seq<char>) -> Result<SemanticVersion, ParseSemanticVersionError> {
    let e1 = first_at(s, '.', 0);
    let seg1 = s.subrange(0, e1);
    if e1 == s.len() {
        if valid_segment(seg1) {
            Ok(SemanticVersion { major: dec_val(seg1) as u64, minor: 0, patch: 0 })
        } else {
            Err(ParseSemanticVersionError::NonNumericSegment)
        }
    } else {
        let e2 = first_at(s, '.', e1 + 1);
        let seg2 = s.subrange(e1 + 1, e2);
        if e2 == s.len() {
            if valid_segment(seg1) && valid_segment(seg2) {
                Ok(
                    SemanticVersion {
                        major: dec_val(seg1) as u64,
                        minor: dec_val(seg2) as u64,
                        patch: 0,
                    },
                )
            } else {
                Err(ParseSemanticVersionError::NonNumericSegment)
            }
        } else {
            let e3 = first_at(s, '.', e2 + 1);
            let seg3 = s.subrange(e2 + 1, e3);
            if !(valid_segment(seg1) && valid_segment(seg2) && valid_segment(seg3)) {
                Err(ParseSemanticVersionError::NonNumericSegment)
            } else if e3 != s.len() {
                Err(ParseSemanticVersionError::InvalidFormat)
            } else {
                Ok(
                    SemanticVersion {
                        major: dec_val(seg1) as u64,
                        minor: dec_val(seg2) as u64,
                        patch: dec_val(seg3) as u64,
                    },
                )
            }
        }
    }
}

/// The value of a digit sequence never shrinks as the sequence grows to the
/// right.
proof fn lemma_dec_val_prefix_le(s: Seq<char>, k: int)
    requires
        0 <= k <= s.len(),
    ensures
        dec_val(s.take(k)) <= dec_val(s),
    decreases s.len(),
{
    if k == s.len() {
        assert(s.take(k) =~= s);
    } else {
        assert(s.take(k) =~= s.drop_last().take(k));
        lemma_dec_val_prefix_le(s.drop_last(), k);
    }
}

/// Reads the digits of `s` between `from` and `to` as a base-ten number.
/// Yields nothing when the range is empty, holds a non-digit, or does not
/// fit in 64 bits.
pub fn parse_u64_range(s: &str, from: usize, to: usize) -> (r: Option<u64>)
    requires
        from <= to <= s@.len(),
    ensures
        r is Some <==> valid_segment(s@.subrange(from as int, to as int)),
        r matches Some(v) ==> v == dec_val(s@.subrange(from as int, to as int)),
{
    let ghost seg = s@.subrange(from as int, to as int);
    if from == to {
        return None;
    }
    let mut acc: u64 = 0;
    let mut i = from;
    while i < to
        invariant
            from <= i <= to <= s@.len(),
            seg == s@.subrange(from as int, to as int),
            forall|j: int| from <= j < i ==> is_digit(#[trigger] s@[j]),
            acc == dec_val(s@.subrange(from as int, i as int)),
        decreases to - i,
    {
        let c = s.get_char(i);
        if !digit(c) {
            assert(seg[i - from] == s@[i as int]);
            return None;
        }
        assert(c as u32 >= 48 && c as u32 <= 57);
        let d: u64 = (c as u32 - 48) as u64;
        assert(d == digit_val(c));
        proof {
            assert(s@.subrange(from as int, i + 1 as int).drop_last() =~= s@.subrange(
                from as int,
                i as int,
            ));
            assert(dec_val(s@.subrange(from as int, i + 1 as int)) == acc * 10 + d);
        }
        if acc > 1844674407370955161u64 || (acc == 1844674407370955161u64 && d > 5) {
            proof {
                if all_digits(seg) && dec_val(seg) <= u64::MAX {
                    lemma_dec_val_prefix_le(seg, i + 1 - from);
                    assert(seg.take(i + 1 - from) =~= s@.subrange(from as int, i + 1 as int));
                    assert(dec_val(s@.subrange(from as int, i + 1 as int)) > u64::MAX);
                }
            }
            return None;
        }
        acc = acc * 10 + d;
        i += 1;
    }
    assert(seg =~= s@.subrange(from as int, i as int));
    assert forall|j: int| 0 <= j < seg.len() implies is_digit(#[trigger] seg[j]) by {
        assert(seg[j] == s@[from + j]);
    }
    Some(acc)
}

impl SemanticVersion {
    /// Parses a version string: one to three dot-separated numeric segments,
    /// missing trailing segments defaulting to zero.
    pub fn from_str(s: &str) -> (r: Result<SemanticVersion, ParseSemanticVersionError>)
        ensures
            r == sem_parse(s@),
    {
        let len = s.unicode_len();
        let e1 = find_char(s, '.', 0);
        proof {
            crate::chars::lemma_first_at(s@, '.', 0);
        }
        let m1 = parse_u64_range(s, 0, e1);
        if e1 == len {
            match m1 {
                Some(v) => Ok(SemanticVersion { major: v, minor: 0, patch: 0 }),
                None => Err(ParseSemanticVersionError::NonNumericSegment),
            }
        } else {
            let e2 = find_char(s, '.', e1 + 1);
            proof {
                crate::chars::lemma_first_at(s@, '.', e1 + 1);
            }
            let m2 = parse_u64_range(s, e1 + 1, e2);
            if e2 == len {
                match (m1, m2) {
                    (Some(v1), Some(v2)) => Ok(
                        SemanticVersion { major: v1, minor: v2, patch: 0 },
                    ),
                    _ => Err(ParseSemanticVersionError::NonNumericSegment),
                }
            } else {
                let e3 = find_char(s, '.', e2 + 1);
                proof {
                    crate::chars::lemma_first_at(s@, '.', e2 + 1);
                }
                let m3 = parse_u64_range(s, e2 + 1, e3);
                match (m1, m2, m3) {
                    (Some(v1), Some(v2), Some(v3)) => {
                        if e3 != len {
                            Err(ParseSemanticVersionError::InvalidFormat)
                        } else {
                            Ok(SemanticVersion { major: v1, minor: v2, patch: v3 })
                        }
                    },
                    _ => Err(ParseSemanticVersionError::NonNumericSegment),
                }
            }
        }
    }
}

/// How two versions compare: lexicographically on the triple, numerically
/// within each part.
pub open spec fn sem_cmp(a: SemanticVersion, b: SemanticVersion) -> Ordering {
    if a.major != b.major {
        if a.major < b.major {
            Ordering::Less
        } else {
            Ordering::Greater
        }
    } else if a.minor != b.minor {
        if a.minor < b.minor {
            Ordering::Less
        } else {
            Ordering::Greater
        }
    } else {
        if a.patch < b.patch {
            Ordering::Less
        } else if a.patch > b.patch {
            Ordering::Greater
        } else {
            Ordering::Equal
        }
    }
}

/// Strict order on versions.
pub open spec fn sem_lt(a: SemanticVersion, b: SemanticVersion) -> bool {
    sem_cmp(a, b) == Ordering::Less
}

impl PartialOrd for SemanticVersion {
    fn partial_cmp(&self, other: &Self) -> (r: Option<Ordering>) {
        if self.major != other.major {
            if self.major < other.major {
                Some(Ordering::Less)
            } else {
                Some(Ordering::Greater)
            }
        } else if self.minor != other.minor {
            if self.minor < other.minor {
                Some(Ordering::Less)
            } else {
                Some(Ordering::Greater)
            }
        } else {
            if self.patch < other.patch {
                Some(Ordering::Less)
            } else if self.patch > other.patch {
                Some(Ordering::Greater)
            } else {
                Some(Ordering::Equal)
            }
        }
    }
}

impl vstd::std_specs::cmp::PartialOrdSpecImpl for SemanticVersion {
    open spec fn obeys_partial_cmp_spec() -> bool {
        true
    }

    open spec fn partial_cmp_spec(&self, other: &Self) -> Option<Ordering> {
        Some(sem_cmp(*self, *other))
    }
}

/// The comparison is total: any two versions are related by exactly one of
/// less, equal and greater, and equal means the triples coincide.
pub proof fn lemma_sem_order_total(a: SemanticVersion, b: SemanticVersion)
    ensures
        sem_cmp(a, b) == Ordering::Equal <==> a == b,
        sem_cmp(a, b) == Ordering::Less <==> sem_cmp(b, a) == Ordering::Greater,
        sem_lt(a, b) || sem_lt(b, a) || a == b,
        !(sem_lt(a, b) && sem_lt(b, a)),
        sem_lt(a, b) ==> a != b,
{
}

/// The comparison is transitive.
pub proof fn lemma_sem_order_transitive(a: SemanticVersion, b: SemanticVersion, c: SemanticVersion)
    requires
        sem_lt(a, b),
        sem_lt(b, c),
    ensures
        sem_lt(a, c),
{
}

} // verus!
