//! Release versions discovered from the vendor's tag listing.
//!
//! Version discovery itself — running the tag listing, walking its lines —
//! is orchestration around the library.  What is decided here is which tag
//! texts count as release versions (parseable semantic versions with no
//! pre-release part) and which releases qualify for processing (not below
//! a minimum version).

use vstd::prelude::*;
use vstd::string::StrSliceExecFns;

verus! {

/// What `semver::Version::parse` makes of `text`: major, minor and patch
/// numbers and whether the pre-release part is empty, or nothing if `text`
/// is not a well-formed semantic version.
pub uninterp spec fn semver_parse(text: Seq<char>) -> Option<(u64, u64, u64, bool)>;

/// Relies on `semver::Version::parse`: it accepts exactly well-formed
/// semantic versions and yields their numeric components and pre-release
/// part.  The result depends on `text` alone.
#[verifier::external_body]
fn parse_semver(text: &str) -> (r: Option<(u64, u64, u64, bool)>)
    ensures
        r == semver_parse(text@),
{
    match semver::Version::parse(text) {
        Ok(v) => Some((v.major, v.minor, v.patch, v.pre.is_empty())),
        Err(_) => None,
    }
}

/// A release version: the numeric triple of a semantic version whose
/// pre-release part is empty.
#[derive(Clone, Copy, Debug, PartialEq, Eq, Structural)]
pub struct ReleaseVersion {
    pub major: u64,
    pub minor: u64,
    pub patch: u64,
}

impl ReleaseVersion {
    /// Numeric ordering of versions: by major, then minor, then patch.
    /// On releases (no pre-release part) this is the semantic-version
    /// precedence order.
    pub open spec fn spec_lt(self, other: ReleaseVersion) -> bool {
        ||| self.major < other.major
        ||| (self.major == other.major && self.minor < other.minor)
        ||| (self.major == other.major && self.minor == other.minor && self.patch < other.patch)
    }

    /// Whether this release is at or above the minimum that qualifies for
    /// processing.
    pub fn meets_minimum(&self, min: &ReleaseVersion) -> (r: bool)
        ensures
            r == !self.spec_lt(*min),
    {
        if self.major != min.major {
            self.major > min.major
        } else if self.minor != min.minor {
            self.minor > min.minor
        } else {
            self.patch >= min.patch
        }
    }
}

/// What a tag's version text must yield: the release triple exactly when
/// the text is a well-formed semantic version with no pre-release part.
pub open spec fn spec_release_of(text: Seq<char>) -> Option<ReleaseVersion> {
    match semver_parse(text) {
        Some((major, minor, patch, no_pre)) => if no_pre {
            Some(ReleaseVersion { major, minor, patch })
        } else {
            None
        },
        None => None,
    }
}

/// Reads a tag's version text — what follows the tag namespace's `v` — as
/// a release version.  Pre-release tags and texts that are not semantic
/// versions are no releases.
pub fn release_of(text: &str) -> (r: Option<ReleaseVersion>)
    ensures
        r == spec_release_of(text@),
{
    match parse_semver(text) {
        Some((major, minor, patch, no_pre)) => if no_pre {
            Some(ReleaseVersion { major, minor, patch })
        } else {
            None
        },
        None => None,
    }
}

/// The first index at or after `from` where `marker` occurs in `line`;
/// `None` if it occurs nowhere from there on.
pub open spec fn first_occurrence_from(line: Seq<char>, marker: Seq<char>, from: int) -> Option<
    int,
>
    decreases line.len() - from,
{
    if from + marker.len() > line.len() {
        None
    } else if line.subrange(from, from + marker.len()) =~= marker {
        Some(from)
    } else {
        first_occurrence_from(line, marker, from + 1)
    }
}

/// What a whole tag-listing line must yield: the release version read from
/// what follows the first occurrence of `marker`, if the marker occurs and
/// what follows it is a release version's text.
pub open spec fn spec_tag_line_release(line: Seq<char>, marker: Seq<char>) -> Option<
    ReleaseVersion,
> {
    match first_occurrence_from(line, marker, 0) {
        Some(k) => spec_release_of(line.skip(k + marker.len())),
        None => None,
    }
}

/// Reads one line of a tag listing: finds the first occurrence of `marker`
/// — the separator and tag namespace, such as a tab followed by
/// `refs/tags/v` — and reads what follows it as a release version.  Lines
/// without the marker, and tags that are no release versions, yield
/// nothing.
pub fn tag_line_release(line: &str, marker: &str) -> (r: Option<ReleaseVersion>)
    ensures
        r == spec_tag_line_release(line@, marker@),
{
    let n: usize = line.unicode_len();
    let m: usize = marker.unicode_len();
    if m > n {
        return None;
    }
    if m == 0 {
        proof {
            assert(line@.subrange(0, 0) =~= marker@);
            assert(line@.skip(0) =~= line@);
        }
        return release_of(line);
    }
    let mut k: usize = 0;
    while k <= n - m
        invariant
            n == line@.len(),
            m == marker@.len(),
            m <= n,
            k <= n - m + 1,
            first_occurrence_from(line@, marker@, 0) == first_occurrence_from(
                line@,
                marker@,
                k as int,
            ),
        decreases n - k,
    {
        let mut d: usize = 0;
        let mut same: bool = true;
        proof {
            assert(line@.subrange(k as int, k as int) =~= marker@.subrange(0, 0));
        }
        while d < m
            invariant
                n == line@.len(),
                m == marker@.len(),
                m <= n,
                k <= n - m,
                d <= m,
                same == (line@.subrange(k as int, k + d) == marker@.subrange(0, d as int)),
            decreases m - d,
        {
            let here: char = line.get_char(k + d);
            let want: char = marker.get_char(d);
            proof {
                if same && here == want {
                    assert(line@.subrange(k as int, k + d + 1) =~= line@.subrange(
                        k as int,
                        k + d,
                    ).push(line@[k + d]));
                    assert(marker@.subrange(0, d + 1) =~= marker@.subrange(0, d as int).push(
                        marker@[d as int],
                    ));
                } else {
                    assert(line@.subrange(k as int, k + d) =~= line@.subrange(
                        k as int,
                        k + d + 1,
                    ).subrange(0, d as int));
                    assert(marker@.subrange(0, d as int) =~= marker@.subrange(0, d + 1).subrange(
                        0,
                        d as int,
                    ));
                    if line@.subrange(k as int, k + d + 1) == marker@.subrange(0, d + 1) {
                        assert(line@[k + d] == line@.subrange(k as int, k + d + 1)[d as int]);
                        assert(marker@[d as int] == marker@.subrange(0, d + 1)[d as int]);
                        assert(line@.subrange(k as int, k + d) == marker@.subrange(0, d as int));
                    }
                }
            }
            same = same && here == want;
            d = d + 1;
        }
        proof {
            assert(marker@.subrange(0, m as int) =~= marker@);
        }
        if same {
            let suffix: &str = line.substring_char(k + m, n);
            proof {
                assert(first_occurrence_from(line@, marker@, k as int) == Some(k as int));
                assert(line@.subrange(k + m, n as int) =~= line@.skip(k + m));
            }
            return release_of(suffix);
        }
        k = k + 1;
    }
    proof {
        assert(first_occurrence_from(line@, marker@, k as int) is None);
    }
    None
}

} // verus!
