//! The version listing: one line per shown version, the publish
//! timestamps aligned into a comment column. The timestamp display
//! strings are the caller's, as only the time collaborator can compute
//! them.

use vstd::prelude::*;
use vstd::string::StringExecFns;
use vstd::string::StringSliceAdditionalSpecFns;
use crate::client::Version;
use crate::layout::byte_len;
use crate::strutil::{spec_spaces, spaces, spec_decimal, decimal};
use crate::theme::YankStatus;

verus! {

/// One listed version, split into the aligned left part and the comment
/// on the right.
pub struct VersionOutput {
    /// The byte length the alignment counts for the left part.
    pub left_len: usize,
    /// The name and version.
    pub left: String,
    /// The timestamp comment, with the withdrawal marker where owed.
    pub right: String,
}

/// Whether the withdrawal filter shows a version.
pub open spec fn spec_version_shown(yank: YankStatus, yanked: bool) -> bool {
    match yank {
        YankStatus::Exclude => !yanked,
        YankStatus::Only => yanked,
        YankStatus::Include => true,
    }
}

/// The left part of a version's line.
pub open spec fn spec_version_left(v: Version) -> Seq<char> {
    v.name@ + " = \""@ + v.version@ + "\""@
}

/// The length the alignment counts for a version: the name and version
/// and three characters of separation, capped at the machine's largest
/// length.
pub open spec fn spec_version_left_len(v: Version) -> int {
    let s = byte_len(v.name@) + byte_len(v.version@) + 3;
    if s > usize::MAX {
        usize::MAX as int
    } else {
        s
    }
}

/// The right part of a version's line: the timestamp, marked when the
/// version was withdrawn.
pub open spec fn spec_version_right(v: Version, time: Seq<char>) -> Seq<char> {
    if v.yanked {
        time + " -- yanked"@
    } else {
        time
    }
}

/// The widest counted left part among the shown versions of the first
/// `n`, zero when none is shown.
pub open spec fn spec_left_max(vs: Seq<Version>, yank: YankStatus, n: int) -> int
    decreases n,
{
    if n <= 0 {
        0
    } else {
        let prev = spec_left_max(vs, yank, n - 1);
        if spec_version_shown(yank, vs[n - 1].yanked) && spec_version_left_len(vs[n - 1]) > prev {
            spec_version_left_len(vs[n - 1])
        } else {
            prev
        }
    }
}

/// The listing of the first `n` versions: each shown version's left part
/// padded to the widest, then " # " and the right part.
pub open spec fn spec_version_lines(
    vs: Seq<Version>,
    times: Seq<String>,
    yank: YankStatus,
    n: int,
    left_max: int,
) -> Seq<char>
    decreases n,
{
    if n <= 0 {
        Seq::empty()
    } else {
        spec_version_lines(vs, times, yank, n - 1, left_max) + (if spec_version_shown(
            yank,
            vs[n - 1].yanked,
        ) {
            spec_version_left(vs[n - 1]) + spec_spaces(left_max - spec_version_left_len(vs[n - 1]))
                + " # "@ + spec_version_right(vs[n - 1], times[n - 1]@) + "\n"@
        } else {
            Seq::empty()
        })
    }
}

/// Writes the version listing, filtered by the withdrawal filter, the
/// comments aligned past the widest shown name-and-version pair. The
/// caller supplies one timestamp display string per version.
pub fn write_versions(versions: &Vec<Version>, times: &Vec<String>, yank: YankStatus) -> (r:
    String)
    requires
        versions@.len() == times@.len(),
    ensures
        r@ == spec_version_lines(
            versions@,
            times@,
            yank,
            versions@.len() as int,
            spec_left_max(versions@, yank, versions@.len() as int),
        ),
{
    let mut left_max: usize = 0;
    let mut i: usize = 0;
    while i < versions.len()
        invariant
            0 <= i <= versions@.len(),
            left_max == spec_left_max(versions@, yank, i as int),
        decreases versions@.len() - i,
    {
        let v = &versions[i];
        let shown = match (yank, v.yanked) {
            (YankStatus::Exclude, true) => false,
            (YankStatus::Only, false) => false,
            _ => true,
        };
        if shown {
            let name_str = v.name.as_str();
            let version_str = v.version.as_str();
            let name_len = name_str.as_bytes().len();
            let version_len = version_str.as_bytes().len();
            proof {
                assert(name_str.spec_bytes() == vstd::utf8::encode_utf8(name_str@));
                assert(version_str.spec_bytes() == vstd::utf8::encode_utf8(version_str@));
            }
            let len = name_len.saturating_add(version_len).saturating_add(3);
            proof {
                assert(len as int == spec_version_left_len(versions@[i as int]));
            }
            if len > left_max {
                left_max = len;
            }
        }
        i = i + 1;
    }
    let mut out = String::new();
    let mut k: usize = 0;
    while k < versions.len()
        invariant
            versions@.len() == times@.len(),
            0 <= k <= versions@.len(),
            left_max == spec_left_max(versions@, yank, versions@.len() as int),
            out@ == spec_version_lines(versions@, times@, yank, k as int, left_max as int),
        decreases versions@.len() - k,
    {
        let v = &versions[k];
        let shown = match (yank, v.yanked) {
            (YankStatus::Exclude, true) => false,
            (YankStatus::Only, false) => false,
            _ => true,
        };
        if shown {
            let output = version_output(v, times[k].as_str());
            out.append(output.left.as_str());
            let fill = spaces(left_max.saturating_sub(output.left_len));
            out.append(fill.as_str());
            out.append(" # ");
            out.append(output.right.as_str());
            out.append("\n");
            proof {
                lemma_left_max_bounds(versions@, yank, versions@.len() as int, k as int);
            }
        }
        k = k + 1;
    }
    out
}

/// Splits one version into its aligned line parts.
pub fn version_output(v: &Version, time: &str) -> (r: VersionOutput)
    ensures
        r.left@ == spec_version_left(*v),
        r.left_len as int == spec_version_left_len(*v),
        r.right@ == spec_version_right(*v, time@),
{
    let mut left = String::new();
    left.append(v.name.as_str());
    left.append(" = \"");
    left.append(v.version.as_str());
    left.append("\"");
    let name_str = v.name.as_str();
    let version_str = v.version.as_str();
    let name_len = name_str.as_bytes().len();
    let version_len = version_str.as_bytes().len();
    proof {
        assert(name_str.spec_bytes() == vstd::utf8::encode_utf8(name_str@));
        assert(version_str.spec_bytes() == vstd::utf8::encode_utf8(version_str@));
        assert(left@ =~= spec_version_left(*v));
    }
    let left_len = name_len.saturating_add(version_len).saturating_add(3);
    let mut right = String::new();
    right.append(time);
    if v.yanked {
        right.append(" -- yanked");
    }
    proof {
        assert(right@ =~= spec_version_right(*v, time@));
    }
    VersionOutput { left_len, left, right }
}

/// The widest counted length bounds every shown version's own.
proof fn lemma_left_max_bounds(vs: Seq<Version>, yank: YankStatus, n: int, k: int)
    requires
        0 <= k < n,
        spec_version_shown(yank, vs[k].yanked),
    ensures
        spec_left_max(vs, yank, n) >= spec_version_left_len(vs[k]),
    decreases n,
{
    if k < n - 1 {
        lemma_left_max_bounds(vs, yank, n - 1, k);
    }
}

/// One unit's phrase: "1 {unit} ago" for a single unit, else
/// "{n} {unit}s ago".
pub open spec fn spec_unit_phrase(n: int, unit: Seq<char>) -> Seq<char> {
    if n == 1 {
        "1 "@ + unit + " ago"@
    } else {
        spec_decimal(n) + " "@ + unit + "s ago"@
    }
}

/// The approximate age of a publish timestamp `seconds` ago: the first
/// nonzero unit among weeks, days, hours, minutes and seconds; below one
/// second, "just now".
pub open spec fn spec_approx_time_span(seconds: int) -> Seq<char> {
    if seconds / 604800 != 0 {
        spec_unit_phrase(seconds / 604800, "week"@)
    } else if seconds / 86400 != 0 {
        spec_unit_phrase(seconds / 86400, "day"@)
    } else if seconds / 3600 != 0 {
        spec_unit_phrase(seconds / 3600, "hour"@)
    } else if seconds / 60 != 0 {
        spec_unit_phrase(seconds / 60, "minute"@)
    } else if seconds != 0 {
        spec_unit_phrase(seconds, "second"@)
    } else {
        "just now"@
    }
}

fn unit_phrase(n: u64, unit: &str) -> (r: String)
    requires
        n >= 1,
    ensures
        r@ == spec_unit_phrase(n as int, unit@),
{
    let mut out = String::new();
    if n == 1 {
        out.append("1 ");
        out.append(unit);
        out.append(" ago");
    } else {
        let digits = decimal(n);
        out.append(digits.as_str());
        out.append(" ");
        out.append(unit);
        out.append("s ago");
    }
    proof {
        assert(out@ =~= spec_unit_phrase(n as int, unit@));
    }
    out
}

/// Formats how long ago a timestamp lies, to its coarsest nonzero unit.
/// The elapsed seconds are the caller's: only the time collaborator can
/// read the clock.
pub fn format_approx_time_span(seconds: u64) -> (r: String)
    ensures
        r@ == spec_approx_time_span(seconds as int),
{
    let weeks = seconds / 604800;
    if weeks != 0 {
        return unit_phrase(weeks, "week");
    }
    let days = seconds / 86400;
    if days != 0 {
        return unit_phrase(days, "day");
    }
    let hours = seconds / 3600;
    if hours != 0 {
        return unit_phrase(hours, "hour");
    }
    let minutes = seconds / 60;
    if minutes != 0 {
        return unit_phrase(minutes, "minute");
    }
    if seconds != 0 {
        return unit_phrase(seconds, "second");
    }
    let mut out = String::new();
    out.append("just now");
    proof {
        assert(out@ =~= "just now"@);
    }
    out
}

} // verus!
