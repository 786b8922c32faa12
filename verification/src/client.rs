//! The model of the remote index: the version descriptors a remote query
//! answers with, and the pure selection rules applied to them. The HTTP
//! transport itself is an external collaborator.

use vstd::prelude::*;
use vstd::string::StringExecFns;
use crate::error::UserError;
use crate::strutil::str_eq;

verus! {

/// A version descriptor a remote query answers with. Produced only by a
/// remote query; never cached on disk.
#[derive(Clone)]
pub struct Version {
    /// The package name.
    pub name: String,
    /// The version string.
    pub version: String,
    /// Whether this version was withdrawn on the index.
    pub yanked: bool,
    /// The primary license, where the index reports one.
    pub license: Option<String>,
    /// The publish timestamp, as the index reports it.
    pub created_at: String,
}

/// The remote index configuration: the host every query goes to.
pub struct Client {
    host: String,
}

impl Client {
    /// The configured host.
    pub closed spec fn spec_host(&self) -> Seq<char> {
        self.host@
    }

    /// A client for the index at `host`.
    pub fn new(host: String) -> (r: Client)
        ensures
            r.spec_host() == host@,
    {
        Client { host }
    }

    /// The configured host, for the transport to build request paths on.
    pub fn host(&self) -> (r: &str)
        ensures
            r@ == self.spec_host(),
    {
        self.host.as_str()
    }
}

/// The first descriptor in index order that is not withdrawn.
pub open spec fn spec_first_available(s: Seq<Version>) -> Option<Version>
    decreases s.len(),
{
    if s.len() == 0 {
        Option::None
    } else if !s[0].yanked {
        Option::Some(s[0])
    } else {
        spec_first_available(s.drop_first())
    }
}

/// The first descriptor of exactly the given version string.
pub open spec fn spec_find_version(s: Seq<Version>, semver: Seq<char>) -> Option<Version>
    decreases s.len(),
{
    if s.len() == 0 {
        Option::None
    } else if s[0].version@ == semver {
        Option::Some(s[0])
    } else {
        spec_find_version(s.drop_first(), semver)
    }
}

/// Picks the latest available version from a remote listing: the first
/// descriptor that is not withdrawn. Nothing is picked exactly when every
/// listed version is withdrawn.
pub fn latest_available(versions: Vec<Version>) -> (r: Option<Version>)
    ensures
        r == spec_first_available(versions@),
{
    let ghost all = versions@;
    let mut rest = versions;
    let ghost mut i: int = 0;
    proof {
        assert(all.skip(0) =~= all);
    }
    while rest.len() > 0
        invariant
            all == versions@,
            0 <= i <= all.len(),
            rest@ == all.skip(i),
            spec_first_available(all) == spec_first_available(all.skip(i)),
        decreases rest@.len(),
    {
        let v = rest.remove(0);
        proof {
            assert(all.skip(i)[0] == v);
            assert(all.skip(i).drop_first() =~= all.skip(i + 1));
        }
        if !v.yanked {
            return Some(v);
        }
        proof {
            i = i + 1;
        }
    }
    None
}

/// Picks the descriptor of exactly the requested version string from a
/// remote listing; nothing is picked exactly when no listed version
/// matches.
pub fn find_version(versions: Vec<Version>, semver: &str) -> (r: Option<Version>)
    ensures
        r == spec_find_version(versions@, semver@),
{
    let ghost all = versions@;
    let mut rest = versions;
    let ghost mut i: int = 0;
    proof {
        assert(all.skip(0) =~= all);
    }
    while rest.len() > 0
        invariant
            all == versions@,
            0 <= i <= all.len(),
            rest@ == all.skip(i),
            spec_find_version(all, semver@) == spec_find_version(all.skip(i), semver@),
        decreases rest@.len(),
    {
        let v = rest.remove(0);
        proof {
            assert(all.skip(i)[0] == v);
            assert(all.skip(i).drop_first() =~= all.skip(i + 1));
        }
        if str_eq(v.version.as_str(), semver) {
            return Some(v);
        }
        proof {
            i = i + 1;
        }
    }
    None
}

/// The cannot-reach-the-index failure, carrying the package name, the
/// version where one was asked for, and the transport's own words.
pub fn lookup_failure(name: &str, pinned: Option<&String>, error: String) -> (r: UserError)
    ensures
        r matches UserError::CannotLookup { name: n, version: v, error: e } && n@ == name@ && e@
            == error@ && (match (pinned, v) {
            (Some(p), Some(vv)) => vv@ == p@,
            (None, None) => true,
            _ => false,
        }),
{
    UserError::CannotLookup {
        name: String::from_str(name),
        version: match pinned {
            Some(p) => Some(p.clone()),
            None => None,
        },
        error,
    }
}

/// Decides which version the report is about, with the owed failure kept
/// distinct: a transport failure surfaces as cannot-lookup with its own
/// words; a pinned version must be listed exactly, else the request was
/// for an invalid version; without a pin the first version not withdrawn
/// is taken, and a listing without one has no versions published.
pub fn select_version(name: &str, pinned: Option<&String>, outcome: Result<Vec<Version>, String>)
    -> (r: Result<Version, UserError>)
    ensures
        match outcome {
            Result::Err(msg) => r matches Err(e) && e matches UserError::CannotLookup {
                name: n,
                version: v,
                error: err,
            } && n@ == name@ && err@ == msg@ && (match (pinned, v) {
                (Some(p), Some(vv)) => vv@ == p@,
                (None, None) => true,
                _ => false,
            }),
            Result::Ok(versions) => match pinned {
                Some(p) => match spec_find_version(versions@, p@) {
                    Some(found) => r matches Ok(x) && x == found,
                    None => r matches Err(e) && e matches UserError::InvalidVersion {
                        name: n,
                        version: ver,
                    } && n@ == name@ && ver@ == p@,
                },
                None => match spec_first_available(versions@) {
                    Some(found) => r matches Ok(x) && x == found,
                    None => r matches Err(e) && e matches UserError::NoVersions { name: n } && n@
                        == name@,
                },
            },
        },
{
    let versions = match outcome {
        Ok(versions) => versions,
        Err(msg) => {
            return Err(lookup_failure(name, pinned, msg));
        },
    };
    match pinned {
        Some(p) => match find_version(versions, p.as_str()) {
            Some(found) => Ok(found),
            None => Err(
                UserError::InvalidVersion { name: String::from_str(name), version: p.clone() },
            ),
        },
        None => match latest_available(versions) {
            Some(found) => Ok(found),
            None => Err(UserError::NoVersions { name: String::from_str(name) }),
        },
    }
}

/// A usable listing, or the owed failure: a transport failure surfaces
/// as cannot-lookup with its own words, and an empty listing has no
/// versions published.
pub fn require_versions(name: &str, outcome: Result<Vec<Version>, String>) -> (r: Result<
    Vec<Version>,
    UserError,
>)
    ensures
        match outcome {
            Result::Err(msg) => r matches Err(e) && e matches UserError::CannotLookup {
                name: n,
                version: v,
                error: err,
            } && n@ == name@ && err@ == msg@ && v is None,
            Result::Ok(versions) => if versions@.len() == 0 {
                r matches Err(e) && e matches UserError::NoVersions { name: n } && n@ == name@
            } else {
                r matches Ok(vs) && vs == versions
            },
        },
{
    match outcome {
        Ok(versions) => {
            if versions.len() == 0 {
                Err(UserError::NoVersions { name: String::from_str(name) })
            } else {
                Ok(versions)
            }
        },
        Err(msg) => Err(lookup_failure(name, None, msg)),
    }
}

} // verus!
