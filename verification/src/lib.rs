/*! whatfeatures

Resolves metadata for a package — name, version, features, dependencies —
from a local on-disk registry and cache or from a remote index
description, reconciles availability state, and renders the result as a
nested, human-readable report.
*/

pub mod args;
pub mod client;
pub mod crates;
pub mod deps;
pub mod error;
pub mod features;
pub mod json;
pub mod layout;
pub mod output;
pub mod registry;
pub mod render_text;
pub mod strutil;
pub mod text;
pub mod theme;
pub mod tree;
pub mod util;
pub mod version;
pub mod workspace;

pub use args::{Args, PkgId};
pub use client::{Client, Version};
pub use registry::{Crate, Registry, YankState};
pub use theme::{Color, Options, Style, Theme, YankStatus};
pub use features::Workspace;

use vstd::prelude::*;

verus! {

/// What cannot be answered without the network while the client is
/// offline.
#[derive(Copy, Clone, Debug, PartialEq, Eq, Structural)]
pub enum OfflineError {
    /// Versions cannot be listed.
    List,
    /// The latest version cannot be resolved, and no cached copy stands
    /// in.
    Latest,
    /// The package is in neither the local registry nor the cache.
    CacheMiss,
}

/// The message each offline failure prints.
pub open spec fn spec_offline_message(e: OfflineError) -> Seq<char> {
    match e {
        OfflineError::List => "must be able to connect to https://crates.io to list versions"@,
        OfflineError::Latest => "cannot find that crate cached, you must be able to connect to https://crates.io to get the latest version"@,
        OfflineError::CacheMiss => "crate not found in local registry or cache. must be able to connect to https://crates.io to fetch it"@,
    }
}

/// Relies on `anyhow::Error::msg`: it wraps the given message, unchanged,
/// as an opaque error value.
#[verifier::external_body]
fn msg_error(msg: String) -> anyhow::Error {
    anyhow::Error::msg(msg)
}

#[verifier::external_type_specification]
#[verifier::external_body]
pub struct ExAnyhowError(anyhow::Error);

impl OfflineError {
    /// The message this failure prints.
    pub fn message(&self) -> (r: String)
        ensures
            r@ == spec_offline_message(*self),
    {
        let mut out = String::new();
        match self {
            OfflineError::List => {
                out.append("must be able to connect to https://crates.io to list versions");
            },
            OfflineError::Latest => {
                out.append(
                    "cannot find that crate cached, you must be able to connect to https://crates.io to get the latest version",
                );
            },
            OfflineError::CacheMiss => {
                out.append(
                    "crate not found in local registry or cache. must be able to connect to https://crates.io to fetch it",
                );
            },
        }
        proof {
            assert(out@ =~= spec_offline_message(*self));
        }
        out
    }

    /// This failure as an opaque error value, carrying `message`.
    pub fn to_error(&self) -> anyhow::Error {
        msg_error(self.message())
    }
}

/// What a lookup resolved to.
pub enum Lookup {
    /// An exact remote version: the package contents still have to be
    /// fetched and cached before features can be read.
    Partial(Version),
    /// A fully parsed workspace, with the tag saying whether it came from
    /// a copy already on the local disk rather than from the identifier's
    /// own path.
    Resolved {
        /// The parsed packages.
        workspace: Workspace,
        /// Whether a local cached copy answered the request.
        from_local_cache: bool,
    },
}

/// The action a lookup decides on, before any outside work is done.
pub enum LookupPlan {
    /// Resolved already: an exact version was requested, so a descriptor
    /// is synthesized directly from the identifier and no network call is
    /// made at all.
    Partial(Version),
    /// Ask the remote index for the latest version of the named package
    /// that is not withdrawn.
    QueryLatest {
        /// The package name to query for.
        name: String,
    },
    /// Offline: fall back to the best record the local registry holds for
    /// the named package.
    OfflineLatest {
        /// The package name to look for locally.
        name: String,
    },
    /// Parse the local path into a workspace, restricted to the single
    /// named package when `restrict` is set.
    ParseLocal {
        /// The directory or manifest path to parse.
        path: String,
        /// Whether to restrict to the one named package, without
        /// traversing the workspace.
        restrict: bool,
    },
}

/// The prescribed decision order: an exact remote version is synthesized
/// with no network call; otherwise a present client is asked for the
/// latest version; otherwise the local registry is the fallback; a local
/// path is parsed directly.
pub open spec fn plan_for(pkg_id: PkgId, offline: bool, is_local: bool, r: LookupPlan) -> bool {
    match pkg_id {
        PkgId::Remote { name, semver } => match semver {
            Some(v) => {
                &&& r matches LookupPlan::Partial(p)
                &&& p.name@ == name@
                &&& p.version@ == v@
                &&& p.yanked == false
                &&& p.license is None
                &&& p.created_at@ == Seq::<char>::empty()
            },
            None => if offline {
                r matches LookupPlan::OfflineLatest { name: n } && n@ == name@
            } else {
                r matches LookupPlan::QueryLatest { name: n } && n@ == name@
            },
        },
        PkgId::Local(path) => {
            &&& r matches LookupPlan::ParseLocal { path: p, restrict }
            &&& p@ == path@
            &&& restrict == is_local
        },
    }
}

/// Decides how to find the identified package: an exact remote version is
/// answered at once, without any network call; a latest-version request
/// goes to the client when one is present and falls back to the local
/// registry when none is; a local path is parsed. The outside work the
/// plan calls for is the caller's.
pub fn lookup(pkg_id: &PkgId, client: &Option<Client>, is_local: bool) -> (r: LookupPlan)
    ensures
        plan_for(*pkg_id, client is None, is_local, r),
{
    match pkg_id {
        PkgId::Remote { name, semver } => match semver {
            Some(v) => LookupPlan::Partial(
                Version {
                    name: name.clone(),
                    version: v.clone(),
                    yanked: false,
                    license: None,
                    created_at: String::new(),
                },
            ),
            None => match client {
                Some(_) => LookupPlan::QueryLatest { name: name.clone() },
                None => LookupPlan::OfflineLatest { name: name.clone() },
            },
        },
        PkgId::Local(path) => LookupPlan::ParseLocal { path: path.clone(), restrict: is_local },
    }
}

/// The best record the local registry offers while offline: the one with
/// the greatest version string among the records of the name, or the
/// offline failure when the registry holds none.
pub fn offline_candidate(registry: &Registry, crate_name: &str) -> (r: Result<Crate, OfflineError>)
    ensures
        match r {
            Ok(c) => {
                &&& exists|j: int|
                    0 <= j < registry.spec_all().len() && c == #[trigger] registry.spec_all()[j]
                &&& c.name@ == crate_name@
                &&& forall|j: int|
                    0 <= j < registry.spec_all().len()
                        && #[trigger] registry.spec_all()[j].name@ == crate_name@
                        ==> crate::strutil::lex_le(registry.spec_all()[j].version@, c.version@)
            },
            Err(e) => {
                &&& e is Latest
                &&& forall|j: int|
                    0 <= j < registry.spec_all().len()
                        ==> #[trigger] registry.spec_all()[j].name@ != crate_name@
            },
        },
{
    match registry.maybe_latest(crate_name) {
        Some(c) => Ok(
            Crate {
                name: c.name.clone(),
                version: c.version.clone(),
                path: c.path.clone(),
                yanked: c.yanked,
            },
        ),
        None => Err(OfflineError::Latest),
    }
}

/// The message printed when no matching package can be found.
pub open spec fn spec_cannot_find_message(pkg_id: PkgId) -> Seq<char> {
    "cannot find a crate matching '"@ + PkgId::spec_render(pkg_id) + "'. maybe it was yanked?"@
}

/// Builds the not-found message for the identifier.
pub fn cannot_find_message(pkg_id: &PkgId) -> (r: String)
    ensures
        r@ == spec_cannot_find_message(*pkg_id),
{
    let mut out = String::new();
    out.append("cannot find a crate matching '");
    let rendered = pkg_id.render();
    out.append(rendered.as_str());
    out.append("'. maybe it was yanked?");
    proof {
        assert(out@ =~= spec_cannot_find_message(*pkg_id));
    }
    out
}

/// The not-found failure as an opaque error value, carrying
/// `cannot_find_message`.
pub fn cannot_find(pkg_id: &PkgId) -> anyhow::Error {
    msg_error(cannot_find_message(pkg_id))
}

} // verus!
