//! The registry: reconciliation, lookup, latest-version selection, cache
//! entry parsing, and the resolver's offline decisions.

use whatfeatures::registry::{Crate, Registry, YankState, parse_cache_entry};
use whatfeatures::util::chunk_name;
use whatfeatures::{Client, Lookup, LookupPlan, OfflineError, PkgId, lookup, offline_candidate};

fn record(name: &str, version: &str, path: &str) -> Crate {
    Crate {
        name: name.to_string(),
        version: version.to_string(),
        path: path.to_string(),
        yanked: YankState::UnknownLocal,
    }
}

#[test]
fn dedup_removes_private_copy() {
    let canonical = vec![record("foo", "1.0.0", "/registry/foo-1.0.0")];
    let private = vec![
        record("foo", "1.0.0", "/cache/foo-1.0.0"),
        record("bar", "0.2.0", "/cache/bar-0.2.0"),
    ];
    let (registry, redundant) = Registry::from_records(canonical, private);
    // the duplicated identity is scheduled for deletion, under its
    // private-cache path
    assert_eq!(redundant.len(), 1);
    assert_eq!(redundant[0].name, "foo");
    assert_eq!(redundant[0].path, "/cache/foo-1.0.0");
    // exactly one record of the identity is retrievable, the canonical one
    let found = registry.get("foo", "1.0.0").expect("foo should be known");
    assert_eq!(found.path, "/registry/foo-1.0.0");
    // the record only the private cache held stays
    let bar = registry.get("bar", "0.2.0").expect("bar should be known");
    assert_eq!(bar.path, "/cache/bar-0.2.0");
    assert!(registry.get("baz", "1.0.0").is_none());
}

#[test]
fn duplicate_canonical_records_collapse() {
    let canonical = vec![
        record("foo", "1.0.0", "/a/foo-1.0.0"),
        record("foo", "1.0.0", "/b/foo-1.0.0"),
    ];
    let (registry, redundant) = Registry::from_records(canonical, Vec::new());
    assert!(redundant.is_empty());
    let found = registry.get("foo", "1.0.0").expect("foo should be known");
    assert_eq!(found.path, "/a/foo-1.0.0");
}

#[test]
fn maybe_latest_compares_lexically() {
    let canonical = vec![
        record("foo", "1.2.0", "/r/foo-1.2.0"),
        record("foo", "1.10.0", "/r/foo-1.10.0"),
        record("bar", "0.1.0", "/r/bar-0.1.0"),
    ];
    let (registry, _) = Registry::from_records(canonical, Vec::new());
    // plain character comparison: "1.2.0" sorts above "1.10.0"
    let latest = registry.maybe_latest("foo").expect("foo should be known");
    assert_eq!(latest.version, "1.2.0");
    assert!(registry.maybe_latest("missing").is_none());
}

#[test]
fn purge_drains_only_the_private_cache() {
    let canonical = vec![record("foo", "1.0.0", "/r/foo-1.0.0")];
    let private = vec![record("bar", "0.2.0", "/c/bar-0.2.0")];
    let (mut registry, _) = Registry::from_records(canonical, private);
    let drained = registry.purge_local_cache();
    assert_eq!(drained.len(), 1);
    assert_eq!(drained[0].name, "bar");
    assert!(registry.get("bar", "0.2.0").is_none());
    assert!(registry.get("foo", "1.0.0").is_some());
}

#[test]
fn cache_entries_parse_under_the_chunking_scheme() {
    assert_eq!(
        parse_cache_entry("serde-1.0.0"),
        Some(("serde".to_string(), "1.0.0".to_string()))
    );
    assert_eq!(
        parse_cache_entry("zstd-sys-1.4.15+zstd.1.4.4"),
        Some(("zstd-sys".to_string(), "1.4.15+zstd.1.4.4".to_string()))
    );
    assert_eq!(
        parse_cache_entry("winapi-i686-pc-windows-gnu-0.4.0"),
        Some(("winapi-i686-pc-windows-gnu".to_string(), "0.4.0".to_string()))
    );
    // no hyphen-digit split that leaves a name: malformed, skipped
    assert_eq!(parse_cache_entry("abc"), None);
    assert_eq!(parse_cache_entry(""), None);
    assert_eq!(parse_cache_entry("caf\u{e9}-1.0.0"), None);
}

#[test]
fn chunk_name_follows_the_index_scheme() {
    assert_eq!(chunk_name("a"), "1/a");
    assert_eq!(chunk_name("ab"), "2/ab");
    assert_eq!(chunk_name("abc"), "3/a/abc");
    assert_eq!(chunk_name("serde"), "se/rd/serde");
}

#[test]
fn exact_version_is_synthesized_without_any_network_call() {
    let id = PkgId::Remote {
        name: "foo".to_string(),
        semver: Some("1.2.0".to_string()),
    };
    let client = Some(Client::new("https://crates.io".to_string()));
    match lookup(&id, &client, false) {
        LookupPlan::Partial(v) => {
            assert_eq!(v.name, "foo");
            assert_eq!(v.version, "1.2.0");
            assert!(!v.yanked);
            assert!(v.license.is_none());
            assert_eq!(v.created_at, "");
        }
        _ => panic!("an exact version must resolve at once"),
    }
}

#[test]
fn latest_version_requests_go_to_the_client_when_one_exists() {
    let id = PkgId::Remote { name: "foo".to_string(), semver: None };
    let client = Some(Client::new("https://crates.io".to_string()));
    match lookup(&id, &client, false) {
        LookupPlan::QueryLatest { name } => assert_eq!(name, "foo"),
        _ => panic!("a missing version must query the client"),
    }
}

#[test]
fn offline_lookup_falls_back_to_the_registry() {
    let id = PkgId::Remote { name: "foo".to_string(), semver: None };
    match lookup(&id, &None, false) {
        LookupPlan::OfflineLatest { name } => assert_eq!(name, "foo"),
        _ => panic!("offline must fall back to the registry"),
    }
    let canonical = vec![record("foo", "1.0.0", "/r/foo-1.0.0")];
    let (registry, _) = Registry::from_records(canonical, Vec::new());
    let c = offline_candidate(&registry, "foo").expect("a cached record satisfies offline");
    assert_eq!(c.version, "1.0.0");
    let _resolved = Lookup::Resolved {
        workspace: whatfeatures::Workspace { hint: "foo".to_string(), members: Vec::new() },
        from_local_cache: true,
    };
    match offline_candidate(&registry, "bar") {
        Err(e) => assert_eq!(e, OfflineError::Latest),
        Ok(_) => panic!("an unknown name cannot be served offline"),
    }
}

#[test]
fn local_paths_are_parsed_with_the_restriction_flag() {
    let id = PkgId::Local("/tmp/project".to_string());
    match lookup(&id, &None, true) {
        LookupPlan::ParseLocal { path, restrict } => {
            assert_eq!(path, "/tmp/project");
            assert!(restrict);
        }
        _ => panic!("a local path must be parsed"),
    }
    assert!(id.is_local());
    assert_eq!(id.name(), "/tmp/project");
}

#[test]
fn offline_messages_name_the_corrective_action() {
    assert_eq!(
        OfflineError::List.message(),
        "must be able to connect to https://crates.io to list versions"
    );
    assert!(OfflineError::Latest.message().contains("cached"));
    assert!(OfflineError::CacheMiss.message().contains("not found in local registry"));
    let _ = OfflineError::CacheMiss.to_error();
}
