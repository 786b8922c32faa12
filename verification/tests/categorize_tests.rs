//! The dependency categorizer: grouping by target, deterministic
//! ordering, and completeness on concrete inputs.

use whatfeatures::deps::SortedDeps;
use whatfeatures::features::{DepEntry, Dependency, Features, Kind, KindMap};

fn dep(name: &str, target: Option<&str>) -> Dependency {
    Dependency {
        name: name.to_string(),
        req: "1.0".to_string(),
        target: target.map(|t| t.to_string()),
        rename: None,
        features: Vec::new(),
    }
}

fn sample_map() -> KindMap {
    let mut map = KindMap::new();
    map.normal.push(dep("zlib", None));
    map.normal.push(dep("alpha", None));
    map.normal.push(dep("win", Some("cfg(windows)")));
    map.normal.push(dep("unixy", Some("cfg(unix)")));
    map.normal.push(dep("win2", Some("cfg(windows)")));
    map.development.push(dep("testkit", None));
    map
}

#[test]
fn grouping_splits_targets_and_sorts_names() {
    let sorted = SortedDeps::from_kind_map(sample_map());
    // untargeted dependencies, sorted by name
    let without: Vec<&str> =
        sorted.normal.without_targets.iter().map(|d| d.name.as_str()).collect();
    assert_eq!(without, ["alpha", "zlib"]);
    // target keys in ascending order, each group sorted by name
    let keys: Vec<&str> = sorted.normal.with_targets.iter().map(|(k, _)| k.as_str()).collect();
    assert_eq!(keys, ["cfg(unix)", "cfg(windows)"]);
    let windows: Vec<&str> =
        sorted.normal.with_targets[1].1.iter().map(|d| d.name.as_str()).collect();
    assert_eq!(windows, ["win", "win2"]);
    assert!(sorted.normal.has_deps());
    assert!(sorted.development.has_deps());
    assert!(!sorted.build.has_deps());
}

#[test]
fn grouping_is_deterministic_for_equal_inputs() {
    let a = SortedDeps::from_kind_map(sample_map());
    let b = SortedDeps::from_kind_map(sample_map());
    let akeys: Vec<&str> = a.normal.with_targets.iter().map(|(k, _)| k.as_str()).collect();
    let bkeys: Vec<&str> = b.normal.with_targets.iter().map(|(k, _)| k.as_str()).collect();
    assert_eq!(akeys, bkeys);
    for (ga, gb) in a.normal.with_targets.iter().zip(b.normal.with_targets.iter()) {
        let na: Vec<&str> = ga.1.iter().map(|d| d.name.as_str()).collect();
        let nb: Vec<&str> = gb.1.iter().map(|d| d.name.as_str()).collect();
        assert_eq!(na, nb);
    }
    let wa: Vec<&str> = a.normal.without_targets.iter().map(|d| d.name.as_str()).collect();
    let wb: Vec<&str> = b.normal.without_targets.iter().map(|d| d.name.as_str()).collect();
    assert_eq!(wa, wb);
}

#[test]
fn every_dependency_lands_in_exactly_one_group() {
    let sorted = SortedDeps::from_kind_map(sample_map());
    let grouped: usize =
        sorted.normal.with_targets.iter().map(|(_, list)| list.len()).sum();
    let total = grouped + sorted.normal.without_targets.len();
    assert_eq!(total, 5);
    let mut names: Vec<&str> = sorted
        .normal
        .with_targets
        .iter()
        .flat_map(|(_, list)| list.iter().map(|d| d.name.as_str()))
        .chain(sorted.normal.without_targets.iter().map(|d| d.name.as_str()))
        .collect();
    names.sort();
    assert_eq!(names, ["alpha", "unixy", "win", "win2", "zlib"]);
}

#[test]
fn empty_target_strings_count_as_untargeted() {
    let mut map = KindMap::new();
    map.normal.push(dep("plain", None));
    map.normal.push(dep("emptied", Some("")));
    map.normal.push(dep("scoped", Some("cfg(unix)")));
    let sorted = SortedDeps::from_kind_map(map);
    let keys: Vec<&str> = sorted.normal.with_targets.iter().map(|(k, _)| k.as_str()).collect();
    assert_eq!(keys, ["cfg(unix)"]);
    let without: Vec<&str> =
        sorted.normal.without_targets.iter().map(|d| d.name.as_str()).collect();
    assert_eq!(without, ["emptied", "plain"]);
}

#[test]
fn from_parts_places_by_the_optional_flag_alone() {
    let entries = vec![
        DepEntry { kind: Kind::Normal, optional: false, dep: dep("serde", None) },
        DepEntry { kind: Kind::Normal, optional: true, dep: dep("regex", None) },
        DepEntry { kind: Kind::Build, optional: false, dep: dep("cc", None) },
        DepEntry { kind: Kind::Development, optional: true, dep: dep("quick", None) },
    ];
    let f = Features::from_parts(
        "demo".to_string(),
        "0.1.0".to_string(),
        true,
        Vec::new(),
        entries,
    );
    assert_eq!(f.required_deps.normal.len(), 1);
    assert_eq!(f.required_deps.normal[0].name, "serde");
    assert_eq!(f.optional_deps.normal.len(), 1);
    assert_eq!(f.optional_deps.normal[0].name, "regex");
    assert_eq!(f.required_deps.build.len(), 1);
    assert_eq!(f.optional_deps.development.len(), 1);
    assert_eq!(f.required_deps.development.len(), 0);
    assert_eq!(f.optional_deps.build.len(), 0);
}

#[test]
fn workspaces_with_one_member_are_not_workspaces() {
    let single = whatfeatures::Workspace {
        hint: "demo".to_string(),
        members: vec![(
            "demo 0.1.0 (path)".to_string(),
            Features::from_parts(
                "demo".to_string(),
                "0.1.0".to_string(),
                true,
                Vec::new(),
                Vec::new(),
            ),
        )],
    };
    assert!(!single.is_workspace());
    let kept = single.retain_member("demo");
    assert_eq!(kept.members.len(), 1);
    let other = kept.retain_member("other");
    assert_eq!(other.members.len(), 0);
}
