//! The renderers: tree printing, word wrapping, column widths, version
//! listings and the report models.

use whatfeatures::crates::{Dependency, DependencyKind, Version};
use whatfeatures::layout::{BoundingBox, columns, width};
use whatfeatures::output::{
    CompositeModel, DependencyModel, FeaturesModel, Output, SimpleListModel, SimpleModel,
    render_as_text,
};
use whatfeatures::text::{print_deps, print_features};
use whatfeatures::theme::{Color, Style, Theme};
use whatfeatures::theme::YankStatus;
use whatfeatures::tree::{Node, print};
use whatfeatures::version::write_versions;

#[test]
fn tree_rendering_uses_the_box_drawing_idiom() {
    let c = Node::empty("c".to_string());
    let b = Node::new("b".to_string(), vec![c]);
    let a = Node::empty("a".to_string());
    let root = Node::new("root".to_string(), vec![a, b]);
    let rendered = print(&root, &Theme::basic(), &Style::default());
    assert_eq!(rendered, "root\n\u{251c}\u{2500} a\n\u{2514}\u{2500} b\n  \u{2514}\u{2500} c\n");
}

#[test]
fn tree_prefix_painting_wraps_with_escape_codes() {
    let mut theme = Theme::basic();
    theme.tree = Color::Rgb(1, 2, 3);
    let leaf = Node::empty("x".to_string());
    let root = Node::new("r".to_string(), vec![leaf]);
    let rendered = print(&root, &theme, &Style::default());
    assert_eq!(
        rendered,
        "\u{1b}[38;2;1;2;3m\u{1b}[0mr\n\u{1b}[38;2;1;2;3m\u{2514}\u{2500} \u{1b}[0mx\n"
    );
}

#[test]
fn wrapping_preserves_every_item() {
    let items: Vec<String> =
        ["alpha", "beta", "gamma", "delta"].iter().map(|s| s.to_string()).collect();
    let (count, lines) = BoundingBox::new(items.clone()).display(10);
    assert_eq!(count, 4);
    let flattened: Vec<String> = lines.into_iter().flatten().collect();
    assert_eq!(flattened, items);
}

#[test]
fn wrapping_packs_greedily_by_byte_budget() {
    let items: Vec<String> = ["aaaa", "bbbb", "cc"].iter().map(|s| s.to_string()).collect();
    let (count, lines) = BoundingBox::new(items).display(8);
    assert_eq!(count, 3);
    assert_eq!(lines.len(), 2);
    assert_eq!(lines[0], ["aaaa", "bbbb"]);
    assert_eq!(lines[1], ["cc"]);
    // an item longer than the width stands alone
    let long: Vec<String> = vec!["enormously-long".to_string(), "b".to_string()];
    let (_, lines) = BoundingBox::new(long).display(4);
    assert_eq!(lines.len(), 2);
}

#[test]
fn column_widths_take_the_maximum_per_slot() {
    let rows: Vec<Vec<String>> = vec![
        vec!["ab".to_string(), "".to_string(), "x".to_string()],
        vec!["a".to_string(), "opt".to_string(), "xyz".to_string()],
    ];
    assert_eq!(columns(3, &rows), vec![2, 3, 3]);
    // a short row only reaches its own columns
    let rows2: Vec<Vec<String>> = vec![vec!["abcd".to_string()]];
    assert_eq!(columns(3, &rows2), vec![4, 0, 0]);
    assert_eq!(width(2, "abc"), 3);
    assert_eq!(width(5, "abc"), 5);
}

fn index_dep(name: &str, req: &str, kind: DependencyKind, optional: bool) -> Dependency {
    Dependency {
        id: 0,
        version_id: 0,
        crate_id: name.to_string(),
        req: req.to_string(),
        optional,
        default_features: false,
        features: Vec::new(),
        target: None,
        kind,
    }
}

#[test]
fn dependency_report_aligns_columns_across_kinds() {
    let deps = vec![
        index_dep("zlib", "1.0", DependencyKind::Normal, false),
        index_dep("ab", "0.2.0", DependencyKind::Normal, false),
        index_dep("buildme", "2", DependencyKind::Build, false),
    ];
    let rendered = print_deps("demo", "0.1.0", true, deps);
    let expected = "demo/0.1.0\n  normal\n    ab      = 0.2.0\n    zlib    = 1.0\n  build\n    buildme = 2\n";
    assert_eq!(rendered, expected);
}

#[test]
fn empty_dependency_reports_say_so() {
    let rendered = print_deps("demo", "0.1.0", false, Vec::new());
    assert_eq!(rendered, "no dependencies\n");
}

fn version(name: &str, num: &str, yanked: bool, features: Vec<(&str, Vec<&str>)>) -> Version {
    Version {
        id: 1,
        crate_: name.to_string(),
        num: num.to_string(),
        features: features
            .into_iter()
            .map(|(k, v)| (k.to_string(), v.into_iter().map(|s| s.to_string()).collect()))
            .collect(),
        yanked,
    }
}

#[test]
fn version_listing_respects_the_withdrawal_filter() {
    let versions = vec![
        version("foo", "0.3.0", true, Vec::new()),
        version("foo", "0.2.0", false, Vec::new()),
        version("foo", "0.1.0", false, Vec::new()),
    ];
    // the short listing shows everything when withdrawn versions are asked for
    let all = print_features(&versions, true, true, true);
    assert_eq!(all, "yanked: foo/0.3.0\nfoo/0.2.0\nfoo/0.1.0\n");
    // without the filter the withdrawn head is skipped, and without the
    // listing flag only the first shown version appears
    // the short form without the filter still names the head version,
    // unmarked, and stops there
    let first = print_features(&versions, false, false, true);
    assert_eq!(first, "foo/0.3.0\n");
}

#[test]
fn version_text_sorts_features_and_marks_the_default() {
    let v = version(
        "foo",
        "0.2.0",
        false,
        vec![("serde", vec![]), ("default", vec!["std"]), ("std", vec![])],
    );
    let out = print_features(&vec![v], false, false, false);
    assert_eq!(out, "foo/0.2.0\n    default: std\n    serde\n    std\n");
}

#[test]
fn models_render_header_features_and_dependencies() {
    let v = version("demo", "1.0.0", false, vec![("default", vec![])]);
    let simple = SimpleModel::from_version(&v);
    assert_eq!(render_as_text(simple), "demo/1.0.0\n");

    let listed = SimpleListModel::new(vec![
        SimpleModel::from_version(&v),
        SimpleModel::from_version(&v),
    ]);
    assert_eq!(render_as_text(listed), "demo/1.0.0\ndemo/1.0.0\n");

    let features = FeaturesModel::from_version(&v);
    assert_eq!(render_as_text(features), "demo/1.0.0\n  no default features\n");

    let deps = vec![index_dep("serde", "1.0", DependencyKind::Normal, true)];
    let model = DependencyModel::from_vers_deps(&v, deps);
    let rendered = render_as_text(model);
    assert_eq!(rendered, "demo/1.0.0\n  normal\n    optional\n      serde = 1.0 \n");

    let composite = CompositeModel::from_vers_deps(&v, Vec::new());
    let rendered = render_as_text(composite);
    assert_eq!(
        rendered,
        "demo/1.0.0\n  features\n    no default features\n  no dependencies\n"
    );

    let mut sink = Output::new();
    sink.write_text(SimpleModel::from_version(&v));
    assert_eq!(sink.buffer, "demo/1.0.0\n");
}

#[test]
fn version_listings_align_the_timestamp_column() {
    let versions = vec![
        whatfeatures::client::Version {
            name: "foo".to_string(),
            version: "0.10.0".to_string(),
            yanked: false,
            license: None,
            created_at: String::new(),
        },
        whatfeatures::client::Version {
            name: "foo".to_string(),
            version: "0.9.0".to_string(),
            yanked: true,
            license: None,
            created_at: String::new(),
        },
    ];
    let times = vec!["2 days ago".to_string(), "1 week ago".to_string()];
    let all = write_versions(&versions, &times, YankStatus::Include);
    // the counted width leaves the quotes out of the accounting, so the
    // widest entry keeps a single separating space
    assert_eq!(
        all,
        "foo = \"0.10.0\" # 2 days ago\nfoo = \"0.9.0\"  # 1 week ago -- yanked\n"
    );
    let active = write_versions(&versions, &times, YankStatus::Exclude);
    assert_eq!(active, "foo = \"0.10.0\" # 2 days ago\n");
    let only = write_versions(&versions, &times, YankStatus::Only);
    assert_eq!(only, "foo = \"0.9.0\" # 1 week ago -- yanked\n");
}

#[test]
fn dependency_feature_blocks_wrap_behind_the_marker() {
    let mut dep = index_dep("serde", "1.0", DependencyKind::Normal, false);
    dep.default_features = true;
    dep.features = vec!["derive".to_string(), "rc".to_string()];
    let v = version("demo", "1.0.0", false, Vec::new());
    let model = DependencyModel::from_vers_deps(&v, vec![dep]);
    let rendered = render_as_text(model);
    assert_eq!(
        rendered,
        "demo/1.0.0\n  normal\n    serde = 1.0 \n      - features: derive, rc\n"
    );
}
