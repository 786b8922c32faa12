//! The workspace report: package nodes, the feature and dependency
//! subtrees, errors, flag validation and the line buffer.

use whatfeatures::args::{ArgsError, Args, join_iter, split_pkgid};
use whatfeatures::client::{Version, latest_available, find_version, lookup_failure,
    require_versions, select_version};
use whatfeatures::version::format_approx_time_span;
use whatfeatures::error::UserError;
use whatfeatures::features::{Dependency, Features};
use whatfeatures::json::Json;
use whatfeatures::registry::parse_cache_entry;
use whatfeatures::theme::{Options, Style, Theme, YankStatus};
use whatfeatures::tree::print;
use whatfeatures::workspace::{make_child_node, workspace_node};
use whatfeatures::{PkgId, Workspace, cannot_find_message};

fn plain_features(name: &str, version: &str, published: bool) -> Features {
    Features::from_parts(
        name.to_string(),
        version.to_string(),
        published,
        vec![("default".to_string(), vec!["std".to_string()])],
        Vec::new(),
    )
}

fn options() -> Options {
    Options { print_features: true, show_private: false, show_deps: false, verbose: false }
}

#[test]
fn a_single_package_renders_as_its_own_tree() {
    let ws = Workspace {
        hint: "demo".to_string(),
        members: vec![("demo 0.1.0".to_string(), plain_features("demo", "0.1.0", true))],
    };
    let node = match workspace_node(ws, &options(), &Theme::basic()) {
        Ok(node) => node,
        Err(e) => panic!("one shown member must render: {}", e),
    };
    let rendered = print(&node, &Theme::basic(), &Style::default());
    let expected =
        "demo = \"0.1.0\"\n\u{2514}\u{2500} features\n  \u{2514}\u{2500} default\n    \u{2514}\u{2500} std\n";
    assert_eq!(rendered, expected);
}

#[test]
fn several_packages_render_under_the_workspace_header() {
    let ws = Workspace {
        hint: "many".to_string(),
        members: vec![
            ("b 0.1.0".to_string(), plain_features("b", "0.1.0", true)),
            ("a 0.1.0".to_string(), plain_features("a", "0.1.0", true)),
        ],
    };
    let node = match workspace_node(ws, &options(), &Theme::basic()) {
        Ok(node) => node,
        Err(e) => panic!("two shown members must render: {}", e),
    };
    assert_eq!(node.text, "workspace for many");
    // members are sorted by name
    assert_eq!(node.children[0].text, "a = \"0.1.0\"");
    assert_eq!(node.children[1].text, "b = \"0.1.0\"");
}

#[test]
fn private_packages_are_left_out_unless_asked_for() {
    let private = plain_features("secret", "0.1.0", false);
    assert!(make_child_node(private, &options(), &Theme::basic()).is_none());
    let mut opts = options();
    opts.show_private = true;
    let node = make_child_node(plain_features("secret", "0.1.0", false), &opts, &Theme::basic())
        .expect("private packages show when asked for");
    assert_eq!(node.text, "secret = \"0.1.0\" (restricted)");
}

#[test]
fn dependency_subtrees_group_by_target() {
    let mut f = plain_features("demo", "0.1.0", true);
    f.required_deps.normal.push(Dependency {
        name: "winapi".to_string(),
        req: "0.3".to_string(),
        target: Some("cfg(windows)".to_string()),
        rename: None,
        features: Vec::new(),
    });
    f.required_deps.normal.push(Dependency {
        name: "libc".to_string(),
        req: "0.2".to_string(),
        target: None,
        rename: Some("core-libc".to_string()),
        features: Vec::new(),
    });
    let mut opts = options();
    opts.print_features = false;
    opts.show_deps = true;
    let node = make_child_node(f, &opts, &Theme::basic()).expect("a published package shows");
    let deps = &node.children[1];
    assert_eq!(deps.text, "required dependencies");
    let normal = &deps.children[0];
    assert_eq!(normal.text, "normal");
    assert_eq!(normal.children[0].text, "for cfg(windows)");
    assert_eq!(normal.children[0].children[0].text, "winapi = \"0.3\" ");
    assert_eq!(
        normal.children[1].text,
        "libc = \"0.2\" (renamed to core-libc)"
    );
    assert_eq!(deps.children[1].text, "no development dependencies");
    assert_eq!(deps.children[2].text, "no build dependencies");
}

#[test]
fn an_empty_workspace_cannot_be_rendered() {
    let ws = Workspace { hint: "none".to_string(), members: Vec::new() };
    match workspace_node(ws, &options(), &Theme::basic()) {
        Err(e) => assert_eq!(e, "empty tree"),
        Ok(_) => panic!("an empty workspace has nothing to show"),
    }
    let hidden = Workspace {
        hint: "hidden".to_string(),
        members: vec![("p 0.1.0".to_string(), plain_features("p", "0.1.0", false))],
    };
    match workspace_node(hidden, &options(), &Theme::basic()) {
        Err(e) => assert_eq!(e, "An empty tree was returned by cargo-metdata"),
        Ok(_) => panic!("a hidden-only workspace has nothing to show"),
    }
}

fn descriptor(num: &str, yanked: bool) -> Version {
    Version {
        name: "foo".to_string(),
        version: num.to_string(),
        yanked,
        license: None,
        created_at: "2020-01-01T00:00:00".to_string(),
    }
}

#[test]
fn remote_pickers_select_availability_and_exact_matches() {
    let listing = vec![descriptor("0.3.0", true), descriptor("0.2.0", false)];
    let latest = latest_available(listing.clone()).expect("one version is available");
    assert_eq!(latest.version, "0.2.0");
    assert!(latest_available(vec![descriptor("0.3.0", true)]).is_none());
    let exact = find_version(listing, "0.3.0").expect("the version is listed");
    assert!(exact.yanked);
}

#[test]
fn user_errors_print_actionable_messages() {
    let e = UserError::CannotLookup {
        name: "foo".to_string(),
        version: Some("1.0".to_string()),
        error: "timeout".to_string(),
    };
    assert_eq!(e.message(), "error: cannot lookup 'foo/1.0'");
    let e = UserError::CannotLookup { name: "foo".to_string(), version: None, error: String::new() };
    assert_eq!(e.message(), "error: cannot lookup 'foo'. no version found");
    assert_eq!(
        UserError::NoVersions { name: "foo".to_string() }.message(),
        "error: no versions published for 'foo'"
    );
    assert_eq!(
        UserError::InvalidVersion { name: "foo".to_string(), version: "9.9".to_string() }.message(),
        "error: invalid version '9.9' for 'foo'"
    );
    assert_eq!(UserError::NoNameProvided.message(), "error: no name was provided");
    assert_eq!(
        UserError::MustOutputSomething.message(),
        "error: `-f false` cannot be used without --deps"
    );
}

fn base_args() -> Args {
    Args {
        verbose: false,
        show_private: false,
        list: false,
        no_features: false,
        show_deps: false,
        show_yanked: None,
        name_only: false,
        pkgid: PkgId::Remote { name: "foo".to_string(), semver: None },
        offline: false,
    }
}

#[test]
fn contradictory_flags_are_rejected_with_their_spellings() {
    let mut args = base_args();
    args.list = true;
    args.show_deps = true;
    match Args::verify_flags(args) {
        Err(ArgsError::ExclusiveWith { bad, provided_short, provided_long }) => {
            assert_eq!(provided_short, "-l");
            assert_eq!(provided_long, "--list");
            assert_eq!(bad, vec![vec!["-d".to_string(), "--deps".to_string()]]);
        }
        _ => panic!("listing conflicts with the dependency report"),
    }
    let mut args = base_args();
    args.show_yanked = Some(YankStatus::Include);
    args.pkgid = PkgId::Local("/tmp/x".to_string());
    assert!(matches!(
        Args::verify_flags(args),
        Err(ArgsError::FlagRequiresRemote { .. })
    ));
    let mut args = base_args();
    args.no_features = true;
    match Args::verify_flags(args) {
        Err(e @ ArgsError::Inclusive { .. }) => {
            assert_eq!(
                e.message(),
                "`[-n, --no-features]` must be used with one of `[-d, --deps]` or `[-s, --short]`"
            );
        }
        _ => panic!("leaving features out needs something else to print"),
    }
    let ok = match Args::verify_flags(base_args()) {
        Ok(args) => args,
        Err(e) => panic!("plain flags pass: {}", e.message()),
    };
    assert!(!ok.list);
}

#[test]
fn rejection_messages_join_flag_groups() {
    let groups = vec![
        vec!["-p".to_string(), "--pkgid".to_string()],
        vec!["<crate>".to_string()],
    ];
    assert_eq!(join_iter(&groups, " and "), "`[-p, --pkgid]` and `<crate>`");
    assert_eq!(
        ArgsError::TooManyCrates { n: 12 }.message(),
        "too many crate names (12) were provided. only 1 is allowed"
    );
    assert_eq!(
        ArgsError::UnknownOption {
            option: "sometimes".to_string(),
            allowed: vec!["always".to_string(), "never".to_string()],
        }
        .message(),
        "unknown option 'sometimes'. only one of ['always', 'never'] is allowed."
    );
}

#[test]
fn identifiers_split_at_the_first_colon() {
    let (name, semver) = split_pkgid("cargo:1.43.0");
    assert_eq!(name, "cargo");
    assert_eq!(semver.as_deref(), Some("1.43.0"));
    let (name, semver) = split_pkgid("serde");
    assert_eq!(name, "serde");
    assert!(semver.is_none());
    let id = PkgId::Remote { name, semver };
    assert_eq!(id.render(), "serde");
    assert_eq!(
        cannot_find_message(&PkgId::Remote {
            name: "foo".to_string(),
            semver: Some("1.2".to_string()),
        }),
        "cannot find a crate matching 'foo:1.2'. maybe it was yanked?"
    );
}

#[test]
fn the_line_buffer_frames_finished_lines() {
    let mut sink = Json::new();
    sink.write(b"{\"a\":1}");
    sink.write(b"\n");
    sink.write(b"{\"b\":2}");
    sink.write(b"\n");
    let framed = sink.flush();
    assert_eq!(framed, b"[{\"a\":1},{\"b\":2}]".to_vec());
    let mut empty = Json::new();
    assert_eq!(empty.flush(), Vec::<u8>::new());
}

#[test]
fn version_selection_keeps_the_failure_taxonomy_distinct() {
    let listing = vec![descriptor("0.3.0", true), descriptor("0.2.0", false)];
    // a transport failure surfaces as cannot-lookup with its own words
    match select_version("foo", None, Err("connection refused".to_string())) {
        Err(UserError::CannotLookup { name, version, error }) => {
            assert_eq!(name, "foo");
            assert!(version.is_none());
            assert_eq!(error, "connection refused");
        }
        _ => panic!("a transport failure must surface as cannot-lookup"),
    }
    // a pinned version that is not listed is an invalid version
    let pin = "9.9.9".to_string();
    match select_version("foo", Some(&pin), Ok(listing.clone())) {
        Err(e @ UserError::InvalidVersion { .. }) => {
            assert_eq!(e.message(), "error: invalid version '9.9.9' for 'foo'");
        }
        _ => panic!("an unlisted pin must be an invalid version"),
    }
    // a listed pin is taken exactly, withdrawn or not
    let pin = "0.3.0".to_string();
    match select_version("foo", Some(&pin), Ok(listing.clone())) {
        Ok(v) => assert!(v.yanked && v.version == "0.3.0"),
        Err(_) => panic!("a listed pin must be found"),
    }
    // without a pin, the first version not withdrawn is taken
    match select_version("foo", None, Ok(listing)) {
        Ok(v) => assert_eq!(v.version, "0.2.0"),
        Err(_) => panic!("an available version must be taken"),
    }
    // a listing of only withdrawn versions has nothing published to take
    match select_version("foo", None, Ok(vec![descriptor("0.3.0", true)])) {
        Err(UserError::NoVersions { name }) => assert_eq!(name, "foo"),
        _ => panic!("an all-withdrawn listing owes the no-versions failure"),
    }
}

#[test]
fn listings_owe_their_failures_too() {
    match require_versions("foo", Ok(Vec::new())) {
        Err(e @ UserError::NoVersions { .. }) => {
            assert_eq!(e.message(), "error: no versions published for 'foo'");
        }
        _ => panic!("an empty listing owes the no-versions failure"),
    }
    match require_versions("foo", Err("timed out".to_string())) {
        Err(UserError::CannotLookup { name, version, error }) => {
            assert_eq!(name, "foo");
            assert!(version.is_none());
            assert_eq!(error, "timed out");
        }
        _ => panic!("a transport failure owes cannot-lookup"),
    }
    match require_versions("foo", Ok(vec![descriptor("0.1.0", false)])) {
        Ok(vs) => assert_eq!(vs.len(), 1),
        Err(_) => panic!("a usable listing passes through"),
    }
    let pin = "1.0".to_string();
    match lookup_failure("foo", Some(&pin), "broken pipe".to_string()) {
        UserError::CannotLookup { version, .. } => assert_eq!(version.as_deref(), Some("1.0")),
        _ => panic!("lookup_failure builds cannot-lookup"),
    }
}

#[test]
fn approximate_ages_pick_the_coarsest_unit() {
    assert_eq!(format_approx_time_span(0), "just now");
    assert_eq!(format_approx_time_span(1), "1 second ago");
    assert_eq!(format_approx_time_span(59), "59 seconds ago");
    assert_eq!(format_approx_time_span(60), "1 minute ago");
    assert_eq!(format_approx_time_span(3600), "1 hour ago");
    assert_eq!(format_approx_time_span(7200), "2 hours ago");
    assert_eq!(format_approx_time_span(86400), "1 day ago");
    assert_eq!(format_approx_time_span(604800), "1 week ago");
    assert_eq!(format_approx_time_span(3 * 604800), "3 weeks ago");
}

#[test]
fn malformed_cache_entries_are_rejected_with_their_reason() {
    // the split stands at the greatest hyphen-digit pair
    assert_eq!(
        parse_cache_entry("a-1-2"),
        Some(("a-1".to_string(), "2".to_string()))
    );
    // a split that leaves no name is malformed
    assert_eq!(parse_cache_entry("-1.2.0"), None);
}
