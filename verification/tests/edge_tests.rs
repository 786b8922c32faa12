//! Edge cases: empty inputs, duplicate keys, the widest items, and the
//! small text helpers.

use whatfeatures::crates::Version;
use whatfeatures::layout::{BoundingBox, State, columns};
use whatfeatures::strutil::{decimal, find_char, spaces, str_eq, str_le, str_lt};
use whatfeatures::output::{FeaturesModel, render_as_text};
use whatfeatures::theme::Color;

#[test]
fn wrapping_nothing_yields_nothing() {
    let (count, lines) = BoundingBox::new(Vec::new()).display(10);
    assert_eq!(count, 0);
    assert!(lines.is_empty());
    assert_eq!(columns(0, &Vec::new()), Vec::<usize>::new());
}

#[test]
fn comparisons_follow_byte_order() {
    assert!(str_lt("1.10.0", "1.2.0"));
    assert!(!str_lt("b", "a"));
    assert!(str_le("a", "a"));
    assert!(str_le("a", "ab"));
    assert!(!str_le("ab", "a"));
    assert!(str_eq("same", "same"));
    assert!(!str_eq("same", "sames"));
}

#[test]
fn text_helpers_build_exact_strings() {
    assert_eq!(decimal(0), "0");
    assert_eq!(decimal(907), "907");
    assert_eq!(spaces(3), "   ");
    assert_eq!(spaces(0), "");
    assert_eq!(find_char("a:b", ':'), 1);
    assert_eq!(find_char("ab", ':'), 2);
}

#[test]
fn painting_wraps_only_set_colors() {
    assert_eq!(Color::Unset.paint("plain"), "plain");
    assert_eq!(Color::Rgb(0, 153, 238).paint("x"), "\u{1b}[38;2;0;153;238mx\u{1b}[0m");
}

#[test]
fn repeated_feature_names_keep_the_last_entry() {
    let v = Version {
        id: 1,
        crate_: "dup".to_string(),
        num: "0.1.0".to_string(),
        features: vec![
            ("extra".to_string(), vec!["one".to_string()]),
            ("extra".to_string(), vec!["two".to_string()]),
        ],
        yanked: false,
    };
    let out = render_as_text(FeaturesModel::from_version(&v));
    assert_eq!(out, "dup/0.1.0\n  no default features\n  extra: two\n");
}

#[test]
fn render_state_transitions() {
    let mut state = State::First;
    assert!(matches!(state.advance(), State::Next));
    assert!(matches!(state, State::Next));
    assert!(matches!(state.reset(), State::First));
    assert!(matches!(state, State::First));
    assert!(matches!(State::default(), State::First));
}
