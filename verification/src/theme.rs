//! Colors, themes and tree glyphs. The theme is an explicit configuration
//! value threaded into every render call; nothing here is process-wide
//! state.

use vstd::prelude::*;
use crate::strutil::spec_decimal;
use crate::strutil::decimal;
use vstd::string::StringExecFns;

verus! {

/// A foreground color: either left unset (no styling at all) or a
/// truecolor value.
#[derive(Copy, Clone, Debug, PartialEq, Eq, Structural)]
pub enum Color {
    /// No color: painting with this color leaves text unchanged.
    Unset,
    /// A red/green/blue triple.
    Rgb(u8, u8, u8),
}

/// The escape sequence that switches the foreground to the given
/// truecolor value.
pub open spec fn spec_rgb_prefix(r: u8, g: u8, b: u8) -> Seq<char> {
    seq!['\u{1b}', '[', '3', '8', ';', '2', ';'] + spec_decimal(r as int) + seq![';']
        + spec_decimal(g as int) + seq![';'] + spec_decimal(b as int) + seq!['m']
}

/// The escape sequence that resets all styling.
pub open spec fn spec_reset() -> Seq<char> {
    seq!['\u{1b}', '[', '0', 'm']
}

/// Painting a text with a color: unchanged for `Unset`, wrapped in the
/// color's escape sequence and a reset for `Rgb`.
pub open spec fn spec_paint(c: Color, s: Seq<char>) -> Seq<char> {
    match c {
        Color::Unset => s,
        Color::Rgb(r, g, b) => spec_rgb_prefix(r, g, b) + s + spec_reset(),
    }
}

impl Color {
    /// Wraps `s` in this color's escape sequences; `Unset` returns the
    /// text unchanged.
    pub fn paint(self, s: &str) -> (r: String)
        ensures
            r@ == spec_paint(self, s@),
    {
        match self {
            Color::Unset => {
                let mut out = String::new();
                out.append(s);
                proof {
                    assert(out@ =~= s@);
                }
                out
            },
            Color::Rgb(cr, cg, cb) => {
                let mut out = String::new();
                out.push('\u{1b}');
                out.append("[38;2;");
                let rs = decimal(cr as u64);
                out.append(rs.as_str());
                out.append(";");
                let gs = decimal(cg as u64);
                out.append(gs.as_str());
                out.append(";");
                let bs = decimal(cb as u64);
                out.append(bs.as_str());
                out.append("m");
                out.append(s);
                out.push('\u{1b}');
                out.append("[0m");
                proof {
                    reveal_strlit("[38;2;");
                    reveal_strlit(";");
                    reveal_strlit("m");
                    reveal_strlit("[0m");
                    assert(out@ =~= spec_paint(self, s@));
                }
                out
            },
        }
    }
}

/// The glyphs the tree printer builds its prefixes from.
pub struct Style {
    /// Continuation under a middle child.
    pub pipe: String,
    /// Label prefix of a middle child.
    pub branch: String,
    /// Label prefix of the last child.
    pub edge: String,
    /// A single horizontal edge.
    pub right: String,
    /// Continuation under the last child: blank padding.
    pub last: String,
}

impl Style {
    /// Whether the glyphs are the standard box-drawing set.
    pub open spec fn is_standard(&self) -> bool {
        &&& self.pipe@ == seq!['\u{2502}', ' ']
        &&& self.branch@ == seq!['\u{251c}', '\u{2500}', ' ']
        &&& self.edge@ == seq!['\u{2514}', '\u{2500}', ' ']
        &&& self.right@ == seq!['\u{2500}', ' ']
        &&& self.last@ == seq![' ', ' ']
    }
}

impl Default for Style {
    /// The standard box-drawing glyphs.
    fn default() -> (r: Self)
        ensures
            r.is_standard(),
    {
        let r = Style {
            pipe: String::from_str("\u{2502} "),
            branch: String::from_str("\u{251c}\u{2500} "),
            edge: String::from_str("\u{2514}\u{2500} "),
            right: String::from_str("\u{2500} "),
            last: String::from_str("  "),
        };
        proof {
            reveal_strlit("\u{2502} ");
            reveal_strlit("\u{251c}\u{2500} ");
            reveal_strlit("\u{2514}\u{2500} ");
            reveal_strlit("\u{2500} ");
            reveal_strlit("  ");
            assert(r.pipe@ =~= seq!['\u{2502}', ' ']);
            assert(r.branch@ =~= seq!['\u{251c}', '\u{2500}', ' ']);
            assert(r.edge@ =~= seq!['\u{2514}', '\u{2500}', ' ']);
            assert(r.right@ =~= seq!['\u{2500}', ' ']);
            assert(r.last@ =~= seq![' ', ' ']);
        }
        r
    }
}

/// When to show yanked versions.
#[derive(Copy, Clone, Debug, PartialEq, Eq, Structural)]
pub enum YankStatus {
    /// Only show yanked versions.
    Only,
    /// Exclude all yanked versions.
    Exclude,
    /// Include yanked versions beside the others.
    Include,
}

impl Default for YankStatus {
    fn default() -> (r: Self)
        ensures
            r is Exclude,
    {
        YankStatus::Exclude
    }
}

/// What the report should include.
#[derive(Copy, Clone)]
pub struct Options {
    /// List the features of each package.
    pub print_features: bool,
    /// Include packages that are not published.
    pub show_private: bool,
    /// List the dependencies of each package.
    pub show_deps: bool,
    /// List implied features and optional dependencies as well.
    pub verbose: bool,
}

/// The colors a report is painted with.
#[derive(Copy, Clone, Debug, PartialEq, Eq, Structural)]
pub struct Theme {
    /// Workspace header.
    pub workspace: Color,
    /// Package name.
    pub name: Color,
    /// Package version.
    pub version: Color,
    /// Yanked marker.
    pub yanked: Color,
    /// Publish timestamp.
    pub created_at: Color,
    /// License.
    pub license: Color,
    /// Marker for unpublished packages.
    pub is_not_published: Color,
    /// "no default features" label.
    pub no_default_features: Color,
    /// "no features" label.
    pub no_features: Color,
    /// "no optional dependencies" label.
    pub no_optional_deps: Color,
    /// "no required dependencies" label.
    pub no_required_deps: Color,
    /// "no development dependencies" label.
    pub no_dev_deps: Color,
    /// "no build dependencies" label.
    pub no_build_deps: Color,
    /// Marker for dependencies with enabled features.
    pub has_enabled_features: Color,
    /// "features" header.
    pub features: Color,
    /// A feature's name.
    pub feature_name: Color,
    /// A feature implied by another.
    pub feature_implies: Color,
    /// Features that look internal (leading underscore).
    pub probably_internal: Color,
    /// The "default" feature.
    pub default: Color,
    /// "required dependencies" header.
    pub required_deps: Color,
    /// "optional dependencies" header.
    pub optional_deps: Color,
    /// "normal" dependency header.
    pub normal_deps: Color,
    /// "development" dependency header.
    pub dev_deps: Color,
    /// "build" dependency header.
    pub build_deps: Color,
    /// Rename marker.
    pub renamed: Color,
    /// Rename target.
    pub renamed_target: Color,
    /// Target configuration.
    pub target: Color,
    /// A dependency's own features.
    pub dep_feature: Color,
    /// The tree glyphs themselves.
    pub tree: Color,
}

/// A theme that paints nothing: every color is unset.
pub open spec fn spec_plain_theme() -> Theme {
    Theme {
        workspace: Color::Unset,
        name: Color::Unset,
        version: Color::Unset,
        yanked: Color::Unset,
        created_at: Color::Unset,
        license: Color::Unset,
        is_not_published: Color::Unset,
        no_default_features: Color::Unset,
        no_features: Color::Unset,
        no_optional_deps: Color::Unset,
        no_required_deps: Color::Unset,
        no_dev_deps: Color::Unset,
        no_build_deps: Color::Unset,
        has_enabled_features: Color::Unset,
        features: Color::Unset,
        feature_name: Color::Unset,
        feature_implies: Color::Unset,
        probably_internal: Color::Unset,
        default: Color::Unset,
        required_deps: Color::Unset,
        optional_deps: Color::Unset,
        normal_deps: Color::Unset,
        dev_deps: Color::Unset,
        build_deps: Color::Unset,
        renamed: Color::Unset,
        renamed_target: Color::Unset,
        target: Color::Unset,
        dep_feature: Color::Unset,
        tree: Color::Unset,
    }
}

/// The colorful theme.
pub open spec fn spec_colorful_theme() -> Theme {
    Theme {
        workspace: Color::Rgb(255, 192, 192),
        name: Color::Rgb(255, 192, 128),
        version: Color::Rgb(192, 192, 0),
        yanked: Color::Rgb(255, 0, 0),
        created_at: Color::Rgb(255, 255, 255),
        license: Color::Rgb(255, 255, 255),
        is_not_published: Color::Rgb(0, 153, 238),
        no_default_features: Color::Rgb(255, 128, 128),
        no_features: Color::Rgb(192, 192, 192),
        no_optional_deps: Color::Rgb(192, 128, 128),
        no_required_deps: Color::Rgb(192, 192, 192),
        no_dev_deps: Color::Rgb(192, 192, 192),
        no_build_deps: Color::Rgb(192, 192, 192),
        has_enabled_features: Color::Rgb(0, 153, 238),
        features: Color::Rgb(192, 0, 192),
        feature_name: Color::Rgb(255, 255, 255),
        feature_implies: Color::Rgb(192, 192, 255),
        probably_internal: Color::Rgb(128, 32, 32),
        default: Color::Rgb(0, 255, 0),
        required_deps: Color::Rgb(192, 0, 255),
        optional_deps: Color::Rgb(255, 0, 192),
        normal_deps: Color::Rgb(255, 124, 201),
        dev_deps: Color::Rgb(255, 124, 201),
        build_deps: Color::Rgb(255, 124, 201),
        renamed: Color::Rgb(0, 153, 238),
        renamed_target: Color::Rgb(92, 64, 255),
        target: Color::Rgb(192, 0, 0),
        dep_feature: Color::Rgb(128, 128, 128),
        tree: Color::Rgb(48, 48, 48),
    }
}

impl Theme {
    /// A theme without any colors.
    pub fn basic() -> (r: Self)
        ensures
            r == spec_plain_theme(),
    {
        Theme {
            workspace: Color::Unset,
            name: Color::Unset,
            version: Color::Unset,
            yanked: Color::Unset,
            created_at: Color::Unset,
            license: Color::Unset,
            is_not_published: Color::Unset,
            no_default_features: Color::Unset,
            no_features: Color::Unset,
            no_optional_deps: Color::Unset,
            no_required_deps: Color::Unset,
            no_dev_deps: Color::Unset,
            no_build_deps: Color::Unset,
            has_enabled_features: Color::Unset,
            features: Color::Unset,
            feature_name: Color::Unset,
            feature_implies: Color::Unset,
            probably_internal: Color::Unset,
            default: Color::Unset,
            required_deps: Color::Unset,
            optional_deps: Color::Unset,
            normal_deps: Color::Unset,
            dev_deps: Color::Unset,
            build_deps: Color::Unset,
            renamed: Color::Unset,
            renamed_target: Color::Unset,
            target: Color::Unset,
            dep_feature: Color::Unset,
            tree: Color::Unset,
        }
    }

    /// The colorful theme.
    pub fn colorful() -> (r: Self)
        ensures
            r == spec_colorful_theme(),
    {
        Theme {
            workspace: Color::Rgb(255, 192, 192),
            name: Color::Rgb(255, 192, 128),
            version: Color::Rgb(192, 192, 0),
            yanked: Color::Rgb(255, 0, 0),
            created_at: Color::Rgb(255, 255, 255),
            license: Color::Rgb(255, 255, 255),
            is_not_published: Color::Rgb(0, 153, 238),
            no_default_features: Color::Rgb(255, 128, 128),
            no_features: Color::Rgb(192, 192, 192),
            no_optional_deps: Color::Rgb(192, 128, 128),
            no_required_deps: Color::Rgb(192, 192, 192),
            no_dev_deps: Color::Rgb(192, 192, 192),
            no_build_deps: Color::Rgb(192, 192, 192),
            has_enabled_features: Color::Rgb(0, 153, 238),
            features: Color::Rgb(192, 0, 192),
            feature_name: Color::Rgb(255, 255, 255),
            feature_implies: Color::Rgb(192, 192, 255),
            probably_internal: Color::Rgb(128, 32, 32),
            default: Color::Rgb(0, 255, 0),
            required_deps: Color::Rgb(192, 0, 255),
            optional_deps: Color::Rgb(255, 0, 192),
            normal_deps: Color::Rgb(255, 124, 201),
            dev_deps: Color::Rgb(255, 124, 201),
            build_deps: Color::Rgb(255, 124, 201),
            renamed: Color::Rgb(0, 153, 238),
            renamed_target: Color::Rgb(92, 64, 255),
            target: Color::Rgb(192, 0, 0),
            dep_feature: Color::Rgb(128, 128, 128),
            tree: Color::Rgb(48, 48, 48),
        }
    }
}

impl Default for Theme {
    /// The colorful theme is the default, as reports are for terminals.
    fn default() -> (r: Self)
        ensures
            r == spec_colorful_theme(),
    {
        Theme::colorful()
    }
}

} // verus!
