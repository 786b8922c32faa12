//! Plain-text rendering of names, versions, dependencies and failures,
//! with column alignment; color and theme handling is an external
//! concern, so the text here is unstyled.

use vstd::prelude::*;
use vstd::string::StringExecFns;
use crate::args::comma_join;
use crate::crates::{Dependency, DependencyKind, Version};
use crate::error::{UserError, spec_user_error_message};
use crate::features::{features_view, feature_view, spec_sort_features, sorted_features,
    spec_get_feature, get_feature};
use crate::layout::byte_len;
use crate::strutil::{spec_spaces, spaces, str_eq, spec_comma_views};
use vstd::string::StringSliceAdditionalSpecFns;

verus! {

/// A name and version, rendered as "{name}/{version}".
pub struct NameVer<'a>(pub &'a str, pub &'a str);

/// A withdrawn name and version, rendered with the "yanked" marker.
pub struct YankedNameVer<'a>(pub &'a str, pub &'a str);

/// The marker written when a version has no dependencies at all.
pub struct NoDeps;

/// Alignment state threaded through the dependency lines: the leading
/// indent and the two column widths.
#[derive(Copy, Clone, Debug)]
pub struct DepState {
    /// Spaces before the line.
    pub pad: usize,
    /// The width of the name column.
    pub left: usize,
    /// The width of the requirement column.
    pub right: usize,
}

impl Default for DepState {
    /// No indent and empty columns.
    fn default() -> (r: Self)
        ensures
            r.pad == 0 && r.left == 0 && r.right == 0,
    {
        DepState { pad: 0, left: 0, right: 0 }
    }
}

/// The empty state of the renderings that thread none.
#[derive(Copy, Clone, Debug)]
pub struct NoTextState;

impl Default for NoTextState {
    fn default() -> (r: Self) {
        NoTextState
    }
}

/// A value with an exact plain-text rendering.
pub trait AsText {
    /// The state threaded into the rendering.
    type State;

    /// What the rendering relies on of the value.
    spec fn text_wf(&self, state: &Self::State) -> bool;

    /// The exact text the value renders to.
    spec fn spec_text(&self, state: &Self::State) -> Seq<char>;

    /// Renders the value.
    fn write_as_text(&self, state: &Self::State) -> (r: String)
        requires
            self.text_wf(state),
        ensures
            r@ == self.spec_text(state),
    ;
}

/// Text padded with spaces on the right up to the column width; text
/// already that wide stands as it is.
pub open spec fn spec_padded(s: Seq<char>, w: int) -> Seq<char> {
    s + spec_spaces(if w - byte_len(s) >= 0 {
        w - byte_len(s)
    } else {
        0
    })
}

/// Appends `s` right-padded to width `w`.
pub fn append_padded(out: &mut String, s: &str, w: usize)
    ensures
        final(out)@ == old(out)@ + spec_padded(s@, w as int),
{
    out.append(s);
    let len = s.as_bytes().len();
    proof {
        assert(s.spec_bytes() == vstd::utf8::encode_utf8(s@));
    }
    let fill = spaces(w.saturating_sub(len));
    out.append(fill.as_str());
}

impl<'a> AsText for NameVer<'a> {
    type State = NoTextState;

    open spec fn text_wf(&self, state: &NoTextState) -> bool {
        true
    }

    open spec fn spec_text(&self, state: &NoTextState) -> Seq<char> {
        self.0@ + "/"@ + self.1@ + "\n"@
    }

    fn write_as_text(&self, state: &NoTextState) -> (r: String) {
        let mut out = String::new();
        out.append(self.0);
        out.append("/");
        out.append(self.1);
        out.append("\n");
        proof {
            assert(out@ =~= self.spec_text(state));
        }
        out
    }
}

impl<'a> AsText for YankedNameVer<'a> {
    type State = NoTextState;

    open spec fn text_wf(&self, state: &NoTextState) -> bool {
        true
    }

    open spec fn spec_text(&self, state: &NoTextState) -> Seq<char> {
        "yanked: "@ + self.0@ + "/"@ + self.1@ + "\n"@
    }

    fn write_as_text(&self, state: &NoTextState) -> (r: String) {
        let mut out = String::new();
        out.append("yanked: ");
        out.append(self.0);
        out.append("/");
        out.append(self.1);
        out.append("\n");
        proof {
            assert(out@ =~= self.spec_text(state));
        }
        out
    }
}

impl AsText for NoDeps {
    type State = NoTextState;

    open spec fn text_wf(&self, state: &NoTextState) -> bool {
        true
    }

    open spec fn spec_text(&self, state: &NoTextState) -> Seq<char> {
        "no dependencies\n"@
    }

    fn write_as_text(&self, state: &NoTextState) -> (r: String) {
        let mut out = String::new();
        out.append("no dependencies\n");
        proof {
            assert(out@ =~= self.spec_text(state));
        }
        out
    }
}

impl AsText for DependencyKind {
    type State = DepState;

    open spec fn text_wf(&self, state: &DepState) -> bool {
        true
    }

    open spec fn spec_text(&self, state: &DepState) -> Seq<char> {
        spec_spaces(state.pad as int) + (match self {
            DependencyKind::Normal => "normal"@,
            DependencyKind::Dev => "dev"@,
            DependencyKind::Build => "build"@,
        }) + "\n"@
    }

    fn write_as_text(&self, state: &DepState) -> (r: String) {
        let mut out = spaces(state.pad);
        match self {
            DependencyKind::Normal => out.append("normal"),
            DependencyKind::Dev => out.append("dev"),
            DependencyKind::Build => out.append("build"),
        }
        out.append("\n");
        proof {
            assert(out@ =~= self.spec_text(state));
        }
        out
    }
}

impl AsText for Dependency {
    type State = DepState;

    open spec fn text_wf(&self, state: &DepState) -> bool {
        true
    }

    open spec fn spec_text(&self, state: &DepState) -> Seq<char> {
        spec_spaces(state.pad as int) + (match self.target {
            Some(t) => spec_padded(self.crate_id@, state.left as int) + " = "@ + spec_padded(
                self.req@,
                state.right as int,
            ) + " if "@ + t@,
            None => spec_padded(self.crate_id@, state.left as int) + " = "@ + self.req@,
        }) + "\n"@
    }

    fn write_as_text(&self, state: &DepState) -> (r: String) {
        let mut out = spaces(state.pad);
        append_padded(&mut out, self.crate_id.as_str(), state.left);
        out.append(" = ");
        match &self.target {
            Some(t) => {
                append_padded(&mut out, self.req.as_str(), state.right);
                out.append(" if ");
                out.append(t.as_str());
            },
            None => {
                out.append(self.req.as_str());
            },
        }
        out.append("\n");
        proof {
            assert(out@ =~= self.spec_text(state));
        }
        out
    }
}

impl AsText for UserError {
    type State = NoTextState;

    open spec fn text_wf(&self, state: &NoTextState) -> bool {
        true
    }

    open spec fn spec_text(&self, state: &NoTextState) -> Seq<char> {
        spec_user_error_message(*self) + "\n"@
    }

    fn write_as_text(&self, state: &NoTextState) -> (r: String) {
        let mut out = self.message();
        out.append("\n");
        proof {
            assert(out@ =~= self.spec_text(state));
        }
        out
    }
}

/// One feature line below a version header; the "default" entry is
/// written by the header part and is skipped here.
pub open spec fn spec_feature_line(f: (Seq<char>, Seq<Seq<char>>)) -> Seq<char> {
    if f.0 == "default"@ {
        Seq::empty()
    } else if f.1.len() == 0 {
        "    "@ + f.0 + "\n"@
    } else {
        "    "@ + f.0 + ": "@ + spec_comma_views(f.1) + "\n"@
    }
}

/// The feature lines of a sorted feature map view.
pub open spec fn spec_feature_lines(s: Seq<(Seq<char>, Seq<Seq<char>>)>) -> Seq<char>
    decreases s.len(),
{
    if s.len() == 0 {
        Seq::empty()
    } else {
        spec_feature_lines(s.drop_last()) + spec_feature_line(s.last())
    }
}

/// The "default" header line: the default feature's implications, or
/// the marker that there are none.
pub open spec fn spec_default_part(features: Seq<(Seq<char>, Seq<Seq<char>>)>) -> Seq<char> {
    match spec_get_feature(features, "default"@) {
        Some(list) => if list.len() == 0 {
            "    default\n"@
        } else {
            "    default: "@ + spec_comma_views(list) + "\n"@
        },
        None => "  no default features\n"@,
    }
}

impl AsText for Version {
    type State = NoTextState;

    /// The feature map's names are pairwise distinct, as a parsed map's
    /// keys are.
    open spec fn text_wf(&self, state: &NoTextState) -> bool {
        forall|i: int, j: int|
            0 <= i < j < self.features@.len() ==> #[trigger] self.features@[i].0@
                != #[trigger] self.features@[j].0@
    }

    /// A withdrawn version renders as its marker line alone; otherwise
    /// the header line is followed by the default-feature line and the
    /// remaining features sorted by name.

    open spec fn spec_text(&self, state: &NoTextState) -> Seq<char> {
        if self.yanked {
            "yanked: "@ + self.crate_@ + "/"@ + self.num@ + "\n"@
        } else {
            self.crate_@ + "/"@ + self.num@ + "\n"@ + spec_default_part(
                features_view(self.features@),
            ) + spec_feature_lines(spec_sort_features(features_view(self.features@)))
        }
    }

    fn write_as_text(&self, state: &NoTextState) -> (r: String) {
        let mut out = String::new();
        if self.yanked {
            out.append("yanked: ");
            out.append(self.crate_.as_str());
            out.append("/");
            out.append(self.num.as_str());
            out.append("\n");
            proof {
                assert(out@ =~= self.spec_text(state));
            }
            return out;
        }
        out.append(self.crate_.as_str());
        out.append("/");
        out.append(self.num.as_str());
        out.append("\n");
        match get_feature(&self.features, "default") {
            Some(list) => {
                if list.len() == 0 {
                    out.append("    default\n");
                } else {
                    out.append("    default: ");
                    let joined = comma_join(list);
                    out.append(joined.as_str());
                    out.append("\n");
                }
            },
            None => {
                out.append("  no default features\n");
            },
        }
        let ghost header_done = out@;
        proof {
            assert(header_done =~= self.crate_@ + "/"@ + self.num@ + "\n"@ + spec_default_part(
                features_view(self.features@),
            ));
        }
        let sorted = sorted_features(&self.features);
        let ghost sview = features_view(sorted@);
        let mut i: usize = 0;
        proof {
            assert(sview.take(0) =~= Seq::<(Seq<char>, Seq<Seq<char>>)>::empty());
        }
        while i < sorted.len()
            invariant
                sview == features_view(sorted@),
                sview == spec_sort_features(features_view(self.features@)),
                sview.len() == sorted@.len(),
                0 <= i <= sorted@.len(),
                out@ == header_done + spec_feature_lines(sview.take(i as int)),
                header_done == self.crate_@ + "/"@ + self.num@ + "\n"@ + spec_default_part(
                    features_view(self.features@),
                ),
            decreases sorted@.len() - i,
        {
            proof {
                assert(sview.take(i + 1).drop_last() =~= sview.take(i as int));
                assert(sview.take(i + 1).last() == sview[i as int]);
                assert(sview[i as int] == feature_view()(sorted@[i as int]));
            }
            let f = &sorted[i];
            if !str_eq(f.0.as_str(), "default") {
                out.append("    ");
                out.append(f.0.as_str());
                if f.1.len() > 0 {
                    out.append(": ");
                    let joined = comma_join(&f.1);
                    out.append(joined.as_str());
                }
                out.append("\n");
            }
            i = i + 1;
        }
        proof {
            assert(sview.take(sview.len() as int) =~= sview);
        }
        out
    }
}

/// Selects the dependencies of one build role.
pub open spec fn kind_is(k: DependencyKind) -> spec_fn(Dependency) -> bool {
    |d: Dependency| d.kind == k
}

/// The running maximum of the name column over a dependency list.
pub open spec fn spec_left_fold(s: Seq<Dependency>, init: int) -> int
    decreases s.len(),
{
    if s.len() == 0 {
        init
    } else {
        crate::layout::spec_width(spec_left_fold(s.drop_last(), init), s.last().crate_id@)
    }
}

/// The running maximum of the requirement column over a dependency list.
pub open spec fn spec_right_fold(s: Seq<Dependency>, init: int) -> int
    decreases s.len(),
{
    if s.len() == 0 {
        init
    } else {
        crate::layout::spec_width(spec_right_fold(s.drop_last(), init), s.last().req@)
    }
}

/// The lines of a dependency list under the given alignment state.
pub open spec fn spec_dep_lines(s: Seq<Dependency>, st: DepState) -> Seq<char>
    decreases s.len(),
{
    if s.len() == 0 {
        Seq::empty()
    } else {
        spec_dep_lines(s.drop_last(), st) + s.last().spec_text(&st)
    }
}

/// One kind's section: nothing when the kind has no dependencies, else
/// the kind's header line indented by two and its dependencies, sorted
/// by name, indented by four.
pub open spec fn spec_kind_section(
    k: DependencyKind,
    deps: Seq<Dependency>,
    left: usize,
    right: usize,
) -> Seq<char> {
    let list = deps.filter(kind_is(k));
    if list.len() == 0 {
        Seq::empty()
    } else {
        k.spec_text(&DepState { pad: 2, left, right }) + spec_dep_lines(
            crate::crates::spec_sort_by_id(list),
            DepState { pad: 4, left, right },
        )
    }
}

/// The name column width of a report: the widest name over the kinds in
/// their printed order.
pub open spec fn spec_deps_left(deps: Seq<Dependency>) -> int {
    spec_left_fold(
        deps.filter(kind_is(DependencyKind::Build)),
        spec_left_fold(
            deps.filter(kind_is(DependencyKind::Dev)),
            spec_left_fold(deps.filter(kind_is(DependencyKind::Normal)), 0),
        ),
    )
}

/// The requirement column width of a report.
pub open spec fn spec_deps_right(deps: Seq<Dependency>) -> int {
    spec_right_fold(
        deps.filter(kind_is(DependencyKind::Build)),
        spec_right_fold(
            deps.filter(kind_is(DependencyKind::Dev)),
            spec_right_fold(deps.filter(kind_is(DependencyKind::Normal)), 0),
        ),
    )
}

/// The whole dependency report: the optional name line, then either the
/// no-dependencies marker or the kind sections with shared column
/// alignment.
pub open spec fn spec_print_deps(
    name: Seq<char>,
    ver: Seq<char>,
    show_name: bool,
    deps: Seq<Dependency>,
    left: usize,
    right: usize,
) -> Seq<char> {
    let header = if show_name {
        name + "/"@ + ver + "\n"@
    } else {
        Seq::empty()
    };
    if deps.len() == 0 {
        header + "no dependencies\n"@
    } else {
        header + spec_kind_section(DependencyKind::Normal, deps, left, right) + spec_kind_section(
            DependencyKind::Dev,
            deps,
            left,
            right,
        ) + spec_kind_section(DependencyKind::Build, deps, left, right)
    }
}

/// Extends the name column width by one dependency list.
pub fn fold_left_width(list: &Vec<Dependency>, init: usize) -> (r: usize)
    ensures
        r == spec_left_fold(list@, init as int),
{
    let mut acc = init;
    let mut i: usize = 0;
    proof {
        assert(list@.take(0) =~= Seq::<Dependency>::empty());
    }
    while i < list.len()
        invariant
            0 <= i <= list@.len(),
            acc == spec_left_fold(list@.take(i as int), init as int),
        decreases list@.len() - i,
    {
        proof {
            assert(list@.take(i + 1).drop_last() =~= list@.take(i as int));
            assert(list@.take(i + 1).last() == list@[i as int]);
        }
        acc = crate::layout::width(acc, list[i].crate_id.as_str());
        i = i + 1;
    }
    proof {
        assert(list@.take(list@.len() as int) =~= list@);
    }
    acc
}

/// Extends the requirement column width by one dependency list.
pub fn fold_right_width(list: &Vec<Dependency>, init: usize) -> (r: usize)
    ensures
        r == spec_right_fold(list@, init as int),
{
    let mut acc = init;
    let mut i: usize = 0;
    proof {
        assert(list@.take(0) =~= Seq::<Dependency>::empty());
    }
    while i < list.len()
        invariant
            0 <= i <= list@.len(),
            acc == spec_right_fold(list@.take(i as int), init as int),
        decreases list@.len() - i,
    {
        proof {
            assert(list@.take(i + 1).drop_last() =~= list@.take(i as int));
            assert(list@.take(i + 1).last() == list@[i as int]);
        }
        acc = crate::layout::width(acc, list[i].req.as_str());
        i = i + 1;
    }
    proof {
        assert(list@.take(list@.len() as int) =~= list@);
    }
    acc
}

/// Extends both column widths by one dependency list.
fn fold_widths(list: &Vec<Dependency>, left: usize, right: usize) -> (r: (usize, usize))
    ensures
        r.0 == spec_left_fold(list@, left as int),
        r.1 == spec_right_fold(list@, right as int),
{
    let mut l = left;
    let mut rr = right;
    let mut i: usize = 0;
    proof {
        assert(list@.take(0) =~= Seq::<Dependency>::empty());
    }
    while i < list.len()
        invariant
            0 <= i <= list@.len(),
            l == spec_left_fold(list@.take(i as int), left as int),
            rr == spec_right_fold(list@.take(i as int), right as int),
        decreases list@.len() - i,
    {
        proof {
            assert(list@.take(i + 1).drop_last() =~= list@.take(i as int));
            assert(list@.take(i + 1).last() == list@[i as int]);
        }
        l = crate::layout::width(l, list[i].crate_id.as_str());
        rr = crate::layout::width(rr, list[i].req.as_str());
        i = i + 1;
    }
    proof {
        assert(list@.take(list@.len() as int) =~= list@);
    }
    (l, rr)
}

/// Appends one sorted dependency list as lines.
fn append_dep_lines(out: &mut String, sorted: &Vec<Dependency>, st: &DepState)
    ensures
        final(out)@ == old(out)@ + spec_dep_lines(sorted@, *st),
{
    let mut i: usize = 0;
    proof {
        assert(sorted@.take(0) =~= Seq::<Dependency>::empty());
    }
    while i < sorted.len()
        invariant
            0 <= i <= sorted@.len(),
            out@ == old(out)@ + spec_dep_lines(sorted@.take(i as int), *st),
        decreases sorted@.len() - i,
    {
        proof {
            assert(sorted@.take(i + 1).drop_last() =~= sorted@.take(i as int));
            assert(sorted@.take(i + 1).last() == sorted@[i as int]);
        }
        let line = sorted[i].write_as_text(st);
        out.append(line.as_str());
        i = i + 1;
    }
    proof {
        assert(sorted@.take(sorted@.len() as int) =~= sorted@);
    }
}

/// Renders the dependency report for one version: the dependencies of
/// each kind — runtime, then test-only, then build-time — sorted by
/// name, with the name and requirement columns aligned across all kinds.
#[verifier::rlimit(80)]
pub fn print_deps(name: &str, ver: &str, show_name: bool, deps: Vec<Dependency>) -> (r: String)
    ensures
        r@ == spec_print_deps(
            name@,
            ver@,
            show_name,
            deps@,
            spec_deps_left(deps@) as usize,
            spec_deps_right(deps@) as usize,
        ),
        spec_deps_left(deps@) >= 0 && spec_deps_right(deps@) >= 0,
{
    let ghost all = deps@;
    let mut out = String::new();
    if show_name {
        let header = NameVer(name, ver).write_as_text(&NoTextState);
        out.append(header.as_str());
    }
    if deps.len() == 0 {
        out.append("no dependencies\n");
        proof {
            lemma_widths_nonneg(all);
            assert(out@ =~= spec_print_deps(
                name@,
                ver@,
                show_name,
                all,
                spec_deps_left(all) as usize,
                spec_deps_right(all) as usize,
            ));
        }
        return out;
    }
    let ghost header_done = out@;
    let mut rest = deps;
    let mut normal: Vec<Dependency> = Vec::new();
    let mut dev: Vec<Dependency> = Vec::new();
    let mut build: Vec<Dependency> = Vec::new();
    let ghost mut i: int = 0;
    proof {
        assert(all.take(0) =~= Seq::<Dependency>::empty());
        reveal(Seq::filter);
    }
    while rest.len() > 0
        invariant
            i == all.len() - rest@.len(),
            0 <= i <= all.len(),
            rest@ == all.skip(i),
            normal@ == all.take(i).filter(kind_is(DependencyKind::Normal)),
            dev@ == all.take(i).filter(kind_is(DependencyKind::Dev)),
            build@ == all.take(i).filter(kind_is(DependencyKind::Build)),
        decreases rest@.len(),
    {
        let d = rest.remove(0);
        proof {
            assert(all.skip(i)[0] == all[i]);
            assert(all.skip(i).drop_first() =~= all.skip(i + 1));
            assert(all.take(i + 1) =~= all.take(i).push(all[i]));
            all.take(i).lemma_filter_push(all[i], kind_is(DependencyKind::Normal));
            all.take(i).lemma_filter_push(all[i], kind_is(DependencyKind::Dev));
            all.take(i).lemma_filter_push(all[i], kind_is(DependencyKind::Build));
        }
        match d.kind {
            DependencyKind::Normal => normal.push(d),
            DependencyKind::Dev => dev.push(d),
            DependencyKind::Build => build.push(d),
        }
        proof {
            i = i + 1;
        }
    }
    proof {
        assert(all.take(all.len() as int) =~= all);
    }
    let (l1, r1) = fold_widths(&normal, 0, 0);
    let (l2, r2) = fold_widths(&dev, l1, r1);
    let (left, right) = fold_widths(&build, l2, r2);
    let st2 = DepState { pad: 2, left, right };
    let st4 = DepState { pad: 4, left, right };
    if normal.len() > 0 {
        let line = DependencyKind::Normal.write_as_text(&st2);
        out.append(line.as_str());
        let sorted = crate::crates::sort_by_id(normal);
        append_dep_lines(&mut out, &sorted, &st4);
    }
    if dev.len() > 0 {
        let line = DependencyKind::Dev.write_as_text(&st2);
        out.append(line.as_str());
        let sorted = crate::crates::sort_by_id(dev);
        append_dep_lines(&mut out, &sorted, &st4);
    }
    if build.len() > 0 {
        let line = DependencyKind::Build.write_as_text(&st2);
        out.append(line.as_str());
        let sorted = crate::crates::sort_by_id(build);
        append_dep_lines(&mut out, &sorted, &st4);
    }
    proof {
        lemma_widths_nonneg(all);
        assert(left as int == spec_deps_left(all));
        assert(right as int == spec_deps_right(all));
        assert(out@ =~= spec_print_deps(
            name@,
            ver@,
            show_name,
            all,
            spec_deps_left(all) as usize,
            spec_deps_right(all) as usize,
        ));
    }
    out
}

/// Column folds never go below their start.
pub proof fn lemma_left_fold_lower(s: Seq<Dependency>, init: int)
    ensures
        spec_left_fold(s, init) >= init,
        spec_right_fold(s, init) >= init,
    decreases s.len(),
{
    if s.len() > 0 {
        lemma_left_fold_lower(s.drop_last(), init);
    }
}

proof fn lemma_widths_nonneg(deps: Seq<Dependency>)
    ensures
        spec_deps_left(deps) >= 0,
        spec_deps_right(deps) >= 0,
{
    lemma_left_fold_lower(deps.filter(kind_is(DependencyKind::Normal)), 0);
    lemma_left_fold_lower(
        deps.filter(kind_is(DependencyKind::Dev)),
        spec_left_fold(deps.filter(kind_is(DependencyKind::Normal)), 0),
    );
    lemma_left_fold_lower(
        deps.filter(kind_is(DependencyKind::Build)),
        spec_left_fold(
            deps.filter(kind_is(DependencyKind::Dev)),
            spec_left_fold(deps.filter(kind_is(DependencyKind::Normal)), 0),
        ),
    );
    lemma_left_fold_lower(
        deps.filter(kind_is(DependencyKind::Dev)),
        spec_right_fold(deps.filter(kind_is(DependencyKind::Normal)), 0),
    );
    lemma_left_fold_lower(
        deps.filter(kind_is(DependencyKind::Build)),
        spec_right_fold(
            deps.filter(kind_is(DependencyKind::Dev)),
            spec_right_fold(deps.filter(kind_is(DependencyKind::Normal)), 0),
        ),
    );
}

/// Whether every version's feature map is fit to render.
pub open spec fn versions_wf(vs: Seq<Version>) -> bool {
    forall|i: int|
        0 <= i < vs.len() ==> (#[trigger] vs[i]).text_wf(&NoTextState)
}

/// The version listing: withdrawn versions show under the short form
/// only when asked for and keep the listing going; the first version
/// shown stops the listing unless every version was asked for.
pub open spec fn spec_print_features(
    vs: Seq<Version>,
    list: bool,
    show_yanked: bool,
    short: bool,
) -> Seq<char>
    decreases vs.len(),
{
    if vs.len() == 0 {
        Seq::empty()
    } else {
        let v = vs[0];
        if short && v.yanked && show_yanked {
            "yanked: "@ + v.crate_@ + "/"@ + v.num@ + "\n"@ + spec_print_features(
                vs.drop_first(),
                list,
                show_yanked,
                short,
            )
        } else if short {
            v.crate_@ + "/"@ + v.num@ + "\n"@ + (if list {
                spec_print_features(vs.drop_first(), list, show_yanked, short)
            } else {
                Seq::empty()
            })
        } else if !v.yanked || show_yanked {
            v.spec_text(&NoTextState) + (if v.yanked && show_yanked {
                spec_print_features(vs.drop_first(), list, show_yanked, short)
            } else if list {
                spec_print_features(vs.drop_first(), list, show_yanked, short)
            } else {
                Seq::empty()
            })
        } else {
            spec_print_features(vs.drop_first(), list, show_yanked, short)
        }
    }
}

fn print_features_from(
    versions: &Vec<Version>,
    idx: usize,
    list: bool,
    show_yanked: bool,
    short: bool,
) -> (r: String)
    requires
        idx <= versions@.len(),
        versions_wf(versions@),
    ensures
        r@ == spec_print_features(versions@.skip(idx as int), list, show_yanked, short),
    decreases versions@.len() - idx,
{
    if idx == versions.len() {
        proof {
            assert(versions@.skip(idx as int) =~= Seq::<Version>::empty());
        }
        return String::new();
    }
    let v = &versions[idx];
    proof {
        assert(versions@.skip(idx as int)[0] == versions@[idx as int]);
        assert(versions@.skip(idx as int).drop_first() =~= versions@.skip(idx + 1));
    }
    let mut out = String::new();
    if short && v.yanked && show_yanked {
        let line = YankedNameVer(v.crate_.as_str(), v.num.as_str()).write_as_text(&NoTextState);
        out.append(line.as_str());
        let tail = print_features_from(versions, idx + 1, list, show_yanked, short);
        out.append(tail.as_str());
    } else if short {
        let line = NameVer(v.crate_.as_str(), v.num.as_str()).write_as_text(&NoTextState);
        out.append(line.as_str());
        if list {
            let tail = print_features_from(versions, idx + 1, list, show_yanked, short);
            out.append(tail.as_str());
        }
    } else if !v.yanked || show_yanked {
        let body = v.write_as_text(&NoTextState);
        out.append(body.as_str());
        if v.yanked && show_yanked {
            let tail = print_features_from(versions, idx + 1, list, show_yanked, short);
            out.append(tail.as_str());
        } else if list {
            let tail = print_features_from(versions, idx + 1, list, show_yanked, short);
            out.append(tail.as_str());
        }
    } else {
        let tail = print_features_from(versions, idx + 1, list, show_yanked, short);
        out.append(tail.as_str());
    }
    proof {
        assert(out@ =~= spec_print_features(versions@.skip(idx as int), list, show_yanked, short));
    }
    out
}

/// Renders a version listing: every version when `list` is set, else the
/// first one shown; withdrawn versions are skipped or marked as the
/// withdrawal filter asks; the short form prints one line per version.
pub fn print_features(versions: &Vec<Version>, list: bool, show_yanked: bool, short: bool) -> (r:
    String)
    requires
        versions_wf(versions@),
    ensures
        r@ == spec_print_features(versions@, list, show_yanked, short),
{
    proof {
        assert(versions@.skip(0) =~= versions@);
    }
    print_features_from(versions, 0, list, show_yanked, short)
}

} // verus!
