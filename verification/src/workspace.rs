//! Builds the workspace report tree: one node per package, with feature
//! and dependency subtrees, every label painted with the theme.

use vstd::prelude::*;
use vstd::string::StringExecFns;
use crate::deps::{GroupedDeps, SortedDeps, no_target, target_named, spec_sort_deps,
    spec_target_keys, grouped_from};
use crate::features::{Dependency, Features, KindMap, Workspace, features_view, feature_view,
    spec_sort_features, sorted_features, spec_get_feature, get_feature};
use crate::strutil::{lex_lt, str_lt, str_eq, string_view, spec_sort_unique, sort_unique};
use crate::theme::{Color, Theme, Options, spec_paint};
use crate::tree::{Node, NodeView, node_view};

verus! {

/// A leaf shape.
pub open spec fn leaf(text: Seq<char>) -> NodeView {
    NodeView { text, children: Seq::empty() }
}

/// The label of one dependency: the name and requirement, with the
/// rename spelled out where there is one.
pub open spec fn spec_format_dep(d: Dependency, theme: Theme) -> Seq<char> {
    match d.rename {
        Some(ren) => spec_paint(theme.name, d.name@) + " = \""@ + spec_paint(theme.version, d.req@)
            + "\" "@ + spec_paint(
            theme.renamed,
            "(renamed to "@ + spec_paint(theme.renamed_target, ren@) + ")"@,
        ),
        None => spec_paint(theme.name, d.name@) + " = \""@ + spec_paint(theme.version, d.req@)
            + "\" "@,
    }
}

/// Builds one dependency's label.
pub fn format_dep(d: &Dependency, theme: &Theme) -> (r: String)
    ensures
        r@ == spec_format_dep(*d, *theme),
{
    let mut out = theme.name.paint(d.name.as_str());
    out.append(" = \"");
    let req = theme.version.paint(d.req.as_str());
    out.append(req.as_str());
    out.append("\" ");
    match &d.rename {
        Some(ren) => {
            let mut inner = String::from_str("(renamed to ");
            let tgt = theme.renamed_target.paint(ren.as_str());
            inner.append(tgt.as_str());
            inner.append(")");
            proof {
                assert(inner@ =~= "(renamed to "@ + spec_paint(theme.renamed_target, ren@)
                    + ")"@);
            }
            let painted = theme.renamed.paint(inner.as_str());
            out.append(painted.as_str());
        },
        None => {},
    }
    proof {
        assert(out@ =~= spec_format_dep(*d, *theme));
    }
    out
}

/// Whether the name looks internal: it begins with an underscore.
pub open spec fn spec_internal(s: Seq<char>) -> bool {
    s.len() > 0 && s[0] == '_'
}

fn is_internal(s: &str) -> (r: bool)
    ensures
        r == spec_internal(s@),
{
    if s.unicode_len() == 0 {
        return false;
    }
    let c = s.get_char(0);
    proof {
        vstd::utf8::char_u32_cast(c, c as u32);
        vstd::utf8::char_u32_cast('_', '_' as u32);
    }
    c as u32 == '_' as u32
}

/// The shape of one dependency's node: its label, the enabled-features
/// marker where features are requested, and under the verbose report one
/// child per requested feature.
pub open spec fn spec_dep_node(d: Dependency, theme: Theme, verbose: bool) -> NodeView {
    let name = spec_format_dep(d, theme);
    if d.features@.len() == 0 {
        leaf(name)
    } else {
        let marked = name + spec_paint(theme.has_enabled_features, "(has enabled features)"@);
        if verbose {
            NodeView {
                text: marked,
                children: Seq::new(
                    d.features@.len(),
                    |j: int|
                        if 0 <= j < d.features@.len() {
                            leaf(
                                spec_paint(
                                    if spec_internal(d.features@[j]@) {
                                        theme.probably_internal
                                    } else {
                                        theme.dep_feature
                                    },
                                    d.features@[j]@,
                                ),
                            )
                        } else {
                            leaf(Seq::empty())
                        },
                ),
            }
        } else {
            leaf(marked)
        }
    }
}

/// Builds one dependency's node.
fn build_dep_node(d: Dependency, theme: &Theme, verbose: bool) -> (r: Node)
    ensures
        node_view(r) == spec_dep_node(d, *theme, verbose),
{
    let mut name = format_dep(&d, theme);
    if d.features.len() == 0 {
        let r = Node::empty(name);
        proof {
            assert(node_view(r).children =~= spec_dep_node(d, *theme, verbose).children);
            assert(node_view(r).text == spec_dep_node(d, *theme, verbose).text);
            assert(node_view(r) =~= spec_dep_node(d, *theme, verbose));
        }
        return r;
    }
    let marker = theme.has_enabled_features.paint("(has enabled features)");
    name.append(marker.as_str());
    if verbose {
        let mut children: Vec<Node> = Vec::new();
        let mut j: usize = 0;
        while j < d.features.len()
            invariant
                0 <= j <= d.features@.len(),
                children@.len() == j,
                forall|m: int|
                    0 <= m < j ==> node_view(#[trigger] children@[m]) == leaf(
                        spec_paint(
                            if spec_internal(d.features@[m]@) {
                                (*theme).probably_internal
                            } else {
                                (*theme).dep_feature
                            },
                            d.features@[m]@,
                        ),
                    ),
            decreases d.features@.len() - j,
        {
            let fs = d.features[j].as_str();
            let color = if is_internal(fs) {
                theme.probably_internal
            } else {
                theme.dep_feature
            };
            let painted = color.paint(fs);
            let child = Node::empty(painted);
            proof {
                crate::tree::lemma_node_view_children(child);
                assert(node_view(child).children =~= leaf(child.text@).children);
                assert(node_view(child) =~= leaf(child.text@));
            }
            children.push(child);
            j = j + 1;
        }
        let r = Node::new(name, children);
        proof {
            crate::tree::lemma_node_view_children(r);
            let sv = spec_dep_node(d, *theme, verbose);
            assert forall|m: int| 0 <= m < node_view(r).children.len() implies node_view(
                r,
            ).children[m] == sv.children[m] by {
                assert(node_view(r).children[m] == node_view(r.children@[m]));
            }
            assert(node_view(r).children =~= sv.children);
            assert(node_view(r) =~= sv);
        }
        r
    } else {
        let r = Node::empty(name);
        proof {
            crate::tree::lemma_node_view_children(r);
            assert(node_view(r).children =~= spec_dep_node(d, *theme, verbose).children);
            assert(node_view(r) =~= spec_dep_node(d, *theme, verbose));
        }
        r
    }
}

/// The shapes of a dependency list's nodes, in order.
pub open spec fn spec_build_features(deps: Seq<Dependency>, theme: Theme, verbose: bool) -> Seq<
    NodeView,
> {
    Seq::new(
        deps.len(),
        |i: int|
            if 0 <= i < deps.len() {
                spec_dep_node(deps[i], theme, verbose)
            } else {
                leaf(Seq::empty())
            },
    )
}

/// Builds the nodes of a dependency list.
fn build_features(deps: Vec<Dependency>, theme: &Theme, verbose: bool) -> (r: Vec<Node>)
    ensures
        r@.len() == deps@.len(),
        forall|i: int|
            0 <= i < r@.len() ==> node_view(#[trigger] r@[i]) == spec_build_features(
                deps@,
                *theme,
                verbose,
            )[i],
{
    let ghost all = deps@;
    let mut rest = deps;
    let mut out: Vec<Node> = Vec::new();
    let ghost mut i: int = 0;
    while rest.len() > 0
        invariant
            i == all.len() - rest@.len(),
            0 <= i <= all.len(),
            rest@ == all.skip(i),
            out@.len() == i,
            forall|m: int|
                0 <= m < i ==> node_view(#[trigger] out@[m]) == spec_dep_node(
                    all[m],
                    *theme,
                    verbose,
                ),
        decreases rest@.len(),
    {
        let d = rest.remove(0);
        proof {
            assert(all.skip(i)[0] == all[i]);
            assert(all.skip(i).drop_first() =~= all.skip(i + 1));
        }
        let node = build_dep_node(d, theme, verbose);
        out.push(node);
        proof {
            i = i + 1;
        }
    }
    out
}

/// The children of a grouped dependency tree: one node per target, its
/// children the target's dependencies, then the unrestricted
/// dependencies themselves.
pub open spec fn spec_grouped_children(
    g: GroupedDeps,
    theme: Theme,
    verbose: bool,
) -> Seq<NodeView> {
    Seq::new(
        g.with_targets@.len(),
        |i: int|
            if 0 <= i < g.with_targets@.len() {
                NodeView {
                    text: "for "@ + spec_paint(theme.target, g.with_targets@[i].0@),
                    children: spec_build_features(g.with_targets@[i].1@, theme, verbose),
                }
            } else {
                leaf(Seq::empty())
            },
    ) + spec_build_features(g.without_targets@, theme, verbose)
}

/// The shape of a grouped dependency tree under its heading.
pub open spec fn spec_features_tree(
    text: Seq<char>,
    g: GroupedDeps,
    theme: Theme,
    verbose: bool,
) -> NodeView {
    NodeView { text, children: spec_grouped_children(g, theme, verbose) }
}

/// Builds the tree of one grouped dependency list under a heading.
fn build_features_tree(text: String, g: GroupedDeps, theme: &Theme, verbose: bool) -> (r: Node)
    ensures
        node_view(r) == spec_features_tree(text@, g, *theme, verbose),
{
    let ghost g0 = g;
    let GroupedDeps { with_targets, without_targets } = g;
    let ghost wt = with_targets@;
    let mut rest = with_targets;
    let mut children: Vec<Node> = Vec::new();
    let ghost mut i: int = 0;
    while rest.len() > 0
        invariant
            i == wt.len() - rest@.len(),
            0 <= i <= wt.len(),
            rest@ == wt.skip(i),
            children@.len() == i,
            forall|m: int|
                0 <= m < i ==> node_view(#[trigger] children@[m]) == (NodeView {
                    text: "for "@ + spec_paint((*theme).target, wt[m].0@),
                    children: spec_build_features(wt[m].1@, *theme, verbose),
                }),
        decreases rest@.len(),
    {
        let (key, list) = rest.remove(0);
        proof {
            assert(wt.skip(i)[0] == wt[i]);
            assert(wt.skip(i).drop_first() =~= wt.skip(i + 1));
        }
        let mut label = String::from_str("for ");
        let painted = theme.target.paint(key.as_str());
        label.append(painted.as_str());
        proof {
            assert(label@ =~= "for "@ + spec_paint((*theme).target, wt[i].0@));
        }
        let sub = build_features(list, theme, verbose);
        let node = Node::new(label, sub);
        proof {
            crate::tree::lemma_node_view_children(node);
            let sv = NodeView {
                text: "for "@ + spec_paint((*theme).target, wt[i].0@),
                children: spec_build_features(wt[i].1@, *theme, verbose),
            };
            assert forall|m: int| 0 <= m < node_view(node).children.len() implies node_view(
                node,
            ).children[m] == sv.children[m] by {
                assert(node_view(node).children[m] == node_view(node.children@[m]));
            }
            assert(node_view(node).children =~= sv.children);
            assert(node_view(node) =~= sv);
        }
        children.push(node);
        proof {
            i = i + 1;
        }
    }
    let mut tail = build_features(without_targets, theme, verbose);
    let ghost children_before = children@;
    let ghost tail_view = tail@;
    let ghost mut t: int = 0;
    while tail.len() > 0
        invariant
            t == tail_view.len() - tail@.len(),
            0 <= t <= tail_view.len(),
            tail@ == tail_view.skip(t),
            children@.len() == children_before.len() + t,
            forall|m: int|
                0 <= m < children@.len() ==> node_view(#[trigger] children@[m]) == (if m
                    < children_before.len() {
                    node_view(children_before[m])
                } else {
                    node_view(tail_view[m - children_before.len()])
                }),
        decreases tail@.len(),
    {
        proof {
            assert(tail_view.skip(t)[0] == tail_view[t]);
            assert(tail_view.skip(t).drop_first() =~= tail_view.skip(t + 1));
        }
        let node = tail.remove(0);
        children.push(node);
        proof {
            t = t + 1;
        }
    }
    let r = Node::new(text, children);
    proof {
        crate::tree::lemma_node_view_children(r);
        let sv = spec_features_tree(r.text@, g0, *theme, verbose);
        assert(children_before.len() == wt.len());
        assert(sv.children.len() == wt.len() + g0.without_targets@.len());
        assert(node_view(r).children.len() == sv.children.len());
        assert forall|m: int| 0 <= m < node_view(r).children.len() implies node_view(
            r,
        ).children[m] == sv.children[m] by {
            assert(node_view(r).children[m] == node_view(r.children@[m]));
            if m >= children_before.len() {
                let k = m - children_before.len();
                assert(node_view(tail_view[k]) == spec_build_features(
                    g0.without_targets@,
                    *theme,
                    verbose,
                )[k]);
            }
        }
        assert(node_view(r).children =~= sv.children);
        assert(node_view(r) =~= sv);
    }
    r
}

/// The children a grouped dependency list is shown with, computed from
/// the list itself: one node per distinct target key, then the
/// unrestricted dependencies, every list sorted by name.
pub open spec fn spec_grouped_children_of(
    deps: Seq<Dependency>,
    theme: Theme,
    verbose: bool,
) -> Seq<NodeView> {
    let keys = spec_target_keys(deps);
    Seq::new(
        keys.len(),
        |i: int|
            if 0 <= i < keys.len() {
                NodeView {
                    text: "for "@ + spec_paint(theme.target, keys[i]@),
                    children: spec_build_features(
                        spec_sort_deps(deps.filter(target_named(keys[i]@))),
                        theme,
                        verbose,
                    ),
                }
            } else {
                leaf(Seq::empty())
            },
    ) + spec_build_features(spec_sort_deps(deps.filter(no_target())), theme, verbose)
}

/// A categorized group shows exactly the children its input list
/// prescribes.
proof fn lemma_grouped_children(g: GroupedDeps, deps: Seq<Dependency>, theme: Theme, verbose: bool)
    requires
        grouped_from(g, deps),
    ensures
        spec_grouped_children(g, theme, verbose) == spec_grouped_children_of(deps, theme, verbose),
{
    let keys = spec_target_keys(deps);
    let km = g.with_targets@.map_values(|p: (String, Vec<Dependency>)| p.0);
    assert(km.len() == g.with_targets@.len());
    assert(spec_grouped_children(g, theme, verbose) =~= spec_grouped_children_of(
        deps,
        theme,
        verbose,
    )) by {
        assert forall|i: int|
            0 <= i < spec_grouped_children(g, theme, verbose).len() implies spec_grouped_children(
            g,
            theme,
            verbose,
        )[i] == spec_grouped_children_of(deps, theme, verbose)[i] by {
            if i < g.with_targets@.len() {
                assert(km[i] == g.with_targets@[i].0);
                assert(keys[i] == km[i]);
                assert(g.with_targets@[i].1@ == spec_sort_deps(
                    deps.filter(target_named(g.with_targets@[i].0@)),
                ));
            }
        }
    }
}

/// Whether a grouped list has any dependency at all, in terms of the
/// input list.
pub open spec fn spec_has_deps(deps: Seq<Dependency>) -> bool {
    !(spec_target_keys(deps).len() == 0 && spec_sort_deps(deps.filter(no_target())).len() == 0)
}

/// The optional-dependency node of one package: the marker leaf when the
/// runtime-optional list is empty, else the grouped tree under its
/// heading.
pub open spec fn spec_opt_deps_node(deps: Seq<Dependency>, theme: Theme, verbose: bool) -> NodeView {
    if !spec_has_deps(deps) {
        leaf(spec_paint(theme.no_optional_deps, "no optional dependencies"@))
    } else {
        NodeView {
            text: spec_paint(theme.optional_deps, "optional dependencies"@),
            children: spec_grouped_children_of(deps, theme, verbose),
        }
    }
}

/// Builds the optional-dependency node from the optional kind map; only
/// the runtime-optional dependencies are shown, as the report does.
pub fn make_opt_deps_node(optional_deps: KindMap, theme: &Theme, verbose: bool) -> (r: Node)
    ensures
        node_view(r) == spec_opt_deps_node(optional_deps.normal@, *theme, verbose),
{
    let ghost deps = optional_deps.normal@;
    let sorted = SortedDeps::from_kind_map(optional_deps);
    if !sorted.normal.has_deps() {
        let label = theme.no_optional_deps.paint("no optional dependencies");
        let r = Node::empty(label);
        proof {
            crate::tree::lemma_node_view_children(r);
            assert(node_view(r).children =~= spec_opt_deps_node(deps, *theme, verbose).children);
            assert(node_view(r) =~= spec_opt_deps_node(deps, *theme, verbose));
        }
        r
    } else {
        let label = theme.optional_deps.paint("optional dependencies");
        let ghost g0 = sorted.normal;
        let r = build_features_tree(label, sorted.normal, theme, verbose);
        proof {
            lemma_grouped_children(g0, deps, *theme, verbose);
            assert(node_view(r) =~= spec_opt_deps_node(deps, *theme, verbose));
        }
        r
    }
}

/// One kind's node of the required-dependency tree: its grouped tree
/// under the kind's heading, or the marker leaf when the kind is empty.
pub open spec fn spec_kind_node(
    deps: Seq<Dependency>,
    heading: Seq<char>,
    heading_color: Color,
    empty_text: Seq<char>,
    empty_color: Color,
    theme: Theme,
    verbose: bool,
) -> NodeView {
    if spec_has_deps(deps) {
        NodeView {
            text: spec_paint(heading_color, heading),
            children: spec_grouped_children_of(deps, theme, verbose),
        }
    } else {
        leaf(spec_paint(empty_color, empty_text))
    }
}

/// The required-dependency node of one package: the marker leaf when no
/// kind has a dependency, else one node per kind — runtime, development,
/// build — each a grouped tree or its own marker leaf.
pub open spec fn spec_deps_node(
    normal: Seq<Dependency>,
    development: Seq<Dependency>,
    build: Seq<Dependency>,
    theme: Theme,
    verbose: bool,
) -> NodeView {
    if !spec_has_deps(normal) && !spec_has_deps(development) && !spec_has_deps(build) {
        leaf(spec_paint(theme.no_required_deps, "no required dependencies"@))
    } else {
        NodeView {
            text: spec_paint(theme.required_deps, "required dependencies"@),
            children: seq![
                spec_kind_node(
                    normal,
                    "normal"@,
                    theme.normal_deps,
                    "no normal dependencies"@,
                    theme.no_required_deps,
                    theme,
                    verbose,
                ),
                spec_kind_node(
                    development,
                    "development"@,
                    theme.dev_deps,
                    "no development dependencies"@,
                    theme.no_dev_deps,
                    theme,
                    verbose,
                ),
                spec_kind_node(
                    build,
                    "build"@,
                    theme.build_deps,
                    "no build dependencies"@,
                    theme.no_build_deps,
                    theme,
                    verbose,
                ),
            ],
        }
    }
}

/// Builds the required-dependency node from the required kind map.
pub fn make_deps_node(required_deps: KindMap, theme: &Theme, verbose: bool) -> (r: Node)
    ensures
        node_view(r) == spec_deps_node(
            required_deps.normal@,
            required_deps.development@,
            required_deps.build@,
            *theme,
            verbose,
        ),
{
    let ghost dn = required_deps.normal@;
    let ghost dd = required_deps.development@;
    let ghost db = required_deps.build@;
    let sorted = SortedDeps::from_kind_map(required_deps);
    let SortedDeps { normal, development, build } = sorted;
    let ghost gn = normal;
    let ghost gd = development;
    let ghost gb = build;
    if !normal.has_deps() && !development.has_deps() && !build.has_deps() {
        let label = theme.no_required_deps.paint("no required dependencies");
        let r = Node::empty(label);
        proof {
            crate::tree::lemma_node_view_children(r);
            assert(node_view(r).children =~= spec_deps_node(dn, dd, db, *theme, verbose).children);
            assert(node_view(r) =~= spec_deps_node(dn, dd, db, *theme, verbose));
        }
        return r;
    }
    let mut nodes: Vec<Node> = Vec::new();
    if normal.has_deps() {
        let heading = theme.normal_deps.paint("normal");
        let node = build_features_tree(heading, normal, theme, verbose);
        proof {
            lemma_grouped_children(gn, dn, *theme, verbose);
        }
        nodes.push(node);
    } else {
        let label = theme.no_required_deps.paint("no normal dependencies");
        let node = Node::empty(label);
        proof {
            crate::tree::lemma_node_view_children(node);
            assert(node_view(node).children =~= Seq::<NodeView>::empty());
        }
        nodes.push(node);
    }
    if development.has_deps() {
        let heading = theme.dev_deps.paint("development");
        let node = build_features_tree(heading, development, theme, verbose);
        proof {
            lemma_grouped_children(gd, dd, *theme, verbose);
        }
        nodes.push(node);
    } else {
        let label = theme.no_dev_deps.paint("no development dependencies");
        let node = Node::empty(label);
        proof {
            crate::tree::lemma_node_view_children(node);
            assert(node_view(node).children =~= Seq::<NodeView>::empty());
        }
        nodes.push(node);
    }
    if build.has_deps() {
        let heading = theme.build_deps.paint("build");
        let node = build_features_tree(heading, build, theme, verbose);
        proof {
            lemma_grouped_children(gb, db, *theme, verbose);
        }
        nodes.push(node);
    } else {
        let label = theme.no_build_deps.paint("no build dependencies");
        let node = Node::empty(label);
        proof {
            crate::tree::lemma_node_view_children(node);
            assert(node_view(node).children =~= Seq::<NodeView>::empty());
        }
        nodes.push(node);
    }
    let heading = theme.required_deps.paint("required dependencies");
    let r = Node::new(heading, nodes);
    proof {
        crate::tree::lemma_node_view_children(r);
        let sv = spec_deps_node(dn, dd, db, *theme, verbose);
        assert(node_view(r).children.len() == 3);
        assert(node_view(r).children[0] == node_view(r.children@[0]));
        assert(node_view(r).children[1] == node_view(r.children@[1]));
        assert(node_view(r).children[2] == node_view(r.children@[2]));
        assert(node_view(r).children[0] =~= sv.children[0]);
        assert(node_view(r).children[1] =~= sv.children[1]);
        assert(node_view(r).children[2] =~= sv.children[2]);
        assert(node_view(r).children =~= sv.children);
        assert(node_view(r) =~= sv);
    }
    r
}

/// Selects the feature entries other than "default".
pub open spec fn not_default() -> spec_fn((Seq<char>, Seq<Seq<char>>)) -> bool {
    |e: (Seq<char>, Seq<Seq<char>>)| e.0 != "default"@
}

/// The node of one feature entry: the name — marked internal when it
/// starts with an underscore, annotated when the default set activates
/// it — and, under the verbose report, one child per implied name.
pub open spec fn spec_feature_entry_node(
    e: (Seq<char>, Seq<Seq<char>>),
    theme: Theme,
    verbose: bool,
    has_default: bool,
    default_set: Seq<Seq<char>>,
) -> NodeView {
    let implied = spec_sort_unique(e.1);
    let ktext = if spec_internal(e.0) {
        spec_paint(theme.probably_internal, e.0)
    } else if has_default && default_set.contains(e.0) {
        spec_paint(theme.feature_name, e.0) + " ("@ + spec_paint(theme.default, "default"@) + ")"@
    } else {
        spec_paint(theme.feature_name, e.0)
    };
    if implied.len() == 0 || !verbose {
        leaf(ktext)
    } else {
        NodeView {
            text: ktext,
            children: Seq::new(
                implied.len(),
                |j: int|
                    if 0 <= j < implied.len() {
                        leaf(
                            spec_paint(
                                if spec_internal(implied[j]) {
                                    theme.probably_internal
                                } else {
                                    theme.feature_implies
                                },
                                implied[j],
                            ),
                        )
                    } else {
                        leaf(Seq::empty())
                    },
            ),
        }
    }
}

/// The feature node of one package: the marker leaf when the map is
/// empty; else the "default" node — the default set's names, or the
/// no-default marker — followed by the other features sorted by name.
pub open spec fn spec_features_node(
    fview: Seq<(Seq<char>, Seq<Seq<char>>)>,
    theme: Theme,
    verbose: bool,
) -> NodeView {
    let sorted = spec_sort_features(fview);
    if sorted.len() == 0 {
        leaf(spec_paint(theme.no_features, "no features"@))
    } else {
        let dflt = spec_get_feature(sorted, "default"@);
        let has_default = dflt is Some && dflt->0.len() > 0;
        let default_set: Seq<Seq<char>> = if has_default {
            spec_sort_unique(dflt->0)
        } else {
            Seq::empty()
        };
        let default_node = if has_default {
            NodeView {
                text: spec_paint(theme.default, "default"@),
                children: Seq::new(
                    default_set.len(),
                    |j: int|
                        if 0 <= j < default_set.len() {
                            leaf(spec_paint(theme.feature_implies, default_set[j]))
                        } else {
                            leaf(Seq::empty())
                        },
                ),
            }
        } else {
            leaf(spec_paint(theme.no_default_features, "no default features"@))
        };
        let rest = sorted.filter(not_default());
        NodeView {
            text: spec_paint(theme.features, "features"@),
            children: seq![default_node] + Seq::new(
                rest.len(),
                |i: int|
                    if 0 <= i < rest.len() {
                        spec_feature_entry_node(rest[i], theme, verbose, has_default, default_set)
                    } else {
                        leaf(Seq::empty())
                    },
            ),
        }
    }
}

/// Builds a leaf list of painted names.
fn build_painted_leaves(items: &Vec<String>, base: Color, internal: Color) -> (r: Vec<Node>)
    ensures
        r@.len() == items@.len(),
        forall|m: int|
            0 <= m < items@.len() ==> node_view(#[trigger] r@[m]) == leaf(
                spec_paint(
                    if spec_internal(items@[m]@) {
                        internal
                    } else {
                        base
                    },
                    items@[m]@,
                ),
            ),
{
    let mut out: Vec<Node> = Vec::new();
    let mut j: usize = 0;
    while j < items.len()
        invariant
            0 <= j <= items@.len(),
            out@.len() == j,
            forall|m: int|
                0 <= m < j ==> node_view(#[trigger] out@[m]) == leaf(
                    spec_paint(
                        if spec_internal(items@[m]@) {
                            internal
                        } else {
                            base
                        },
                        items@[m]@,
                    ),
                ),
        decreases items@.len() - j,
    {
        let s = items[j].as_str();
        let color = if is_internal(s) {
            internal
        } else {
            base
        };
        let painted = color.paint(s);
        let node = Node::empty(painted);
        proof {
            crate::tree::lemma_node_view_children(node);
            assert(node_view(node).children =~= Seq::<NodeView>::empty());
            assert(node_view(node) =~= leaf(node.text@));
        }
        out.push(node);
        j = j + 1;
    }
    out
}

/// Builds one feature entry's node.
fn build_feature_entry(
    name: &String,
    implied: &Vec<String>,
    theme: &Theme,
    verbose: bool,
    has_default: bool,
    default_set: &Vec<String>,
    Ghost(dsv): Ghost<Seq<Seq<char>>>,
) -> (r: Node)
    requires
        dsv == default_set@.map_values(crate::strutil::string_view()),
    ensures
        node_view(r) == spec_feature_entry_node(
            (name@, implied@.map_values(crate::strutil::string_view())),
            *theme,
            verbose,
            has_default,
            dsv,
        ),
{
    let implied_sorted = sort_unique(implied);
    let ktext = if is_internal(name.as_str()) {
        theme.probably_internal.paint(name.as_str())
    } else if has_default && crate::strutil::contains_str(default_set, name.as_str()) {
        let mut t = theme.feature_name.paint(name.as_str());
        t.append(" (");
        let d = theme.default.paint("default");
        t.append(d.as_str());
        t.append(")");
        t
    } else {
        theme.feature_name.paint(name.as_str())
    };
    let ghost e = (name@, implied@.map_values(crate::strutil::string_view()));
    let ghost sv = spec_feature_entry_node(e, *theme, verbose, has_default, dsv);
    if implied_sorted.len() == 0 || !verbose {
        let r = Node::empty(ktext);
        proof {
            crate::tree::lemma_node_view_children(r);
            assert(node_view(r).children =~= sv.children);
            assert(node_view(r) =~= sv);
        }
        r
    } else {
        let children = build_painted_leaves(&implied_sorted, theme.feature_implies,
            theme.probably_internal);
        let r = Node::new(ktext, children);
        proof {
            crate::tree::lemma_node_view_children(r);
            let isv = implied_sorted@.map_values(crate::strutil::string_view());
            assert(isv == spec_sort_unique(e.1));
            assert forall|m: int| 0 <= m < node_view(r).children.len() implies node_view(
                r,
            ).children[m] == sv.children[m] by {
                assert(node_view(r).children[m] == node_view(r.children@[m]));
                assert(isv[m] == implied_sorted@[m]@);
            }
            assert(node_view(r).children =~= sv.children);
            assert(node_view(r) =~= sv);
        }
        r
    }
}

/// Builds the feature node of one package from its feature map.
pub fn make_features_node(features: &Vec<(String, Vec<String>)>, theme: &Theme, verbose: bool) -> (
    r: Node)
    ensures
        node_view(r) == spec_features_node(features_view(features@), *theme, verbose),
{
    let ghost fv = features_view(features@);
    let ghost sortedv = spec_sort_features(fv);
    let sorted = sorted_features(features);
    if sorted.len() == 0 {
        let label = theme.no_features.paint("no features");
        let r = Node::empty(label);
        proof {
            crate::tree::lemma_node_view_children(r);
            assert(node_view(r).children =~= spec_features_node(fv, *theme, verbose).children);
            assert(node_view(r) =~= spec_features_node(fv, *theme, verbose));
        }
        return r;
    }
    let mut has_default = false;
    let mut default_set: Vec<String> = Vec::new();
    match get_feature(&sorted, "default") {
        Some(def) => {
            if def.len() > 0 {
                has_default = true;
                default_set = sort_unique(def);
            }
        },
        None => {},
    }
    let ghost dsv: Seq<Seq<char>> = if has_default {
        spec_sort_unique(spec_get_feature(sortedv, "default"@)->0)
    } else {
        Seq::empty()
    };
    proof {
        assert(default_set@.map_values(crate::strutil::string_view()) == dsv);
    }
    let default_node = if has_default {
        let children = build_painted_leaves(&default_set, theme.feature_implies,
            theme.feature_implies);
        let heading = theme.default.paint("default");
        let node = Node::new(heading, children);
        proof {
            crate::tree::lemma_node_view_children(node);
            let sv = spec_features_node(fv, *theme, verbose);
            assert forall|m: int| 0 <= m < node_view(node).children.len() implies node_view(
                node,
            ).children[m] == sv.children[0].children[m] by {
                assert(node_view(node).children[m] == node_view(node.children@[m]));
                assert(dsv[m] == default_set@[m]@);
            }
            assert(node_view(node).children =~= sv.children[0].children);
            assert(node_view(node) =~= sv.children[0]);
        }
        node
    } else {
        let label = theme.no_default_features.paint("no default features");
        let node = Node::empty(label);
        proof {
            crate::tree::lemma_node_view_children(node);
            let sv = spec_features_node(fv, *theme, verbose);
            assert(node_view(node).children =~= sv.children[0].children);
            assert(node_view(node) =~= sv.children[0]);
        }
        node
    };
    let mut children: Vec<Node> = Vec::new();
    children.push(default_node);
    let ghost rest = sortedv.filter(not_default());
    let ghost svw = features_view(sorted@);
    let mut i: usize = 0;
    proof {
        assert(svw.take(0) =~= Seq::<(Seq<char>, Seq<Seq<char>>)>::empty());
        reveal(Seq::filter);
        assert(svw.take(0).filter(not_default()) =~= Seq::<(Seq<char>, Seq<Seq<char>>)>::empty());
    }
    while i < sorted.len()
        invariant
            svw == features_view(sorted@),
            svw == sortedv,
            svw.len() == sorted@.len(),
            0 <= i <= sorted@.len(),
            has_default == (spec_get_feature(sortedv, "default"@) is Some && spec_get_feature(
                sortedv,
                "default"@,
            )->0.len() > 0),
            dsv == default_set@.map_values(crate::strutil::string_view()),
            dsv == (if has_default {
                spec_sort_unique(spec_get_feature(sortedv, "default"@)->0)
            } else {
                Seq::<Seq<char>>::empty()
            }),
            children@.len() == 1 + svw.take(i as int).filter(not_default()).len(),
            node_view(children@[0]) == spec_features_node(fv, *theme, verbose).children[0],
            forall|m: int|
                1 <= m < children@.len() ==> node_view(#[trigger] children@[m])
                    == spec_feature_entry_node(
                    svw.take(i as int).filter(not_default())[m - 1],
                    *theme,
                    verbose,
                    has_default,
                    dsv,
                ),
        decreases sorted@.len() - i,
    {
        proof {
            assert(svw.take(i + 1) =~= svw.take(i as int).push(svw[i as int]));
            svw.take(i as int).lemma_filter_push(svw[i as int], not_default());
            assert(svw[i as int] == feature_view()(sorted@[i as int]));
        }
        let entry = &sorted[i];
        if !str_eq(entry.0.as_str(), "default") {
            let ghost pre = children@;
            let node = build_feature_entry(&entry.0, &entry.1, theme, verbose, has_default,
                &default_set, Ghost(dsv));
            children.push(node);
            proof {
                assert forall|m: int|
                    1 <= m < children@.len() implies node_view(#[trigger] children@[m])
                    == spec_feature_entry_node(
                    svw.take(i + 1).filter(not_default())[m - 1],
                    *theme,
                    verbose,
                    has_default,
                    dsv,
                ) by {
                    if m < children@.len() - 1 {
                        assert(children@[m] == pre[m]);
                        assert(svw.take(i + 1).filter(not_default())[m - 1] == svw.take(
                            i as int,
                        ).filter(not_default())[m - 1]);
                    } else {
                        assert(svw.take(i + 1).filter(not_default()).last() == svw[i as int]);
                    }
                }
            }
        }
        i = i + 1;
    }
    proof {
        assert(svw.take(svw.len() as int) =~= svw);
    }
    let heading = theme.features.paint("features");
    let r = Node::new(heading, children);
    proof {
        crate::tree::lemma_node_view_children(r);
        let sv = spec_features_node(fv, *theme, verbose);
        assert forall|m: int| 0 <= m < node_view(r).children.len() implies node_view(
            r,
        ).children[m] == sv.children[m] by {
            assert(node_view(r).children[m] == node_view(r.children@[m]));
        }
        assert(node_view(r).children =~= sv.children);
        assert(node_view(r) =~= sv);
    }
    r
}

/// The header of one package's node: the name and version, with the
/// restricted marker when the package may not be published.
pub open spec fn spec_child_header(f: Features, theme: Theme) -> Seq<char> {
    spec_paint(theme.name, f.name@) + " = \""@ + spec_paint(theme.version, f.version@) + "\""@ + (
    if f.published {
        Seq::empty()
    } else {
        " "@ + spec_paint(theme.is_not_published, "(restricted)"@)
    })
}

/// The node of one package, where the report shows it at all: its
/// header, then — as the options ask — its features, its optional
/// dependencies, and its required dependencies. A package that may not
/// be published is left out unless private packages were asked for.
pub open spec fn spec_child_node(f: Features, o: Options, theme: Theme) -> Option<NodeView> {
    if !f.published && !o.show_private {
        Option::None
    } else {
        Option::Some(
            NodeView {
                text: spec_child_header(f, theme),
                children: (if o.print_features {
                    seq![spec_features_node(features_view(f.features@), theme, o.verbose)]
                } else {
                    Seq::empty()
                }) + (if o.verbose || (!o.print_features && o.show_deps) {
                    seq![spec_opt_deps_node(f.optional_deps.normal@, theme, o.verbose)]
                } else {
                    Seq::empty()
                }) + (if o.show_deps {
                    seq![
                        spec_deps_node(
                            f.required_deps.normal@,
                            f.required_deps.development@,
                            f.required_deps.build@,
                            theme,
                            o.verbose,
                        ),
                    ]
                } else {
                    Seq::empty()
                }),
            },
        )
    }
}

/// Builds one package's node, or nothing when the package is private and
/// private packages were not asked for.
pub fn make_child_node(features: Features, options: &Options, theme: &Theme) -> (r: Option<Node>)
    ensures
        match r {
            Some(n) => spec_child_node(features, *options, *theme) == Some(node_view(n)),
            None => spec_child_node(features, *options, *theme) is None,
        },
{
    let ghost f0 = features;
    if !features.published && !options.show_private {
        return None;
    }
    let Features { name, version, published, features: fmap, optional_deps, required_deps } =
        features;
    let mut header = theme.name.paint(name.as_str());
    header.append(" = \"");
    let ver = theme.version.paint(version.as_str());
    header.append(ver.as_str());
    header.append("\"");
    if !published {
        header.append(" ");
        let marker = theme.is_not_published.paint("(restricted)");
        header.append(marker.as_str());
    }
    proof {
        assert(header@ =~= spec_child_header(f0, *theme));
    }
    let mut parent = Node::empty(header);
    if options.print_features {
        let node = make_features_node(&fmap, theme, options.verbose);
        parent.add_child(node);
    }
    if options.verbose || (!options.print_features && options.show_deps) {
        let node = make_opt_deps_node(optional_deps, theme, options.verbose);
        parent.add_child(node);
    } else {
        let _ = optional_deps;
    }
    if options.show_deps {
        let node = make_deps_node(required_deps, theme, options.verbose);
        parent.add_child(node);
    } else {
        let _ = required_deps;
    }
    proof {
        crate::tree::lemma_node_view_children(parent);
        let sv = spec_child_node(f0, *options, *theme)->0;
        assert forall|m: int| 0 <= m < node_view(parent).children.len() implies node_view(
            parent,
        ).children[m] == sv.children[m] by {
            assert(node_view(parent).children[m] == node_view(parent.children@[m]));
        }
        assert(node_view(parent).children =~= sv.children);
        assert(node_view(parent) =~= sv);
    }
    Some(parent)
}

/// Stable insertion of a package into a list sorted by package name.
pub open spec fn spec_insert_member(s: Seq<Features>, f: Features) -> Seq<Features>
    decreases s.len(),
{
    if s.len() == 0 {
        seq![f]
    } else if lex_lt(f.name@, s[0].name@) {
        seq![f] + s
    } else {
        seq![s[0]] + spec_insert_member(s.drop_first(), f)
    }
}

/// Stable insertion sort of packages by name.
pub open spec fn spec_sort_members(s: Seq<Features>) -> Seq<Features>
    decreases s.len(),
{
    if s.len() == 0 {
        Seq::empty()
    } else {
        spec_insert_member(spec_sort_members(s.drop_last()), s.last())
    }
}

proof fn lemma_insert_member_at(s: Seq<Features>, f: Features, j: int)
    requires
        0 <= j <= s.len(),
        forall|m: int| 0 <= m < j ==> !lex_lt(f.name@, #[trigger] s[m].name@),
        j < s.len() ==> lex_lt(f.name@, s[j].name@),
    ensures
        spec_insert_member(s, f) == s.take(j) + seq![f] + s.skip(j),
    decreases j,
{
    if j == 0 {
        assert(spec_insert_member(s, f) =~= s.take(0) + seq![f] + s.skip(0));
    } else {
        lemma_insert_member_at(s.drop_first(), f, j - 1);
        assert(s.drop_first().take(j - 1) =~= s.take(j).drop_first());
        assert(s.drop_first().skip(j - 1) =~= s.skip(j));
        assert(seq![s[0]] + spec_insert_member(s.drop_first(), f) =~= s.take(j) + seq![f] + s.skip(
            j,
        ));
    }
}

fn find_member_pos(list: &Vec<Features>, name: &str) -> (j: usize)
    ensures
        0 <= j <= list@.len(),
        forall|m: int| 0 <= m < j ==> !lex_lt(name@, #[trigger] list@[m].name@),
        j < list@.len() ==> lex_lt(name@, list@[j as int].name@),
{
    let mut j: usize = 0;
    while j < list.len()
        invariant
            0 <= j <= list@.len(),
            forall|m: int| 0 <= m < j ==> !lex_lt(name@, #[trigger] list@[m].name@),
        decreases list@.len() - j,
    {
        if str_lt(name, list[j].name.as_str()) {
            return j;
        }
        j = j + 1;
    }
    j
}

/// Sorts the packages by name, byte-wise ascending; equal names keep
/// their input order.
pub fn sort_members(v: Vec<Features>) -> (r: Vec<Features>)
    ensures
        r@ == spec_sort_members(v@),
{
    let ghost all = v@;
    let mut rest = v;
    let mut result: Vec<Features> = Vec::new();
    let ghost mut i: int = 0;
    proof {
        assert(all.take(0) =~= Seq::<Features>::empty());
    }
    while rest.len() > 0
        invariant
            i == all.len() - rest@.len(),
            0 <= i <= all.len(),
            rest@ == all.skip(i),
            result@ == spec_sort_members(all.take(i)),
        decreases rest@.len(),
    {
        let f = rest.remove(0);
        proof {
            assert(all.skip(i)[0] == all[i]);
            assert(all.skip(i).drop_first() =~= all.skip(i + 1));
            assert(all.take(i + 1).drop_last() =~= all.take(i));
            assert(all.take(i + 1).last() == all[i]);
        }
        let j = find_member_pos(&result, f.name.as_str());
        proof {
            lemma_insert_member_at(result@, f, j as int);
        }
        let ghost pre = result@;
        result.insert(j, f);
        proof {
            assert(pre.insert(j as int, f) =~= pre.take(j as int) + seq![f] + pre.skip(j as int));
            i = i + 1;
        }
    }
    proof {
        assert(all.take(all.len() as int) =~= all);
    }
    result
}

/// Member insertion grows the list by one.
proof fn lemma_insert_member_len(s: Seq<Features>, f: Features)
    ensures
        spec_insert_member(s, f).len() == s.len() + 1,
    decreases s.len(),
{
    if s.len() > 0 && !lex_lt(f.name@, s[0].name@) {
        lemma_insert_member_len(s.drop_first(), f);
    }
}

/// Sorting the members keeps their number.
proof fn lemma_sort_members_len(s: Seq<Features>)
    ensures
        spec_sort_members(s).len() == s.len(),
    decreases s.len(),
{
    if s.len() > 0 {
        lemma_sort_members_len(s.drop_last());
        lemma_insert_member_len(spec_sort_members(s.drop_last()), s.last());
    }
}

/// Selects the packages the report shows.
pub open spec fn shown(o: Options) -> spec_fn(Features) -> bool {
    |f: Features| f.published || o.show_private
}

/// What the workspace report resolves to: one package's own node when a
/// single member is shown, the members under a workspace header when
/// several are, or a message when nothing can be shown at all.
pub open spec fn spec_workspace_result(ws: Workspace, o: Options, theme: Theme, r: Result<
    Node,
    String,
>) -> bool {
    let list = spec_sort_members(ws.members@.map_values(|m: (String, Features)| m.1));
    let kept = list.filter(shown(o));
    if list.len() == 0 {
        r matches Err(e) && e@ == "empty tree"@
    } else if list.len() == 1 {
        if kept.len() == 0 {
            r matches Err(e) && e@ == "An empty tree was returned by cargo-metdata"@
        } else {
            r matches Ok(n) && node_view(n) == spec_child_node(kept[0], o, theme)->0
        }
    } else {
        r matches Ok(n) && node_view(n) == (NodeView {
            text: "workspace for "@ + spec_paint(theme.workspace, ws.hint@),
            children: Seq::new(
                kept.len(),
                |i: int|
                    if 0 <= i < kept.len() {
                        spec_child_node(kept[i], o, theme)->0
                    } else {
                        leaf(Seq::empty())
                    },
            ),
        })
    }
}

/// Builds the report tree of a resolved workspace: its packages sorted
/// by name, private ones left out unless asked for; a single shown
/// package stands alone, several stand under a workspace header.
pub fn workspace_node(workspace: Workspace, options: &Options, theme: &Theme) -> (r: Result<
    Node,
    String,
>)
    ensures
        spec_workspace_result(workspace, *options, *theme, r),
{
    let ghost ws0 = workspace;
    let Workspace { hint, members } = workspace;
    let ghost members_view = members@;
    let mut rest = members;
    let mut plain: Vec<Features> = Vec::new();
    let ghost mut i: int = 0;
    while rest.len() > 0
        invariant
            i == members_view.len() - rest@.len(),
            0 <= i <= members_view.len(),
            rest@ == members_view.skip(i),
            plain@ == members_view.take(i).map_values(|m: (String, Features)| m.1),
        decreases rest@.len(),
    {
        let m = rest.remove(0);
        proof {
            assert(members_view.skip(i)[0] == members_view[i]);
            assert(members_view.skip(i).drop_first() =~= members_view.skip(i + 1));
        }
        let ghost pre = plain@;
        plain.push(m.1);
        proof {
            assert(plain@ =~= members_view.take(i + 1).map_values(
                |m: (String, Features)| m.1,
            )) by {
                assert forall|k: int|
                    0 <= k < plain@.len() implies plain@[k] == members_view.take(i + 1).map_values(
                    |m: (String, Features)| m.1,
                )[k] by {
                    if k < i {
                        assert(plain@[k] == pre[k]);
                        assert(pre[k] == members_view.take(i).map_values(
                            |m: (String, Features)| m.1,
                        )[k]);
                    }
                }
            }
            i = i + 1;
        }
    }
    proof {
        assert(members_view.take(members_view.len() as int) =~= members_view);
    }
    let single = plain.len() == 1;
    let none_at_all = plain.len() == 0;
    proof {
        lemma_sort_members_len(plain@);
    }
    let list = sort_members(plain);
    let ghost listv = list@;
    let ghost kept = listv.filter(shown(*options));
    if none_at_all {
        return Err(String::from_str("empty tree"));
    }
    let mut nodes: Vec<Node> = Vec::new();
    let mut rest2 = list;
    let ghost mut p: int = 0;
    proof {
        assert(listv.take(0) =~= Seq::<Features>::empty());
        reveal(Seq::filter);
    }
    while rest2.len() > 0
        invariant
            p == listv.len() - rest2@.len(),
            0 <= p <= listv.len(),
            rest2@ == listv.skip(p),
            nodes@.len() == listv.take(p).filter(shown(*options)).len(),
            forall|m: int|
                0 <= m < nodes@.len() ==> node_view(#[trigger] nodes@[m]) == spec_child_node(
                    listv.take(p).filter(shown(*options))[m],
                    *options,
                    *theme,
                )->0,
        decreases rest2@.len(),
    {
        let f = rest2.remove(0);
        proof {
            assert(listv.skip(p)[0] == listv[p]);
            assert(listv.skip(p).drop_first() =~= listv.skip(p + 1));
            assert(listv.take(p + 1) =~= listv.take(p).push(listv[p]));
            listv.take(p).lemma_filter_push(listv[p], shown(*options));
        }
        let ghost pre_nodes = nodes@;
        match make_child_node(f, options, theme) {
            Some(node) => {
                nodes.push(node);
                proof {
                    assert forall|m: int|
                        0 <= m < nodes@.len() implies node_view(#[trigger] nodes@[m])
                        == spec_child_node(
                        listv.take(p + 1).filter(shown(*options))[m],
                        *options,
                        *theme,
                    )->0 by {
                        if m < nodes@.len() - 1 {
                            assert(nodes@[m] == pre_nodes[m]);
                            assert(listv.take(p + 1).filter(shown(*options))[m] == listv.take(
                                p,
                            ).filter(shown(*options))[m]);
                        } else {
                            assert(listv.take(p + 1).filter(shown(*options)).last() == listv[p]);
                        }
                    }
                }
            },
            None => {},
        }
        proof {
            p = p + 1;
        }
    }
    proof {
        assert(listv.take(listv.len() as int) =~= listv);
    }
    if single {
        if nodes.len() == 0 {
            return Err(String::from_str("An empty tree was returned by cargo-metdata"));
        }
        let node = nodes.remove(0);
        proof {
            assert(node_view(node) == spec_child_node(kept[0], *options, *theme)->0);
        }
        return Ok(node);
    }
    let mut heading = String::from_str("workspace for ");
    let painted = theme.workspace.paint(hint.as_str());
    heading.append(painted.as_str());
    proof {
        assert(heading@ =~= "workspace for "@ + spec_paint((*theme).workspace, ws0.hint@));
    }
    let r = Node::new(heading, nodes);
    proof {
        crate::tree::lemma_node_view_children(r);
        let sv = NodeView {
            text: "workspace for "@ + spec_paint((*theme).workspace, ws0.hint@),
            children: Seq::new(
                kept.len(),
                |i: int|
                    if 0 <= i < kept.len() {
                        spec_child_node(kept[i], *options, *theme)->0
                    } else {
                        leaf(Seq::empty())
                    },
            ),
        };
        assert forall|m: int| 0 <= m < node_view(r).children.len() implies node_view(
            r,
        ).children[m] == sv.children[m] by {
            assert(node_view(r).children[m] == node_view(r.children@[m]));
        }
        assert(node_view(r).children =~= sv.children);
        assert(node_view(r) =~= sv);
        assert(listv == spec_sort_members(ws0.members@.map_values(|m: (String, Features)| m.1)));
    }
    Ok(r)
}

} // verus!
