//! The text renderers of the report models: the header, the feature map
//! with width-bounded wrapping, the dependency listing with column
//! alignment, and their compositions.

use vstd::prelude::*;
use vstd::string::StringExecFns;
use vstd::string::StringSliceAdditionalSpecFns;
use crate::crates::{Dependency, spec_sort_by_id, sort_by_id};
use crate::error::{UserError, spec_user_error_message};
use crate::features::{features_view, feature_view, spec_sort_features, sorted_features,
    spec_get_feature, get_feature};
use crate::layout::{State, byte_len};
use crate::output::{SimpleModel, FeaturesModel, DependencyModel, CompositeModel, SimpleListModel,
    FeaturesListModel, DepsMap};
use crate::strutil::{spec_spaces, spaces, str_eq, string_view};
use crate::text::{spec_padded, spec_left_fold, spec_right_fold, kind_is};

verus! {

/// The width a report line is bounded by.
pub const MAX_SIZE: usize = 80;

/// Addition capped at the machine's largest length.
pub open spec fn sat_add(a: int, b: int) -> int {
    if a + b > usize::MAX {
        usize::MAX as int
    } else {
        a + b
    }
}

/// Subtraction capped at zero.
pub open spec fn sat_sub(a: int, b: int) -> int {
    if a - b < 0 {
        0
    } else {
        a - b
    }
}

/// The text of a width-bounded block: the items in order, each followed
/// by ", " unless it is the last; a running budget starts at `width` and
/// an item that does not fit ends the line, a newline and `lead` spaces
/// preceding the item; the open line is closed by a final newline.
pub open spec fn spec_block(
    items: Seq<Seq<char>>,
    width: int,
    budget: int,
    line_open: bool,
    lead: int,
) -> Seq<char>
    decreases items.len(),
{
    if items.len() == 0 {
        if line_open {
            "\n"@
        } else {
            Seq::empty()
        }
    } else {
        let l = byte_len(items[0]);
        let prefix = if l > budget && line_open {
            "\n"@ + spec_spaces(lead)
        } else {
            Seq::empty()
        };
        let next_budget = if l > budget {
            sat_sub(width, l)
        } else {
            budget - l
        };
        let word = items[0] + (if items.len() > 1 {
            ", "@
        } else {
            Seq::empty()
        });
        prefix + word + spec_block(items.drop_first(), width, next_budget, true, lead)
    }
}

/// Appends a width-bounded block of the items, wrapped greedily, with
/// continuation lines indented by `lead`.
#[verifier::rlimit(80)]
fn append_block(out: &mut String, items: &Vec<String>, lead: usize)
    ensures
        final(out)@ == old(out)@ + spec_block(
            items@.map_values(string_view()),
            sat_sub(MAX_SIZE as int, lead as int),
            sat_sub(MAX_SIZE as int, lead as int),
            false,
            lead as int,
        ),
{
    let ghost views = items@.map_values(string_view());
    let width_total = MAX_SIZE.saturating_sub(lead);
    let mut budget = width_total;
    let mut line_open = false;
    let mut i: usize = 0;
    proof {
        assert(views.skip(0) =~= views);
    }
    while i < items.len()
        invariant
            views == items@.map_values(string_view()),
            views.len() == items@.len(),
            0 <= i <= items@.len(),
            width_total as int == sat_sub(MAX_SIZE as int, lead as int),
            i > 0 ==> line_open,
            out@ + spec_block(
                views.skip(i as int),
                width_total as int,
                budget as int,
                line_open,
                lead as int,
            ) == old(out)@ + spec_block(
                views,
                width_total as int,
                width_total as int,
                false,
                lead as int,
            ),
        decreases items@.len() - i,
    {
        proof {
            assert(views.skip(i as int)[0] == views[i as int]);
            assert(views[i as int] == items@[i as int]@);
            assert(views.skip(i as int).drop_first() =~= views.skip(i + 1));
        }
        let ghost old_budget = budget as int;
        let ghost old_open = line_open;
        let ghost pre_out = out@;
        let item_str = items[i].as_str();
        let l = item_str.as_bytes().len();
        proof {
            assert(item_str.spec_bytes() == vstd::utf8::encode_utf8(item_str@));
            assert(l as int == byte_len(views[i as int]));
        }
        if l > budget {
            if line_open {
                out.append("\n");
                let fill = spaces(lead);
                out.append(fill.as_str());
            }
            budget = width_total;
        }
        budget = budget.saturating_sub(l);
        out.append(item_str);
        if i + 1 < items.len() {
            out.append(", ");
        }
        line_open = true;
        i = i + 1;
        proof {
            let w = width_total as int;
            let rem = views.skip(i - 1);
            let l2 = byte_len(rem[0]);
            let prefix: Seq<char> = if l2 > old_budget && old_open {
                "\n"@ + spec_spaces(lead as int)
            } else {
                Seq::<char>::empty()
            };
            let word: Seq<char> = rem[0] + (if rem.len() > 1 {
                ", "@
            } else {
                Seq::<char>::empty()
            });
            let tail = spec_block(views.skip(i as int), w, budget as int, true, lead as int);
            assert(spec_block(rem, w, old_budget, old_open, lead as int) == prefix + word + tail);
            assert(out@ =~= pre_out + prefix + word);
            assert(out@ + tail =~= pre_out + (prefix + word + tail));
        }
    }
    if line_open {
        out.append("\n");
    }
    proof {
        assert(views.skip(views.len() as int) =~= Seq::<Seq<char>>::empty());
    }
}

/// A model with an exact plain-text report rendering.
pub trait TextRender: Sized {
    /// What the rendering relies on of the model.
    spec fn render_wf(&self) -> bool;

    /// The exact text the model renders to at the given depth; `first`
    /// says whether the header line is still owed.
    spec fn spec_render(&self, depth: int, first: bool) -> Seq<char>;

    /// How the rendering state leaves the call.
    spec fn spec_next_state(&self, old_state: State) -> State;

    /// Renders the model.
    fn render(self, depth: usize, next: &mut State) -> (r: String)
        requires
            self.render_wf(),
        ensures
            r@ == self.spec_render(depth as int, (*old(next)) is First),
            *final(next) == self.spec_next_state(*old(next)),
    ;
}

/// Renders a model from the initial state at depth zero.
pub fn render_model<T: TextRender>(item: T) -> (r: String)
    requires
        item.render_wf(),
    ensures
        r@ == item.spec_render(0, true),
{
    let mut state = State::First;
    item.render(0, &mut state)
}

/// The header line of a model: the withdrawal marker where one is owed,
/// then "{name}/{version}".
pub open spec fn spec_simple_line(name: Seq<char>, version: Seq<char>, yanked: bool) -> Seq<char> {
    (if yanked {
        "yanked: "@
    } else {
        Seq::empty()
    }) + name + "/"@ + version + "\n"@
}

impl<'a> TextRender for SimpleModel<'a> {
    open spec fn render_wf(&self) -> bool {
        true
    }

    open spec fn spec_render(&self, depth: int, first: bool) -> Seq<char> {
        spec_simple_line(self.name@, self.version@, self.yanked)
    }

    open spec fn spec_next_state(&self, old_state: State) -> State {
        old_state
    }

    fn render(self, depth: usize, next: &mut State) -> (r: String) {
        let mut out = String::new();
        if self.yanked {
            out.append("yanked: ");
        }
        out.append(self.name);
        out.append("/");
        out.append(self.version);
        out.append("\n");
        proof {
            assert(out@ =~= self.spec_render(depth as int, (*old(next)) is First));
        }
        out
    }
}

impl TextRender for UserError {
    open spec fn render_wf(&self) -> bool {
        true
    }

    open spec fn spec_render(&self, depth: int, first: bool) -> Seq<char> {
        spec_user_error_message(*self) + "\n"@
    }

    open spec fn spec_next_state(&self, old_state: State) -> State {
        old_state
    }

    fn render(self, depth: usize, next: &mut State) -> (r: String) {
        let mut out = self.message();
        out.append("\n");
        proof {
            assert(out@ =~= self.spec_render(depth as int, (*old(next)) is First));
        }
        out
    }
}

/// One feature line of the feature report: the name indented below the
/// header, with its implications wrapped behind it; the "default" entry
/// is the header part's and renders nothing here.
pub open spec fn spec_model_feature_line(f: (Seq<char>, Seq<Seq<char>>), pad: int) -> Seq<char> {
    if f.0 == "default"@ {
        Seq::empty()
    } else if f.1.len() == 0 {
        spec_spaces(pad) + f.0 + "\n"@
    } else {
        let lead = sat_add(sat_add(pad, byte_len(f.0)), 2);
        spec_spaces(pad) + f.0 + ": "@ + spec_block(
            f.1,
            sat_sub(MAX_SIZE as int, lead),
            sat_sub(MAX_SIZE as int, lead),
            false,
            lead,
        )
    }
}

/// The feature lines of a sorted feature map.
pub open spec fn spec_model_feature_lines(s: Seq<(Seq<char>, Seq<Seq<char>>)>, pad: int) -> Seq<
    char,
>
    decreases s.len(),
{
    if s.len() == 0 {
        Seq::empty()
    } else {
        spec_model_feature_lines(s.drop_last(), pad) + spec_model_feature_line(s.last(), pad)
    }
}

/// The "default" part of the feature report.
pub open spec fn spec_model_default_part(
    sorted: Seq<(Seq<char>, Seq<Seq<char>>)>,
    pad: int,
) -> Seq<char> {
    match spec_get_feature(sorted, "default"@) {
        Some(def) => if def.len() > 0 {
            let lead = sat_add(pad, 9);
            spec_spaces(pad) + "default: "@ + spec_block(
                def,
                sat_sub(MAX_SIZE as int, lead),
                sat_sub(MAX_SIZE as int, lead),
                false,
                lead,
            )
        } else {
            spec_spaces(pad) + "no default features\n"@
        },
        None => spec_spaces(pad) + "no default features\n"@,
    }
}

impl<'a> TextRender for FeaturesModel<'a> {
    open spec fn render_wf(&self) -> bool {
        true
    }

    /// The owed header, then the default-feature line, then the other
    /// features sorted by name, each with its implications wrapped.
    open spec fn spec_render(&self, depth: int, first: bool) -> Seq<char> {
        let sorted = spec_sort_features(features_view(self.version.features@));
        let pad = sat_add(depth, 2);
        (if first {
            spec_simple_line(self.simple.name@, self.simple.version@, self.simple.yanked)
        } else {
            Seq::empty()
        }) + spec_model_default_part(sorted, pad) + spec_model_feature_lines(sorted, pad)
    }

    open spec fn spec_next_state(&self, old_state: State) -> State {
        State::Next
    }

    fn render(self, depth: usize, next: &mut State) -> (r: String) {
        let mut out = String::new();
        match next {
            State::First => {
                let header = SimpleModel { name: self.simple.name, version: self.simple.version,
                    yanked: self.simple.yanked };
                let mut tmp = next.advance();
                let line = header.render(depth, &mut tmp);
                out.append(line.as_str());
            },
            State::Next => {
                next.advance();
            },
        }
        let ghost header_done = out@;
        let pad_n = depth.saturating_add(2);
        let pad = spaces(pad_n);
        let sorted = sorted_features(&self.version.features);
        let ghost sview = features_view(sorted@);
        match get_feature(&sorted, "default") {
            Some(def) => {
                if def.len() > 0 {
                    out.append(pad.as_str());
                    out.append("default: ");
                    let lead = pad_n.saturating_add(9);
                    append_block(&mut out, def, lead);
                } else {
                    out.append(pad.as_str());
                    out.append("no default features\n");
                }
            },
            None => {
                out.append(pad.as_str());
                out.append("no default features\n");
            },
        }
        let ghost base = out@;
        proof {
            assert(base =~= header_done + spec_model_default_part(sview, pad_n as int));
        }
        let mut i: usize = 0;
        proof {
            assert(sview.take(0) =~= Seq::<(Seq<char>, Seq<Seq<char>>)>::empty());
        }
        while i < sorted.len()
            invariant
                sview == features_view(sorted@),
                sview.len() == sorted@.len(),
                0 <= i <= sorted@.len(),
                pad_n == sat_add(depth as int, 2),
                pad@ == spec_spaces(pad_n as int),
                out@ == base + spec_model_feature_lines(sview.take(i as int), pad_n as int),
            decreases sorted@.len() - i,
        {
            proof {
                assert(sview.take(i + 1).drop_last() =~= sview.take(i as int));
                assert(sview.take(i + 1).last() == sview[i as int]);
                assert(sview[i as int] == feature_view()(sorted@[i as int]));
            }
            let f = &sorted[i];
            if !str_eq(f.0.as_str(), "default") {
                out.append(pad.as_str());
                out.append(f.0.as_str());
                if f.1.len() == 0 {
                    out.append("\n");
                } else {
                    out.append(": ");
                    let fname = f.0.as_str();
                    let name_len = fname.as_bytes().len();
                    proof {
                        assert(fname.spec_bytes() == vstd::utf8::encode_utf8(fname@));
                    }
                    let lead = pad_n.saturating_add(name_len).saturating_add(2);
                    append_block(&mut out, &f.1, lead);
                }
            }
            i = i + 1;
        }
        proof {
            assert(sview.take(sview.len() as int) =~= sview);
            assert(out@ =~= self.spec_render(depth as int, (*old(next)) is First));
        }
        out
    }
}

/// The running maximum of the optional-marker column: two columns of
/// space for an optional dependency, none otherwise.
pub open spec fn spec_opt_fold(s: Seq<Dependency>, init: int) -> int
    decreases s.len(),
{
    if s.len() == 0 {
        init
    } else {
        let prev = spec_opt_fold(s.drop_last(), init);
        let w: int = if s.last().optional {
            2
        } else {
            0
        };
        if w > prev {
            w
        } else {
            prev
        }
    }
}

/// The feature block below a dependency line, where one is owed: the
/// dependency's requested features, wrapped behind a "- features: "
/// marker indented by `lead_pad` spaces.
pub open spec fn spec_dep_feature_block(d: Dependency, lead_pad: int) -> Seq<char> {
    if d.default_features && d.features@.len() > 0 {
        let lead = sat_add(lead_pad, 12);
        spec_spaces(lead_pad) + "- features: "@ + spec_block(
            d.features@.map_values(string_view()),
            sat_sub(MAX_SIZE as int, lead),
            sat_sub(MAX_SIZE as int, lead),
            false,
            lead,
        )
    } else {
        Seq::empty()
    }
}

/// One dependency line: the name padded to the name column, the
/// requirement padded to its column, the target restriction where one
/// exists, then the dependency's feature block.
pub open spec fn spec_dep_line(
    d: Dependency,
    line_pad: int,
    name_w: int,
    req_w: int,
    block_pad: int,
) -> Seq<char> {
    spec_spaces(line_pad) + spec_padded(d.crate_id@, name_w) + " = "@ + spec_padded(d.req@, req_w)
        + " "@ + (match d.target {
        Some(t) => "if "@ + t@,
        None => Seq::empty(),
    }) + "\n"@ + spec_dep_feature_block(d, block_pad)
}

/// The lines of one dependency list.
pub open spec fn spec_dep_list_lines(
    s: Seq<Dependency>,
    line_pad: int,
    name_w: int,
    req_w: int,
    block_pad: int,
) -> Seq<char>
    decreases s.len(),
{
    if s.len() == 0 {
        Seq::empty()
    } else {
        spec_dep_list_lines(s.drop_last(), line_pad, name_w, req_w, block_pad) + spec_dep_line(
            s.last(),
            line_pad,
            name_w,
            req_w,
            block_pad,
        )
    }
}

/// Selects the optional dependencies.
pub open spec fn is_optional() -> spec_fn(Dependency) -> bool {
    |d: Dependency| d.optional
}

/// Selects the required dependencies.
pub open spec fn is_required() -> spec_fn(Dependency) -> bool {
    |d: Dependency| !d.optional
}

/// One kind's section of the dependency report: the kind's label, the
/// required dependencies aligned over the widened name column, then the
/// optional ones under their own marker, indented one step further.
pub open spec fn spec_kind_part(
    label: Seq<char>,
    sorted: Seq<Dependency>,
    depth: int,
    name_w: int,
    opt_w: int,
    req_w: int,
) -> Seq<char> {
    let pad = sat_add(depth, 2);
    let pad2 = sat_add(depth, 4);
    let pad3 = sat_add(depth, 6);
    let ok = sorted.filter(is_required());
    let opt = sorted.filter(is_optional());
    spec_spaces(pad) + label + "\n"@ + spec_dep_list_lines(
        ok,
        pad2,
        sat_add(name_w, opt_w),
        req_w,
        pad3,
    ) + (if opt.len() > 0 {
        spec_spaces(pad2) + "optional"@ + "\n"@ + spec_dep_list_lines(
            opt,
            pad3,
            name_w,
            req_w,
            sat_add(pad, pad2),
        )
    } else {
        Seq::empty()
    })
}

/// The dependency report of a model: the owed header, then either the
/// no-dependencies marker or the kind sections — runtime, test-only,
/// build-time — with columns aligned across the whole report.
pub open spec fn spec_deps_render(m: DependencyModel, depth: int, first: bool) -> Seq<char> {
    let header = if first {
        spec_simple_line(m.simple.name@, m.simple.version@, m.simple.yanked)
    } else {
        Seq::empty()
    };
    let pad = sat_add(depth, 2);
    if m.dependencies.normal@.len() == 0 && m.dependencies.dev@.len() == 0
        && m.dependencies.build@.len() == 0 {
        header + spec_spaces(pad) + "no dependencies\n"@
    } else {
        let sn = spec_sort_by_id(m.dependencies.normal@);
        let sd = spec_sort_by_id(m.dependencies.dev@);
        let sb = spec_sort_by_id(m.dependencies.build@);
        let name_w = spec_left_fold(sb, spec_left_fold(sd, spec_left_fold(sn, 0)));
        let opt_w = spec_opt_fold(sb, spec_opt_fold(sd, spec_opt_fold(sn, 0)));
        let req_w = spec_right_fold(sb, spec_right_fold(sd, spec_right_fold(sn, 0)));
        header + (if sn.len() > 0 {
            spec_kind_part("normal"@, sn, depth, name_w, opt_w, req_w)
        } else {
            Seq::empty()
        }) + (if sd.len() > 0 {
            spec_kind_part("dev"@, sd, depth, name_w, opt_w, req_w)
        } else {
            Seq::empty()
        }) + (if sb.len() > 0 {
            spec_kind_part("build"@, sb, depth, name_w, opt_w, req_w)
        } else {
            Seq::empty()
        })
    }
}

/// Extends the optional-marker column by one dependency list.
fn fold_opt(list: &Vec<Dependency>, init: usize) -> (r: usize)
    ensures
        r == spec_opt_fold(list@, init as int),
{
    let mut acc = init;
    let mut i: usize = 0;
    proof {
        assert(list@.take(0) =~= Seq::<Dependency>::empty());
    }
    while i < list.len()
        invariant
            0 <= i <= list@.len(),
            acc == spec_opt_fold(list@.take(i as int), init as int),
        decreases list@.len() - i,
    {
        proof {
            assert(list@.take(i + 1).drop_last() =~= list@.take(i as int));
            assert(list@.take(i + 1).last() == list@[i as int]);
        }
        if list[i].optional && acc < 2 {
            acc = 2;
        }
        i = i + 1;
    }
    proof {
        assert(list@.take(list@.len() as int) =~= list@);
    }
    acc
}

/// Appends one dependency line and its feature block.
#[verifier::rlimit(100)]
fn append_dep_line(out: &mut String, d: &Dependency, line_pad: usize, name_w: usize, req_w: usize,
    block_pad: usize)
    ensures
        final(out)@ == old(out)@ + spec_dep_line(
            *d,
            line_pad as int,
            name_w as int,
            req_w as int,
            block_pad as int,
        ),
{
    let fill = spaces(line_pad);
    out.append(fill.as_str());
    crate::text::append_padded(out, d.crate_id.as_str(), name_w);
    out.append(" = ");
    crate::text::append_padded(out, d.req.as_str(), req_w);
    out.append(" ");
    match &d.target {
        Some(t) => {
            out.append("if ");
            out.append(t.as_str());
        },
        None => {},
    }
    out.append("\n");
    if d.default_features && d.features.len() > 0 {
        let lead_fill = spaces(block_pad);
        out.append(lead_fill.as_str());
        out.append("- features: ");
        let lead = block_pad.saturating_add(12);
        append_block(out, &d.features, lead);
    }
    proof {
        assert(out@ =~= old(out)@ + spec_dep_line(
            *d,
            line_pad as int,
            name_w as int,
            req_w as int,
            block_pad as int,
        ));
    }
}

/// Appends the lines of one dependency list.
fn append_dep_list(out: &mut String, list: &Vec<Dependency>, line_pad: usize, name_w: usize,
    req_w: usize, block_pad: usize)
    ensures
        final(out)@ == old(out)@ + spec_dep_list_lines(
            list@,
            line_pad as int,
            name_w as int,
            req_w as int,
            block_pad as int,
        ),
{
    let mut i: usize = 0;
    proof {
        assert(list@.take(0) =~= Seq::<Dependency>::empty());
    }
    while i < list.len()
        invariant
            0 <= i <= list@.len(),
            out@ == old(out)@ + spec_dep_list_lines(
                list@.take(i as int),
                line_pad as int,
                name_w as int,
                req_w as int,
                block_pad as int,
            ),
        decreases list@.len() - i,
    {
        proof {
            assert(list@.take(i + 1).drop_last() =~= list@.take(i as int));
            assert(list@.take(i + 1).last() == list@[i as int]);
        }
        append_dep_line(out, &list[i], line_pad, name_w, req_w, block_pad);
        i = i + 1;
    }
    proof {
        assert(list@.take(list@.len() as int) =~= list@);
    }
}

/// Splits a sorted list into its required and optional dependencies,
/// keeping the order of each.
fn partition_optional(list: Vec<Dependency>) -> (r: (Vec<Dependency>, Vec<Dependency>))
    ensures
        r.0@ == list@.filter(is_required()),
        r.1@ == list@.filter(is_optional()),
{
    let ghost all = list@;
    let mut rest = list;
    let mut ok: Vec<Dependency> = Vec::new();
    let mut opt: Vec<Dependency> = Vec::new();
    let ghost mut i: int = 0;
    proof {
        assert(all.take(0) =~= Seq::<Dependency>::empty());
        reveal(Seq::filter);
    }
    while rest.len() > 0
        invariant
            i == all.len() - rest@.len(),
            0 <= i <= all.len(),
            rest@ == all.skip(i),
            ok@ == all.take(i).filter(is_required()),
            opt@ == all.take(i).filter(is_optional()),
        decreases rest@.len(),
    {
        let d = rest.remove(0);
        proof {
            assert(all.skip(i)[0] == all[i]);
            assert(all.skip(i).drop_first() =~= all.skip(i + 1));
            assert(all.take(i + 1) =~= all.take(i).push(all[i]));
            all.take(i).lemma_filter_push(all[i], is_required());
            all.take(i).lemma_filter_push(all[i], is_optional());
        }
        if d.optional {
            opt.push(d);
        } else {
            ok.push(d);
        }
        proof {
            i = i + 1;
        }
    }
    proof {
        assert(all.take(all.len() as int) =~= all);
    }
    (ok, opt)
}

/// Appends one kind's section.
#[verifier::rlimit(100)]
fn append_kind_part(out: &mut String, label: &str, sorted: Vec<Dependency>, depth: usize,
    name_w: usize, opt_w: usize, req_w: usize)
    ensures
        final(out)@ == old(out)@ + spec_kind_part(
            label@,
            sorted@,
            depth as int,
            name_w as int,
            opt_w as int,
            req_w as int,
        ),
{
    let pad = depth.saturating_add(2);
    let pad2 = depth.saturating_add(4);
    let pad3 = depth.saturating_add(6);
    let fill = spaces(pad);
    out.append(fill.as_str());
    out.append(label);
    out.append("\n");
    let ghost after_label = out@;
    proof {
        assert(after_label =~= old(out)@ + (spec_spaces(pad as int) + label@ + "\n"@));
    }
    let ghost sorted_view = sorted@;
    let (ok, opt) = partition_optional(sorted);
    append_dep_list(out, &ok, pad2, name_w.saturating_add(opt_w), req_w, pad3);
    let ghost after_ok = out@;
    let ghost ok_lines = spec_dep_list_lines(
        sorted_view.filter(is_required()),
        pad2 as int,
        sat_add(name_w as int, opt_w as int),
        req_w as int,
        pad3 as int,
    );
    proof {
        assert(after_ok == after_label + ok_lines);
    }
    if opt.len() > 0 {
        let fill2 = spaces(pad2);
        out.append(fill2.as_str());
        out.append("optional");
        out.append("\n");
        append_dep_list(out, &opt, pad3, name_w, req_w, pad.saturating_add(pad2));
        proof {
            let opt_part = spec_spaces(pad2 as int) + "optional"@ + "\n"@ + spec_dep_list_lines(
                sorted_view.filter(is_optional()),
                pad3 as int,
                name_w as int,
                req_w as int,
                sat_add(pad as int, pad2 as int),
            );
            assert(out@ =~= after_ok + opt_part);
            assert(out@ =~= old(out)@ + spec_kind_part(
                label@,
                sorted_view,
                depth as int,
                name_w as int,
                opt_w as int,
                req_w as int,
            ));
        }
    } else {
        proof {
            assert(out@ =~= after_label + (ok_lines + Seq::<char>::empty()));
            assert(out@ =~= old(out)@ + spec_kind_part(
                label@,
                sorted_view,
                depth as int,
                name_w as int,
                opt_w as int,
                req_w as int,
            ));
        }
    }
}

impl<'a> TextRender for DependencyModel<'a> {
    open spec fn render_wf(&self) -> bool {
        true
    }

    open spec fn spec_render(&self, depth: int, first: bool) -> Seq<char> {
        spec_deps_render(*self, depth, first)
    }

    open spec fn spec_next_state(&self, old_state: State) -> State {
        State::Next
    }

    #[verifier::rlimit(80)]
    fn render(self, depth: usize, next: &mut State) -> (r: String) {
        let DependencyModel { simple, dependencies } = self;
        let mut out = String::new();
        match next {
            State::First => {
                let header = SimpleModel { name: simple.name, version: simple.version,
                    yanked: simple.yanked };
                let mut tmp = next.advance();
                let line = header.render(depth, &mut tmp);
                out.append(line.as_str());
            },
            State::Next => {
                next.advance();
            },
        }
        let pad = depth.saturating_add(2);
        let DepsMap { normal, dev, build } = dependencies;
        if normal.len() == 0 && dev.len() == 0 && build.len() == 0 {
            let fill = spaces(pad);
            out.append(fill.as_str());
            out.append("no dependencies\n");
            proof {
                assert(out@ =~= self.spec_render(depth as int, (*old(next)) is First));
            }
            return out;
        }
        let sn = sort_by_id(normal);
        let sd = sort_by_id(dev);
        let sb = sort_by_id(build);
        let name_w = {
            let a = crate::text::fold_left_width(&sn, 0);
            let b = crate::text::fold_left_width(&sd, a);
            crate::text::fold_left_width(&sb, b)
        };
        let opt_w = {
            let a = fold_opt(&sn, 0);
            let b = fold_opt(&sd, a);
            fold_opt(&sb, b)
        };
        let req_w = {
            let a = crate::text::fold_right_width(&sn, 0);
            let b = crate::text::fold_right_width(&sd, a);
            crate::text::fold_right_width(&sb, b)
        };
        if sn.len() > 0 {
            append_kind_part(&mut out, "normal", sn, depth, name_w, opt_w, req_w);
        }
        if sd.len() > 0 {
            append_kind_part(&mut out, "dev", sd, depth, name_w, opt_w, req_w);
        }
        if sb.len() > 0 {
            append_kind_part(&mut out, "build", sb, depth, name_w, opt_w, req_w);
        }
        proof {
            assert(out@ =~= self.spec_render(depth as int, (*old(next)) is First));
        }
        out
    }
}

/// The optional-marker column never exceeds two.
proof fn lemma_opt_fold_bound(s: Seq<Dependency>, init: int)
    requires
        init <= 2,
    ensures
        spec_opt_fold(s, init) <= 2,
        spec_opt_fold(s, init) >= init,
    decreases s.len(),
{
    if s.len() > 0 {
        lemma_opt_fold_bound(s.drop_last(), init);
    }
}

/// The combined report: the owed header, the feature part under a
/// "features" heading, then the dependency part under a "dependencies"
/// heading or the no-dependencies marker, everything one step deeper.
pub open spec fn spec_composite_render(m: CompositeModel, depth: int, first: bool) -> Seq<char> {
    let header = if first {
        spec_simple_line(m.simple.name@, m.simple.version@, m.simple.yanked)
    } else {
        Seq::empty()
    };
    let d2 = sat_add(depth, 2);
    header + spec_spaces(d2) + "features"@ + "\n"@ + m.features.spec_render(d2, false) + (
    if m.dependencies.dependencies.normal@.len() == 0 && m.dependencies.dependencies.dev@.len()
        == 0 && m.dependencies.dependencies.build@.len() == 0 {
        spec_spaces(d2) + "no dependencies\n"@
    } else {
        spec_spaces(d2) + "dependencies"@ + "\n"@ + spec_deps_render(m.dependencies, d2, false)
    })
}

impl<'a> TextRender for CompositeModel<'a> {
    open spec fn render_wf(&self) -> bool {
        true
    }

    open spec fn spec_render(&self, depth: int, first: bool) -> Seq<char> {
        spec_composite_render(*self, depth, first)
    }

    open spec fn spec_next_state(&self, old_state: State) -> State {
        State::Next
    }

    #[verifier::rlimit(100)]
    fn render(self, depth: usize, next: &mut State) -> (r: String) {
        let CompositeModel { simple, features, dependencies } = self;
        let mut out = String::new();
        match next {
            State::First => {
                let header = SimpleModel { name: simple.name, version: simple.version,
                    yanked: simple.yanked };
                let mut tmp = next.advance();
                let line = header.render(depth, &mut tmp);
                out.append(line.as_str());
            },
            State::Next => {
                next.advance();
            },
        }
        let d2 = depth.saturating_add(2);
        let pad = spaces(d2);
        out.append(pad.as_str());
        out.append("features");
        out.append("\n");
        let mut tmp = next.advance();
        let ghost deps_ghost = dependencies;
        let empty_deps = dependencies.dependencies.normal.len() == 0
            && dependencies.dependencies.dev.len() == 0 && dependencies.dependencies.build.len()
            == 0;
        let part = features.render(d2, &mut tmp);
        out.append(part.as_str());
        if empty_deps {
            out.append(pad.as_str());
            out.append("no dependencies\n");
        } else {
            out.append(pad.as_str());
            out.append("dependencies");
            out.append("\n");
            let mut tmp2 = next.advance();
            let part2 = dependencies.render(d2, &mut tmp2);
            out.append(part2.as_str());
        }
        proof {
            assert(out@ =~= self.spec_render(depth as int, (*old(next)) is First));
        }
        out
    }
}

/// The listing of header models, each rendered afresh.
pub open spec fn spec_simple_list_render(s: Seq<SimpleModel>, depth: int) -> Seq<char>
    decreases s.len(),
{
    if s.len() == 0 {
        Seq::empty()
    } else {
        spec_simple_list_render(s.drop_last(), depth) + s.last().spec_render(depth, true)
    }
}

impl<'a> TextRender for SimpleListModel<'a> {
    open spec fn render_wf(&self) -> bool {
        true
    }

    open spec fn spec_render(&self, depth: int, first: bool) -> Seq<char> {
        spec_simple_list_render(self.simple_list@, depth)
    }

    open spec fn spec_next_state(&self, old_state: State) -> State {
        if self.simple_list@.len() > 0 {
            State::First
        } else {
            old_state
        }
    }

    fn render(self, depth: usize, next: &mut State) -> (r: String) {
        let SimpleListModel { simple_list } = self;
        let ghost all = simple_list@;
        let mut rest = simple_list;
        let mut out = String::new();
        let ghost mut i: int = 0;
        proof {
            assert(all.take(0) =~= Seq::<SimpleModel>::empty());
        }
        while rest.len() > 0
            invariant
                i == all.len() - rest@.len(),
                0 <= i <= all.len(),
                rest@ == all.skip(i),
                out@ == spec_simple_list_render(all.take(i), depth as int),
                i > 0 ==> (*next) is First,
                i == 0 ==> next == old(next),
            decreases rest@.len(),
        {
            let m = rest.remove(0);
            proof {
                assert(all.skip(i)[0] == all[i]);
                assert(all.skip(i).drop_first() =~= all.skip(i + 1));
                assert(all.take(i + 1).drop_last() =~= all.take(i));
                assert(all.take(i + 1).last() == all[i]);
            }
            let mut tmp = next.reset();
            let line = m.render(depth, &mut tmp);
            out.append(line.as_str());
            proof {
                i = i + 1;
            }
        }
        proof {
            assert(all.take(all.len() as int) =~= all);
        }
        out
    }
}

/// The listing of feature models, each rendered afresh.
pub open spec fn spec_features_list_render(s: Seq<FeaturesModel>, depth: int) -> Seq<char>
    decreases s.len(),
{
    if s.len() == 0 {
        Seq::empty()
    } else {
        spec_features_list_render(s.drop_last(), depth) + s.last().spec_render(depth, true)
    }
}

impl<'a> TextRender for FeaturesListModel<'a> {
    open spec fn render_wf(&self) -> bool {
        true
    }

    open spec fn spec_render(&self, depth: int, first: bool) -> Seq<char> {
        spec_features_list_render(self.features_list@, depth)
    }

    open spec fn spec_next_state(&self, old_state: State) -> State {
        if self.features_list@.len() > 0 {
            State::First
        } else {
            old_state
        }
    }

    fn render(self, depth: usize, next: &mut State) -> (r: String) {
        let FeaturesListModel { features_list } = self;
        let ghost all = features_list@;
        let mut rest = features_list;
        let mut out = String::new();
        let ghost mut i: int = 0;
        proof {
            assert(all.take(0) =~= Seq::<FeaturesModel>::empty());
        }
        while rest.len() > 0
            invariant
                i == all.len() - rest@.len(),
                0 <= i <= all.len(),
                rest@ == all.skip(i),
                out@ == spec_features_list_render(all.take(i), depth as int),
                i > 0 ==> (*next) is First,
                i == 0 ==> next == old(next),
            decreases rest@.len(),
        {
            let m = rest.remove(0);
            proof {
                assert(all.skip(i)[0] == all[i]);
                assert(all.skip(i).drop_first() =~= all.skip(i + 1));
                assert(all.take(i + 1).drop_last() =~= all.take(i));
                assert(all.take(i + 1).last() == all[i]);
            }
            let mut tmp = next.reset();
            let line = m.render(depth, &mut tmp);
            out.append(line.as_str());
            proof {
                i = i + 1;
            }
        }
        proof {
            assert(all.take(all.len() as int) =~= all);
        }
        out
    }
}

} // verus!
