//! The report models: flat views of a version and its dependencies that
//! the text renderers consume.

use vstd::prelude::*;
use crate::crates::{Dependency, DependencyKind, Version};
use crate::render_text::{TextRender, render_model};
use crate::layout::State;

verus! {

/// A model of just a name, a version and the withdrawal flag.
pub struct SimpleModel<'a> {
    /// The package name.
    pub name: &'a str,
    /// The version string.
    pub version: &'a str,
    /// Whether the version was withdrawn.
    pub yanked: bool,
}

impl<'a> SimpleModel<'a> {
    /// The model of one version descriptor.
    pub fn from_version(version: &'a Version) -> (r: Self)
        ensures
            r.name@ == version.crate_@,
            r.version@ == version.num@,
            r.yanked == version.yanked,
    {
        SimpleModel { name: version.crate_.as_str(), version: version.num.as_str(), yanked: version.yanked }
    }
}

/// A version's dependencies by build role, in the role order the report
/// prints: runtime, test-only, build-time.
pub struct DepsMap {
    /// The runtime dependencies.
    pub normal: Vec<Dependency>,
    /// The test-only dependencies.
    pub dev: Vec<Dependency>,
    /// The build-time dependencies.
    pub build: Vec<Dependency>,
}

/// A model of a version together with its feature map.
pub struct FeaturesModel<'a> {
    /// The header model.
    pub simple: SimpleModel<'a>,
    /// The version whose features are rendered.
    pub version: &'a Version,
}

impl<'a> FeaturesModel<'a> {
    /// The feature model of one version descriptor.
    pub fn from_version(version: &'a Version) -> (r: Self)
        ensures
            r.simple.name@ == version.crate_@,
            r.simple.version@ == version.num@,
            r.simple.yanked == version.yanked,
            r.version == version,
    {
        FeaturesModel { simple: SimpleModel::from_version(version), version }
    }
}

/// A model of a version together with its dependencies.
pub struct DependencyModel<'a> {
    /// The header model.
    pub simple: SimpleModel<'a>,
    /// The dependencies, grouped by build role.
    pub dependencies: DepsMap,
}

impl<'a> DependencyModel<'a> {
    /// The dependency model of one version descriptor and its listed
    /// dependencies, grouped by build role in input order.
    pub fn from_vers_deps(version: &'a Version, deps: Vec<Dependency>) -> (r: Self)
        ensures
            r.simple.name@ == version.crate_@,
            r.simple.version@ == version.num@,
            r.simple.yanked == version.yanked,
            r.dependencies.normal@ == deps@.filter(crate::text::kind_is(DependencyKind::Normal)),
            r.dependencies.dev@ == deps@.filter(crate::text::kind_is(DependencyKind::Dev)),
            r.dependencies.build@ == deps@.filter(crate::text::kind_is(DependencyKind::Build)),
    {
        let ghost all = deps@;
        let mut rest = deps;
        let mut normal: Vec<Dependency> = Vec::new();
        let mut dev: Vec<Dependency> = Vec::new();
        let mut build: Vec<Dependency> = Vec::new();
        let ghost mut i: int = 0;
        proof {
            assert(all.take(0) =~= Seq::<Dependency>::empty());
            reveal(Seq::filter);
        }
        while rest.len() > 0
            invariant
                i == all.len() - rest@.len(),
                0 <= i <= all.len(),
                rest@ == all.skip(i),
                normal@ == all.take(i).filter(crate::text::kind_is(DependencyKind::Normal)),
                dev@ == all.take(i).filter(crate::text::kind_is(DependencyKind::Dev)),
                build@ == all.take(i).filter(crate::text::kind_is(DependencyKind::Build)),
            decreases rest@.len(),
        {
            let d = rest.remove(0);
            proof {
                assert(all.skip(i)[0] == all[i]);
                assert(all.skip(i).drop_first() =~= all.skip(i + 1));
                assert(all.take(i + 1) =~= all.take(i).push(all[i]));
                all.take(i).lemma_filter_push(all[i], crate::text::kind_is(DependencyKind::Normal));
                all.take(i).lemma_filter_push(all[i], crate::text::kind_is(DependencyKind::Dev));
                all.take(i).lemma_filter_push(all[i], crate::text::kind_is(DependencyKind::Build));
            }
            match d.kind {
                DependencyKind::Normal => normal.push(d),
                DependencyKind::Dev => dev.push(d),
                DependencyKind::Build => build.push(d),
            }
            proof {
                i = i + 1;
            }
        }
        proof {
            assert(all.take(all.len() as int) =~= all);
        }
        DependencyModel {
            simple: SimpleModel::from_version(version),
            dependencies: DepsMap { normal, dev, build },
        }
    }
}

/// A model of a version with both its features and its dependencies.
pub struct CompositeModel<'a> {
    /// The header model.
    pub simple: SimpleModel<'a>,
    /// The feature part.
    pub features: FeaturesModel<'a>,
    /// The dependency part.
    pub dependencies: DependencyModel<'a>,
}

impl<'a> CompositeModel<'a> {
    /// The combined model of one version descriptor and its listed
    /// dependencies.
    pub fn from_vers_deps(version: &'a Version, deps: Vec<Dependency>) -> (r: Self)
        ensures
            r.simple.name@ == version.crate_@,
            r.simple.version@ == version.num@,
            r.simple.yanked == version.yanked,
            r.features.version == version,
            r.dependencies.dependencies.normal@ == deps@.filter(
                crate::text::kind_is(DependencyKind::Normal),
            ),
            r.dependencies.dependencies.dev@ == deps@.filter(
                crate::text::kind_is(DependencyKind::Dev),
            ),
            r.dependencies.dependencies.build@ == deps@.filter(
                crate::text::kind_is(DependencyKind::Build),
            ),
    {
        CompositeModel {
            simple: SimpleModel::from_version(version),
            features: FeaturesModel::from_version(version),
            dependencies: DependencyModel::from_vers_deps(version, deps),
        }
    }
}

/// A list of header models.
pub struct SimpleListModel<'a> {
    /// The listed models.
    pub simple_list: Vec<SimpleModel<'a>>,
}

impl<'a> SimpleListModel<'a> {
    /// A listing over the given models.
    pub fn new(list: Vec<SimpleModel<'a>>) -> (r: Self)
        ensures
            r.simple_list == list,
    {
        SimpleListModel { simple_list: list }
    }
}

/// A list of feature models.
pub struct FeaturesListModel<'a> {
    /// The listed models.
    pub features_list: Vec<FeaturesModel<'a>>,
}

impl<'a> FeaturesListModel<'a> {
    /// A listing over the given models.
    pub fn new(list: Vec<FeaturesModel<'a>>) -> (r: Self)
        ensures
            r.features_list == list,
    {
        FeaturesListModel { features_list: list }
    }
}

/// Collects rendered text; the sink the reports are written to.
pub struct Output {
    /// Everything written so far.
    pub buffer: String,
}

impl Output {
    /// An empty sink.
    pub fn new() -> (r: Output)
        ensures
            r.buffer@ == Seq::<char>::empty(),
    {
        Output { buffer: String::new() }
    }

    /// Renders a model as text into the sink.
    pub fn write_text<T: TextRender>(&mut self, data: T)
        requires
            data.render_wf(),
        ensures
            final(self).buffer@ == old(self).buffer@ + data.spec_render(0, true),
    {
        let rendered = render_model(data);
        self.buffer.append(rendered.as_str());
    }
}

/// Renders a model as text from the initial state at depth zero.
pub fn render_as_text<T: TextRender>(item: T) -> (r: String)
    requires
        item.render_wf(),
    ensures
        r@ == item.spec_render(0, true),
{
    render_model(item)
}

} // verus!
