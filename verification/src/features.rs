//! The feature and dependency model of a package, and the workspace that
//! groups one or more packages.

use vstd::prelude::*;
use crate::strutil::{spec_find_char, lemma_find_char, find_char, str_eq, string_view};

verus! {

/// A dependency of a package, as the workspace model sees it.
#[derive(Clone)]
pub struct Dependency {
    /// The name of the dependency.
    pub name: String,
    /// The required version of the dependency.
    pub req: String,
    /// Which target, if any, this dependency is restricted to.
    pub target: Option<String>,
    /// What this dependency was renamed to, if it was renamed.
    pub rename: Option<String>,
    /// The features available for this dependency.
    pub features: Vec<String>,
}

/// The build role of a dependency.
#[derive(Copy, Clone, Debug, PartialEq, Eq, Structural)]
pub enum Kind {
    /// A runtime dependency.
    Normal,
    /// A test-only dependency.
    Development,
    /// A build-time dependency.
    Build,
}

/// A mapping from dependency kind to the dependencies of that kind.
pub struct KindMap {
    /// The runtime dependencies.
    pub normal: Vec<Dependency>,
    /// The test-only dependencies.
    pub development: Vec<Dependency>,
    /// The build-time dependencies.
    pub build: Vec<Dependency>,
}

impl KindMap {
    /// A mapping with no dependencies of any kind.
    pub fn new() -> (r: KindMap)
        ensures
            r.normal@ == Seq::<Dependency>::empty(),
            r.development@ == Seq::<Dependency>::empty(),
            r.build@ == Seq::<Dependency>::empty(),
    {
        KindMap { normal: Vec::new(), development: Vec::new(), build: Vec::new() }
    }

    /// The list held for the given kind.
    pub open spec fn spec_of_kind(&self, kind: Kind) -> Seq<Dependency> {
        match kind {
            Kind::Normal => self.normal@,
            Kind::Development => self.development@,
            Kind::Build => self.build@,
        }
    }
}

/// One dependency of a manifest, before it is placed in the optional or
/// the required map of its kind.
pub struct DepEntry {
    /// The build role.
    pub kind: Kind,
    /// Whether the dependency is optional. This flag alone decides the
    /// placement; it is not stored again afterwards.
    pub optional: bool,
    /// The dependency itself.
    pub dep: Dependency,
}

/// Whether an entry belongs to the map cell for `kind` and `optional`.
pub open spec fn entry_selects(e: DepEntry, kind: Kind, optional: bool) -> bool {
    e.kind == kind && e.optional == optional
}

/// The dependencies of the entries selected for `kind` and `optional`,
/// in input order.
pub open spec fn spec_selected(entries: Seq<DepEntry>, kind: Kind, optional: bool) -> Seq<
    Dependency,
> {
    entries.filter(|e: DepEntry| entry_selects(e, kind, optional)).map_values(|e: DepEntry| e.dep)
}

/// The feature mapping of one package.
pub struct Features {
    /// The name of the package.
    pub name: String,
    /// The version of the package.
    pub version: String,
    /// Whether this package may be published at all.
    pub published: bool,
    /// The feature map: each feature name with the list of features and
    /// optional dependencies it implies. The reserved name "default"
    /// lists what is activated without explicit opt-in.
    pub features: Vec<(String, Vec<String>)>,
    /// The optional dependencies, by kind.
    pub optional_deps: KindMap,
    /// The required dependencies, by kind.
    pub required_deps: KindMap,
}

impl Features {
    /// Builds the feature mapping of one package from its parsed manifest
    /// parts, placing every dependency in the optional or the required
    /// map of its kind as its `optional` flag alone decides.
    pub fn from_parts(
        name: String,
        version: String,
        published: bool,
        features: Vec<(String, Vec<String>)>,
        entries: Vec<DepEntry>,
    ) -> (r: Features)
        ensures
            r.name == name,
            r.version == version,
            r.published == published,
            r.features == features,
            r.optional_deps.normal@ == spec_selected(entries@, Kind::Normal, true),
            r.optional_deps.development@ == spec_selected(entries@, Kind::Development, true),
            r.optional_deps.build@ == spec_selected(entries@, Kind::Build, true),
            r.required_deps.normal@ == spec_selected(entries@, Kind::Normal, false),
            r.required_deps.development@ == spec_selected(entries@, Kind::Development, false),
            r.required_deps.build@ == spec_selected(entries@, Kind::Build, false),
    {
        let mut entries = entries;
        let ghost all = entries@;
        let mut optional_deps = KindMap::new();
        let mut required_deps = KindMap::new();
        let ghost mut i: int = 0;
        proof {
            assert(all.take(0) =~= Seq::<DepEntry>::empty());
            lemma_selected_empty();
        }
        while entries.len() > 0
            invariant
                i == all.len() - entries@.len(),
                0 <= i <= all.len(),
                entries@ == all.skip(i),
                optional_deps.normal@ == spec_selected(all.take(i), Kind::Normal, true),
                optional_deps.development@ == spec_selected(all.take(i), Kind::Development, true),
                optional_deps.build@ == spec_selected(all.take(i), Kind::Build, true),
                required_deps.normal@ == spec_selected(all.take(i), Kind::Normal, false),
                required_deps.development@ == spec_selected(all.take(i), Kind::Development, false),
                required_deps.build@ == spec_selected(all.take(i), Kind::Build, false),
            decreases entries@.len(),
        {
            let entry = entries.remove(0);
            proof {
                assert(all.skip(i)[0] == all[i]);
                assert(all.skip(i).drop_first() =~= all.skip(i + 1));
                assert(all.take(i + 1) =~= all.take(i).push(all[i]));
            }
            if entry.optional {
                match entry.kind {
                    Kind::Normal => optional_deps.normal.push(entry.dep),
                    Kind::Development => optional_deps.development.push(entry.dep),
                    Kind::Build => optional_deps.build.push(entry.dep),
                }
            } else {
                match entry.kind {
                    Kind::Normal => required_deps.normal.push(entry.dep),
                    Kind::Development => required_deps.development.push(entry.dep),
                    Kind::Build => required_deps.build.push(entry.dep),
                }
            }
            proof {
                lemma_selected_push(all.take(i), all[i]);
                i = i + 1;
            }
        }
        proof {
            assert(all.take(all.len() as int) =~= all);
        }
        Features { name, version, published, features, optional_deps, required_deps }
    }
}

/// Selecting from the empty entry list yields nothing, whatever the cell.
proof fn lemma_selected_empty()
    ensures
        forall|kind: Kind, optional: bool|
            spec_selected(Seq::<DepEntry>::empty(), kind, optional) =~= Seq::<Dependency>::empty(),
{
    assert forall|kind: Kind, optional: bool|
        spec_selected(Seq::<DepEntry>::empty(), kind, optional) =~= Seq::<
            Dependency,
        >::empty() by {
        reveal(Seq::filter);
    }
}

/// Appending one entry extends exactly the selection of its own cell by
/// its dependency and leaves every other cell's selection unchanged.
proof fn lemma_selected_push(entries: Seq<DepEntry>, e: DepEntry)
    ensures
        forall|kind: Kind, optional: bool|
            #[trigger] spec_selected(entries.push(e), kind, optional) == if entry_selects(
                e,
                kind,
                optional,
            ) {
                spec_selected(entries, kind, optional).push(e.dep)
            } else {
                spec_selected(entries, kind, optional)
            },
{
    assert forall|kind: Kind, optional: bool|
        #[trigger] spec_selected(entries.push(e), kind, optional) == if entry_selects(
            e,
            kind,
            optional,
        ) {
            spec_selected(entries, kind, optional).push(e.dep)
        } else {
            spec_selected(entries, kind, optional)
        } by {
        let pred = |x: DepEntry| entry_selects(x, kind, optional);
        entries.lemma_filter_push(e, pred);
        if pred(e) {
            assert(entries.push(e).filter(pred).map_values(|x: DepEntry| x.dep) =~= entries.filter(
                pred,
            ).map_values(|x: DepEntry| x.dep).push(e.dep));
        }
    }
}

/// A collection of one or more packages described together: the map from
/// the member identifier to the member's feature mapping, with a display
/// hint naming what was asked for.
pub struct Workspace {
    /// The name the lookup was made under, used in report headers.
    pub hint: String,
    /// Every member of the workspace: its identifier, whose first
    /// space-separated token is the member's package name, and its
    /// feature mapping.
    pub members: Vec<(String, Features)>,
}

/// The leading space-separated token of a member identifier: the member's
/// package name.
pub open spec fn spec_first_token(s: Seq<char>) -> Seq<char> {
    s.take(spec_find_char(s, ' '))
}

/// The predicate selecting the members whose identifier's first token is
/// `name`.
pub open spec fn member_named(name: Seq<char>) -> spec_fn((String, Features)) -> bool {
    |m: (String, Features)| spec_first_token(m.0@) == name
}

impl Workspace {
    /// A workspace holds more than one member in the proper sense; a
    /// single package is the common case.
    pub fn is_workspace(&self) -> (r: bool)
        ensures
            r == (self.members@.len() > 1),
    {
        self.members.len() > 1
    }

    /// Keeps only the members whose identifier's first space-separated
    /// token is `name`: the restriction applied when a local package is
    /// read without traversing its workspace.
    pub fn retain_member(self, name: &str) -> (r: Workspace)
        ensures
            r.hint == self.hint,
            r.members@ == self.members@.filter(member_named(name@)),
    {
        let Workspace { hint, members } = self;
        let mut members = members;
        let ghost all = members@;

        let mut kept: Vec<(String, Features)> = Vec::new();
        let ghost mut i: int = 0;
        proof {
            assert(all.take(0) =~= Seq::<(String, Features)>::empty());
            reveal(Seq::filter);
            assert(kept@ =~= all.take(0).filter(member_named(name@)));
        }
        while members.len() > 0
            invariant
                i == all.len() - members@.len(),
                0 <= i <= all.len(),
                members@ == all.skip(i),
                kept@ == all.take(i).filter(member_named(name@)),
            decreases members@.len(),
        {
            let m = members.remove(0);
            proof {
                assert(all.skip(i)[0] == all[i]);
                assert(all.skip(i).drop_first() =~= all.skip(i + 1));
                assert(all.take(i + 1) =~= all.take(i).push(all[i]));
                all.take(i).lemma_filter_push(all[i], member_named(name@));
            }
            let space_at = find_char(m.0.as_str(), ' ');
            let id_len = m.0.as_str().unicode_len();
            let head_len = if space_at < id_len {
                space_at
            } else {
                id_len
            };
            let head = m.0.as_str().substring_char(0, head_len);
            proof {
                lemma_find_char(m.0@, ' ');
                assert(head@ =~= spec_first_token(m.0@));
                assert(member_named(name@)(all[i]) == (spec_first_token(all[i].0@) == name@));
            }
            if str_eq(head, name) {
                kept.push(m);
            }
            proof {
                i = i + 1;
            }
        }
        proof {
            assert(all.take(all.len() as int) =~= all);
        }
        Workspace { hint, members: kept }
    }
}

/// A feature map entry: the feature name with what it implies.
pub type Feature = (String, Vec<String>);

/// A feature map entry seen through its characters: the name and the
/// implied names.
pub open spec fn feature_view() -> spec_fn(Feature) -> (Seq<char>, Seq<Seq<char>>) {
    |p: Feature| (p.0@, p.1@.map_values(string_view()))
}

/// A whole feature map seen through its characters.
pub open spec fn features_view(s: Seq<Feature>) -> Seq<(Seq<char>, Seq<Seq<char>>)> {
    s.map_values(feature_view())
}

/// Insertion of a feature entry into a name-sorted map view: an entry
/// whose name is already present replaces the old entry in place, as a
/// map insert does.
pub open spec fn spec_insert_feature(
    s: Seq<(Seq<char>, Seq<Seq<char>>)>,
    p: (Seq<char>, Seq<Seq<char>>),
) -> Seq<(Seq<char>, Seq<Seq<char>>)>
    decreases s.len(),
{
    if s.len() == 0 {
        seq![p]
    } else if crate::strutil::lex_lt(p.0, s[0].0) {
        seq![p] + s
    } else if p.0 == s[0].0 {
        seq![p] + s.drop_first()
    } else {
        seq![s[0]] + spec_insert_feature(s.drop_first(), p)
    }
}

/// The feature map view sorted by feature name, later entries replacing
/// earlier ones of the same name, as collecting into a map does.
pub open spec fn spec_sort_features(s: Seq<(Seq<char>, Seq<Seq<char>>)>) -> Seq<
    (Seq<char>, Seq<Seq<char>>),
>
    decreases s.len(),
{
    if s.len() == 0 {
        Seq::empty()
    } else {
        spec_insert_feature(spec_sort_features(s.drop_last()), s.last())
    }
}

/// Inserting at the position the scan returns realizes the map insert.
proof fn lemma_insert_feature_at(
    s: Seq<(Seq<char>, Seq<Seq<char>>)>,
    p: (Seq<char>, Seq<Seq<char>>),
    j: int,
)
    requires
        0 <= j <= s.len(),
        forall|m: int| 0 <= m < j ==> crate::strutil::lex_lt(#[trigger] s[m].0, p.0),
        j < s.len() ==> crate::strutil::lex_lt(p.0, s[j].0),
    ensures
        spec_insert_feature(s, p) == s.take(j) + seq![p] + s.skip(j),
    decreases j,
{
    if j == 0 {
        assert(spec_insert_feature(s, p) =~= s.take(0) + seq![p] + s.skip(0));
    } else {
        assert(crate::strutil::lex_lt(s[0].0, p.0));
        if crate::strutil::lex_lt(p.0, s[0].0) {
            crate::strutil::lemma_lex_lt_trans(s[0].0, p.0, s[0].0);
            crate::strutil::lemma_lex_lt_irrefl(s[0].0);
        }
        if p.0 == s[0].0 {
            crate::strutil::lemma_lex_lt_irrefl(s[0].0);
        }
        lemma_insert_feature_at(s.drop_first(), p, j - 1);
        assert(s.drop_first().take(j - 1) =~= s.take(j).drop_first());
        assert(s.drop_first().skip(j - 1) =~= s.skip(j));
        assert(seq![s[0]] + spec_insert_feature(s.drop_first(), p) =~= s.take(j) + seq![p]
            + s.skip(j));
    }
}

/// Replacing at the position the scan returns realizes the map insert on
/// an existing name.
proof fn lemma_insert_feature_replace(
    s: Seq<(Seq<char>, Seq<Seq<char>>)>,
    p: (Seq<char>, Seq<Seq<char>>),
    j: int,
)
    requires
        0 <= j < s.len(),
        forall|m: int| 0 <= m < j ==> crate::strutil::lex_lt(#[trigger] s[m].0, p.0),
        s[j].0 == p.0,
    ensures
        spec_insert_feature(s, p) == s.update(j, p),
    decreases j,
{
    if j == 0 {
        if crate::strutil::lex_lt(p.0, s[0].0) {
            crate::strutil::lemma_lex_lt_irrefl(s[0].0);
        }
        assert(seq![p] + s.drop_first() =~= s.update(0, p));
    } else {
        assert(crate::strutil::lex_lt(s[0].0, p.0));
        if crate::strutil::lex_lt(p.0, s[0].0) {
            crate::strutil::lemma_lex_lt_trans(s[0].0, p.0, s[0].0);
            crate::strutil::lemma_lex_lt_irrefl(s[0].0);
        }
        if p.0 == s[0].0 {
            crate::strutil::lemma_lex_lt_irrefl(s[0].0);
        }
        lemma_insert_feature_replace(s.drop_first(), p, j - 1);
        assert(seq![s[0]] + s.drop_first().update(j - 1, p) =~= s.update(j, p));
    }
}

/// Clones one implied-names list; the clone reads the same.
fn clone_string_vec(v: &Vec<String>) -> (r: Vec<String>)
    ensures
        r@.map_values(string_view()) == v@.map_values(string_view()),
{
    let mut out: Vec<String> = Vec::new();
    let mut i: usize = 0;
    while i < v.len()
        invariant
            0 <= i <= v@.len(),
            out@.len() == i,
            forall|m: int| 0 <= m < i ==> #[trigger] out@[m]@ == v@[m]@,
        decreases v@.len() - i,
    {
        out.push(v[i].clone());
        i = i + 1;
    }
    proof {
        assert(out@.map_values(string_view()) =~= v@.map_values(string_view()));
    }
    out
}

/// Inserts a cloned entry into a name-sorted feature map, replacing an
/// entry of the same name.
fn insert_feature(map: &mut Vec<(String, Vec<String>)>, p: (String, Vec<String>))
    ensures
        features_view(final(map)@) == spec_insert_feature(
            features_view(old(map)@),
            feature_view()(p),
        ),
{
    let mut j: usize = 0;
    while j < map.len()
        invariant
            map@ == old(map)@,
            0 <= j <= map@.len(),
            forall|m: int|
                0 <= m < j ==> crate::strutil::lex_lt(#[trigger] features_view(map@)[m].0, p.0@),
        decreases map@.len() - j,
    {
        proof {
            assert(features_view(map@)[j as int] == feature_view()(map@[j as int]));
        }
        if crate::strutil::str_lt(p.0.as_str(), map[j].0.as_str()) {
            proof {
                lemma_insert_feature_at(features_view(map@), feature_view()(p), j as int);
            }
            let ghost pre = map@;
            map.insert(j, p);
            proof {
                assert(features_view(map@) =~= features_view(pre).take(j as int) + seq![
                    feature_view()(map@[j as int]),
                ] + features_view(pre).skip(j as int)) by {
                    assert forall|m: int|
                        0 <= m < map@.len() implies #[trigger] features_view(map@)[m]
                        == feature_view()(map@[m]) by {}
                }
            }
            return ;
        }
        if crate::strutil::str_eq(p.0.as_str(), map[j].0.as_str()) {
            proof {
                lemma_insert_feature_replace(features_view(map@), feature_view()(p), j as int);
            }
            let ghost pre = map@;
            map.set(j, p);
            proof {
                assert(features_view(map@) =~= features_view(pre).update(
                    j as int,
                    feature_view()(map@[j as int]),
                ));
            }
            return ;
        }
        proof {
            crate::strutil::lemma_lex_total(p.0@, map@[j as int].0@);
        }
        j = j + 1;
    }
    proof {
        lemma_insert_feature_at(features_view(map@), feature_view()(p), map@.len() as int);
        assert(features_view(map@).take(map@.len() as int) =~= features_view(map@));
        assert(features_view(map@).skip(map@.len() as int) =~= Seq::<
            (Seq<char>, Seq<Seq<char>>),
        >::empty());
    }
    let ghost pre = map@;
    map.push(p);
    proof {
        assert(features_view(map@) =~= features_view(pre) + seq![
            feature_view()(map@[map@.len() - 1]),
        ]);
        assert(features_view(pre) + seq![feature_view()(map@[map@.len() - 1])] =~= features_view(
            pre,
        ).take(pre.len() as int) + seq![feature_view()(map@[map@.len() - 1])] + features_view(
            pre,
        ).skip(pre.len() as int));
    }
}

/// Sorts a feature map by feature name without consuming it; a repeated
/// name keeps only its last entry, as collecting into a map does.
pub fn sorted_features(map: &Vec<(String, Vec<String>)>) -> (r: Vec<(String, Vec<String>)>)
    ensures
        features_view(r@) == spec_sort_features(features_view(map@)),
{
    let mut result: Vec<(String, Vec<String>)> = Vec::new();
    let mut i: usize = 0;
    proof {
        assert(features_view(map@).take(0) =~= Seq::<(Seq<char>, Seq<Seq<char>>)>::empty());
        assert(features_view(result@) =~= Seq::<(Seq<char>, Seq<Seq<char>>)>::empty());
        lemma_sort_features_prefix_zero(features_view(map@));
    }
    while i < map.len()
        invariant
            0 <= i <= map@.len(),
            features_view(result@) == spec_sort_features(features_view(map@).take(i as int)),
        decreases map@.len() - i,
    {
        let name = map[i].0.clone();
        let implied = clone_string_vec(&map[i].1);
        let ghost p = (name@, implied@.map_values(string_view()));
        proof {
            assert(feature_view()((name, implied)) == p);
            assert(feature_view()(map@[i as int]) == p);
            assert(features_view(map@).take(i + 1).drop_last() =~= features_view(map@).take(
                i as int,
            ));
            assert(features_view(map@).take(i + 1).last() == features_view(map@)[i as int]);
        }
        insert_feature(&mut result, (name, implied));
        i = i + 1;
    }
    proof {
        assert(features_view(map@).take(map@.len() as int) =~= features_view(map@));
    }
    result
}

proof fn lemma_sort_features_prefix_zero(s: Seq<(Seq<char>, Seq<Seq<char>>)>)
    ensures
        spec_sort_features(s.take(0)) == Seq::<(Seq<char>, Seq<Seq<char>>)>::empty(),
{
    assert(s.take(0) =~= Seq::<(Seq<char>, Seq<Seq<char>>)>::empty());
}

/// The implied names of the feature called `name`, where the map has
/// one: the first entry of that name.
pub open spec fn spec_get_feature(
    s: Seq<(Seq<char>, Seq<Seq<char>>)>,
    name: Seq<char>,
) -> Option<Seq<Seq<char>>>
    decreases s.len(),
{
    if s.len() == 0 {
        Option::None
    } else if s[0].0 == name {
        Option::Some(s[0].1)
    } else {
        spec_get_feature(s.drop_first(), name)
    }
}

/// Looks a feature up by name.
pub fn get_feature<'a>(map: &'a Vec<(String, Vec<String>)>, name: &str) -> (r: Option<
    &'a Vec<String>,
>)
    ensures
        match r {
            Some(v) => spec_get_feature(features_view(map@), name@) == Some(
                v@.map_values(string_view()),
            ),
            None => spec_get_feature(features_view(map@), name@) is None,
        },
{
    let ghost all = features_view(map@);
    let mut j: usize = 0;
    proof {
        assert(all.skip(0) =~= all);
    }
    while j < map.len()
        invariant
            all == features_view(map@),
            0 <= j <= map@.len(),
            all.len() == map@.len(),
            spec_get_feature(all, name@) == spec_get_feature(all.skip(j as int), name@),
        decreases map@.len() - j,
    {
        proof {
            assert(all.skip(j as int)[0] == all[j as int]);
            assert(all[j as int] == feature_view()(map@[j as int]));
            assert(all.skip(j as int).drop_first() =~= all.skip(j + 1));
        }
        if crate::strutil::str_eq(map[j].0.as_str(), name) {
            return Some(&map[j].1);
        }
        j = j + 1;
    }
    None
}

} // verus!
