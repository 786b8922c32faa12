//! The index's own view of versions and dependencies, as its answers
//! describe them.

use vstd::prelude::*;
use crate::strutil::{lex_lt, str_lt};

verus! {

/// A version of a package, as the index lists it.
#[derive(Clone)]
pub struct Version {
    /// The index's numeric identifier of the version.
    pub id: u64,
    /// The package name.
    pub crate_: String,
    /// The version string.
    pub num: String,
    /// The feature map: each feature name with what it implies.
    pub features: Vec<(String, Vec<String>)>,
    /// Whether the version was withdrawn.
    pub yanked: bool,
}

/// A dependency of a version, as the index lists it.
#[derive(Clone)]
pub struct Dependency {
    /// The index's numeric identifier of the dependency.
    pub id: usize,
    /// The identifier of the version the dependency belongs to.
    pub version_id: usize,
    /// The name of the package depended on.
    pub crate_id: String,
    /// The version requirement.
    pub req: String,
    /// Whether the dependency is optional.
    pub optional: bool,
    /// Whether the dependency's default features apply.
    pub default_features: bool,
    /// The features requested of the dependency.
    pub features: Vec<String>,
    /// The target restriction, where there is one.
    pub target: Option<String>,
    /// The dependency's build role.
    pub kind: DependencyKind,
}

/// The build role of a dependency, as the index spells it.
#[derive(Copy, Clone, Debug, Hash, PartialEq, Eq, Structural)]
pub enum DependencyKind {
    /// A runtime dependency.
    Normal,
    /// A test-only dependency.
    Dev,
    /// A build-time dependency.
    Build,
}

/// Stable insertion of a dependency into a list sorted by the name of
/// the package depended on.
pub open spec fn spec_insert_by_id(s: Seq<Dependency>, d: Dependency) -> Seq<Dependency>
    decreases s.len(),
{
    if s.len() == 0 {
        seq![d]
    } else if lex_lt(d.crate_id@, s[0].crate_id@) {
        seq![d] + s
    } else {
        seq![s[0]] + spec_insert_by_id(s.drop_first(), d)
    }
}

/// Stable insertion sort by the name of the package depended on.
pub open spec fn spec_sort_by_id(s: Seq<Dependency>) -> Seq<Dependency>
    decreases s.len(),
{
    if s.len() == 0 {
        Seq::empty()
    } else {
        spec_insert_by_id(spec_sort_by_id(s.drop_last()), s.last())
    }
}

proof fn lemma_insert_by_id_at(s: Seq<Dependency>, d: Dependency, j: int)
    requires
        0 <= j <= s.len(),
        forall|m: int| 0 <= m < j ==> !lex_lt(d.crate_id@, #[trigger] s[m].crate_id@),
        j < s.len() ==> lex_lt(d.crate_id@, s[j].crate_id@),
    ensures
        spec_insert_by_id(s, d) == s.take(j) + seq![d] + s.skip(j),
    decreases j,
{
    if j == 0 {
        assert(spec_insert_by_id(s, d) =~= s.take(0) + seq![d] + s.skip(0));
    } else {
        lemma_insert_by_id_at(s.drop_first(), d, j - 1);
        assert(s.drop_first().take(j - 1) =~= s.take(j).drop_first());
        assert(s.drop_first().skip(j - 1) =~= s.skip(j));
        assert(seq![s[0]] + spec_insert_by_id(s.drop_first(), d) =~= s.take(j) + seq![d] + s.skip(
            j,
        ));
    }
}

fn find_pos_by_id(list: &Vec<Dependency>, name: &str) -> (j: usize)
    ensures
        0 <= j <= list@.len(),
        forall|m: int| 0 <= m < j ==> !lex_lt(name@, #[trigger] list@[m].crate_id@),
        j < list@.len() ==> lex_lt(name@, list@[j as int].crate_id@),
{
    let mut j: usize = 0;
    while j < list.len()
        invariant
            0 <= j <= list@.len(),
            forall|m: int| 0 <= m < j ==> !lex_lt(name@, #[trigger] list@[m].crate_id@),
        decreases list@.len() - j,
    {
        if str_lt(name, list[j].crate_id.as_str()) {
            return j;
        }
        j = j + 1;
    }
    j
}

/// Sorts a dependency list by the depended-on name, byte-wise ascending;
/// equal names keep their input order.
pub fn sort_by_id(v: Vec<Dependency>) -> (r: Vec<Dependency>)
    ensures
        r@ == spec_sort_by_id(v@),
{
    let mut rest = v;
    let ghost all = rest@;
    let mut result: Vec<Dependency> = Vec::new();
    let ghost mut i: int = 0;
    proof {
        assert(all.take(0) =~= Seq::<Dependency>::empty());
    }
    while rest.len() > 0
        invariant
            i == all.len() - rest@.len(),
            0 <= i <= all.len(),
            rest@ == all.skip(i),
            result@ == spec_sort_by_id(all.take(i)),
        decreases rest@.len(),
    {
        let d = rest.remove(0);
        proof {
            assert(all.skip(i)[0] == all[i]);
            assert(all.skip(i).drop_first() =~= all.skip(i + 1));
            assert(all.take(i + 1).drop_last() =~= all.take(i));
            assert(all.take(i + 1).last() == all[i]);
        }
        let j = find_pos_by_id(&result, d.crate_id.as_str());
        proof {
            lemma_insert_by_id_at(result@, d, j as int);
        }
        let ghost pre = result@;
        result.insert(j, d);
        proof {
            assert(pre.insert(j as int, d) =~= pre.take(j as int) + seq![d] + pre.skip(j as int));
            i = i + 1;
        }
    }
    proof {
        assert(all.take(all.len() as int) =~= all);
    }
    result
}

} // verus!
