//! The dependency categorizer: partitions a kind-keyed dependency map
//! into target-keyed groups, each sorted by dependency name in byte-wise
//! ascending order.

use vstd::prelude::*;
use vstd::multiset::Multiset;
use crate::features::{Dependency, KindMap};
use crate::strutil::{
    lex_le, lex_lt, lemma_lex_total, lemma_lex_lt_trans, lemma_lex_le_trans, lemma_lex_lt_irrefl,
    str_lt, str_eq,
};

verus! {

/// Selects the dependencies without a target restriction; an empty
/// target string restricts nothing and counts as no restriction.
pub open spec fn no_target() -> spec_fn(Dependency) -> bool {
    |d: Dependency|
        match d.target {
            Option::None => true,
            Option::Some(t) => t@.len() == 0,
        }
}

/// Selects the dependencies restricted to the nonempty target spelled
/// `key`.
pub open spec fn target_named(key: Seq<char>) -> spec_fn(Dependency) -> bool {
    |d: Dependency| d.target is Some && d.target->0@ == key && key.len() > 0
}

/// Stable insertion of `d` into a name-sorted dependency list: `d` is
/// placed after every element whose name is not greater.
pub open spec fn spec_insert_dep(s: Seq<Dependency>, d: Dependency) -> Seq<Dependency>
    decreases s.len(),
{
    if s.len() == 0 {
        seq![d]
    } else if lex_lt(d.name@, s[0].name@) {
        seq![d] + s
    } else {
        seq![s[0]] + spec_insert_dep(s.drop_first(), d)
    }
}

/// Stable insertion sort by dependency name, byte-wise ascending.
pub open spec fn spec_sort_deps(s: Seq<Dependency>) -> Seq<Dependency>
    decreases s.len(),
{
    if s.len() == 0 {
        Seq::empty()
    } else {
        spec_insert_dep(spec_sort_deps(s.drop_last()), s.last())
    }
}

/// Insertion of a target key into a sorted key list without duplicates:
/// a key already present (by characters) leaves the list unchanged.
pub open spec fn spec_insert_key(s: Seq<String>, k: String) -> Seq<String>
    decreases s.len(),
{
    if s.len() == 0 {
        seq![k]
    } else if lex_lt(k@, s[0]@) {
        seq![k] + s
    } else if k@ == s[0]@ {
        s
    } else {
        seq![s[0]] + spec_insert_key(s.drop_first(), k)
    }
}

/// The sorted list of the distinct nonempty target keys occurring in
/// `deps`.
pub open spec fn spec_target_keys(deps: Seq<Dependency>) -> Seq<String>
    decreases deps.len(),
{
    if deps.len() == 0 {
        Seq::empty()
    } else {
        let prev = spec_target_keys(deps.drop_last());
        match deps.last().target {
            Some(t) => if t@.len() > 0 {
                spec_insert_key(prev, t)
            } else {
                prev
            },
            None => prev,
        }
    }
}

/// Every element's name is at or after the previous one: the list is
/// sorted by name, byte-wise ascending.
pub open spec fn deps_sorted(s: Seq<Dependency>) -> bool
    decreases s.len(),
{
    if s.len() <= 1 {
        true
    } else {
        lex_le(s[0].name@, s[1].name@) && deps_sorted(s.drop_first())
    }
}

/// Every key is strictly before the next one: sorted and free of
/// duplicates.
pub open spec fn keys_strictly_sorted(s: Seq<String>) -> bool
    decreases s.len(),
{
    if s.len() <= 1 {
        true
    } else {
        lex_lt(s[0]@, s[1]@) && keys_strictly_sorted(s.drop_first())
    }
}

/// In a sorted dependency list, names ascend with the index.
pub proof fn lemma_deps_sorted_index(s: Seq<Dependency>, i: int, j: int)
    requires
        deps_sorted(s),
        0 <= i <= j < s.len(),
    ensures
        lex_le(s[i].name@, s[j].name@),
    decreases j,
{
    if i < j {
        if i == 0 {
            if j == 1 {
            } else {
                lemma_deps_sorted_index(s.drop_first(), 0, j - 1);
                lemma_lex_le_trans(s[0].name@, s[1].name@, s[j].name@);
            }
        } else {
            lemma_deps_sorted_index(s.drop_first(), i - 1, j - 1);
        }
    }
}

/// In a strictly sorted key list, keys at distinct indexes differ.
pub proof fn lemma_keys_distinct(s: Seq<String>, i: int, j: int)
    requires
        keys_strictly_sorted(s),
        0 <= i < j < s.len(),
    ensures
        lex_lt(s[i]@, s[j]@),
        s[i]@ != s[j]@,
    decreases j,
{
    if i == 0 {
        if j == 1 {
        } else {
            lemma_keys_distinct(s.drop_first(), 0, j - 1);
            lemma_lex_lt_trans(s[0]@, s[1]@, s[j]@);
        }
    } else {
        lemma_keys_distinct(s.drop_first(), i - 1, j - 1);
    }
    if s[i]@ == s[j]@ {
        lemma_lex_lt_irrefl(s[i]@);
    }
}

/// Inserting a dependency adds exactly it to the list's multiset.
proof fn lemma_insert_dep_multiset(s: Seq<Dependency>, d: Dependency)
    ensures
        spec_insert_dep(s, d).to_multiset() == s.to_multiset().insert(d),
    decreases s.len(),
{
    broadcast use vstd::seq_lib::lemma_multiset_commutative;
    broadcast use vstd::seq_lib::group_to_multiset_ensures;
    broadcast use vstd::multiset::group_multiset_axioms;

    if s.len() == 0 {
        assert(seq![d] =~= Seq::<Dependency>::empty().push(d));
        assert(spec_insert_dep(s, d).to_multiset() =~= s.to_multiset().insert(d));
    } else if lex_lt(d.name@, s[0].name@) {
        assert(seq![d].to_multiset() =~= Multiset::<Dependency>::empty().insert(d)) by {
            assert(seq![d] =~= Seq::<Dependency>::empty().push(d));
        }
        assert((seq![d] + s).to_multiset() =~= s.to_multiset().insert(d));
    } else {
        lemma_insert_dep_multiset(s.drop_first(), d);
        assert(seq![s[0]].to_multiset() =~= Multiset::<Dependency>::empty().insert(s[0])) by {
            assert(seq![s[0]] =~= Seq::<Dependency>::empty().push(s[0]));
        }
        assert(seq![s[0]] + s.drop_first() =~= s);
        assert((seq![s[0]] + spec_insert_dep(s.drop_first(), d)).to_multiset() =~= s.to_multiset().insert(d));
    }
}

/// Law: sorting reorders and neither drops nor duplicates — the sorted
/// list holds exactly the input's dependencies, counted with multiplicity.
pub proof fn lemma_sort_deps_multiset(s: Seq<Dependency>)
    ensures
        spec_sort_deps(s).to_multiset() == s.to_multiset(),
    decreases s.len(),
{
    broadcast use vstd::seq_lib::group_to_multiset_ensures;

    if s.len() > 0 {
        lemma_sort_deps_multiset(s.drop_last());
        lemma_insert_dep_multiset(spec_sort_deps(s.drop_last()), s.last());
        assert(s.drop_last().push(s.last()) =~= s);
        assert(s.drop_last().push(s.last()).to_multiset() == s.drop_last().to_multiset().insert(
            s.last(),
        ));
    }
}

/// Inserting into a sorted list keeps it sorted.
proof fn lemma_insert_dep_sorted(s: Seq<Dependency>, d: Dependency)
    requires
        deps_sorted(s),
    ensures
        deps_sorted(spec_insert_dep(s, d)),
    decreases s.len(),
{
    if s.len() == 0 {
    } else if lex_lt(d.name@, s[0].name@) {
        let r = seq![d] + s;
        assert(r.drop_first() =~= s);
        assert(r[0] == d && r[1] == s[0]);
    } else {
        lemma_lex_total(d.name@, s[0].name@);
        let t = spec_insert_dep(s.drop_first(), d);
        assert(deps_sorted(s.drop_first()));
        lemma_insert_dep_sorted(s.drop_first(), d);
        let r = seq![s[0]] + t;
        assert(r.drop_first() =~= t);
        if s.len() == 1 {
            assert(t =~= seq![d]);
            assert(lex_le(s[0].name@, d.name@));
        } else {
            if lex_lt(d.name@, s.drop_first()[0].name@) {
                assert(t[0] == d);
                assert(lex_le(s[0].name@, d.name@));
            } else {
                assert(t[0] == s.drop_first()[0]);
                assert(lex_le(s[0].name@, t[0].name@));
            }
        }
        assert(lex_le(r[0].name@, r[1].name@));
    }
}

/// Law: the sort's output is sorted by name, byte-wise ascending.
pub proof fn lemma_sort_deps_sorted(s: Seq<Dependency>)
    ensures
        deps_sorted(spec_sort_deps(s)),
    decreases s.len(),
{
    if s.len() > 0 {
        lemma_sort_deps_sorted(s.drop_last());
        lemma_insert_dep_sorted(spec_sort_deps(s.drop_last()), s.last());
    }
}

/// Whether a key spelled `k` occurs in the list.
pub open spec fn keys_contain(s: Seq<String>, k: Seq<char>) -> bool
    decreases s.len(),
{
    s.len() > 0 && (s[0]@ == k || keys_contain(s.drop_first(), k))
}

/// A contained key stands at some index.
pub proof fn lemma_keys_contain_index(s: Seq<String>, k: Seq<char>)
    requires
        keys_contain(s, k),
    ensures
        exists|j: int| 0 <= j < s.len() && #[trigger] s[j]@ == k,
    decreases s.len(),
{
    if s[0]@ == k {
        assert(s[0]@ == k);
    } else {
        lemma_keys_contain_index(s.drop_first(), k);
        let j = choose|j: int| 0 <= j < s.drop_first().len() && #[trigger] s.drop_first()[j]@ == k;
        assert(s[j + 1]@ == k);
    }
}

/// Key insertion keeps the list strictly sorted.
proof fn lemma_insert_key_sorted(s: Seq<String>, k: String)
    requires
        keys_strictly_sorted(s),
    ensures
        keys_strictly_sorted(spec_insert_key(s, k)),
    decreases s.len(),
{
    let r = spec_insert_key(s, k);
    if s.len() == 0 {
    } else if lex_lt(k@, s[0]@) {
        assert(r.drop_first() =~= s);
        assert(r[0] == k && r[1] == s[0]);
    } else if k@ == s[0]@ {
    } else {
        lemma_lex_total(k@, s[0]@);
        let t = spec_insert_key(s.drop_first(), k);
        assert(keys_strictly_sorted(s.drop_first()));
        lemma_insert_key_sorted(s.drop_first(), k);
        assert(r.drop_first() =~= t);
        if s.len() == 1 {
            assert(t =~= seq![k]);
            assert(lex_lt(s[0]@, t[0]@));
        } else {
            if lex_lt(k@, s.drop_first()[0]@) {
                assert(t[0] == k);
            } else if k@ == s.drop_first()[0]@ {
                assert(t[0] == s.drop_first()[0]);
            } else {
                assert(t[0] == s.drop_first()[0]);
            }
            assert(lex_lt(s[0]@, t[0]@));
        }
        assert(keys_strictly_sorted(r));
    }
}

/// Key insertion makes the new key present and keeps every present key.
proof fn lemma_insert_key_contains(s: Seq<String>, k: String)
    ensures
        keys_contain(spec_insert_key(s, k), k@),
        forall|k2: Seq<char>| keys_contain(s, k2) ==> #[trigger] keys_contain(
            spec_insert_key(s, k),
            k2,
        ),
    decreases s.len(),
{
    let r = spec_insert_key(s, k);
    if s.len() == 0 {
        assert(r[0] == k);
    } else if lex_lt(k@, s[0]@) {
        assert(r[0] == k);
        assert(r.drop_first() =~= s);
    } else if k@ == s[0]@ {
        assert(r[0]@ == k@);
    } else {
        lemma_insert_key_contains(s.drop_first(), k);
        let t = spec_insert_key(s.drop_first(), k);
        assert(r[0] == s[0]);
        assert(r.drop_first() =~= t);
        assert forall|k2: Seq<char>| keys_contain(s, k2) implies #[trigger] keys_contain(
            r,
            k2,
        ) by {
            if s[0]@ != k2 {
                assert(keys_contain(s.drop_first(), k2));
                assert(keys_contain(t, k2));
                assert(keys_contain(r.drop_first(), k2));
            } else {
                assert(r[0]@ == k2);
            }
        }
    }
}

/// The list of distinct target keys of any dependency list is strictly
/// sorted and holds the target of every restricted dependency.
pub proof fn lemma_target_keys_props(deps: Seq<Dependency>)
    ensures
        keys_strictly_sorted(spec_target_keys(deps)),
        forall|i: int|
            #![trigger deps[i]]
            0 <= i < deps.len() && deps[i].target is Some && deps[i].target->0@.len() > 0
                ==> keys_contain(spec_target_keys(deps), deps[i].target->0@),
    decreases deps.len(),
{
    if deps.len() > 0 {
        lemma_target_keys_props(deps.drop_last());
        let prev = spec_target_keys(deps.drop_last());
        let ks = spec_target_keys(deps);
        match deps.last().target {
            Some(t) => {
                if t@.len() > 0 {
                    lemma_insert_key_sorted(prev, t);
                    lemma_insert_key_contains(prev, t);
                }
            },
            None => {},
        }
        assert forall|i: int|
            #![trigger deps[i]]
            0 <= i < deps.len() && deps[i].target is Some && deps[i].target->0@.len() > 0
                implies keys_contain(ks, deps[i].target->0@) by {
            if i < deps.len() - 1 {
                assert(deps.drop_last()[i] == deps[i]);
                assert(keys_contain(prev, deps[i].target->0@));
            }
        }
    }
}

/// The position where a stable insert by name places `name`: after every
/// element that does not compare greater.
fn find_dep_pos(list: &Vec<Dependency>, name: &str) -> (j: usize)
    ensures
        0 <= j <= list@.len(),
        forall|m: int| 0 <= m < j ==> !lex_lt(name@, list@[m].name@),
        j < list@.len() ==> lex_lt(name@, list@[j as int].name@),
{
    let mut j: usize = 0;
    while j < list.len()
        invariant
            0 <= j <= list@.len(),
            forall|m: int| 0 <= m < j ==> !lex_lt(name@, list@[m].name@),
        decreases list@.len() - j,
    {
        if str_lt(name, list[j].name.as_str()) {
            return j;
        }
        j = j + 1;
    }
    j
}

/// Inserting at the position `find_dep_pos` returns realizes the
/// specification insert.
proof fn lemma_insert_dep_at(s: Seq<Dependency>, d: Dependency, j: int)
    requires
        0 <= j <= s.len(),
        forall|m: int| 0 <= m < j ==> !lex_lt(d.name@, s[m].name@),
        j < s.len() ==> lex_lt(d.name@, s[j].name@),
    ensures
        spec_insert_dep(s, d) == s.take(j) + seq![d] + s.skip(j),
    decreases j,
{
    if j == 0 {
        if s.len() == 0 {
            assert(spec_insert_dep(s, d) =~= s.take(0) + seq![d] + s.skip(0));
        } else {
            assert(spec_insert_dep(s, d) =~= s.take(0) + seq![d] + s.skip(0));
        }
    } else {
        lemma_insert_dep_at(s.drop_first(), d, j - 1);
        assert(s.drop_first().take(j - 1) =~= s.take(j).drop_first());
        assert(s.drop_first().skip(j - 1) =~= s.skip(j));
        assert(seq![s[0]] + spec_insert_dep(s.drop_first(), d) =~= s.take(j) + seq![d] + s.skip(
            j,
        ));
    }
}

/// Inserts `d` into a name-sorted list, after every element whose name is
/// not greater.
fn insert_dep(list: &mut Vec<Dependency>, d: Dependency)
    ensures
        final(list)@ == spec_insert_dep(old(list)@, d),
{
    let j = find_dep_pos(list, d.name.as_str());
    proof {
        lemma_insert_dep_at(list@, d, j as int);
    }
    let ghost pre = list@;
    list.insert(j, d);
    proof {
        assert(pre.insert(j as int, d) =~= pre.take(j as int) + seq![d] + pre.skip(j as int));
    }
}

/// Sorts a dependency list by name, byte-wise ascending; equal names keep
/// their input order.
pub fn sort_deps(v: Vec<Dependency>) -> (r: Vec<Dependency>)
    ensures
        r@ == spec_sort_deps(v@),
{
    let mut v = v;
    let ghost orig = v@;
    let mut result: Vec<Dependency> = Vec::new();
    let ghost mut i: int = 0;
    proof {
        assert(orig.take(0) =~= Seq::<Dependency>::empty());
    }
    while v.len() > 0
        invariant
            i == orig.len() - v@.len(),
            0 <= i <= orig.len(),
            v@ == orig.skip(i),
            result@ == spec_sort_deps(orig.take(i)),
        decreases v@.len(),
    {
        let d = v.remove(0);
        proof {
            assert(orig.skip(i)[0] == orig[i]);
            assert(orig.skip(i).drop_first() =~= orig.skip(i + 1));
            assert(orig.take(i + 1).drop_last() =~= orig.take(i));
            assert(orig.take(i + 1).last() == orig[i]);
        }
        insert_dep(&mut result, d);
        proof {
            i = i + 1;
        }
    }
    proof {
        assert(orig.take(orig.len() as int) =~= orig);
    }
    result
}

/// Inserting at the position the key scan returns realizes the
/// specification key insert.
proof fn lemma_insert_key_at(s: Seq<String>, k: String, j: int)
    requires
        0 <= j <= s.len(),
        forall|m: int| 0 <= m < j ==> lex_lt(s[m]@, k@),
        j < s.len() ==> lex_lt(k@, s[j]@),
    ensures
        spec_insert_key(s, k) == s.take(j) + seq![k] + s.skip(j),
    decreases j,
{
    if j == 0 {
        assert(spec_insert_key(s, k) =~= s.take(0) + seq![k] + s.skip(0));
    } else {
        assert(lex_lt(s[0]@, k@));
        if lex_lt(k@, s[0]@) {
            lemma_lex_lt_trans(s[0]@, k@, s[0]@);
            lemma_lex_lt_irrefl(s[0]@);
        }
        if k@ == s[0]@ {
            lemma_lex_lt_irrefl(s[0]@);
        }
        lemma_insert_key_at(s.drop_first(), k, j - 1);
        assert(s.drop_first().take(j - 1) =~= s.take(j).drop_first());
        assert(s.drop_first().skip(j - 1) =~= s.skip(j));
        assert(seq![s[0]] + spec_insert_key(s.drop_first(), k) =~= s.take(j) + seq![k] + s.skip(
            j,
        ));
    }
}

/// A key equal to an existing one leaves the list unchanged.
proof fn lemma_insert_key_found(s: Seq<String>, k: String, j: int)
    requires
        0 <= j < s.len(),
        forall|m: int| 0 <= m < j ==> lex_lt(s[m]@, k@),
        s[j]@ == k@,
    ensures
        spec_insert_key(s, k) == s,
    decreases j,
{
    if j == 0 {
        if lex_lt(k@, s[0]@) {
            lemma_lex_lt_irrefl(s[0]@);
        }
    } else {
        assert(lex_lt(s[0]@, k@));
        if lex_lt(k@, s[0]@) {
            lemma_lex_lt_trans(s[0]@, k@, s[0]@);
            lemma_lex_lt_irrefl(s[0]@);
        }
        if k@ == s[0]@ {
            lemma_lex_lt_irrefl(s[0]@);
        }
        lemma_insert_key_found(s.drop_first(), k, j - 1);
        assert(seq![s[0]] + s.drop_first() =~= s);
    }
}

/// Inserts a target key into the sorted, duplicate-free key list.
fn insert_key(keys: &mut Vec<String>, k: String)
    requires
        keys_strictly_sorted(old(keys)@),
    ensures
        final(keys)@ == spec_insert_key(old(keys)@, k),
        keys_strictly_sorted(final(keys)@),
{
    let mut j: usize = 0;
    while j < keys.len()
        invariant
            keys@ == old(keys)@,
            keys_strictly_sorted(keys@),
            0 <= j <= keys@.len(),
            forall|m: int| 0 <= m < j ==> lex_lt(keys@[m]@, k@),
        decreases keys@.len() - j,
    {
        if str_lt(k.as_str(), keys[j].as_str()) {
            proof {
                lemma_insert_key_sorted(keys@, k);
                lemma_insert_key_at(keys@, k, j as int);
            }
            let ghost pre = keys@;
            keys.insert(j, k);
            proof {
                assert(pre.insert(j as int, k) =~= pre.take(j as int) + seq![k] + pre.skip(
                    j as int,
                ));
            }
            return ;
        }
        if str_eq(k.as_str(), keys[j].as_str()) {
            proof {
                lemma_insert_key_sorted(keys@, k);
                lemma_insert_key_found(keys@, k, j as int);
            }
            return ;
        }
        proof {
            lemma_lex_total(k@, keys@[j as int]@);
        }
        j = j + 1;
    }
    proof {
        lemma_insert_key_sorted(keys@, k);
        lemma_insert_key_at(keys@, k, keys@.len() as int);
        assert(keys@.insert(keys@.len() as int, k) =~= keys@.take(keys@.len() as int) + seq![k]
            + keys@.skip(keys@.len() as int));
        assert(keys@.push(k) =~= keys@.insert(keys@.len() as int, k));
    }
    keys.push(k);
}

/// The index of the key spelled like `t`, which must be present.
fn find_key_index(keys: &Vec<String>, t: &str) -> (j: usize)
    requires
        keys_contain(keys@, t@),
    ensures
        j < keys@.len(),
        keys@[j as int]@ == t@,
{
    let mut j: usize = 0;
    while j < keys.len()
        invariant
            0 <= j <= keys@.len(),
            forall|m: int| 0 <= m < j ==> keys@[m]@ != t@,
            keys_contain(keys@, t@),
        decreases keys@.len() - j,
    {
        if str_eq(t, keys[j].as_str()) {
            return j;
        }
        j = j + 1;
    }
    proof {
        lemma_keys_contain_index(keys@, t@);
        assert(false);
    }
    0
}

/// Dependencies grouped by target restriction: the targeted ones under
/// their exact target string, in strictly ascending key order, and the
/// unrestricted ones beside them; every list sorted by dependency name.
pub struct GroupedDeps {
    /// The targeted dependencies, keyed by their target string.
    pub with_targets: Vec<(String, Vec<Dependency>)>,
    /// The dependencies without a target restriction.
    pub without_targets: Vec<Dependency>,
}

/// What categorization promises of a group for the input list `deps`:
/// the unrestricted dependencies sorted by name; one group per distinct
/// target key, in ascending key order, holding exactly the dependencies
/// restricted to that target, sorted by name.
pub open spec fn grouped_from(g: GroupedDeps, deps: Seq<Dependency>) -> bool {
    &&& g.without_targets@ == spec_sort_deps(deps.filter(no_target()))
    &&& g.with_targets@.map_values(|p: (String, Vec<Dependency>)| p.0) == spec_target_keys(deps)
    &&& forall|i: int|
        0 <= i < g.with_targets@.len() ==> #[trigger] g.with_targets@[i].1@ == spec_sort_deps(
            deps.filter(target_named(g.with_targets@[i].0@)),
        )
}

impl GroupedDeps {
    /// Whether at least one dependency exists in either collection.
    pub fn has_deps(&self) -> (r: bool)
        ensures
            r == !(self.with_targets@.len() == 0 && self.without_targets@.len() == 0),
    {
        !(self.with_targets.len() == 0 && self.without_targets.len() == 0)
    }
}

/// Groups one kind's dependency list by target and sorts every list by
/// name.
pub fn categorize(deps: Vec<Dependency>) -> (r: GroupedDeps)
    ensures
        grouped_from(r, deps@),
{
    let ghost all = deps@;
    proof {
        lemma_target_keys_props(all);
    }
    // distinct target keys, in ascending order
    let mut keys: Vec<String> = Vec::new();
    let mut i: usize = 0;
    proof {
        assert(all.take(0) =~= Seq::<Dependency>::empty());
    }
    while i < deps.len()
        invariant
            deps@ == all,
            0 <= i <= all.len(),
            keys@ == spec_target_keys(all.take(i as int)),
            keys_strictly_sorted(keys@),
        decreases all.len() - i,
    {
        proof {
            assert(all.take(i + 1).drop_last() =~= all.take(i as int));
            assert(all.take(i + 1).last() == all[i as int]);
        }
        let d = &deps[i];
        match &d.target {
            Some(t) => {
                if !t.as_str().is_empty() {
                    insert_key(&mut keys, t.clone());
                }
            },
            None => {},
        }
        i = i + 1;
    }
    proof {
        assert(all.take(all.len() as int) =~= all);
    }
    // distribute the dependencies: unrestricted ones aside, targeted ones
    // into their key's bucket
    let mut deps = deps;
    let mut buckets: Vec<Vec<Dependency>> = Vec::new();
    let mut b: usize = 0;
    while b < keys.len()
        invariant
            buckets@.len() == b <= keys@.len(),
            forall|m: int| 0 <= m < b ==> buckets@[m]@ == Seq::<Dependency>::empty(),
        decreases keys@.len() - b,
    {
        buckets.push(Vec::new());
        b = b + 1;
    }
    let mut without: Vec<Dependency> = Vec::new();
    let ghost mut i2: int = 0;
    proof {
        assert(all.take(0) =~= Seq::<Dependency>::empty());
        reveal(Seq::filter);
        assert forall|m: int| 0 <= m < keys@.len() implies buckets@[m]@ =~= all.take(0).filter(
            target_named(keys@[m]@),
        ) by {}
        assert(without@ =~= all.take(0).filter(no_target()));
    }
    while deps.len() > 0
        invariant
            i2 == all.len() - deps@.len(),
            0 <= i2 <= all.len(),
            deps@ == all.skip(i2),
            keys@ == spec_target_keys(all),
            keys_strictly_sorted(keys@),
            buckets@.len() == keys@.len(),
            without@ == all.take(i2).filter(no_target()),
            forall|m: int|
                0 <= m < keys@.len() ==> #[trigger] buckets@[m]@ == all.take(i2).filter(
                    target_named(keys@[m]@),
                ),
        decreases deps@.len(),
    {
        let d = deps.remove(0);
        proof {
            assert(all.skip(i2)[0] == all[i2]);
            assert(all.skip(i2).drop_first() =~= all.skip(i2 + 1));
            assert(all.take(i2 + 1) =~= all.take(i2).push(all[i2]));
            all.take(i2).lemma_filter_push(all[i2], no_target());
            assert forall|m: int| 0 <= m < keys@.len() implies #[trigger] all.take(i2 + 1).filter(
                target_named(keys@[m]@),
            ) == if target_named(keys@[m]@)(all[i2]) {
                all.take(i2).filter(target_named(keys@[m]@)).push(all[i2])
            } else {
                all.take(i2).filter(target_named(keys@[m]@))
            } by {
                all.take(i2).lemma_filter_push(all[i2], target_named(keys@[m]@));
            }
        }
        let mut jj: usize = 0;
        let mut has_target = false;
        match &d.target {
            Some(t) => {
                if !t.as_str().is_empty() {
                    proof {
                        lemma_target_keys_props(all);
                        assert(keys_contain(keys@, t@));
                    }
                    jj = find_key_index(&keys, t.as_str());
                    has_target = true;
                }
            },
            None => {},
        }
        if has_target {
            proof {
                assert(target_named(keys@[jj as int]@)(all[i2]));
                assert forall|m: int|
                    0 <= m < keys@.len() && m != jj implies !target_named(keys@[m]@)(
                    all[i2],
                ) by {
                    if m < jj {
                        lemma_keys_distinct(keys@, m, jj as int);
                    } else {
                        lemma_keys_distinct(keys@, jj as int, m);
                    }
                }
            }
            let ghost pre_buckets = buckets@;
            let mut g = buckets.remove(jj);
            g.push(d);
            buckets.insert(jj, g);
            proof {
                assert(buckets@ =~= pre_buckets.update(
                    jj as int,
                    buckets@[jj as int],
                ));
            }
        } else {
            proof {
                assert(no_target()(all[i2]));
                assert forall|m: int| 0 <= m < keys@.len() implies !target_named(keys@[m]@)(
                    all[i2],
                ) by {}
            }
            without.push(d);
        }
        proof {
            i2 = i2 + 1;
        }
    }
    proof {
        assert(all.take(all.len() as int) =~= all);
    }
    // sort every list by name
    let without_targets = sort_deps(without);
    let mut with_targets: Vec<(String, Vec<Dependency>)> = Vec::new();
    let ghost all_keys = keys@;
    let ghost mut k3: int = 0;
    while keys.len() > 0
        invariant
            k3 == all_keys.len() - keys@.len(),
            0 <= k3 <= all_keys.len(),
            keys@ == all_keys.skip(k3),
            buckets@.len() == keys@.len(),
            forall|m: int|
                0 <= m < buckets@.len() ==> #[trigger] buckets@[m]@ == all.filter(
                    target_named(all_keys[m + k3]@),
                ),
            with_targets@.len() == k3,
            forall|m: int|
                0 <= m < k3 ==> #[trigger] with_targets@[m].0 == all_keys[m],
            forall|m: int|
                0 <= m < k3 ==> #[trigger] with_targets@[m].1@ == spec_sort_deps(
                    all.filter(target_named(all_keys[m]@)),
                ),
        decreases keys@.len(),
    {
        let k = keys.remove(0);
        let bucket = buckets.remove(0);
        proof {
            assert(all_keys.skip(k3)[0] == all_keys[k3]);
            assert(all_keys.skip(k3).drop_first() =~= all_keys.skip(k3 + 1));
        }
        let sorted = sort_deps(bucket);
        let pair = (k, sorted);
        let ghost gpair = pair;
        let ghost pre_wt = with_targets@;
        with_targets.push(pair);
        proof {
            k3 = k3 + 1;
            assert(gpair.1@ == spec_sort_deps(all.filter(target_named(all_keys[k3 - 1]@))));
            assert(gpair.0 == all_keys[k3 - 1]);
            assert forall|m: int| 0 <= m < k3 implies #[trigger] with_targets@[m].1@
                == spec_sort_deps(all.filter(target_named(all_keys[m]@))) by {
                if m < k3 - 1 {
                    assert(pre_wt[m].1@ == spec_sort_deps(
                        all.filter(target_named(all_keys[m]@)),
                    ));
                    assert(with_targets@[m] == pre_wt[m]);
                } else {
                    assert(with_targets@[m] == gpair);
                }
            }
            assert forall|m: int| 0 <= m < k3 implies #[trigger] with_targets@[m].0
                == all_keys[m] by {
                if m < k3 - 1 {
                    assert(pre_wt[m].0 == all_keys[m]);
                    assert(with_targets@[m] == pre_wt[m]);
                } else {
                    assert(with_targets@[m] == gpair);
                }
            }
            assert forall|m: int| 0 <= m < buckets@.len() implies #[trigger] buckets@[m]@
                == all.filter(target_named(all_keys[m + k3]@)) by {}
        }
    }
    let r = GroupedDeps { with_targets, without_targets };
    proof {
        assert(r.with_targets@.map_values(|p: (String, Vec<Dependency>)| p.0) =~= all_keys);
        assert(grouped_from(r, all));
    }
    r
}

/// The dependencies of every kind, each kind grouped by target and
/// sorted by name.
pub struct SortedDeps {
    /// The runtime dependencies, grouped and sorted.
    pub normal: GroupedDeps,
    /// The test-only dependencies, grouped and sorted.
    pub development: GroupedDeps,
    /// The build-time dependencies, grouped and sorted.
    pub build: GroupedDeps,
}

impl SortedDeps {
    /// Consumes a kind-keyed dependency map, grouping and sorting each
    /// kind's list; the input map is fully drained.
    pub fn from_kind_map(map: KindMap) -> (r: SortedDeps)
        ensures
            grouped_from(r.normal, map.normal@),
            grouped_from(r.development, map.development@),
            grouped_from(r.build, map.build@),
    {
        let KindMap { normal, development, build } = map;
        SortedDeps {
            normal: categorize(normal),
            development: categorize(development),
            build: categorize(build),
        }
    }
}

/// The target-keyed groups of a result, with each group's list seen as a
/// sequence.
pub open spec fn groups_view(s: Seq<(String, Vec<Dependency>)>) -> Seq<(String, Seq<Dependency>)> {
    s.map_values(|p: (String, Vec<Dependency>)| (p.0, p.1@))
}

/// Law: categorization is deterministic — two results produced for equal
/// input lists agree entirely: same groups, same membership, same order.
pub proof fn lemma_categorize_deterministic(a: GroupedDeps, b: GroupedDeps, deps: Seq<Dependency>)
    requires
        grouped_from(a, deps),
        grouped_from(b, deps),
    ensures
        a.without_targets@ == b.without_targets@,
        groups_view(a.with_targets@) == groups_view(b.with_targets@),
{
    let ka = a.with_targets@.map_values(|p: (String, Vec<Dependency>)| p.0);
    let kb = b.with_targets@.map_values(|p: (String, Vec<Dependency>)| p.0);
    assert(ka.len() == a.with_targets@.len());
    assert(kb.len() == b.with_targets@.len());
    assert(groups_view(a.with_targets@) =~= groups_view(b.with_targets@)) by {
        assert forall|i: int| 0 <= i < a.with_targets@.len() implies groups_view(a.with_targets@)[i]
            == groups_view(b.with_targets@)[i] by {
            assert(ka[i] == a.with_targets@[i].0);
            assert(kb[i] == b.with_targets@[i].0);
            assert(a.with_targets@[i].0 == b.with_targets@[i].0);
            assert(a.with_targets@[i].1@ == spec_sort_deps(
                deps.filter(target_named(a.with_targets@[i].0@)),
            ));
            assert(b.with_targets@[i].1@ == spec_sort_deps(
                deps.filter(target_named(b.with_targets@[i].0@)),
            ));
        }
    }
}

/// Law: equal kind maps categorize identically, whatever the order they
/// were assembled in.
pub proof fn lemma_from_kind_map_deterministic(a: SortedDeps, b: SortedDeps, map: KindMap)
    requires
        grouped_from(a.normal, map.normal@),
        grouped_from(a.development, map.development@),
        grouped_from(a.build, map.build@),
        grouped_from(b.normal, map.normal@),
        grouped_from(b.development, map.development@),
        grouped_from(b.build, map.build@),
    ensures
        a.normal.without_targets@ == b.normal.without_targets@,
        groups_view(a.normal.with_targets@) == groups_view(b.normal.with_targets@),
        a.development.without_targets@ == b.development.without_targets@,
        groups_view(a.development.with_targets@) == groups_view(b.development.with_targets@),
        a.build.without_targets@ == b.build.without_targets@,
        groups_view(a.build.with_targets@) == groups_view(b.build.with_targets@),
{
    lemma_categorize_deterministic(a.normal, b.normal, map.normal@);
    lemma_categorize_deterministic(a.development, b.development, map.development@);
    lemma_categorize_deterministic(a.build, b.build, map.build@);
}

/// How many keys of the list select `d`.
pub open spec fn count_matching(keys: Seq<String>, d: Dependency) -> int
    decreases keys.len(),
{
    if keys.len() == 0 {
        0
    } else {
        (if target_named(keys[0]@)(d) {
            1int
        } else {
            0int
        }) + count_matching(keys.drop_first(), d)
    }
}

/// The total number of dependencies the key list's groups select from
/// `deps`.
pub open spec fn spec_keys_total(deps: Seq<Dependency>, keys: Seq<String>) -> int
    decreases keys.len(),
{
    if keys.len() == 0 {
        0
    } else {
        deps.filter(target_named(keys[0]@)).len() + spec_keys_total(deps, keys.drop_first())
    }
}

/// Appending a dependency raises the group total by the number of keys
/// that select it.
proof fn lemma_keys_total_push(deps: Seq<Dependency>, keys: Seq<String>, d: Dependency)
    ensures
        spec_keys_total(deps.push(d), keys) == spec_keys_total(deps, keys) + count_matching(
            keys,
            d,
        ),
    decreases keys.len(),
{
    if keys.len() > 0 {
        deps.lemma_filter_len_push(target_named(keys[0]@), d);
        lemma_keys_total_push(deps, keys.drop_first(), d);
    }
}

/// No key in a list lying strictly above `k` spells `k`.
proof fn lemma_keys_above_not_contain(s: Seq<String>, k: Seq<char>)
    requires
        keys_strictly_sorted(s),
        s.len() > 0 ==> lex_lt(k, s[0]@),
    ensures
        !keys_contain(s, k),
    decreases s.len(),
{
    if s.len() > 0 {
        if s[0]@ == k {
            lemma_lex_lt_irrefl(k);
        }
        if s.len() > 1 {
            lemma_lex_lt_trans(k, s[0]@, s[1]@);
        }
        lemma_keys_above_not_contain(s.drop_first(), k);
    }
}

/// A dependency without a nonempty target, or whose target no key
/// spells, is selected by no key at all.
proof fn lemma_count_matching_zero(keys: Seq<String>, d: Dependency)
    requires
        d.target is Some && d.target->0@.len() > 0 ==> !keys_contain(keys, d.target->0@),
    ensures
        count_matching(keys, d) == 0,
    decreases keys.len(),
{
    if keys.len() > 0 {
        lemma_count_matching_zero(keys.drop_first(), d);
    }
}

/// A dependency with a nonempty target the strictly sorted key list
/// spells is selected by exactly one key.
proof fn lemma_count_matching_one(keys: Seq<String>, d: Dependency)
    requires
        keys_strictly_sorted(keys),
        d.target is Some,
        d.target->0@.len() > 0,
        keys_contain(keys, d.target->0@),
    ensures
        count_matching(keys, d) == 1,
    decreases keys.len(),
{
    let t = d.target->0@;
    if keys[0]@ == t {
        assert(target_named(keys[0]@)(d));
        lemma_keys_above_not_contain(keys.drop_first(), t);
        lemma_count_matching_zero(keys.drop_first(), d);
    } else {
        assert(!target_named(keys[0]@)(d));
        assert(keys_contain(keys.drop_first(), t));
        assert(keys_strictly_sorted(keys.drop_first()));
        lemma_count_matching_one(keys.drop_first(), d);
    }
}

/// Law: categorization is complete — every dependency of the input lands
/// in exactly one group: the untargeted ones together with the groups of
/// the distinct target keys account for the whole input, none dropped and
/// none counted twice.
pub proof fn lemma_categorize_complete(deps: Seq<Dependency>)
    ensures
        deps.filter(no_target()).len() + spec_keys_total(deps, spec_target_keys(deps))
            == deps.len(),
{
    let ks = spec_target_keys(deps);
    lemma_target_keys_props(deps);
    lemma_categorize_complete_prefix(deps, ks, deps.len() as int);
    assert(deps.take(deps.len() as int) =~= deps);
}

/// The counting argument behind completeness, over a prefix of the input.
proof fn lemma_categorize_complete_prefix(deps: Seq<Dependency>, ks: Seq<String>, n: int)
    requires
        0 <= n <= deps.len(),
        keys_strictly_sorted(ks),
        forall|i: int|
            #![trigger deps[i]]
            0 <= i < deps.len() && deps[i].target is Some && deps[i].target->0@.len() > 0
                ==> keys_contain(ks, deps[i].target->0@),
    ensures
        deps.take(n).filter(no_target()).len() + spec_keys_total(deps.take(n), ks) == n,
    decreases n,
{
    if n == 0 {
        assert(deps.take(0) =~= Seq::<Dependency>::empty());
        lemma_keys_total_empty(ks);
        reveal(Seq::filter);
    } else {
        lemma_categorize_complete_prefix(deps, ks, n - 1);
        let d = deps[n - 1];
        assert(deps.take(n) =~= deps.take(n - 1).push(d));
        deps.take(n - 1).lemma_filter_len_push(no_target(), d);
        lemma_keys_total_push(deps.take(n - 1), ks, d);
        if d.target is Some && d.target->0@.len() > 0 {
            lemma_count_matching_one(ks, d);
            assert(!no_target()(d));
        } else {
            lemma_count_matching_zero(ks, d);
            assert(no_target()(d));
        }
    }
}

/// Law: each dependency belongs to exactly one group — the untargeted
/// one when it has no target restriction or an empty target string, and
/// its own target's group when its target is nonempty; it is found there
/// and in no other.
pub proof fn lemma_categorize_membership(deps: Seq<Dependency>, i: int)
    requires
        0 <= i < deps.len(),
    ensures
        no_target()(deps[i]) ==> deps.filter(no_target()).contains(deps[i]),
        no_target()(deps[i]) ==> forall|k: Seq<char>|
            !(#[trigger] deps.filter(target_named(k))).contains(deps[i]),
        !no_target()(deps[i]) ==> keys_contain(spec_target_keys(deps), deps[i].target->0@),
        !no_target()(deps[i]) ==> deps.filter(target_named(deps[i].target->0@)).contains(deps[i]),
        !no_target()(deps[i]) ==> !deps.filter(no_target()).contains(deps[i]),
        forall|k: Seq<char>|
            !(deps[i].target is Some && deps[i].target->0@ == k && k.len() > 0) ==> !(
            #[trigger] deps.filter(target_named(k))).contains(deps[i]),
{
    broadcast use vstd::seq_lib::group_seq_properties;

    lemma_target_keys_props(deps);
    if no_target()(deps[i]) {
        deps.lemma_filter_contains(no_target(), i);
    } else {
        deps.lemma_filter_contains(target_named(deps[i].target->0@), i);
        if deps.filter(no_target()).contains(deps[i]) {
            let w = choose|m: int|
                0 <= m < deps.filter(no_target()).len() && deps.filter(no_target())[m] == deps[i];
            deps.lemma_filter_pred(no_target(), w);
        }
    }
    assert forall|k: Seq<char>|
        !(deps[i].target is Some && deps[i].target->0@ == k && k.len() > 0) implies !(
    #[trigger] deps.filter(target_named(k))).contains(deps[i]) by {
        if deps.filter(target_named(k)).contains(deps[i]) {
            let w = choose|m: int|
                0 <= m < deps.filter(target_named(k)).len() && deps.filter(target_named(k))[m]
                    == deps[i];
            deps.lemma_filter_pred(target_named(k), w);
        }
    }
}

/// The empty input contributes nothing to any key's group.
proof fn lemma_keys_total_empty(ks: Seq<String>)
    ensures
        spec_keys_total(Seq::<Dependency>::empty(), ks) == 0,
    decreases ks.len(),
{
    if ks.len() > 0 {
        reveal(Seq::filter);
        lemma_keys_total_empty(ks.drop_first());
    }
}

} // verus!
