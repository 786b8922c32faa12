//! The on-disk package record store: records from the canonical source
//! tree and from the private cache, reconciled so that no identity occurs
//! twice.

use vstd::prelude::*;
use vstd::string::StrSliceExecFns;
use crate::strutil::{lex_le, str_eq, str_lt, lemma_lex_total};

verus! {

/// Whether a package version was marked as withdrawn on the index server.
#[derive(Copy, Clone, Debug, PartialEq, Eq, Structural)]
pub enum YankState {
    /// The version was withdrawn.
    Yanked,
    /// The copy was found on disk: withdrawal is an index-server concept,
    /// unknowable without a network round-trip.
    UnknownLocal,
    /// The version is available.
    Available,
}

impl From<bool> for YankState {
    /// The state a remote answer's withdrawal flag denotes.
    fn from(yanked: bool) -> (r: Self)
        ensures
            r == (if yanked {
                YankState::Yanked
            } else {
                YankState::Available
            }),
    {
        if yanked {
            YankState::Yanked
        } else {
            YankState::Available
        }
    }
}

impl vstd::std_specs::convert::FromSpecImpl<bool> for YankState {
    open spec fn obeys_from_spec() -> bool {
        true
    }

    open spec fn from_spec(yanked: bool) -> Self {
        if yanked {
            YankState::Yanked
        } else {
            YankState::Available
        }
    }
}

/// A package copy stored on disk.
#[derive(Clone)]
pub struct Crate {
    /// The package name.
    pub name: String,
    /// The package version, as the unparsed version string.
    pub version: String,
    /// The directory holding the copy.
    pub path: String,
    /// Whether this version was withdrawn, where that is known.
    pub yanked: YankState,
}

/// Two records are the same entity when name and version agree; the path
/// plays no part in identity.
pub open spec fn same_identity(a: Crate, b: Crate) -> bool {
    a.name@ == b.name@ && a.version@ == b.version@
}

/// Whether a record of `c`'s identity occurs in the list.
pub open spec fn has_identity(s: Seq<Crate>, c: Crate) -> bool
    decreases s.len(),
{
    s.len() > 0 && (same_identity(s[0], c) || has_identity(s.drop_first(), c))
}

/// An identity found in a list stands at some index.
pub proof fn lemma_has_identity_index(s: Seq<Crate>, c: Crate)
    requires
        has_identity(s, c),
    ensures
        exists|j: int| 0 <= j < s.len() && same_identity(#[trigger] s[j], c),
    decreases s.len(),
{
    if same_identity(s[0], c) {
        assert(same_identity(s[0], c));
    } else {
        lemma_has_identity_index(s.drop_first(), c);
        let j = choose|j: int|
            0 <= j < s.drop_first().len() && same_identity(#[trigger] s.drop_first()[j], c);
        assert(same_identity(s[j + 1], c));
    }
}

/// An identity standing at an index is found.
pub proof fn lemma_index_has_identity(s: Seq<Crate>, c: Crate, j: int)
    requires
        0 <= j < s.len(),
        same_identity(s[j], c),
    ensures
        has_identity(s, c),
    decreases j,
{
    if j > 0 {
        lemma_index_has_identity(s.drop_first(), c, j - 1);
    }
}

/// The first-occurrence reconciliation of new records against records
/// already kept: a record whose identity is already present is left out.
pub open spec fn spec_dedup_into(kept: Seq<Crate>, incoming: Seq<Crate>) -> Seq<Crate>
    decreases incoming.len(),
{
    if incoming.len() == 0 {
        kept
    } else {
        let prev = spec_dedup_into(kept, incoming.drop_last());
        if has_identity(prev, incoming.last()) {
            prev
        } else {
            prev.push(incoming.last())
        }
    }
}

/// The records of the private cache that stay: those whose identity is in
/// neither the canonical records nor an earlier private record.
pub open spec fn spec_private_kept(canonical: Seq<Crate>, incoming: Seq<Crate>) -> Seq<Crate>
    decreases incoming.len(),
{
    if incoming.len() == 0 {
        Seq::empty()
    } else {
        let prev = spec_private_kept(canonical, incoming.drop_last());
        let c = incoming.last();
        if has_identity(canonical, c) {
            prev
        } else if has_identity(prev, c) {
            prev
        } else {
            prev.push(c)
        }
    }
}

/// The records of the private cache that are redundant: their identity is
/// already canonical, so their backing directory is to be deleted.
pub open spec fn spec_private_redundant(canonical: Seq<Crate>, incoming: Seq<Crate>) -> Seq<Crate>
    decreases incoming.len(),
{
    if incoming.len() == 0 {
        Seq::empty()
    } else {
        let prev = spec_private_redundant(canonical, incoming.drop_last());
        let c = incoming.last();
        if has_identity(canonical, c) {
            prev.push(c)
        } else {
            prev
        }
    }
}

/// The local package record store: records found in the canonical source
/// tree beside those only the private cache holds.
pub struct Registry {
    cached: Vec<Crate>,
    local: Vec<Crate>,
}

impl Registry {
    /// The records found in the canonical tree.
    pub closed spec fn spec_cached(&self) -> Seq<Crate> {
        self.cached@
    }

    /// The records only the private cache holds.
    pub closed spec fn spec_local(&self) -> Seq<Crate> {
        self.local@
    }

    /// Every record the store knows, canonical ones first.
    pub open spec fn spec_all(&self) -> Seq<Crate> {
        self.spec_cached() + self.spec_local()
    }

    /// No identity occurs twice across the whole store.
    pub open spec fn wf(&self) -> bool {
        forall|i: int, j: int|
            0 <= i < j < self.spec_all().len() ==> !same_identity(
                #[trigger] self.spec_all()[i],
                #[trigger] self.spec_all()[j],
            )
    }

    /// Builds the store from the records scanned out of the two trees,
    /// already reconciled: canonical duplicates are dropped, and a private
    /// record whose identity is canonical is returned in the second list,
    /// for its backing directory to be deleted.
    pub fn from_records(canonical: Vec<Crate>, private_cache: Vec<Crate>) -> (r: (
        Registry,
        Vec<Crate>,
    ))
        ensures
            r.0.spec_cached() == spec_dedup_into(Seq::<Crate>::empty(), canonical@),
            r.0.spec_local() == spec_private_kept(r.0.spec_cached(), private_cache@),
            r.1@ == spec_private_redundant(r.0.spec_cached(), private_cache@),
            r.0.wf(),
    {
        let mut canonical = canonical;
        let ghost canon_all = canonical@;
        let mut cached: Vec<Crate> = Vec::new();
        let ghost mut i: int = 0;
        proof {
            assert(canon_all.take(0) =~= Seq::<Crate>::empty());
        }
        while canonical.len() > 0
            invariant
                i == canon_all.len() - canonical@.len(),
                0 <= i <= canon_all.len(),
                canonical@ == canon_all.skip(i),
                cached@ == spec_dedup_into(Seq::<Crate>::empty(), canon_all.take(i)),
                no_duplicate_identities(cached@),
            decreases canonical@.len(),
        {
            let c = canonical.remove(0);
            proof {
                assert(canon_all.skip(i)[0] == canon_all[i]);
                assert(canon_all.skip(i).drop_first() =~= canon_all.skip(i + 1));
                assert(canon_all.take(i + 1).drop_last() =~= canon_all.take(i));
                assert(canon_all.take(i + 1).last() == canon_all[i]);
            }
            let dup = contains_identity(&cached, &c);
            if !dup {
                let ghost pre = cached@;
                cached.push(c);
                proof {
                    lemma_no_dup_push(pre, canon_all[i]);
                }
            }
            proof {
                i = i + 1;
            }
        }
        proof {
            assert(canon_all.take(canon_all.len() as int) =~= canon_all);
        }
        let mut private_cache = private_cache;
        let ghost priv_all = private_cache@;
        let mut local: Vec<Crate> = Vec::new();
        let mut redundant: Vec<Crate> = Vec::new();
        let ghost mut p: int = 0;
        proof {
            assert(priv_all.take(0) =~= Seq::<Crate>::empty());
        }
        while private_cache.len() > 0
            invariant
                p == priv_all.len() - private_cache@.len(),
                0 <= p <= priv_all.len(),
                private_cache@ == priv_all.skip(p),
                local@ == spec_private_kept(cached@, priv_all.take(p)),
                redundant@ == spec_private_redundant(cached@, priv_all.take(p)),
                no_duplicate_identities(local@),
                forall|m: int, k: int|
                    0 <= m < cached@.len() && 0 <= k < local@.len() ==> !same_identity(
                        #[trigger] cached@[m],
                        #[trigger] local@[k],
                    ),
            decreases private_cache@.len(),
        {
            let c = private_cache.remove(0);
            proof {
                assert(priv_all.skip(p)[0] == priv_all[p]);
                assert(priv_all.skip(p).drop_first() =~= priv_all.skip(p + 1));
                assert(priv_all.take(p + 1).drop_last() =~= priv_all.take(p));
                assert(priv_all.take(p + 1).last() == priv_all[p]);
            }
            if contains_identity(&cached, &c) {
                redundant.push(c);
            } else {
                let dup = contains_identity(&local, &c);
                if !dup {
                    let ghost pre = local@;
                    local.push(c);
                    proof {
                        lemma_no_dup_push(pre, priv_all[p]);
                        assert forall|m: int, k: int|
                            0 <= m < cached@.len() && 0 <= k < local@.len() implies !same_identity(
                            #[trigger] cached@[m],
                            #[trigger] local@[k],
                        ) by {
                            if k == local@.len() - 1 {
                                assert(local@[k] == priv_all[p]);
                                if same_identity(cached@[m], priv_all[p]) {
                                    lemma_index_has_identity(cached@, priv_all[p], m);
                                }
                            } else {
                                assert(local@[k] == pre[k]);
                            }
                        }
                    }
                }
            }
            proof {
                p = p + 1;
            }
        }
        proof {
            assert(priv_all.take(priv_all.len() as int) =~= priv_all);
        }
        let registry = Registry { cached, local };
        proof {
            lemma_wf_from_parts(registry.spec_cached(), registry.spec_local());
        }
        (registry, redundant)
    }

    /// The record of exactly the given name and version, if the store
    /// knows one; the store's reconciliation keeps identities unique, so
    /// at most one record can match.
    pub fn get(&self, crate_name: &str, crate_version: &str) -> (r: Option<&Crate>)
        ensures
            match r {
                Some(c) => {
                    &&& exists|j: int|
                        0 <= j < self.spec_all().len() && *c == #[trigger] self.spec_all()[j]
                    &&& c.name@ == crate_name@
                    &&& c.version@ == crate_version@
                },
                None => forall|j: int|
                    0 <= j < self.spec_all().len() ==> !(#[trigger] self.spec_all()[j].name@
                        == crate_name@ && self.spec_all()[j].version@ == crate_version@),
            },
    {
        let mut j: usize = 0;
        while j < self.cached.len()
            invariant
                0 <= j <= self.spec_cached().len(),
                forall|m: int|
                    0 <= m < j ==> !(#[trigger] self.spec_cached()[m].name@ == crate_name@
                        && self.spec_cached()[m].version@ == crate_version@),
            decreases self.spec_cached().len() - j,
        {
            let c = &self.cached[j];
            if str_eq(c.name.as_str(), crate_name) && str_eq(c.version.as_str(), crate_version) {
                proof {
                    assert(self.spec_all()[j as int] == self.spec_cached()[j as int]);
                }
                return Some(c);
            }
            j = j + 1;
        }
        let mut k: usize = 0;
        while k < self.local.len()
            invariant
                0 <= k <= self.spec_local().len(),
                forall|m: int|
                    0 <= m < j ==> !(#[trigger] self.spec_cached()[m].name@ == crate_name@
                        && self.spec_cached()[m].version@ == crate_version@),
                j == self.spec_cached().len(),
                forall|m: int|
                    0 <= m < k ==> !(#[trigger] self.spec_local()[m].name@ == crate_name@
                        && self.spec_local()[m].version@ == crate_version@),
            decreases self.spec_local().len() - k,
        {
            let c = &self.local[k];
            if str_eq(c.name.as_str(), crate_name) && str_eq(c.version.as_str(), crate_version) {
                proof {
                    assert(self.spec_all()[self.spec_cached().len() + k as int]
                        == self.spec_local()[k as int]);
                }
                return Some(c);
            }
            k = k + 1;
        }
        proof {
            assert forall|m: int| 0 <= m < self.spec_all().len() implies !(
            #[trigger] self.spec_all()[m].name@ == crate_name@ && self.spec_all()[m].version@
                == crate_version@) by {
                if m < self.spec_cached().len() {
                    assert(self.spec_all()[m] == self.spec_cached()[m]);
                } else {
                    assert(self.spec_all()[m] == self.spec_local()[m - self.spec_cached().len()]);
                }
            }
        }
        None
    }

    /// The record of the lexicographically greatest version string among
    /// the records of the given name, if any. The comparison is a plain
    /// character comparison, not aware of version semantics.
    pub fn maybe_latest(&self, crate_name: &str) -> (r: Option<&Crate>)
        ensures
            match r {
                Some(c) => {
                    &&& exists|j: int|
                        0 <= j < self.spec_all().len() && *c == #[trigger] self.spec_all()[j]
                    &&& c.name@ == crate_name@
                    &&& forall|j: int|
                        0 <= j < self.spec_all().len() && #[trigger] self.spec_all()[j].name@
                            == crate_name@ ==> lex_le(self.spec_all()[j].version@, c.version@)
                },
                None => forall|j: int|
                    0 <= j < self.spec_all().len() ==> #[trigger] self.spec_all()[j].name@
                        != crate_name@,
            },
    {
        let mut best: Option<&Crate> = None;
        let cached_len = self.cached.len();
        let mut j: usize = 0;
        while j < cached_len
            invariant
                0 <= j <= cached_len,
                cached_len == self.spec_cached().len(),
                latest_so_far(*self, crate_name@, best, j as int),
            decreases cached_len - j,
        {
            let c = &self.cached[j];
            proof {
                assert(self.spec_all()[j as int] == *c);
            }
            if str_eq(c.name.as_str(), crate_name) {
                best = better_of(self, best, c, Ghost(crate_name@), Ghost(j as int));
            }
            j = j + 1;
        }
        let mut k: usize = 0;
        while k < self.local.len()
            invariant
                0 <= k <= self.spec_local().len(),
                cached_len == self.spec_cached().len(),
                latest_so_far(*self, crate_name@, best, cached_len + k),
            decreases self.spec_local().len() - k,
        {
            let c = &self.local[k];
            proof {
                assert(self.spec_all()[cached_len + k as int] == *c);
            }
            if str_eq(c.name.as_str(), crate_name) {
                best = better_of(self, best, c, Ghost(crate_name@), Ghost(cached_len + k as int));
            }
            k = k + 1;
        }
        proof {
            assert(self.spec_all().len() == cached_len + self.spec_local().len());
        }
        best
    }

    /// Drains the private-cache records, returning them so their backing
    /// directories can be deleted; canonical records are never purged.
    pub fn purge_local_cache(&mut self) -> (r: Vec<Crate>)
        ensures
            final(self).spec_cached() == old(self).spec_cached(),
            final(self).spec_local() == Seq::<Crate>::empty(),
            r@ == old(self).spec_local(),
    {
        let mut drained: Vec<Crate> = Vec::new();
        core::mem::swap(&mut drained, &mut self.local);
        drained
    }
}

/// The invariant of the running maximum: `best` is a record of the store
/// with the sought name whose version is at or above that of every
/// same-named record among the first `j`, or nothing when no record among
/// the first `j` bears the name.
pub open spec fn latest_so_far(reg: Registry, name: Seq<char>, best: Option<&Crate>, j: int) -> bool {
    match best {
        Some(c) => {
            &&& exists|m: int| 0 <= m < reg.spec_all().len() && *c == #[trigger] reg.spec_all()[m]
            &&& c.name@ == name
            &&& forall|m: int|
                0 <= m < j && #[trigger] reg.spec_all()[m].name@ == name ==> lex_le(
                    reg.spec_all()[m].version@,
                    c.version@,
                )
        },
        None => forall|m: int| 0 <= m < j ==> #[trigger] reg.spec_all()[m].name@ != name,
    }
}

/// Extends the running maximum by the same-named record at index `j`.
fn better_of<'a>(
    reg: &Registry,
    best: Option<&'a Crate>,
    c: &'a Crate,
    Ghost(name): Ghost<Seq<char>>,
    Ghost(j): Ghost<int>,
) -> (r: Option<&'a Crate>)
    requires
        0 <= j < reg.spec_all().len(),
        reg.spec_all()[j] == *c,
        c.name@ == name,
        latest_so_far(*reg, name, best, j),
    ensures
        latest_so_far(*reg, name, r, j + 1),
{
    match best {
        None => Some(c),
        Some(b) => {
            if str_lt(b.version.as_str(), c.version.as_str()) {
                proof {
                    lemma_better_best(reg.spec_all(), name, b.version@, c.version@, j);
                }
                Some(c)
            } else {
                proof {
                    lemma_lex_total(b.version@, c.version@);
                }
                Some(b)
            }
        },
    }
}

/// No identity occurs twice in the list.
pub open spec fn no_duplicate_identities(s: Seq<Crate>) -> bool {
    forall|i: int, j: int|
        0 <= i < j < s.len() ==> !same_identity(#[trigger] s[i], #[trigger] s[j])
}

proof fn lemma_no_dup_push(s: Seq<Crate>, c: Crate)
    requires
        no_duplicate_identities(s),
        !has_identity(s, c),
    ensures
        no_duplicate_identities(s.push(c)),
{
    assert forall|i: int, j: int| 0 <= i < j < s.push(c).len() implies !same_identity(
        #[trigger] s.push(c)[i],
        #[trigger] s.push(c)[j],
    ) by {
        if j == s.len() {
            assert(s.push(c)[i] == s[i]);
            if same_identity(s[i], c) {
                lemma_index_has_identity(s, c, i);
            }
        } else {
            assert(s.push(c)[i] == s[i] && s.push(c)[j] == s[j]);
        }
    }
}

proof fn lemma_wf_from_parts(cached: Seq<Crate>, local: Seq<Crate>)
    requires
        no_duplicate_identities(cached),
        no_duplicate_identities(local),
        forall|m: int, k: int|
            0 <= m < cached.len() && 0 <= k < local.len() ==> !same_identity(
                #[trigger] cached[m],
                #[trigger] local[k],
            ),
    ensures
        no_duplicate_identities(cached + local),
{
    let all = cached + local;
    assert forall|i: int, j: int| 0 <= i < j < all.len() implies !same_identity(
        #[trigger] all[i],
        #[trigger] all[j],
    ) by {
        if i < cached.len() {
            assert(all[i] == cached[i]);
        } else {
            assert(all[i] == local[i - cached.len()]);
        }
        if j < cached.len() {
            assert(all[j] == cached[j]);
        } else {
            assert(all[j] == local[j - cached.len()]);
        }
    }
}

/// A strictly greater version seen at index `j` stays maximal for the
/// prefix up to `j`.
proof fn lemma_better_best(
    all: Seq<Crate>,
    name: Seq<char>,
    old_version: Seq<char>,
    new_version: Seq<char>,
    j: int,
)
    requires
        0 <= j < all.len(),
        crate::strutil::lex_lt(old_version, new_version),
        forall|m: int|
            0 <= m < j && #[trigger] all[m].name@ == name ==> lex_le(all[m].version@, old_version),
    ensures
        forall|m: int|
            0 <= m < j && #[trigger] all[m].name@ == name ==> lex_le(all[m].version@, new_version),
{
    assert forall|m: int| 0 <= m < j && #[trigger] all[m].name@ == name implies lex_le(
        all[m].version@,
        new_version,
    ) by {
        if crate::strutil::lex_lt(all[m].version@, old_version) {
            crate::strutil::lemma_lex_lt_trans(all[m].version@, old_version, new_version);
        }
    }
}

/// An exec test for whether a record of `c`'s identity is in the list.
fn contains_identity(list: &Vec<Crate>, c: &Crate) -> (r: bool)
    ensures
        r == has_identity(list@, *c),
{
    let mut j: usize = 0;
    while j < list.len()
        invariant
            0 <= j <= list@.len(),
            forall|m: int| 0 <= m < j ==> !same_identity(#[trigger] list@[m], *c),
        decreases list@.len() - j,
    {
        let e = &list[j];
        if str_eq(e.name.as_str(), c.name.as_str()) && str_eq(
            e.version.as_str(),
            c.version.as_str(),
        ) {
            proof {
                lemma_index_has_identity(list@, *c, j as int);
            }
            return true;
        }
        j = j + 1;
    }
    proof {
        if has_identity(list@, *c) {
            lemma_has_identity_index(list@, *c);
        }
    }
    false
}

/// Whether a character is an ASCII decimal digit.
pub open spec fn is_ascii_digit_char(c: char) -> bool {
    '0' <= c && c <= '9'
}

/// The greatest index at which a hyphen is followed by an ASCII digit,
/// or a negative value when no such index exists: the split point of the
/// "{name}-{version}" chunking scheme.
pub open spec fn spec_split_point(s: Seq<char>) -> int
    decreases s.len(),
{
    if s.len() < 2 {
        -1
    } else if s[s.len() - 2] == '-' && is_ascii_digit_char(s[s.len() - 1]) {
        s.len() - 2
    } else {
        spec_split_point(s.drop_last())
    }
}

/// The split point is in bounds, marks a hyphen-digit pair, and no later
/// index does.
pub proof fn lemma_split_point(s: Seq<char>)
    ensures
        spec_split_point(s) == -1 || 0 <= spec_split_point(s) <= s.len() - 2,
        spec_split_point(s) >= 0 ==> s[spec_split_point(s)] == '-' && is_ascii_digit_char(
            s[spec_split_point(s) + 1],
        ),
        forall|j: int|
            spec_split_point(s) < j <= s.len() - 2 ==> !(s[j] == '-' && is_ascii_digit_char(
                #[trigger] s[j + 1],
            )),
    decreases s.len(),
{
    if s.len() >= 2 && !(s[s.len() - 2] == '-' && is_ascii_digit_char(s[s.len() - 1])) {
        lemma_split_point(s.drop_last());
        assert forall|j: int|
            spec_split_point(s) < j <= s.len() - 2 implies !(s[j] == '-' && is_ascii_digit_char(
            #[trigger] s[j + 1],
        )) by {
            if j < s.len() - 2 {
                assert(s.drop_last()[j] == s[j]);
                assert(s.drop_last()[j + 1] == s[j + 1]);
            }
        }
    }
}

/// Relies on `crate_version_parse::CrateVersion::try_parse`: scanning
/// from the end, it splits at the first hyphen followed by a numeric
/// character — on ASCII input, at the greatest index with a hyphen-digit
/// pair, the name before the hyphen and the version after it. ASCII
/// input without such a pair yields an empty name and the input less its
/// first character; only empty input fails.
#[verifier::external_body]
fn parse_name_version(input: &str) -> (r: Option<(String, String)>)
    requires
        input.is_ascii(),
    ensures
        r is Some <==> input@.len() > 0,
        match r {
            Some(p) => {
                let sp = spec_split_point(input@);
                &&& sp >= 0 ==> p.0@ == input@.take(sp) && p.1@ == input@.skip(sp + 1)
                &&& sp < 0 ==> p.0@.len() == 0 && p.1@ == input@.skip(1)
            },
            None => true,
        },
{
    match crate_version_parse::CrateVersion::try_parse(input) {
        Ok(cv) => Some((cv.name.to_owned(), cv.version.to_owned())),
        Err(_) => None,
    }
}

/// Splits a cache directory name written under the "{name}-{version}"
/// scheme: the split stands at the greatest hyphen-digit pair, the name
/// before it and the version after it. A name that does not fit the
/// scheme — not ASCII, or without a hyphen-digit split that leaves a
/// nonempty name — is malformed and yields nothing, so the caller skips
/// the entry rather than aborting the scan.
pub fn parse_cache_entry(dir_name: &str) -> (r: Option<(String, String)>)
    ensures
        r is Some <==> dir_name.is_ascii() && spec_split_point(dir_name@) > 0,
        match r {
            Some(p) => {
                let sp = spec_split_point(dir_name@);
                &&& p.0@ == dir_name@.take(sp)
                &&& p.1@ == dir_name@.skip(sp + 1)
                &&& dir_name@ == p.0@ + seq!['-'] + p.1@
                &&& p.0@.len() > 0
                &&& p.1@.len() > 0
                &&& is_ascii_digit_char(p.1@[0])
            },
            None => true,
        },
{
    proof {
        lemma_split_point(dir_name@);
    }
    if !dir_name.is_ascii() {
        return None;
    }
    match parse_name_version(dir_name) {
        Some((name, version)) => {
            if name.as_str().unicode_len() > 0 {
                proof {
                    let sp = spec_split_point(dir_name@);
                    assert(sp >= 0);
                    assert(dir_name@.take(sp) + seq![dir_name@[sp]] + dir_name@.skip(sp + 1)
                        =~= dir_name@);
                }
                Some((name, version))
            } else {
                None
            }
        },
        None => None,
    }
}

} // verus!
