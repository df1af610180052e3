//! Delegate-permission authorization algebra.
//!
//! A grant (capability) names an action, possibly a wildcard `prefix.*`, and a
//! scope: one value per scope dimension. Each dimension of the catalog has an
//! algebra (`exact`, `dns_prefix`, `path_prefix`, `set`, `semver`) that says
//! when one value is contained in, or overlaps, another. Grants are allows or
//! explicit denies; a matching deny always wins.

use vstd::prelude::*;
use crate::json::{as_string_list, string_list, JsonValue};
use crate::semver::{
    is_exact_version, parse_exact_spec, range_subset_spec, ranges_overlap_spec, satisfies_spec,
    semver_range_subset, semver_ranges_overlap, semver_satisfies,
};
use crate::text::{
    chars_eq, chars_of, concat_chars, copy_string, ends_with, has_prefix, has_suffix, starts_with, string_of,
    sub_chars,
};

verus! {

#[derive(Clone, Debug)]
pub struct ActionDef {
    pub action: String,
}

#[derive(Clone, Debug)]
pub struct ScopeDimensionDef {
    pub dimension: String,
    pub algebra: String,
}

/// The actions and scope dimensions a service defines.
#[derive(Clone, Debug)]
pub struct Catalog {
    pub service_id: String,
    pub generation: u64,
    pub actions: Vec<ActionDef>,
    pub scope_dimensions: Vec<ScopeDimensionDef>,
}

/// A map from scope dimension to value; each dimension occurs once.
#[derive(Debug)]
pub struct ScopeMap {
    entries: Vec<(String, JsonValue)>,
}

/// The value stored under `k`: the first entry with that key.
pub open spec fn lookup(entries: Seq<(String, JsonValue)>, k: Seq<char>) -> Option<JsonValue>
    decreases entries.len(),
{
    if entries.len() == 0 {
        None
    } else if entries[0].0@ == k {
        Some(entries[0].1)
    } else {
        lookup(entries.drop_first(), k)
    }
}

pub open spec fn keys_distinct(entries: Seq<(String, JsonValue)>) -> bool {
    forall|i: int, j: int|
        0 <= i < j < entries.len() ==> (#[trigger] entries[i]).0@ != (#[trigger] entries[j]).0@
}

proof fn lemma_lookup(entries: Seq<(String, JsonValue)>, k: Seq<char>)
    ensures
        match lookup(entries, k) {
            Some(v) => exists|i: int|
                0 <= i < entries.len() && (#[trigger] entries[i]).0@ == k && entries[i].1 == v,
            None => forall|i: int| 0 <= i < entries.len() ==> (#[trigger] entries[i]).0@ != k,
        },
    decreases entries.len(),
{
    if entries.len() > 0 {
        lemma_lookup(entries.drop_first(), k);
        if entries[0].0@ != k {
            match lookup(entries.drop_first(), k) {
                Some(v) => {
                    let i = choose|i: int|
                        0 <= i < entries.drop_first().len() && (
                        #[trigger] entries.drop_first()[i]).0@ == k && entries.drop_first()[i].1
                            == v;
                    assert(entries[i + 1] == entries.drop_first()[i]);
                },
                None => {
                    assert forall|i: int| 0 <= i < entries.len() implies (
                    #[trigger] entries[i]).0@ != k by {
                        if i > 0 {
                            assert(entries[i] == entries.drop_first()[i - 1]);
                        }
                    }
                },
            }
        }
    }
}

proof fn lemma_lookup_at(entries: Seq<(String, JsonValue)>, i: int)
    requires
        keys_distinct(entries),
        0 <= i < entries.len(),
    ensures
        lookup(entries, entries[i].0@) == Some(entries[i].1),
    decreases i,
{
    if i > 0 {
        assert(entries[0].0@ != entries[i].0@);
        assert(keys_distinct(entries.drop_first())) by {
            assert forall|a: int, b: int|
                0 <= a < b < entries.drop_first().len() implies (#[trigger] entries.drop_first()[
                a]).0@ != (#[trigger] entries.drop_first()[b]).0@ by {
                assert(entries.drop_first()[a] == entries[a + 1]);
                assert(entries.drop_first()[b] == entries[b + 1]);
            }
        }
        lemma_lookup_at(entries.drop_first(), i - 1);
        assert(entries.drop_first()[i - 1] == entries[i]);
    }
}

impl ScopeMap {
    #[verifier::type_invariant]
    spec fn inv(self) -> bool {
        keys_distinct(self.entries@)
    }

    /// The entries, in insertion order.
    pub closed spec fn entries_view(self) -> Seq<(String, JsonValue)> {
        self.entries@
    }

    pub closed spec fn view(self) -> Map<Seq<char>, JsonValue> {
        Map::new(
            |k: Seq<char>| lookup(self.entries@, k) is Some,
            |k: Seq<char>| lookup(self.entries@, k)->0,
        )
    }

    proof fn lemma_view(self)
        requires
            keys_distinct(self.entries@),
        ensures
            forall|i: int|
                0 <= i < self.entries@.len() ==> self.view().contains_key(
                    (#[trigger] self.entries@[i]).0@,
                ) && self.view()[self.entries@[i].0@] == self.entries@[i].1,
            forall|k: Seq<char>|
                #![trigger self.view().contains_key(k)]
                self.view().contains_key(k) ==> exists|i: int|
                    0 <= i < self.entries@.len() && (#[trigger] self.entries@[i]).0@ == k,
    {
        assert forall|i: int| 0 <= i < self.entries@.len() implies self.view().contains_key(
            (#[trigger] self.entries@[i]).0@,
        ) && self.view()[self.entries@[i].0@] == self.entries@[i].1 by {
            lemma_lookup_at(self.entries@, i);
        }
        assert forall|k: Seq<char>| #![trigger self.view().contains_key(k)]
            self.view().contains_key(k) implies exists|i: int|
                0 <= i < self.entries@.len() && (#[trigger] self.entries@[i]).0@ == k by {
            lemma_lookup(self.entries@, k);
        }
    }

    /// The empty map.
    pub fn new() -> (r: ScopeMap)
        ensures
            r.view() == Map::<Seq<char>, JsonValue>::empty(),
    {
        let r = ScopeMap { entries: Vec::new() };
        assert(r.view() =~= Map::<Seq<char>, JsonValue>::empty());
        r
    }

    /// Number of dimensions.
    pub fn len(&self) -> (r: usize)
        ensures
            r == self.entries_view().len(),
    {
        self.entries.len()
    }

    /// The value under `key`.
    pub fn get(&self, key: &str) -> (r: Option<&JsonValue>)
        ensures
            match r {
                Some(v) => self.view().contains_key(key@) && self.view()[key@] == *v,
                None => !self.view().contains_key(key@),
            },
    {
        proof {
            use_type_invariant(self);
            self.lemma_view();
        }
        let k = chars_of(key);
        match index_of_key(&self.entries, &k) {
            Some(i) => Some(&self.entries[i].1),
            None => None,
        }
    }

    /// Sets the value under `key`, replacing an earlier one.
    pub fn insert(&mut self, key: &str, value: JsonValue)
        ensures
            final(self).view() == old(self).view().insert(key@, value),
    {
        proof {
            use_type_invariant(&*self);
        }
        let ghost old_entries = self.entries@;
        let k = chars_of(key);
        let found = index_of_key(&self.entries, &k);
        let ks = string_of(&k);
        let mut entries: Vec<(String, JsonValue)> = Vec::new();
        std::mem::swap(&mut entries, &mut self.entries);
        match found {
            Some(i) => {
                let _replaced = entries.remove(i);
                entries.insert(i, (ks, value));
                proof {
                    let ne = entries@;
                    assert(ne =~= old_entries.update(i as int, (ks, value)));
                    assert forall|a: int, b: int| 0 <= a < b < ne.len() implies (
                    #[trigger] ne[a]).0@ != (#[trigger] ne[b]).0@ by {
                        assert(old_entries[a].0@ != old_entries[b].0@);
                        if a == i {
                            assert(ne[a].0@ == old_entries[a].0@);
                        }
                        if b == i {
                            assert(ne[b].0@ == old_entries[b].0@);
                        }
                    }
                }
            },
            None => {
                entries.push((ks, value));
                proof {
                    let ne = entries@;
                    assert forall|a: int, b: int| 0 <= a < b < ne.len() implies (
                    #[trigger] ne[a]).0@ != (#[trigger] ne[b]).0@ by {
                        if b < old_entries.len() {
                            assert(old_entries[a].0@ != old_entries[b].0@);
                        } else {
                            assert(ne[a] == old_entries[a]);
                        }
                    }
                }
            },
        }
        self.entries = entries;
        proof {
            let ne = self.entries@;
            let target = old(self).view().insert(key@, value);
            assert forall|kk: Seq<char>| #![trigger self.view().contains_key(kk)]
                self.view().contains_key(kk) == target.contains_key(kk) && (
                self.view().contains_key(kk) ==> self.view()[kk] == target[kk]) by {
                lemma_lookup(ne, kk);
                lemma_lookup(old_entries, kk);
                if kk == key@ {
                    match found {
                        Some(i) => lemma_lookup_at(ne, i as int),
                        None => lemma_lookup_at(ne, old_entries.len() as int),
                    }
                } else {
                    if lookup(old_entries, kk) is Some {
                        let j = choose|j: int|
                            0 <= j < old_entries.len() && (#[trigger] old_entries[j]).0@ == kk
                                && old_entries[j].1 == lookup(old_entries, kk)->0;
                        assert(ne[j] == old_entries[j]);
                        lemma_lookup_at(ne, j);
                    }
                    if lookup(ne, kk) is Some {
                        let j = choose|j: int|
                            0 <= j < ne.len() && (#[trigger] ne[j]).0@ == kk && ne[j].1 == lookup(
                                ne,
                                kk,
                            )->0;
                        assert(j < old_entries.len());
                        assert(ne[j] == old_entries[j]);
                        lemma_lookup_at(old_entries, j);
                    }
                }
            }
            assert(self.view() =~= target);
        }
    }
}

/// Index of the entry whose key is `key`.
fn index_of_key(entries: &Vec<(String, JsonValue)>, key: &Vec<char>) -> (r: Option<usize>)
    ensures
        match r {
            Some(i) => i < entries@.len() && entries@[i as int].0@ == key@,
            None => forall|j: int| 0 <= j < entries@.len() ==> (#[trigger] entries@[j]).0@ != key@,
        },
{
    let mut i: usize = 0;
    while i < entries.len()
        invariant
            i <= entries@.len(),
            forall|j: int| 0 <= j < i ==> (#[trigger] entries@[j]).0@ != key@,
        decreases entries.len() - i,
    {
        let ek = chars_of(entries[i].0.as_str());
        if chars_eq(&ek, key) {
            return Some(i);
        }
        i += 1;
    }
    None
}


/// A grant: an action (or `prefix.*`), a scope, whether it may be delegated,
/// and its effect (`"deny"`, or anything else for allow).
#[derive(Debug)]
pub struct Capability {
    pub action: String,
    pub scope: ScopeMap,
    pub delegable: bool,
    pub effect: Option<String>,
}

/// Result of a check: allowed, or denied with a reason code.
#[derive(Debug, PartialEq, Eq)]
pub enum AuthzOutcome {
    Allowed,
    Denied { code: String },
}

/// `None` for `Ok`, the code for `Denied`.
pub open spec fn outcome_code(o: AuthzOutcome) -> Option<Seq<char>> {
    match o {
        AuthzOutcome::Allowed => None,
        AuthzOutcome::Denied { code } => Some(code@),
    }
}

// ---------------------------------------------------------------------------
// Specification
// ---------------------------------------------------------------------------

pub open spec fn is_deny(cap: Capability) -> bool {
    match cap.effect {
        Some(e) => e@ == "deny"@,
        None => false,
    }
}

/// `granted` names `requested`, or is `prefix.*` with a non-empty prefix that
/// is `requested` or a dotted ancestor of it.
pub open spec fn action_covers_spec(granted: Seq<char>, requested: Seq<char>) -> bool {
    if granted == requested {
        true
    } else if has_suffix(granted, ".*"@) {
        let prefix = granted.take(granted.len() - ".*"@.len());
        prefix.len() > 0 && (requested == prefix || has_prefix(requested, prefix + "."@))
    } else {
        false
    }
}

/// `child` is `parent` or a subdomain of it; every name is under the empty one.
pub open spec fn dns_subset_spec(child: Seq<char>, parent: Seq<char>) -> bool {
    parent.len() == 0 || child == parent || has_suffix(child, "."@ + parent)
}

/// `child` is `parent` or a path below it; every path is under the empty one.
pub open spec fn path_subset_spec(child: Seq<char>, parent: Seq<char>) -> bool {
    parent.len() == 0 || child == parent || has_prefix(child, parent + "/"@)
}

/// The algebra of dimension `d`: the last catalog entry for it wins.
pub open spec fn algebra_of(dims: Seq<ScopeDimensionDef>, d: Seq<char>) -> Option<Seq<char>>
    decreases dims.len(),
{
    if dims.len() == 0 {
        None
    } else if dims.last().dimension@ == d {
        Some(dims.last().algebra@)
    } else {
        algebra_of(dims.drop_last(), d)
    }
}

/// Some range of `ranges` holds version `v`.
pub open spec fn satisfied_by_some(v: Seq<char>, ranges: Seq<Seq<char>>) -> bool {
    exists|j: int| 0 <= j < ranges.len() && #[trigger] satisfies_spec(v, ranges[j])
}

/// Some range of `parents` contains range `r`.
pub open spec fn within_some(r: Seq<char>, parents: Seq<Seq<char>>) -> bool {
    exists|j: int| 0 <= j < parents.len() && #[trigger] range_subset_spec(r, parents[j])
}

/// Some range of `others` overlaps range `r`.
pub open spec fn overlaps_some(r: Seq<char>, others: Seq<Seq<char>>) -> bool {
    exists|j: int| 0 <= j < others.len() && #[trigger] ranges_overlap_spec(r, others[j])
}

/// Containment of lists of versions and ranges: a single exact version must
/// lie in some parent range; otherwise each child range must lie within some
/// parent range.
pub open spec fn semver_subset_spec(c: Seq<Seq<char>>, p: Seq<Seq<char>>) -> bool {
    if c.len() == 0 || p.len() == 0 {
        false
    } else if c.len() == 1 && parse_exact_spec(c[0]) is Some {
        satisfied_by_some(c[0], p)
    } else {
        forall|i: int| 0 <= i < c.len() ==> #[trigger] within_some(c[i], p)
    }
}

/// Containment of scope values under an algebra.
pub open spec fn value_subset_spec(child: JsonValue, parent: JsonValue, alg: Seq<char>) -> bool {
    match (string_list(child), string_list(parent)) {
        (Some(c), Some(p)) => if alg == "exact"@ {
            c.len() == 1 && p.len() == 1 && c[0] == p[0]
        } else if alg == "dns_prefix"@ {
            c.len() == 1 && p.len() == 1 && dns_subset_spec(c[0], p[0])
        } else if alg == "path_prefix"@ {
            c.len() == 1 && p.len() == 1 && path_subset_spec(c[0], p[0])
        } else if alg == "set"@ {
            forall|i: int| 0 <= i < c.len() ==> p.contains(#[trigger] c[i])
        } else if alg == "semver"@ {
            semver_subset_spec(c, p)
        } else {
            false
        },
        _ => false,
    }
}

/// Overlap of scope values under an algebra.
pub open spec fn values_overlap_spec(a: JsonValue, b: JsonValue, alg: Seq<char>) -> bool {
    match (string_list(a), string_list(b)) {
        (Some(x), Some(y)) => if alg == "exact"@ {
            x.len() == 1 && y.len() == 1 && x[0] == y[0]
        } else if alg == "dns_prefix"@ {
            x.len() == 1 && y.len() == 1 && (dns_subset_spec(x[0], y[0]) || dns_subset_spec(
                y[0],
                x[0],
            ))
        } else if alg == "path_prefix"@ {
            x.len() == 1 && y.len() == 1 && (path_subset_spec(x[0], y[0]) || path_subset_spec(
                y[0],
                x[0],
            ))
        } else if alg == "set"@ {
            exists|i: int| 0 <= i < x.len() && y.contains(#[trigger] x[i])
        } else if alg == "semver"@ {
            exists|i: int| 0 <= i < x.len() && #[trigger] overlaps_some(x[i], y)
        } else {
            false
        },
        _ => false,
    }
}

/// Every dimension the grant constrains is present in the resource, has an
/// algebra, and the resource's value is contained in the grant's.
pub open spec fn satisfies_scope_spec(
    resource: Map<Seq<char>, JsonValue>,
    grant: Map<Seq<char>, JsonValue>,
    dims: Seq<ScopeDimensionDef>,
) -> bool {
    forall|d: Seq<char>|
        #[trigger] grant.contains_key(d) ==> resource.contains_key(d) && algebra_of(dims, d) is Some
            && value_subset_spec(resource[d], grant[d], algebra_of(dims, d)->0)
}

pub open spec fn action_listed(catalog: Catalog, action: Seq<char>) -> bool {
    exists|i: int|
        0 <= i < catalog.actions@.len() && (#[trigger] catalog.actions@[i]).action@ == action
}

pub open spec fn dimension_listed(catalog: Catalog, d: Seq<char>) -> bool {
    exists|j: int|
        0 <= j < catalog.scope_dimensions@.len() && (
        #[trigger] catalog.scope_dimensions@[j]).dimension@ == d
}

/// The grant names the action and its scope admits the resource.
pub open spec fn grant_matches(
    g: Capability,
    action: Seq<char>,
    resource: Map<Seq<char>, JsonValue>,
    catalog: Catalog,
) -> bool {
    action_covers_spec(g.action@, action) && satisfies_scope_spec(
        resource,
        g.scope.view(),
        catalog.scope_dimensions@,
    )
}

pub open spec fn deny_hit(
    g: Capability,
    action: Seq<char>,
    resource: Map<Seq<char>, JsonValue>,
    catalog: Catalog,
) -> bool {
    is_deny(g) && grant_matches(g, action, resource, catalog)
}

pub open spec fn allow_hit(
    g: Capability,
    action: Seq<char>,
    resource: Map<Seq<char>, JsonValue>,
    catalog: Catalog,
) -> bool {
    !is_deny(g) && grant_matches(g, action, resource, catalog)
}

/// The decision: `None` to allow, or the denial code.
pub open spec fn authorize_spec(
    grants: Seq<Capability>,
    action: Seq<char>,
    resource: Map<Seq<char>, JsonValue>,
    catalog: Catalog,
) -> Option<Seq<char>> {
    if !action_listed(catalog, action) {
        Some("UNKNOWN_ACTION"@)
    } else if exists|d: Seq<char>| #[trigger]
        resource.contains_key(d) && !dimension_listed(catalog, d) {
        Some("UNKNOWN_SCOPE_DIMENSION"@)
    } else if exists|i: int|
        0 <= i < grants.len() && #[trigger] deny_hit(grants[i], action, resource, catalog) {
        Some("EXPLICIT_DENY"@)
    } else if exists|i: int|
        0 <= i < grants.len() && #[trigger] allow_hit(grants[i], action, resource, catalog) {
        None
    } else {
        Some("NOT_AUTHORIZED"@)
    }
}

// ---------------------------------------------------------------------------
// Implementation
// ---------------------------------------------------------------------------

/// Whether the grant's effect is an explicit deny.
pub fn effect_is_deny(cap: &Capability) -> (r: bool)
    ensures
        r == is_deny(*cap),
{
    match &cap.effect {
        Some(e) => {
            let ec = chars_of(e.as_str());
            let deny = chars_of("deny");
            chars_eq(&ec, &deny)
        },
        None => false,
    }
}

fn action_covers_chars(granted: &Vec<char>, requested: &Vec<char>) -> (r: bool)
    ensures
        r == action_covers_spec(granted@, requested@),
{
    if chars_eq(granted, requested) {
        return true;
    }
    let wild = chars_of(".*");
    if ends_with(granted, &wild) {
        let prefix = sub_chars(granted, 0, granted.len() - wild.len());
        assert(prefix@ =~= granted@.take(granted@.len() - ".*"@.len()));
        if prefix.len() == 0 {
            return false;
        }
        let dotted = concat_chars(&prefix, &chars_of("."));
        return chars_eq(requested, &prefix) || starts_with(requested, &dotted);
    }
    false
}

/// Whether the granted action covers the requested one.
pub fn action_covers(granted: &str, requested: &str) -> (r: bool)
    ensures
        r == action_covers_spec(granted@, requested@),
{
    action_covers_chars(&chars_of(granted), &chars_of(requested))
}

fn dns_subset_chars(child: &Vec<char>, parent: &Vec<char>) -> (r: bool)
    ensures
        r == dns_subset_spec(child@, parent@),
{
    if parent.len() == 0 {
        return true;
    }
    if chars_eq(child, parent) {
        return true;
    }
    ends_with(child, &concat_chars(&chars_of("."), parent))
}

/// Whether domain `child` is `parent` or below it.
pub fn dns_prefix_subset(child: &str, parent: &str) -> (r: bool)
    ensures
        r == dns_subset_spec(child@, parent@),
{
    dns_subset_chars(&chars_of(child), &chars_of(parent))
}

fn path_subset_chars(child: &Vec<char>, parent: &Vec<char>) -> (r: bool)
    ensures
        r == path_subset_spec(child@, parent@),
{
    if parent.len() == 0 {
        return true;
    }
    if chars_eq(child, parent) {
        return true;
    }
    starts_with(child, &concat_chars(parent, &chars_of("/")))
}

/// Whether path `child` is `parent` or below it.
pub fn path_prefix_subset(child: &str, parent: &str) -> (r: bool)
    ensures
        r == path_subset_spec(child@, parent@),
{
    path_subset_chars(&chars_of(child), &chars_of(parent))
}

/// The algebra of dimension `d`, as the catalog gives it (the last entry for
/// `d` wins).
pub fn algebra_for(dims: &Vec<ScopeDimensionDef>, d: &Vec<char>) -> (r: Option<Vec<char>>)
    ensures
        match r {
            Some(a) => algebra_of(dims@, d@) == Some(a@),
            None => algebra_of(dims@, d@) is None,
        },
{
    let mut i: usize = dims.len();
    assert(dims@.take(i as int) =~= dims@);
    while i > 0
        invariant
            i <= dims@.len(),
            algebra_of(dims@, d@) == algebra_of(dims@.take(i as int), d@),
        decreases i,
    {
        let ghost pre = dims@.take(i as int);
        assert(pre.last() == dims@[i - 1]);
        assert(pre.drop_last() =~= dims@.take(i - 1));
        let name = chars_of(dims[i - 1].dimension.as_str());
        if chars_eq(&name, d) {
            return Some(chars_of(dims[i - 1].algebra.as_str()));
        }
        i -= 1;
    }
    None
}

fn has_string(list: &Vec<Vec<char>>, s: &Vec<char>) -> (r: bool)
    ensures
        r == exists|j: int| 0 <= j < list@.len() && (#[trigger] list@[j])@ == s@,
{
    let mut j: usize = 0;
    while j < list.len()
        invariant
            j <= list@.len(),
            forall|k: int| 0 <= k < j ==> (#[trigger] list@[k])@ != s@,
        decreases list.len() - j,
    {
        if chars_eq(&list[j], s) {
            return true;
        }
        j += 1;
    }
    false
}

/// The strings of `list` as a sequence of char sequences.
pub open spec fn texts(list: Seq<Vec<char>>) -> Seq<Seq<char>> {
    Seq::new(list.len(), |i: int| list[i]@)
}

fn satisfies_any(version: &Vec<char>, ranges: &Vec<Vec<char>>) -> (r: bool)
    ensures
        r == satisfied_by_some(version@, texts(ranges@)),
{
    let v = string_of(version);
    let mut j: usize = 0;
    while j < ranges.len()
        invariant
            j <= ranges@.len(),
            v@ == version@,
            forall|k: int| 0 <= k < j ==> !#[trigger] satisfies_spec(version@, texts(ranges@)[k]),
        decreases ranges.len() - j,
    {
        let rr = string_of(&ranges[j]);
        if semver_satisfies(v.as_str(), rr.as_str()) {
            assert(satisfies_spec(version@, texts(ranges@)[j as int]));
            return true;
        }
        j += 1;
    }
    false
}

fn range_within_any(range: &Vec<char>, parents: &Vec<Vec<char>>) -> (r: bool)
    ensures
        r == within_some(range@, texts(parents@)),
{
    let c = string_of(range);
    let mut j: usize = 0;
    while j < parents.len()
        invariant
            j <= parents@.len(),
            c@ == range@,
            forall|k: int|
                0 <= k < j ==> !#[trigger] range_subset_spec(range@, texts(parents@)[k]),
        decreases parents.len() - j,
    {
        let p = string_of(&parents[j]);
        if semver_range_subset(c.as_str(), p.as_str()) {
            assert(range_subset_spec(range@, texts(parents@)[j as int]));
            return true;
        }
        j += 1;
    }
    false
}

fn range_overlaps_any(range: &Vec<char>, others: &Vec<Vec<char>>) -> (r: bool)
    ensures
        r == overlaps_some(range@, texts(others@)),
{
    let a = string_of(range);
    let mut j: usize = 0;
    while j < others.len()
        invariant
            j <= others@.len(),
            a@ == range@,
            forall|k: int|
                0 <= k < j ==> !#[trigger] ranges_overlap_spec(range@, texts(others@)[k]),
        decreases others.len() - j,
    {
        let b = string_of(&others[j]);
        if semver_ranges_overlap(a.as_str(), b.as_str()) {
            assert(ranges_overlap_spec(range@, texts(others@)[j as int]));
            return true;
        }
        j += 1;
    }
    false
}

/// `semver_subset_spec` on lists of strings.
fn semver_lists_subset(c: &Vec<Vec<char>>, p: &Vec<Vec<char>>) -> (r: bool)
    ensures
        r == semver_subset_spec(texts(c@), texts(p@)),
{
    let ghost cs = texts(c@);
    let ghost ps = texts(p@);
    if c.len() == 0 || p.len() == 0 {
        return false;
    }
    if c.len() == 1 {
        let c0 = string_of(&c[0]);
        assert(cs[0] == c@[0]@);
        if is_exact_version(c0.as_str()) {
            return satisfies_any(&c[0], p);
        }
    }
    let mut i: usize = 0;
    while i < c.len()
        invariant
            i <= c@.len(),
            cs == texts(c@),
            ps == texts(p@),
            cs.len() > 0 && ps.len() > 0,
            !(cs.len() == 1 && parse_exact_spec(cs[0]) is Some),
            forall|k: int| 0 <= k < i ==> #[trigger] within_some(cs[k], ps),
        decreases c.len() - i,
    {
        assert(cs[i as int] == c@[i as int]@);
        if !range_within_any(&c[i], p) {
            assert(!within_some(cs[i as int], ps));
            return false;
        }
        i += 1;
    }
    true
}

/// Which algebra a name selects.
enum Algebra {
    Exact,
    DnsPrefix,
    PathPrefix,
    Members,
    Semver,
    Unknown,
}

spec fn algebra_named(a: Algebra, alg: Seq<char>) -> bool {
    match a {
        Algebra::Exact => alg == "exact"@,
        Algebra::DnsPrefix => alg != "exact"@ && alg == "dns_prefix"@,
        Algebra::PathPrefix => alg != "exact"@ && alg != "dns_prefix"@ && alg == "path_prefix"@,
        Algebra::Members => alg != "exact"@ && alg != "dns_prefix"@ && alg != "path_prefix"@ && alg
            == "set"@,
        Algebra::Semver => alg != "exact"@ && alg != "dns_prefix"@ && alg != "path_prefix"@ && alg
            != "set"@ && alg == "semver"@,
        Algebra::Unknown => alg != "exact"@ && alg != "dns_prefix"@ && alg != "path_prefix"@ && alg
            != "set"@ && alg != "semver"@,
    }
}

fn algebra_kind(alg: &Vec<char>) -> (r: Algebra)
    ensures
        algebra_named(r, alg@),
{
    if chars_eq(alg, &chars_of("exact")) {
        Algebra::Exact
    } else if chars_eq(alg, &chars_of("dns_prefix")) {
        Algebra::DnsPrefix
    } else if chars_eq(alg, &chars_of("path_prefix")) {
        Algebra::PathPrefix
    } else if chars_eq(alg, &chars_of("set")) {
        Algebra::Members
    } else if chars_eq(alg, &chars_of("semver")) {
        Algebra::Semver
    } else {
        Algebra::Unknown
    }
}

/// Whether scope value `child` is contained in `parent` under algebra `alg`.
#[verifier::loop_isolation(false)]
pub fn scope_value_subset(child: &JsonValue, parent: &JsonValue, alg: &Vec<char>) -> (r: bool)
    ensures
        r == value_subset_spec(*child, *parent, alg@),
{
    let c = match as_string_list(child) {
        Some(c) => c,
        None => return false,
    };
    let p = match as_string_list(parent) {
        Some(p) => p,
        None => return false,
    };
    let ghost cs = string_list(*child)->0;
    let ghost ps = string_list(*parent)->0;
    assert(texts(c@) =~= cs);
    assert(texts(p@) =~= ps);
    match algebra_kind(alg) {
        Algebra::Exact => c.len() == 1 && p.len() == 1 && chars_eq(&c[0], &p[0]),
        Algebra::DnsPrefix => c.len() == 1 && p.len() == 1 && dns_subset_chars(&c[0], &p[0]),
        Algebra::PathPrefix => c.len() == 1 && p.len() == 1 && path_subset_chars(&c[0], &p[0]),
        Algebra::Members => {
            let mut i: usize = 0;
            while i < c.len()
                invariant
                    i <= c@.len(),
                    cs == texts(c@),
                    ps == texts(p@),
                    forall|k: int| 0 <= k < i ==> ps.contains(#[trigger] cs[k]),
                decreases c.len() - i,
            {
                if !has_string(&p, &c[i]) {
                    proof {
                        if ps.contains(cs[i as int]) {
                            let j = choose|j: int| 0 <= j < ps.len() && ps[j] == cs[i as int];
                            assert(p@[j]@ == c@[i as int]@);
                        }
                    }
                    return false;
                }
                proof {
                    let j = choose|j: int| 0 <= j < p@.len() && (#[trigger] p@[j])@ == c@[i as int]@;
                    assert(ps[j] == cs[i as int]);
                }
                i += 1;
            }
            true
        },
        Algebra::Semver => semver_lists_subset(&c, &p),
        Algebra::Unknown => false,
    }
}

/// Whether scope values `a` and `b` overlap under algebra `alg`.
#[verifier::loop_isolation(false)]
pub fn scope_values_overlap(a: &JsonValue, b: &JsonValue, alg: &Vec<char>) -> (r: bool)
    ensures
        r == values_overlap_spec(*a, *b, alg@),
{
    let x = match as_string_list(a) {
        Some(x) => x,
        None => return false,
    };
    let y = match as_string_list(b) {
        Some(y) => y,
        None => return false,
    };
    let ghost xs = string_list(*a)->0;
    let ghost ys = string_list(*b)->0;
    assert(texts(x@) =~= xs);
    assert(texts(y@) =~= ys);
    match algebra_kind(alg) {
        Algebra::Exact => x.len() == 1 && y.len() == 1 && chars_eq(&x[0], &y[0]),
        Algebra::DnsPrefix => x.len() == 1 && y.len() == 1 && (dns_subset_chars(&x[0], &y[0])
            || dns_subset_chars(&y[0], &x[0])),
        Algebra::PathPrefix => x.len() == 1 && y.len() == 1 && (path_subset_chars(&x[0], &y[0])
            || path_subset_chars(&y[0], &x[0])),
        Algebra::Members => {
            let mut i: usize = 0;
            while i < x.len()
                invariant
                    i <= x@.len(),
                    xs == texts(x@),
                    ys == texts(y@),
                    forall|k: int| 0 <= k < i ==> !ys.contains(#[trigger] xs[k]),
                decreases x.len() - i,
            {
                if has_string(&y, &x[i]) {
                    proof {
                        let j = choose|j: int| 0 <= j < y@.len() && (#[trigger] y@[j])@ == x@[i as int]@;
                        assert(ys[j] == xs[i as int]);
                        assert(ys.contains(xs[i as int]));
                    }
                    return true;
                }
                proof {
                    if ys.contains(xs[i as int]) {
                        let j = choose|j: int| 0 <= j < ys.len() && ys[j] == xs[i as int];
                        assert(y@[j]@ == x@[i as int]@);
                    }
                }
                i += 1;
            }
            false
        },
        Algebra::Semver => {
            let mut i: usize = 0;
            while i < x.len()
                invariant
                    i <= x@.len(),
                    xs == texts(x@),
                    ys == texts(y@),
                    forall|k: int| 0 <= k < i ==> !#[trigger] overlaps_some(xs[k], ys),
                decreases x.len() - i,
            {
                assert(xs[i as int] == x@[i as int]@);
                if range_overlaps_any(&x[i], &y) {
                    return true;
                }
                i += 1;
            }
            false
        },
        Algebra::Unknown => false,
    }
}


/// Whether the resource lies in the grant's scope.
pub fn resource_satisfies_scope(
    resource: &ScopeMap,
    grant_scope: &ScopeMap,
    dims: &Vec<ScopeDimensionDef>,
) -> (r: bool)
    ensures
        r == satisfies_scope_spec(resource.view(), grant_scope.view(), dims@),
{
    proof {
        use_type_invariant(grant_scope);
        grant_scope.lemma_view();
    }
    let ghost rv = resource.view();
    let ghost gv = grant_scope.view();
    let mut i: usize = 0;
    while i < grant_scope.entries.len()
        invariant
            i <= grant_scope.entries@.len(),
            rv == resource.view(),
            gv == grant_scope.view(),
            forall|k: int|
                0 <= k < grant_scope.entries@.len() ==> gv.contains_key(
                    (#[trigger] grant_scope.entries@[k]).0@,
                ) && gv[grant_scope.entries@[k].0@] == grant_scope.entries@[k].1,
            forall|d: Seq<char>|
                #![trigger gv.contains_key(d)]
                gv.contains_key(d) ==> exists|k: int|
                    0 <= k < grant_scope.entries@.len() && (#[trigger] grant_scope.entries@[k]).0@
                        == d,
            forall|k: int|
                0 <= k < i ==> {
                    let d = (#[trigger] grant_scope.entries@[k]).0@;
                    rv.contains_key(d) && algebra_of(dims@, d) is Some && value_subset_spec(
                        rv[d],
                        gv[d],
                        algebra_of(dims@, d)->0,
                    )
                },
        decreases grant_scope.entries.len() - i,
    {
        let key = &grant_scope.entries[i].0;
        let ghost d = key@;
        let resource_value = match resource.get(key.as_str()) {
            Some(v) => v,
            None => {
                assert(gv.contains_key(d));
                return false;
            },
        };
        let alg = match algebra_for(dims, &chars_of(key.as_str())) {
            Some(a) => a,
            None => {
                assert(gv.contains_key(d));
                return false;
            },
        };
        if !scope_value_subset(resource_value, &grant_scope.entries[i].1, &alg) {
            assert(gv.contains_key(d));
            return false;
        }
        i += 1;
    }
    assert forall|d: Seq<char>| #[trigger] gv.contains_key(d) implies rv.contains_key(d)
        && algebra_of(dims@, d) is Some && value_subset_spec(
        rv[d],
        gv[d],
        algebra_of(dims@, d)->0,
    ) by {
        let k = choose|k: int|
            0 <= k < grant_scope.entries@.len() && (#[trigger] grant_scope.entries@[k]).0@ == d;
    }
    true
}

fn denied(code: &str) -> (r: AuthzOutcome)
    ensures
        outcome_code(r) == Some(code@),
{
    AuthzOutcome::Denied { code: copy_string(code) }
}

fn action_listed_exec(catalog: &Catalog, action: &Vec<char>) -> (r: bool)
    ensures
        r == action_listed(*catalog, action@),
{
    let mut i: usize = 0;
    while i < catalog.actions.len()
        invariant
            i <= catalog.actions@.len(),
            forall|k: int| 0 <= k < i ==> (#[trigger] catalog.actions@[k]).action@ != action@,
        decreases catalog.actions.len() - i,
    {
        if chars_eq(&chars_of(catalog.actions[i].action.as_str()), action) {
            return true;
        }
        i += 1;
    }
    false
}

fn dimension_listed_exec(catalog: &Catalog, d: &Vec<char>) -> (r: bool)
    ensures
        r == dimension_listed(*catalog, d@),
{
    let mut j: usize = 0;
    while j < catalog.scope_dimensions.len()
        invariant
            j <= catalog.scope_dimensions@.len(),
            forall|k: int|
                0 <= k < j ==> (#[trigger] catalog.scope_dimensions@[k]).dimension@ != d@,
        decreases catalog.scope_dimensions.len() - j,
    {
        if chars_eq(&chars_of(catalog.scope_dimensions[j].dimension.as_str()), d) {
            return true;
        }
        j += 1;
    }
    false
}

/// A dimension of `scope` that the catalog does not define, if any.
fn unlisted_dimension(catalog: &Catalog, scope: &ScopeMap) -> (r: bool)
    ensures
        r == exists|d: Seq<char>| #[trigger]
            scope.view().contains_key(d) && !dimension_listed(*catalog, d),
{
    proof {
        use_type_invariant(scope);
        scope.lemma_view();
    }
    let ghost sv = scope.view();
    let mut i: usize = 0;
    while i < scope.entries.len()
        invariant
            i <= scope.entries@.len(),
            sv == scope.view(),
            forall|k: int|
                0 <= k < scope.entries@.len() ==> sv.contains_key(
                    (#[trigger] scope.entries@[k]).0@,
                ),
            forall|d: Seq<char>|
                #![trigger sv.contains_key(d)]
                sv.contains_key(d) ==> exists|k: int|
                    0 <= k < scope.entries@.len() && (#[trigger] scope.entries@[k]).0@ == d,
            forall|k: int|
                0 <= k < i ==> dimension_listed(*catalog, (#[trigger] scope.entries@[k]).0@),
        decreases scope.entries.len() - i,
    {
        let key = chars_of(scope.entries[i].0.as_str());
        if !dimension_listed_exec(catalog, &key) {
            assert(sv.contains_key(key@));
            return true;
        }
        i += 1;
    }
    assert forall|d: Seq<char>| #[trigger] sv.contains_key(d) implies dimension_listed(*catalog, d) by {
        let k = choose|k: int| 0 <= k < scope.entries@.len() && (#[trigger] scope.entries@[k]).0@ == d;
    }
    false
}

/// Decides whether `grants` allow `action` on `resource`, with the denial
/// reason when they do not. A matching explicit deny wins over any allow.
#[verifier::loop_isolation(false)]
pub fn authorize(
    grants: &[Capability],
    action: &str,
    resource: &ScopeMap,
    catalog: &Catalog,
) -> (r: AuthzOutcome)
    ensures
        outcome_code(r) == authorize_spec(grants@, action@, resource.view(), *catalog),
{
    let act = chars_of(action);
    if !action_listed_exec(catalog, &act) {
        return denied("UNKNOWN_ACTION");
    }
    if unlisted_dimension(catalog, resource) {
        return denied("UNKNOWN_SCOPE_DIMENSION");
    }
    let ghost rv = resource.view();
    let mut i: usize = 0;
    while i < grants.len()
        invariant
            i <= grants@.len(),
            act@ == action@,
            rv == resource.view(),
            forall|k: int| 0 <= k < i ==> !#[trigger] deny_hit(grants@[k], action@, rv, *catalog),
        decreases grants.len() - i,
    {
        let g = &grants[i];
        if effect_is_deny(g) && action_covers_chars(&chars_of(g.action.as_str()), &act)
            && resource_satisfies_scope(resource, &g.scope, &catalog.scope_dimensions) {
            assert(deny_hit(grants@[i as int], action@, rv, *catalog));
            return denied("EXPLICIT_DENY");
        }
        i += 1;
    }
    let mut i: usize = 0;
    while i < grants.len()
        invariant
            i <= grants@.len(),
            act@ == action@,
            rv == resource.view(),
            forall|k: int| 0 <= k < i ==> !#[trigger] allow_hit(grants@[k], action@, rv, *catalog),
        decreases grants.len() - i,
    {
        let g = &grants[i];
        if !effect_is_deny(g) && action_covers_chars(&chars_of(g.action.as_str()), &act)
            && resource_satisfies_scope(resource, &g.scope, &catalog.scope_dimensions) {
            assert(allow_hit(grants@[i as int], action@, rv, *catalog));
            return AuthzOutcome::Allowed;
        }
        i += 1;
    }
    denied("NOT_AUTHORIZED")
}


// ---------------------------------------------------------------------------
// Attenuation
// ---------------------------------------------------------------------------

/// The catalog defines `action`, or `action` is `prefix.*` and the catalog
/// defines `prefix` or an action below it.
pub open spec fn action_known_spec(catalog: Catalog, action: Seq<char>) -> bool {
    ||| action_listed(catalog, action)
    ||| has_suffix(action, ".*"@) && exists|i: int|
        0 <= i < catalog.actions@.len() && #[trigger] action_under(
            catalog.actions@[i].action@,
            action.take(action.len() - ".*"@.len()),
        )
}

/// `a` is `prefix` or a dotted descendant of it.
pub open spec fn action_under(a: Seq<char>, prefix: Seq<char>) -> bool {
    a == prefix || has_prefix(a, prefix + "."@)
}

/// Every dimension the parent constrains, the child constrains to a
/// contained value.
pub open spec fn scope_map_subset_spec(
    child: Map<Seq<char>, JsonValue>,
    parent: Map<Seq<char>, JsonValue>,
    dims: Seq<ScopeDimensionDef>,
) -> bool {
    forall|d: Seq<char>|
        #[trigger] parent.contains_key(d) ==> child.contains_key(d) && algebra_of(dims, d) is Some
            && value_subset_spec(child[d], parent[d], algebra_of(dims, d)->0)
}

/// On every dimension both constrain, the allow and the deny overlap.
pub open spec fn scopes_overlap_spec(
    allow: Map<Seq<char>, JsonValue>,
    deny: Map<Seq<char>, JsonValue>,
    dims: Seq<ScopeDimensionDef>,
) -> bool {
    forall|d: Seq<char>|
        #[trigger] deny.contains_key(d) && allow.contains_key(d) ==> algebra_of(dims, d) is Some
            && values_overlap_spec(allow[d], deny[d], algebra_of(dims, d)->0)
}

/// A deny of the parent covers the child's action and overlaps its scope.
pub open spec fn deny_blocks(
    cap: Capability,
    p: Capability,
    dims: Seq<ScopeDimensionDef>,
) -> bool {
    is_deny(p) && action_covers_spec(p.action@, cap.action@) && scopes_overlap_spec(
        cap.scope.view(),
        p.scope.view(),
        dims,
    )
}

/// A delegable parent grant that covers the child's action and scope.
pub open spec fn covers_child(cap: Capability, p: Capability, dims: Seq<ScopeDimensionDef>) -> bool {
    p.delegable && action_covers_spec(p.action@, cap.action@) && scope_map_subset_spec(
        cap.scope.view(),
        p.scope.view(),
        dims,
    )
}

/// The check of one child grant against the parent set: `None` if it passes.
pub open spec fn child_check_spec(cap: Capability, parent: Seq<Capability>, catalog: Catalog) -> Option<
    Seq<char>,
> {
    let dims = catalog.scope_dimensions@;
    if !action_known_spec(catalog, cap.action@) {
        Some("UNKNOWN_ACTION"@)
    } else if exists|d: Seq<char>| #[trigger]
        cap.scope.view().contains_key(d) && !dimension_listed(catalog, d) {
        Some("UNKNOWN_SCOPE_DIMENSION"@)
    } else if is_deny(cap) {
        if exists|j: int| 0 <= j < parent.len() && #[trigger] covers_child(cap, parent[j], dims) {
            None
        } else {
            Some("SUBSET_VIOLATION"@)
        }
    } else if exists|j: int| 0 <= j < parent.len() && #[trigger] deny_blocks(cap, parent[j], dims) {
        Some("DENY_OVERRIDE_VIOLATION"@)
    } else if exists|j: int|
        0 <= j < parent.len() && !is_deny(parent[j]) && #[trigger] covers_child(cap, parent[j], dims) {
        None
    } else {
        Some("SUBSET_VIOLATION"@)
    }
}

/// The first failing child grant's code, in order; `None` if all pass.
pub open spec fn assert_subset_spec(
    child: Seq<Capability>,
    parent: Seq<Capability>,
    catalog: Catalog,
) -> Option<Seq<char>>
    decreases child.len(),
{
    if child.len() == 0 {
        None
    } else {
        match child_check_spec(child[0], parent, catalog) {
            Some(code) => Some(code),
            None => assert_subset_spec(child.drop_first(), parent, catalog),
        }
    }
}

/// Whether the catalog knows `action` (a wildcard counts when it names a
/// defined action or a prefix of one).
pub fn action_known(catalog: &Catalog, action: &str) -> (r: bool)
    ensures
        r == action_known_spec(*catalog, action@),
{
    let act = chars_of(action);
    if action_listed_exec(catalog, &act) {
        return true;
    }
    let wild = chars_of(".*");
    if !ends_with(&act, &wild) {
        return false;
    }
    let prefix = sub_chars(&act, 0, act.len() - wild.len());
    assert(prefix@ =~= action@.take(action@.len() - ".*"@.len()));
    let dotted = concat_chars(&prefix, &chars_of("."));
    let mut i: usize = 0;
    while i < catalog.actions.len()
        invariant
            i <= catalog.actions@.len(),
            dotted@ == prefix@ + "."@,
            has_suffix(action@, ".*"@),
            prefix@ == action@.take(action@.len() - ".*"@.len()),
            forall|k: int|
                0 <= k < i ==> !#[trigger] action_under(catalog.actions@[k].action@, prefix@),
        decreases catalog.actions.len() - i,
    {
        let a = chars_of(catalog.actions[i].action.as_str());
        if chars_eq(&a, &prefix) || starts_with(&a, &dotted) {
            assert(action_under(catalog.actions@[i as int].action@, prefix@));
            return true;
        }
        i += 1;
    }
    false
}

/// Whether the child scope is within the parent scope.
pub fn scope_map_subset(child: &ScopeMap, parent: &ScopeMap, dims: &Vec<ScopeDimensionDef>) -> (r:
    bool)
    ensures
        r == scope_map_subset_spec(child.view(), parent.view(), dims@),
{
    resource_satisfies_scope(child, parent, dims)
}

/// Whether an allow scope and a deny scope overlap on every dimension both
/// constrain.
pub fn scopes_overlap_deny(
    allow_scope: &ScopeMap,
    deny_scope: &ScopeMap,
    dims: &Vec<ScopeDimensionDef>,
) -> (r: bool)
    ensures
        r == scopes_overlap_spec(allow_scope.view(), deny_scope.view(), dims@),
{
    proof {
        use_type_invariant(deny_scope);
        deny_scope.lemma_view();
    }
    let ghost av = allow_scope.view();
    let ghost dv = deny_scope.view();
    let mut i: usize = 0;
    while i < deny_scope.entries.len()
        invariant
            i <= deny_scope.entries@.len(),
            av == allow_scope.view(),
            dv == deny_scope.view(),
            forall|k: int|
                0 <= k < deny_scope.entries@.len() ==> dv.contains_key(
                    (#[trigger] deny_scope.entries@[k]).0@,
                ) && dv[deny_scope.entries@[k].0@] == deny_scope.entries@[k].1,
            forall|d: Seq<char>|
                #![trigger dv.contains_key(d)]
                dv.contains_key(d) ==> exists|k: int|
                    0 <= k < deny_scope.entries@.len() && (#[trigger] deny_scope.entries@[k]).0@
                        == d,
            forall|k: int|
                0 <= k < i ==> {
                    let d = (#[trigger] deny_scope.entries@[k]).0@;
                    av.contains_key(d) ==> algebra_of(dims@, d) is Some && values_overlap_spec(
                        av[d],
                        dv[d],
                        algebra_of(dims@, d)->0,
                    )
                },
        decreases deny_scope.entries.len() - i,
    {
        let key = &deny_scope.entries[i].0;
        let ghost d = key@;
        match allow_scope.get(key.as_str()) {
            None => {},
            Some(allow_value) => {
                let alg = match algebra_for(dims, &chars_of(key.as_str())) {
                    Some(a) => a,
                    None => {
                        assert(dv.contains_key(d));
                        return false;
                    },
                };
                if !scope_values_overlap(allow_value, &deny_scope.entries[i].1, &alg) {
                    assert(dv.contains_key(d));
                    return false;
                }
            },
        }
        i += 1;
    }
    assert forall|d: Seq<char>| #[trigger] dv.contains_key(d) && av.contains_key(d) implies algebra_of(
        dims@,
        d,
    ) is Some && values_overlap_spec(av[d], dv[d], algebra_of(dims@, d)->0) by {
        let k = choose|k: int|
            0 <= k < deny_scope.entries@.len() && (#[trigger] deny_scope.entries@[k]).0@ == d;
    }
    true
}

/// Whether a deny of the parent set blocks the child allow.
pub fn parent_deny_blocks_allow(
    child: &Capability,
    parent: &[Capability],
    dims: &Vec<ScopeDimensionDef>,
) -> (r: bool)
    ensures
        r == exists|j: int| 0 <= j < parent@.len() && #[trigger] deny_blocks(*child, parent@[j], dims@),
{
    let ca = chars_of(child.action.as_str());
    let mut j: usize = 0;
    while j < parent.len()
        invariant
            j <= parent@.len(),
            ca@ == child.action@,
            forall|k: int| 0 <= k < j ==> !#[trigger] deny_blocks(*child, parent@[k], dims@),
        decreases parent.len() - j,
    {
        let p = &parent[j];
        if effect_is_deny(p) && action_covers_chars(&chars_of(p.action.as_str()), &ca)
            && scopes_overlap_deny(&child.scope, &p.scope, dims) {
            assert(deny_blocks(*child, parent@[j as int], dims@));
            return true;
        }
        j += 1;
    }
    false
}

/// Whether some delegable parent grant (an allow, when `allows_only`) covers
/// the child.
fn covered_by_parent(
    cap: &Capability,
    parent: &[Capability],
    dims: &Vec<ScopeDimensionDef>,
    allows_only: bool,
) -> (r: bool)
    ensures
        allows_only ==> r == exists|j: int|
            0 <= j < parent@.len() && !is_deny(parent@[j]) && #[trigger] covers_child(
                *cap,
                parent@[j],
                dims@,
            ),
        !allows_only ==> r == exists|j: int|
            0 <= j < parent@.len() && #[trigger] covers_child(*cap, parent@[j], dims@),
{
    let ca = chars_of(cap.action.as_str());
    let mut j: usize = 0;
    while j < parent.len()
        invariant
            j <= parent@.len(),
            ca@ == cap.action@,
            forall|k: int|
                0 <= k < j ==> !(#[trigger] covers_child(*cap, parent@[k], dims@) && (allows_only
                    ==> !is_deny(parent@[k]))),
        decreases parent.len() - j,
    {
        let p = &parent[j];
        let eligible = !allows_only || !effect_is_deny(p);
        if eligible && p.delegable && action_covers_chars(&chars_of(p.action.as_str()), &ca)
            && scope_map_subset(&cap.scope, &p.scope, dims) {
            assert(covers_child(*cap, parent@[j as int], dims@));
            return true;
        }
        j += 1;
    }
    false
}

fn check_child(cap: &Capability, parent: &[Capability], catalog: &Catalog) -> (r: Option<
    AuthzOutcome,
>)
    ensures
        match r {
            None => child_check_spec(*cap, parent@, *catalog) is None,
            Some(o) => o is Denied && outcome_code(o) == child_check_spec(*cap, parent@, *catalog),
        },
{
    if !action_known(catalog, cap.action.as_str()) {
        return Some(denied("UNKNOWN_ACTION"));
    }
    if unlisted_dimension(catalog, &cap.scope) {
        return Some(denied("UNKNOWN_SCOPE_DIMENSION"));
    }
    if effect_is_deny(cap) {
        if !covered_by_parent(cap, parent, &catalog.scope_dimensions, false) {
            return Some(denied("SUBSET_VIOLATION"));
        }
        return None;
    }
    if parent_deny_blocks_allow(cap, parent, &catalog.scope_dimensions) {
        return Some(denied("DENY_OVERRIDE_VIOLATION"));
    }
    if !covered_by_parent(cap, parent, &catalog.scope_dimensions, true) {
        return Some(denied("SUBSET_VIOLATION"));
    }
    None
}

proof fn lemma_subset_step(child: Seq<Capability>, parent: Seq<Capability>, catalog: Catalog, i: int)
    requires
        0 <= i < child.len(),
    ensures
        assert_subset_spec(child.skip(i), parent, catalog) == match child_check_spec(
            child[i],
            parent,
            catalog,
        ) {
            Some(code) => Some(code),
            None => assert_subset_spec(child.skip(i + 1), parent, catalog),
        },
{
    assert(child.skip(i)[0] == child[i]);
    assert(child.skip(i).drop_first() =~= child.skip(i + 1));
}

/// Whether the child grants are an attenuation of the parent grants: each
/// child is known to the catalog and covered by a delegable parent grant, and
/// no parent deny overlaps a child allow. The first failing child decides
/// the code.
pub fn assert_subset(child: &[Capability], parent: &[Capability], catalog: &Catalog) -> (r:
    AuthzOutcome)
    ensures
        outcome_code(r) == assert_subset_spec(child@, parent@, *catalog),
{
    let mut i: usize = 0;
    assert(child@.skip(0) =~= child@);
    while i < child.len()
        invariant
            i <= child@.len(),
            assert_subset_spec(child@, parent@, *catalog) == assert_subset_spec(
                child@.skip(i as int),
                parent@,
                *catalog,
            ),
        decreases child.len() - i,
    {
        proof {
            lemma_subset_step(child@, parent@, *catalog, i as int);
        }
        match check_child(&child[i], parent, catalog) {
            Some(o) => return o,
            None => {},
        }
        i += 1;
    }
    assert(child@.skip(i as int).len() == 0);
    AuthzOutcome::Allowed
}


// ---------------------------------------------------------------------------
// Laws
// ---------------------------------------------------------------------------

/// Every action covers itself.
pub proof fn law_action_covers_reflexive(a: Seq<char>)
    ensures
        action_covers_spec(a, a),
{
}

/// `prefix.*` covers `prefix` and every dotted descendant of it.
pub proof fn law_wildcard_covers_descendants(prefix: Seq<char>, rest: Seq<char>)
    requires
        prefix.len() > 0,
    ensures
        action_covers_spec(prefix + ".*"@, prefix),
        action_covers_spec(prefix + ".*"@, prefix + "."@ + rest),
{
    let g = prefix + ".*"@;
    assert(g.subrange(g.len() - ".*"@.len(), g.len() as int) =~= ".*"@);
    assert(g.take(g.len() - ".*"@.len()) =~= prefix);
    let r = prefix + "."@ + rest;
    assert(r.subrange(0, (prefix + "."@).len() as int) =~= prefix + "."@);
}

/// A domain is under itself.
pub proof fn law_dns_subset_reflexive(a: Seq<char>)
    ensures
        dns_subset_spec(a, a),
{
}

proof fn lemma_suffix_trans(a: Seq<char>, x: Seq<char>, y: Seq<char>)
    requires
        has_suffix(a, x),
        has_suffix(x, y),
    ensures
        has_suffix(a, y),
{
    assert forall|k: int| 0 <= k < y.len() implies a.subrange(a.len() - y.len(), a.len() as int)[k]
        == y[k] by {
        assert(a.subrange(a.len() - x.len(), a.len() as int)[x.len() - y.len() + k] == x[x.len()
            - y.len() + k]);
        assert(x.subrange(x.len() - y.len(), x.len() as int)[k] == y[k]);
    }
    assert(a.subrange(a.len() - y.len(), a.len() as int) =~= y);
}

proof fn lemma_prefix_trans(a: Seq<char>, x: Seq<char>, y: Seq<char>)
    requires
        has_prefix(a, x),
        has_prefix(x, y),
    ensures
        has_prefix(a, y),
{
    assert forall|k: int| 0 <= k < y.len() implies a.subrange(0, y.len() as int)[k] == y[k] by {
        assert(a.subrange(0, x.len() as int)[k] == x[k]);
        assert(x.subrange(0, y.len() as int)[k] == y[k]);
    }
    assert(a.subrange(0, y.len() as int) =~= y);
}

/// Being under a domain is transitive.
pub proof fn law_dns_subset_transitive(a: Seq<char>, b: Seq<char>, c: Seq<char>)
    requires
        dns_subset_spec(a, b),
        dns_subset_spec(b, c),
    ensures
        dns_subset_spec(a, c),
{
    if c.len() > 0 && b != c && a != b {
        if b.len() == 0 {
            assert((("."@) + c).len() > 0);
        } else {
            let x = "."@ + b;
            let y = "."@ + c;
            assert(has_suffix(x, y)) by {
                assert(x.subrange(x.len() - y.len(), x.len() as int) =~= b.subrange(
                    b.len() - y.len(),
                    b.len() as int,
                ));
            }
            lemma_suffix_trans(a, x, y);
        }
    }
}

/// A path is under itself.
pub proof fn law_path_subset_reflexive(a: Seq<char>)
    ensures
        path_subset_spec(a, a),
{
}

/// Being under a path is transitive.
pub proof fn law_path_subset_transitive(a: Seq<char>, b: Seq<char>, c: Seq<char>)
    requires
        path_subset_spec(a, b),
        path_subset_spec(b, c),
    ensures
        path_subset_spec(a, c),
{
    if c.len() > 0 && b != c && a != b {
        if b.len() == 0 {
            assert((c + "/"@).len() > 0);
        } else {
            let x = b + "/"@;
            let y = c + "/"@;
            assert(has_prefix(x, y)) by {
                assert(x.subrange(0, y.len() as int) =~= b.subrange(0, y.len() as int));
            }
            lemma_prefix_trans(a, x, y);
        }
    }
}

/// A matching explicit deny decides, whatever allows there are.
pub proof fn law_explicit_deny_wins(
    grants: Seq<Capability>,
    action: Seq<char>,
    resource: Map<Seq<char>, JsonValue>,
    catalog: Catalog,
    i: int,
)
    requires
        action_listed(catalog, action),
        forall|d: Seq<char>| #[trigger] resource.contains_key(d) ==> dimension_listed(catalog, d),
        0 <= i < grants.len(),
        is_deny(grants[i]),
        grant_matches(grants[i], action, resource, catalog),
    ensures
        authorize_spec(grants, action, resource, catalog) == Some("EXPLICIT_DENY"@),
{
    assert(deny_hit(grants[i], action, resource, catalog));
}

/// An allowed request is allowed by some allow grant that covers the action
/// and whose scope holds the resource, and by no matching deny.
pub proof fn law_allowed_has_witness(
    grants: Seq<Capability>,
    action: Seq<char>,
    resource: Map<Seq<char>, JsonValue>,
    catalog: Catalog,
)
    requires
        authorize_spec(grants, action, resource, catalog) is None,
    ensures
        exists|i: int|
            0 <= i < grants.len() && !is_deny(grants[i]) && #[trigger] grant_matches(
                grants[i],
                action,
                resource,
                catalog,
            ),
        forall|i: int|
            0 <= i < grants.len() && is_deny(grants[i]) ==> !#[trigger] grant_matches(
                grants[i],
                action,
                resource,
                catalog,
            ),
{
    let i = choose|i: int|
        0 <= i < grants.len() && #[trigger] allow_hit(grants[i], action, resource, catalog);
    assert(grant_matches(grants[i], action, resource, catalog));
    assert forall|k: int|
        0 <= k < grants.len() && is_deny(grants[k]) implies !#[trigger] grant_matches(
        grants[k],
        action,
        resource,
        catalog,
    ) by {
        if grant_matches(grants[k], action, resource, catalog) {
            assert(deny_hit(grants[k], action, resource, catalog));
        }
    }
}

/// Adding a deny grant never turns a denial into an allow.
pub proof fn law_adding_deny_keeps_denial(
    grants: Seq<Capability>,
    g: Capability,
    action: Seq<char>,
    resource: Map<Seq<char>, JsonValue>,
    catalog: Catalog,
)
    requires
        is_deny(g),
        authorize_spec(grants, action, resource, catalog) is Some,
    ensures
        authorize_spec(grants.push(g), action, resource, catalog) is Some,
{
    let more = grants.push(g);
    if exists|i: int| 0 <= i < grants.len() && #[trigger] deny_hit(grants[i], action, resource, catalog) {
        let i = choose|i: int| 0 <= i < grants.len() && #[trigger] deny_hit(grants[i], action, resource, catalog);
        assert(more[i] == grants[i]);
        assert(deny_hit(more[i], action, resource, catalog));
    }
    if exists|i: int| 0 <= i < more.len() && #[trigger] allow_hit(more[i], action, resource, catalog) {
        let i = choose|i: int| 0 <= i < more.len() && #[trigger] allow_hit(more[i], action, resource, catalog);
        assert(i < grants.len());
        assert(more[i] == grants[i]);
        assert(allow_hit(grants[i], action, resource, catalog));
    }
}

/// Authorization depends on which grants there are, not on their order or
/// repetition: two grant lists with the same grants give the same answer.
pub proof fn law_grant_order_irrelevant(
    grants: Seq<Capability>,
    other: Seq<Capability>,
    action: Seq<char>,
    resource: Map<Seq<char>, JsonValue>,
    catalog: Catalog,
)
    requires
        forall|c: Capability| grants.contains(c) <==> other.contains(c),
    ensures
        authorize_spec(grants, action, resource, catalog) == authorize_spec(other, action, resource, catalog),
{
    assert((exists|i: int| 0 <= i < grants.len() && #[trigger] deny_hit(grants[i], action, resource, catalog))
        <==> (exists|j: int| 0 <= j < other.len() && #[trigger] deny_hit(other[j], action, resource, catalog))) by {
        if exists|i: int| 0 <= i < grants.len() && #[trigger] deny_hit(grants[i], action, resource, catalog) {
            let i = choose|i: int| 0 <= i < grants.len() && #[trigger] deny_hit(grants[i], action, resource, catalog);
            assert(grants.contains(grants[i]));
            let j = choose|j: int| 0 <= j < other.len() && other[j] == grants[i];
            assert(deny_hit(other[j], action, resource, catalog));
        }
        if exists|j: int| 0 <= j < other.len() && #[trigger] deny_hit(other[j], action, resource, catalog) {
            let j = choose|j: int| 0 <= j < other.len() && #[trigger] deny_hit(other[j], action, resource, catalog);
            assert(other.contains(other[j]));
            let i = choose|i: int| 0 <= i < grants.len() && grants[i] == other[j];
            assert(deny_hit(grants[i], action, resource, catalog));
        }
    }
    assert((exists|i: int| 0 <= i < grants.len() && #[trigger] allow_hit(grants[i], action, resource, catalog))
        <==> (exists|j: int| 0 <= j < other.len() && #[trigger] allow_hit(other[j], action, resource, catalog))) by {
        if exists|i: int| 0 <= i < grants.len() && #[trigger] allow_hit(grants[i], action, resource, catalog) {
            let i = choose|i: int| 0 <= i < grants.len() && #[trigger] allow_hit(grants[i], action, resource, catalog);
            assert(grants.contains(grants[i]));
            let j = choose|j: int| 0 <= j < other.len() && other[j] == grants[i];
            assert(allow_hit(other[j], action, resource, catalog));
        }
        if exists|j: int| 0 <= j < other.len() && #[trigger] allow_hit(other[j], action, resource, catalog) {
            let j = choose|j: int| 0 <= j < other.len() && #[trigger] allow_hit(other[j], action, resource, catalog);
            assert(other.contains(other[j]));
            let i = choose|i: int| 0 <= i < grants.len() && grants[i] == other[j];
            assert(allow_hit(grants[i], action, resource, catalog));
        }
    }
}

/// Adding an allow grant never turns an allow into a denial.
pub proof fn law_adding_allow_keeps_allow(
    grants: Seq<Capability>,
    g: Capability,
    action: Seq<char>,
    resource: Map<Seq<char>, JsonValue>,
    catalog: Catalog,
)
    requires
        !is_deny(g),
        authorize_spec(grants, action, resource, catalog) is None,
    ensures
        authorize_spec(grants.push(g), action, resource, catalog) is None,
{
    let more = grants.push(g);
    let i = choose|i: int| 0 <= i < grants.len() && #[trigger] allow_hit(grants[i], action, resource, catalog);
    assert(more[i] == grants[i]);
    assert(allow_hit(more[i], action, resource, catalog));
    if exists|k: int| 0 <= k < more.len() && #[trigger] deny_hit(more[k], action, resource, catalog) {
        let k = choose|k: int| 0 <= k < more.len() && #[trigger] deny_hit(more[k], action, resource, catalog);
        assert(k < grants.len());
        assert(more[k] == grants[k]);
        assert(deny_hit(grants[k], action, resource, catalog));
    }
}

/// A request for an action the catalog does not define is refused with
/// `UNKNOWN_ACTION`, whatever the grants.
pub proof fn law_unknown_action_refused(
    grants: Seq<Capability>,
    action: Seq<char>,
    resource: Map<Seq<char>, JsonValue>,
    catalog: Catalog,
)
    requires
        !action_listed(catalog, action),
    ensures
        authorize_spec(grants, action, resource, catalog) == Some("UNKNOWN_ACTION"@),
{
}

/// A child set passes exactly when each of its grants passes on its own; the
/// order of the children only decides which code a failure reports.
pub proof fn law_subset_checks_each_child(
    child: Seq<Capability>,
    parent: Seq<Capability>,
    catalog: Catalog,
)
    ensures
        (assert_subset_spec(child, parent, catalog) is None) == (forall|i: int|
            0 <= i < child.len() ==> #[trigger] child_check_spec(child[i], parent, catalog) is None),
    decreases child.len(),
{
    if child.len() > 0 {
        law_subset_checks_each_child(child.drop_first(), parent, catalog);
        assert forall|i: int| 1 <= i < child.len() implies child.drop_first()[i - 1] == child[i] by {}
        if (forall|i: int|
            0 <= i < child.len() ==> #[trigger] child_check_spec(child[i], parent, catalog) is None) {
            assert forall|i: int| 0 <= i < child.drop_first().len() implies #[trigger] child_check_spec(
                child.drop_first()[i],
                parent,
                catalog,
            ) is None by {
                assert(child.drop_first()[i] == child[i + 1]);
            }
        }
        if assert_subset_spec(child, parent, catalog) is None {
            assert forall|i: int| 0 <= i < child.len() implies #[trigger] child_check_spec(
                child[i],
                parent,
                catalog,
            ) is None by {
                if i > 0 {
                    assert(child.drop_first()[i - 1] == child[i]);
                }
            }
        }
    }
}

/// Under the set algebra a child list is contained in a parent list exactly
/// when every member of the child is a member of the parent: one child
/// member missing from the parent refuses the child, whatever else it holds.
pub proof fn law_set_subset_is_membership(child: JsonValue, parent: JsonValue)
    requires
        string_list(child) is Some,
        string_list(parent) is Some,
    ensures
        value_subset_spec(child, parent, "set"@) <==> (forall|x: Seq<char>|
            string_list(child)->0.contains(x) ==> #[trigger] string_list(parent)->0.contains(x)),
{
    reveal_strlit("set");
    reveal_strlit("exact");
    reveal_strlit("dns_prefix");
    reveal_strlit("path_prefix");
    assert("set"@ != "exact"@ && "set"@ != "dns_prefix"@ && "set"@ != "path_prefix"@) by {
        assert("set"@.len() != "exact"@.len());
        assert("set"@.len() != "dns_prefix"@.len());
        assert("set"@.len() != "path_prefix"@.len());
    }
    let c = string_list(child)->0;
    let p = string_list(parent)->0;
    if value_subset_spec(child, parent, "set"@) {
        assert forall|x: Seq<char>| c.contains(x) implies #[trigger] p.contains(x) by {
            let i = choose|i: int| 0 <= i < c.len() && c[i] == x;
            assert(p.contains(c[i]));
        }
    }
    if forall|x: Seq<char>| c.contains(x) ==> #[trigger] p.contains(x) {
        assert forall|i: int| 0 <= i < c.len() implies p.contains(#[trigger] c[i]) by {
            assert(c.contains(c[i]));
        }
    }
}

/// Under the set algebra two lists overlap exactly when some value is a
/// member of both.
pub proof fn law_set_overlap_is_common_member(a: JsonValue, b: JsonValue)
    requires
        string_list(a) is Some,
        string_list(b) is Some,
    ensures
        values_overlap_spec(a, b, "set"@) <==> (exists|x: Seq<char>|
            string_list(a)->0.contains(x) && #[trigger] string_list(b)->0.contains(x)),
{
    reveal_strlit("set");
    reveal_strlit("exact");
    reveal_strlit("dns_prefix");
    reveal_strlit("path_prefix");
    assert("set"@ != "exact"@ && "set"@ != "dns_prefix"@ && "set"@ != "path_prefix"@) by {
        assert("set"@.len() != "exact"@.len());
        assert("set"@.len() != "dns_prefix"@.len());
        assert("set"@.len() != "path_prefix"@.len());
    }
    let x = string_list(a)->0;
    let y = string_list(b)->0;
    if values_overlap_spec(a, b, "set"@) {
        let i = choose|i: int| 0 <= i < x.len() && y.contains(#[trigger] x[i]);
        assert(x.contains(x[i]));
    }
    if exists|v: Seq<char>| x.contains(v) && #[trigger] y.contains(v) {
        let v = choose|v: Seq<char>| x.contains(v) && #[trigger] y.contains(v);
        let i = choose|i: int| 0 <= i < x.len() && x[i] == v;
        assert(y.contains(x[i]));
    }
}

/// Under `dns_prefix` a name is within a non-empty parent exactly when it is
/// the parent or ends with `.` and the parent (a subdomain of it).
pub proof fn law_dns_subset_is_subdomain(c: Seq<char>, p: Seq<char>)
    requires
        p.len() > 0,
    ensures
        dns_subset_spec(c, p) <==> (c == p || exists|x: Seq<char>| c == #[trigger] (x + "."@) + p),
{
    reveal_strlit(".");
    let tail = "."@ + p;
    if has_suffix(c, tail) {
        let x = c.take(c.len() - tail.len());
        let t = c.subrange(c.len() - tail.len(), c.len() as int);
        assert(t == tail);
        assert(c =~= x + t);
        assert(x + tail =~= (x + "."@) + p);
    }
    if exists|x: Seq<char>| c == #[trigger] (x + "."@) + p {
        let x = choose|x: Seq<char>| c == #[trigger] (x + "."@) + p;
        assert(c.subrange(c.len() - tail.len(), c.len() as int) =~= tail);
    }
}

/// Under `path_prefix` a path is within a non-empty parent exactly when it
/// is the parent or continues it after a `/`.
pub proof fn law_path_subset_is_below(c: Seq<char>, p: Seq<char>)
    requires
        p.len() > 0,
    ensures
        path_subset_spec(c, p) <==> (c == p || exists|x: Seq<char>| c == #[trigger] (p + "/"@) + x),
{
    let head = p + "/"@;
    if has_prefix(c, head) {
        let x = c.skip(head.len() as int);
        assert(c =~= head + x);
    }
    if exists|x: Seq<char>| c == #[trigger] (p + "/"@) + x {
        let x = choose|x: Seq<char>| c == #[trigger] (p + "/"@) + x;
        assert(c.subrange(0, head.len() as int) =~= head);
    }
}

/// Under `exact` a child value is contained in a parent value exactly when
/// both are the same single string.
pub proof fn law_exact_subset_is_equality(child: JsonValue, parent: JsonValue)
    requires
        string_list(child) is Some,
        string_list(parent) is Some,
    ensures
        value_subset_spec(child, parent, "exact"@) <==> (string_list(child)->0.len() == 1 && string_list(
            child,
        )->0 == string_list(parent)->0),
{
    let c = string_list(child)->0;
    let p = string_list(parent)->0;
    if c.len() == 1 && p.len() == 1 && c[0] == p[0] {
        assert(c =~= p);
    }
}

} // verus!
