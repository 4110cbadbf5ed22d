//! Properties of the build-time tooling that hold across calls: the
//! feature closure is the least closed set holding what was declared, and
//! the registry's answers depend only on the set of ids declared, not on
//! their order or repetition.
use vstd::prelude::*;

use crate::build::feature_graph::{
    capabilities_for_features_spec, deps_of, feature_closure, is_path, lemma_reachable_in_closed,
    reachable, trimmed, Edges,
};
use crate::build::capability_ids::{capability_ids_spec, firing_bundle_ids_spec};
use crate::build::registry::{
    building_block_ids, capability_index_from, capability_table_spec,
    assembled, declared_modules, distinct_ids, enabled_modules_spec, feature_capability,
    feature_capability_id, feature_lines, lookup, module_graph, permission_lines, Feature,
    ManifestInjection, Permission,
};
use crate::text::{
    is_ws, lemma_seq_lt_irreflexive, lemma_seq_lt_transitive, lemma_seq_lt_trichotomy, map_char,
    seq_lt, sorted_enumeration, strictly_sorted, strs, trim, trim_end, trim_start,
};

verus! {

// ---------------------------------------------------------------------------
// Sorted enumerations
// ---------------------------------------------------------------------------

/// A set has at most one strictly sorted enumeration: two strictly sorted
/// sequences with the same elements are equal.
pub proof fn lemma_sorted_enumeration_unique(a: Seq<Seq<char>>, b: Seq<Seq<char>>)
    requires
        strictly_sorted(a),
        strictly_sorted(b),
        a.to_set() == b.to_set(),
    ensures
        a == b,
    decreases a.len() + b.len(),
{
    if a.len() == 0 {
        if b.len() > 0 {
            assert(b.to_set().contains(b[0]));
        }
        assert(a =~= b);
    } else if b.len() == 0 {
        assert(a.to_set().contains(a[0]));
    } else {
        // The first elements are both the least element of the set.
        assert(b.to_set().contains(a[0]));
        assert(a.to_set().contains(b[0]));
        let i = choose|i: int| 0 <= i < b.len() && b[i] == a[0];
        let j = choose|j: int| 0 <= j < a.len() && a[j] == b[0];
        if a[0] != b[0] {
            if i > 0 {
                assert(seq_lt(b[0], b[i]));
            }
            if j > 0 {
                assert(seq_lt(a[0], a[j]));
            }
            assert(i > 0 && j > 0);
            lemma_seq_lt_transitive(b[0], a[0], b[0]);
            lemma_seq_lt_irreflexive(b[0]);
        }
        let a1 = a.drop_first();
        let b1 = b.drop_first();
        assert(strictly_sorted(a1)) by {
            assert forall|x: int, y: int| 0 <= x < y < a1.len() implies seq_lt(
                #[trigger] a1[x],
                #[trigger] a1[y],
            ) by {
                assert(seq_lt(a[x + 1], a[y + 1]));
            }
        }
        assert(strictly_sorted(b1)) by {
            assert forall|x: int, y: int| 0 <= x < y < b1.len() implies seq_lt(
                #[trigger] b1[x],
                #[trigger] b1[y],
            ) by {
                assert(seq_lt(b[x + 1], b[y + 1]));
            }
        }
        assert(a1.to_set() =~= b1.to_set()) by {
            assert forall|e: Seq<char>| a1.to_set().contains(e) implies b1.to_set().contains(e) by {
                let k = choose|k: int| 0 <= k < a1.len() && a1[k] == e;
                assert(a.to_set().contains(e));
                let m = choose|m: int| 0 <= m < b.len() && b[m] == e;
                assert(seq_lt(a[0], a[k + 1]));
                if m == 0 {
                    lemma_seq_lt_irreflexive(e);
                }
                assert(b1[m - 1] == e);
            }
            assert forall|e: Seq<char>| b1.to_set().contains(e) implies a1.to_set().contains(e) by {
                let k = choose|k: int| 0 <= k < b1.len() && b1[k] == e;
                assert(b.to_set().contains(e));
                let m = choose|m: int| 0 <= m < a.len() && a[m] == e;
                assert(seq_lt(b[0], b[k + 1]));
                if m == 0 {
                    lemma_seq_lt_irreflexive(e);
                }
                assert(a1[m - 1] == e);
            }
        }
        lemma_sorted_enumeration_unique(a1, b1);
        assert(a =~= seq![a[0]] + a1);
        assert(b =~= seq![b[0]] + b1);
    }
}

// ---------------------------------------------------------------------------
// The feature closure
// ---------------------------------------------------------------------------

/// Every declared feature is in its closure.
pub proof fn law_closure_contains_declared(g: Edges, init: Seq<Seq<char>>, f: Seq<char>)
    requires
        init.contains(f),
    ensures
        feature_closure(g, init).contains(f),
{
    let p = seq![f];
    assert(is_path(g, p));
    assert(reachable(g, init, f));
}

/// The closure is closed under the graph's edges: a feature of the closure
/// brings every feature it depends on.
pub proof fn law_closure_closed(g: Edges, init: Seq<Seq<char>>, f: Seq<char>, d: Seq<char>)
    requires
        feature_closure(g, init).contains(f),
        deps_of(g, f).contains(d),
    ensures
        feature_closure(g, init).contains(d),
{
    assert(reachable(g, init, f));
    let p = choose|p: Seq<Seq<char>>| #[trigger] is_path(g, p) && init.contains(p[0]) && p.last() == f;
    let q = p.push(d);
    assert(is_path(g, q)) by {
        assert forall|i: int| 0 <= i < q.len() - 1 implies #[trigger] deps_of(g, q[i]).contains(
            q[i + 1],
        ) by {
            if i < p.len() - 1 {
                assert(deps_of(g, p[i]).contains(p[i + 1]));
            }
        }
    }
    assert(q[0] == p[0]);
    assert(reachable(g, init, d));
}

/// The closure is the least such set: a set that holds the declared
/// features and is closed under the edges holds the whole closure.
pub proof fn law_closure_least(g: Edges, init: Seq<Seq<char>>, s: Set<Seq<char>>, f: Seq<char>)
    requires
        forall|x: Seq<char>| init.contains(x) ==> s.contains(x),
        forall|x: Seq<char>, d: Seq<char>|
            #![trigger s.contains(x), deps_of(g, x).contains(d)]
            s.contains(x) && deps_of(g, x).contains(d) ==> s.contains(d),
        feature_closure(g, init).contains(f),
    ensures
        s.contains(f),
{
    assert(reachable(g, init, f));
    let p = choose|p: Seq<Seq<char>>| #[trigger] is_path(g, p) && init.contains(p[0]) && p.last() == f;
    lemma_reachable_in_closed(g, init, s, p);
}

/// Expanding a closure again adds nothing.
pub proof fn law_closure_idempotent(g: Edges, init: Seq<Seq<char>>, c: Seq<Seq<char>>)
    requires
        c.to_set() == feature_closure(g, init),
    ensures
        feature_closure(g, c) == feature_closure(g, init),
{
    assert forall|f: Seq<char>| feature_closure(g, c).contains(f) implies feature_closure(
        g,
        init,
    ).contains(f) by {
        let s = feature_closure(g, init);
        assert forall|x: Seq<char>| c.contains(x) implies s.contains(x) by {
            assert(c.to_set().contains(x));
        }
        assert forall|x: Seq<char>, d: Seq<char>|
            #![trigger s.contains(x), deps_of(g, x).contains(d)]
            s.contains(x) && deps_of(g, x).contains(d) implies s.contains(d) by {
            law_closure_closed(g, init, x, d);
        }
        law_closure_least(g, c, s, f);
    }
    assert forall|f: Seq<char>| feature_closure(g, init).contains(f) implies feature_closure(
        g,
        c,
    ).contains(f) by {
        assert(c.to_set().contains(f));
        law_closure_contains_declared(g, c, f);
    }
    assert(feature_closure(g, c) =~= feature_closure(g, init));
}

/// The closure depends only on the set of declared features.
pub proof fn law_closure_of_same_set(g: Edges, a: Seq<Seq<char>>, b: Seq<Seq<char>>)
    requires
        a.to_set() == b.to_set(),
    ensures
        feature_closure(g, a) == feature_closure(g, b),
{
    assert forall|f: Seq<char>| feature_closure(g, a).contains(f) <==> feature_closure(
        g,
        b,
    ).contains(f) by {
        if reachable(g, a, f) {
            let p = choose|p: Seq<Seq<char>>| #[trigger] is_path(g, p) && a.contains(p[0]) && p.last() == f;
            assert(a.to_set().contains(p[0]));
            assert(b.to_set().contains(p[0]));
            assert(reachable(g, b, f));
        }
        if reachable(g, b, f) {
            let p = choose|p: Seq<Seq<char>>| #[trigger] is_path(g, p) && b.contains(p[0]) && p.last() == f;
            assert(b.to_set().contains(p[0]));
            assert(a.to_set().contains(p[0]));
            assert(reachable(g, a, f));
        }
    }
    assert(feature_closure(g, a) =~= feature_closure(g, b));
}

// ---------------------------------------------------------------------------
// Order independence of the registry
// ---------------------------------------------------------------------------

/// The capability ids enabled by two feature lists that hold the same
/// (trimmed) features are the same, so `capabilities_for_features` returns
/// the same list for both.
pub proof fn law_capabilities_for_features_order_independent(
    a: Seq<Seq<char>>,
    b: Seq<Seq<char>>,
    ra: Seq<Seq<char>>,
    rb: Seq<Seq<char>>,
)
    requires
        trimmed(a).to_set() == trimmed(b).to_set(),
        sorted_enumeration(ra, capabilities_for_features_spec(a)),
        sorted_enumeration(rb, capabilities_for_features_spec(b)),
    ensures
        ra == rb,
{
    law_closure_of_same_set(crate::build::feature_graph::crate_feature_graph(), trimmed(a), trimmed(b));
    lemma_sorted_enumeration_unique(ra, rb);
}

/// Two declared lists that hold the same (trimmed) ids enable the same
/// Gradle modules, so `enabled_modules` is deterministic and free of
/// repeats whatever the order of the declaration.
pub proof fn law_enabled_modules_order_independent(
    a: Seq<Seq<char>>,
    b: Seq<Seq<char>>,
    ra: Seq<Seq<char>>,
    rb: Seq<Seq<char>>,
)
    requires
        trimmed(a).to_set() == trimmed(b).to_set(),
        sorted_enumeration(ra, enabled_modules_spec(a)),
        sorted_enumeration(rb, enabled_modules_spec(b)),
    ensures
        ra == rb,
{
    assert(declared_modules(a) =~= declared_modules(b)) by {
        assert forall|x: Seq<char>| trimmed(a).contains(x) <==> trimmed(b).contains(x) by {
            if trimmed(a).contains(x) {
                assert(trimmed(a).to_set().contains(x));
            }
            if trimmed(b).contains(x) {
                assert(trimmed(b).to_set().contains(x));
            }
        }
    }
    assert(enabled_modules_spec(a) =~= enabled_modules_spec(b));
    lemma_sorted_enumeration_unique(ra, rb);
}

/// The enabled modules are closed under the module dependencies: a module
/// that is enabled brings every module it depends on (declaring
/// `exact_alarm` brings `jobs`, `accessibility` brings `kiosk`).
pub proof fn law_enabled_modules_closed(declared: Seq<Seq<char>>, m: Seq<char>, d: Seq<char>)
    requires
        enabled_modules_spec(declared).contains(m),
        deps_of(module_graph(), m).contains(d),
    ensures
        enabled_modules_spec(declared).contains(d),
{
    let b = choose|b: Seq<Seq<char>>|
        #[trigger] b.to_set() == declared_modules(declared) && feature_closure(module_graph(), b).contains(m);
    law_closure_closed(module_graph(), b, m, d);
    assert(b.to_set() == declared_modules(declared) && feature_closure(module_graph(), b).contains(d));
}

/// The ids of `d` once trimmed, without the empty ones.
pub open spec fn declared_set(d: Seq<Seq<char>>) -> Set<Seq<char>> {
    Set::new(|id: Seq<char>| id.len() > 0 && exists|i: int| 0 <= i < d.len() && #[trigger] trim(d[i]) == id)
}

proof fn lemma_distinct_ids_set(d: Seq<Seq<char>>)
    ensures
        distinct_ids(d).to_set() == declared_set(d),
    decreases d.len(),
{
    if d.len() == 0 {
        assert(distinct_ids(d).to_set() =~= declared_set(d));
    } else {
        let p = d.drop_last();
        lemma_distinct_ids_set(p);
        let prev = distinct_ids(p);
        let id = trim(d.last());
        assert forall|x: Seq<char>| distinct_ids(d).to_set().contains(x) <==> declared_set(d).contains(x) by {
            if declared_set(d).contains(x) {
                let i = choose|i: int| 0 <= i < d.len() && #[trigger] trim(d[i]) == x;
                if i < d.len() - 1 {
                    assert(trim(p[i]) == x);
                    assert(declared_set(p).contains(x));
                    assert(prev.to_set().contains(x));
                    if !(id.len() == 0 || prev.contains(id)) {
                        prev.lemma_push_to_set_commute(id);
                    }
                } else {
                    if !(id.len() == 0 || prev.contains(id)) {
                        prev.lemma_push_to_set_commute(id);
                    }
                }
            }
            if distinct_ids(d).to_set().contains(x) {
                if !(id.len() == 0 || prev.contains(id)) {
                    prev.lemma_push_to_set_commute(id);
                }
                if prev.to_set().contains(x) {
                    let i = choose|i: int| 0 <= i < p.len() && #[trigger] trim(p[i]) == x;
                    assert(trim(d[i]) == x);
                } else {
                    assert(x == id);
                    assert(trim(d[d.len() - 1]) == x);
                }
            }
        }
        assert(distinct_ids(d).to_set() =~= declared_set(d));
    }
}

/// The permission lines of the capabilities named among `ids`.
pub open spec fn permission_lines_of(ids: Set<Seq<char>>) -> Set<Seq<char>> {
    Set::new(
        |l: Seq<char>|
            exists|id: Seq<char>|
                ids.contains(id) && #[trigger] lookup(id) is Some && lookup(id).unwrap().permissions@.map_values(
                    |p: Permission| crate::build::registry::permission_line(p),
                ).contains(l),
    )
}

/// The feature lines of the capabilities named among `ids`.
pub open spec fn feature_lines_of(ids: Set<Seq<char>>) -> Set<Seq<char>> {
    Set::new(
        |l: Seq<char>|
            exists|id: Seq<char>|
                ids.contains(id) && #[trigger] lookup(id) is Some && lookup(id).unwrap().features@.map_values(
                    |f: Feature| crate::build::registry::feature_line(f),
                ).contains(l),
    )
}

proof fn lemma_permission_lines_set(ids: Seq<Seq<char>>)
    ensures
        permission_lines(ids) == permission_lines_of(ids.to_set()),
        feature_lines(ids) == feature_lines_of(ids.to_set()),
    decreases ids.len(),
{
    if ids.len() == 0 {
        assert(permission_lines(ids) =~= permission_lines_of(ids.to_set()));
        assert(feature_lines(ids) =~= feature_lines_of(ids.to_set()));
    } else {
        let p = ids.drop_last();
        lemma_permission_lines_set(p);
        let last = ids.last();
        assert(ids =~= p.push(last));
        p.lemma_push_to_set_commute(last);
        assert forall|l: Seq<char>| permission_lines(ids).contains(l) <==> permission_lines_of(
            ids.to_set(),
        ).contains(l) by {
            if permission_lines_of(ids.to_set()).contains(l) {
                let id = choose|id: Seq<char>|
                    ids.to_set().contains(id) && #[trigger] lookup(id) is Some && lookup(id).unwrap().permissions@.map_values(
                        |q: Permission| crate::build::registry::permission_line(q),
                    ).contains(l);
                if id != last {
                    assert(p.to_set().contains(id));
                    assert(permission_lines_of(p.to_set()).contains(l));
                }
            }
            if permission_lines(ids).contains(l) {
                if permission_lines(p).contains(l) {
                    let id = choose|id: Seq<char>|
                        p.to_set().contains(id) && #[trigger] lookup(id) is Some && lookup(id).unwrap().permissions@.map_values(
                            |q: Permission| crate::build::registry::permission_line(q),
                        ).contains(l);
                    assert(ids.to_set().contains(id));
                } else {
                    assert(ids.to_set().contains(last));
                    assert(lookup(last) is Some);
                }
            }
        }
        assert forall|l: Seq<char>| feature_lines(ids).contains(l) <==> feature_lines_of(
            ids.to_set(),
        ).contains(l) by {
            if feature_lines_of(ids.to_set()).contains(l) {
                let id = choose|id: Seq<char>|
                    ids.to_set().contains(id) && #[trigger] lookup(id) is Some && lookup(id).unwrap().features@.map_values(
                        |q: Feature| crate::build::registry::feature_line(q),
                    ).contains(l);
                if id != last {
                    assert(p.to_set().contains(id));
                    assert(feature_lines_of(p.to_set()).contains(l));
                }
            }
            if feature_lines(ids).contains(l) {
                if feature_lines(p).contains(l) {
                    let id = choose|id: Seq<char>|
                        p.to_set().contains(id) && #[trigger] lookup(id) is Some && lookup(id).unwrap().features@.map_values(
                            |q: Feature| crate::build::registry::feature_line(q),
                        ).contains(l);
                    assert(ids.to_set().contains(id));
                } else {
                    assert(ids.to_set().contains(last));
                    assert(lookup(last) is Some);
                }
            }
        }
        assert(permission_lines(ids) =~= permission_lines_of(ids.to_set()));
        assert(feature_lines(ids) =~= feature_lines_of(ids.to_set()));
    }
}

/// Two declared lists that name the same (trimmed, non-empty) ids give the
/// same `<manifest>`-scope lines, in the same order: the permission and
/// feature lines are de-duplicated across capabilities and do not depend on
/// the order of the declaration.
pub proof fn law_assemble_manifest_lines_order_independent(
    a: Seq<Seq<char>>,
    b: Seq<Seq<char>>,
    ia: ManifestInjection,
    ib: ManifestInjection,
)
    requires
        declared_set(a) == declared_set(b),
        assembled(a, ia),
        assembled(b, ib),
    ensures
        strs(ia.manifest_lines@) == strs(ib.manifest_lines@),
{
    lemma_distinct_ids_set(a);
    lemma_distinct_ids_set(b);
    let da = distinct_ids(a);
    let db = distinct_ids(b);
    lemma_permission_lines_set(da);
    lemma_permission_lines_set(db);
    let la = strs(ia.manifest_lines@);
    let lb = strs(ib.manifest_lines@);
    let ka = choose|k: int|
        0 <= k <= ia.manifest_lines@.len() && sorted_enumeration(
            #[trigger] strs(ia.manifest_lines@).take(k),
            permission_lines(da),
        ) && sorted_enumeration(strs(ia.manifest_lines@).skip(k), feature_lines(da));
    let kb = choose|k: int|
        0 <= k <= ib.manifest_lines@.len() && sorted_enumeration(
            #[trigger] strs(ib.manifest_lines@).take(k),
            permission_lines(db),
        ) && sorted_enumeration(strs(ib.manifest_lines@).skip(k), feature_lines(db));
    lemma_sorted_enumeration_unique(la.take(ka), lb.take(kb));
    lemma_sorted_enumeration_unique(la.skip(ka), lb.skip(kb));
    assert(la =~= la.take(ka) + la.skip(ka));
    assert(lb =~= lb.take(kb) + lb.skip(kb));
}

// ---------------------------------------------------------------------------
// Feature names and capability ids
// ---------------------------------------------------------------------------

/// The feature-to-capability mapping is mechanical: the kebab form of a
/// capability id (each `_` written as `-`) maps back to that id, and so to
/// the id's table row, unless the id names a composite or building-block
/// feature, which contributes none. (The id holds no `-` and no whitespace
/// at its ends.)
pub proof fn law_kebab_feature_maps_back(id: Seq<char>)
    requires
        forall|i: int| 0 <= i < id.len() ==> id[i] != '-',
        id.len() > 0 ==> !is_ws(id[0]) && !is_ws(id.last()),
    ensures
        feature_capability_id(map_char(id, '_', '-')) == id,
        feature_capability(map_char(id, '_', '-')) == (if building_block_ids().contains(id) {
            None
        } else {
            lookup(id)
        }),
{
    let k = map_char(id, '_', '-');
    assert(trim_start(k) == k);
    assert(trim_end(k) == k);
    assert(trim(k) == k);
    assert(map_char(k, '-', '_') =~= id);
}

// ---------------------------------------------------------------------------
// The id list and the capability table
// ---------------------------------------------------------------------------

/// Searching the table from row `i` finds the first row at or after `i`
/// with id `id`.
proof fn lemma_capability_index_props(id: Seq<char>, i: int)
    requires
        0 <= i,
    ensures
        capability_index_from(id, i) matches Some(k) ==> i <= k < capability_table_spec().len()
            && capability_table_spec()[k].id@ == id,
        capability_index_from(id, i) is None ==> forall|k: int|
            i <= k < capability_table_spec().len() ==> capability_table_spec()[k].id@ != id,
    decreases capability_table_spec().len() - i,
{
    if i < capability_table_spec().len() && capability_table_spec()[i].id@ != id {
        lemma_capability_index_props(id, i + 1);
    }
}

/// Every table row's id is in the id list.
#[verifier::rlimit(50)]
proof fn lemma_row_listed(j: int)
    requires
        0 <= j < capability_table_spec().len(),
    ensures
        exists|i: int|
            0 <= i < capability_ids_spec().len() && #[trigger] capability_ids_spec()[i]
                == capability_table_spec()[j].id,
{
    let t = capability_table_spec();
    let ids = capability_ids_spec();
    assert(t.len() == 37);
    assert(ids.len() == 37);
        if j == 0 {
            assert(ids[4] == t[0].id);
        } else if j == 1 {
            assert(ids[9] == t[1].id);
        } else if j == 2 {
            assert(ids[7] == t[2].id);
        } else if j == 3 {
            assert(ids[8] == t[3].id);
        } else if j == 4 {
            assert(ids[10] == t[4].id);
        } else if j == 5 {
            assert(ids[11] == t[5].id);
        } else if j == 6 {
            assert(ids[0] == t[6].id);
        } else if j == 7 {
            assert(ids[1] == t[7].id);
        } else if j == 8 {
            assert(ids[6] == t[8].id);
        } else if j == 9 {
            assert(ids[3] == t[9].id);
        } else if j == 10 {
            assert(ids[2] == t[10].id);
        } else if j == 11 {
            assert(ids[5] == t[11].id);
        } else if j == 12 {
            assert(ids[12] == t[12].id);
        } else if j == 13 {
            assert(ids[21] == t[13].id);
        } else if j == 14 {
            assert(ids[28] == t[14].id);
        } else if j == 15 {
            assert(ids[22] == t[15].id);
        } else if j == 16 {
            assert(ids[13] == t[16].id);
        } else if j == 17 {
            assert(ids[14] == t[17].id);
        } else if j == 18 {
            assert(ids[15] == t[18].id);
        } else if j == 19 {
            assert(ids[16] == t[19].id);
        } else if j == 20 {
            assert(ids[17] == t[20].id);
        } else if j == 21 {
            assert(ids[18] == t[21].id);
        } else if j == 22 {
            assert(ids[19] == t[22].id);
        } else if j == 23 {
            assert(ids[20] == t[23].id);
        } else if j == 24 {
            assert(ids[23] == t[24].id);
        } else if j == 25 {
            assert(ids[24] == t[25].id);
        } else if j == 26 {
            assert(ids[25] == t[26].id);
        } else if j == 27 {
            assert(ids[26] == t[27].id);
        } else if j == 28 {
            assert(ids[27] == t[28].id);
        } else if j == 29 {
            assert(ids[29] == t[29].id);
        } else if j == 30 {
            assert(ids[30] == t[30].id);
        } else if j == 31 {
            assert(ids[31] == t[31].id);
        } else if j == 32 {
            assert(ids[32] == t[32].id);
        } else if j == 33 {
            assert(ids[33] == t[33].id);
        } else if j == 34 {
            assert(ids[34] == t[34].id);
        } else if j == 35 {
            assert(ids[35] == t[35].id);
        } else if j == 36 {
            assert(ids[36] == t[36].id);
        }
}

/// Every listed id has a table row.
#[verifier::rlimit(50)]
proof fn lemma_id_has_row(i: int)
    requires
        0 <= i < capability_ids_spec().len(),
    ensures
        exists|j: int|
            0 <= j < capability_table_spec().len() && #[trigger] capability_table_spec()[j].id
                == capability_ids_spec()[i],
{
    let t = capability_table_spec();
    let ids = capability_ids_spec();
    assert(t.len() == 37);
    assert(ids.len() == 37);
        if i == 0 {
            assert(t[6].id == ids[0]);
        } else if i == 1 {
            assert(t[7].id == ids[1]);
        } else if i == 2 {
            assert(t[10].id == ids[2]);
        } else if i == 3 {
            assert(t[9].id == ids[3]);
        } else if i == 4 {
            assert(t[0].id == ids[4]);
        } else if i == 5 {
            assert(t[11].id == ids[5]);
        } else if i == 6 {
            assert(t[8].id == ids[6]);
        } else if i == 7 {
            assert(t[2].id == ids[7]);
        } else if i == 8 {
            assert(t[3].id == ids[8]);
        } else if i == 9 {
            assert(t[1].id == ids[9]);
        } else if i == 10 {
            assert(t[4].id == ids[10]);
        } else if i == 11 {
            assert(t[5].id == ids[11]);
        } else if i == 12 {
            assert(t[12].id == ids[12]);
        } else if i == 13 {
            assert(t[16].id == ids[13]);
        } else if i == 14 {
            assert(t[17].id == ids[14]);
        } else if i == 15 {
            assert(t[18].id == ids[15]);
        } else if i == 16 {
            assert(t[19].id == ids[16]);
        } else if i == 17 {
            assert(t[20].id == ids[17]);
        } else if i == 18 {
            assert(t[21].id == ids[18]);
        } else if i == 19 {
            assert(t[22].id == ids[19]);
        } else if i == 20 {
            assert(t[23].id == ids[20]);
        } else if i == 21 {
            assert(t[13].id == ids[21]);
        } else if i == 22 {
            assert(t[15].id == ids[22]);
        } else if i == 23 {
            assert(t[24].id == ids[23]);
        } else if i == 24 {
            assert(t[25].id == ids[24]);
        } else if i == 25 {
            assert(t[26].id == ids[25]);
        } else if i == 26 {
            assert(t[27].id == ids[26]);
        } else if i == 27 {
            assert(t[28].id == ids[27]);
        } else if i == 28 {
            assert(t[14].id == ids[28]);
        } else if i == 29 {
            assert(t[29].id == ids[29]);
        } else if i == 30 {
            assert(t[30].id == ids[30]);
        } else if i == 31 {
            assert(t[31].id == ids[31]);
        } else if i == 32 {
            assert(t[32].id == ids[32]);
        } else if i == 33 {
            assert(t[33].id == ids[33]);
        } else if i == 34 {
            assert(t[34].id == ids[34]);
        } else if i == 35 {
            assert(t[35].id == ids[35]);
        } else if i == 36 {
            assert(t[36].id == ids[36]);
        }
}

/// The id list and the capability table agree: an id has a table row
/// exactly when it is in the list (compared exactly, untrimmed), and the row
/// found for it carries that id.
pub proof fn law_capability_ids_match_table(id: Seq<char>)
    ensures
        lookup(id) is Some <==> exists|i: int|
            0 <= i < capability_ids_spec().len() && #[trigger] capability_ids_spec()[i]@ == id,
        lookup(id) matches Some(c) ==> c.id@ == id,
{
    lemma_capability_index_props(id, 0);
    if let Some(k) = capability_index_from(id, 0) {
        lemma_row_listed(k);
        let i = choose|i: int|
            0 <= i < capability_ids_spec().len() && #[trigger] capability_ids_spec()[i]
                == capability_table_spec()[k].id;
        assert(capability_ids_spec()[i]@ == id);
    }
    if exists|i: int| 0 <= i < capability_ids_spec().len() && #[trigger] capability_ids_spec()[i]@ == id {
        let i = choose|i: int|
            0 <= i < capability_ids_spec().len() && #[trigger] capability_ids_spec()[i]@ == id;
        lemma_id_has_row(i);
        let j = choose|j: int|
            0 <= j < capability_table_spec().len() && #[trigger] capability_table_spec()[j].id
                == capability_ids_spec()[i];
        assert(capability_table_spec()[j].id@ == id);
    }
}

/// Every id of the firing bundle is a known capability: it has a table row,
/// and that row carries the id.
pub proof fn law_firing_bundle_ids_known(i: int)
    requires
        0 <= i < firing_bundle_ids_spec().len(),
    ensures
        lookup(firing_bundle_ids_spec()[i]@) matches Some(c) && c.id@ == firing_bundle_ids_spec()[i]@,
{
    let ids = capability_ids_spec();
    let bundle = firing_bundle_ids_spec();
    assert(bundle.len() == 7);
    assert(ids.len() == 37);
    assert(exists|k: int| 0 <= k < ids.len() && #[trigger] ids[k] == bundle[i]) by {
        if i == 0 {
            assert(ids[29] == bundle[0]);
        } else if i == 1 {
            assert(ids[30] == bundle[1]);
        } else if i == 2 {
            assert(ids[31] == bundle[2]);
        } else if i == 3 {
            assert(ids[32] == bundle[3]);
        } else if i == 4 {
            assert(ids[33] == bundle[4]);
        } else if i == 5 {
            assert(ids[34] == bundle[5]);
        } else if i == 6 {
            assert(ids[35] == bundle[6]);
        }
    }
    let k = choose|k: int| 0 <= k < ids.len() && #[trigger] ids[k] == bundle[i];
    assert(ids[k]@ == bundle[i]@);
    law_capability_ids_match_table(bundle[i]@);
}

} // verus!
