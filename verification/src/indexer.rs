//! The dynamic-link indexer: orders the application and its shared modules by
//! deepest use and resolves every inter-module reference.

use vstd::prelude::*;
use vstd::string::StrSliceExecFns;

use crate::{LinkErrorType, LinkerError};

use crate::entry::{
    copy_dynamic_link_module_entry, copy_string, dynamic_link_module_deq, is_self_reference,
    string_matches, type_entry_deq, type_entry_matches, DataIndexEntry, DataIndexListEntry,
    DataSectionType, DynamicLinkModuleEntry, EntryPointEntry, ExternalFunctionEntry,
    ExternalFunctionIndexEntry, ExternalFunctionIndexListEntry, FunctionIndexEntry,
    FunctionIndexListEntry, ImageCommonEntry, ImageIndexEntry, ImportModuleEntry, TypeEntry,
    Visibility,
};
use crate::entry::is_self_reference_entry;

verus! {

// ---------------------------------------------------------------------------
// the dependency graph of the supplied modules
// ---------------------------------------------------------------------------

/// The index of the first module named `name`, or `-1`.
pub open spec fn module_index_of(units: Seq<ImageCommonEntry>, name: Seq<char>) -> int
    decreases units.len(),
{
    if units.len() == 0 {
        -1
    } else if units[0].name@ == name {
        0
    } else {
        let r = module_index_of(units.subrange(1, units.len() as int), name);
        if r < 0 {
            -1
        } else {
            r + 1
        }
    }
}

proof fn lemma_module_index_of(units: Seq<ImageCommonEntry>, name: Seq<char>)
    ensures
        module_index_of(units, name) == -1 ==> forall|k: int|
            0 <= k < units.len() ==> (#[trigger] units[k]).name@ != name,
        module_index_of(units, name) >= 0 ==> {
            &&& module_index_of(units, name) < units.len()
            &&& units[module_index_of(units, name)].name@ == name
            &&& forall|k: int|
                0 <= k < module_index_of(units, name) ==> (#[trigger] units[k]).name@ != name
        },
    decreases units.len(),
{
    if units.len() == 0 {
    } else if units[0].name@ == name {
    } else {
        let t = units.subrange(1, units.len() as int);
        lemma_module_index_of(t, name);
        assert(forall|k: int| 0 <= k < t.len() ==> t[k] == units[k + 1]);
        if module_index_of(t, name) >= 0 {
            assert forall|k: int| 0 <= k < module_index_of(units, name) implies (
            #[trigger] units[k]).name@ != name by {
                if k >= 1 {
                    assert(t[k - 1].name@ != name);
                }
            }
        } else {
            assert forall|k: int| 0 <= k < units.len() implies (#[trigger] units[k]).name@
                != name by {
                if k >= 1 {
                    assert(t[k - 1].name@ != name);
                }
            }
        }
    }
}

/// Finds the first module named `name`.
fn find_module_by_name(units: &Vec<ImageCommonEntry>, name: &String) -> (r: Option<usize>)
    ensures
        match r {
            Some(p) => p as int == module_index_of(units@, name@),
            None => module_index_of(units@, name@) == -1,
        },
{
    proof {
        lemma_module_index_of(units@, name@);
    }
    let mut i: usize = 0;
    while i < units.len()
        invariant
            i <= units.len(),
            forall|k: int| 0 <= k < i ==> (#[trigger] units@[k]).name@ != name@,
        decreases units.len() - i,
    {
        if string_matches(&units[i].name, name) {
            proof {
                lemma_module_index_of(units@, name@);
                if module_index_of(units@, name@) < i as int {
                    assert(units@[module_index_of(units@, name@)].name@ != name@);
                }
                if module_index_of(units@, name@) > i as int || module_index_of(units@, name@)
                    == -1 {
                    assert(units@[i as int].name@ != name@);
                }
            }
            return Some(i);
        }
        i += 1;
    }
    proof {
        lemma_module_index_of(units@, name@);
        if module_index_of(units@, name@) >= 0 {
            assert(units@[module_index_of(units@, name@)].name@ == name@);
        }
    }
    None
}

/// Module `p` imports module `m`: some non-self import of `p` names `m`, and
/// `m` is the first module of that name.
pub open spec fn module_edge(units: Seq<ImageCommonEntry>, p: int, m: int) -> bool {
    exists|i: int|
        {
            &&& 0 <= i < units[p].import_module_entries@.len()
            &&& !is_self_reference(#[trigger] units[p].import_module_entries@[i])
            &&& module_index_of(units, units[p].import_module_entries@[i].name@) == m
        }
}

/// Every non-self import of every module names a supplied module.
pub open spec fn modules_closed(units: Seq<ImageCommonEntry>) -> bool {
    forall|p: int, i: int|
        0 <= p < units.len() && 0 <= i < units[p].import_module_entries@.len()
            && !is_self_reference(#[trigger] units[p].import_module_entries@[i])
            ==> module_index_of(units, units[p].import_module_entries@[i].name@) >= 0
}

/// The import graph is a directed acyclic graph: some rank strictly grows
/// along every edge.
pub open spec fn modules_acyclic(units: Seq<ImageCommonEntry>) -> bool {
    exists|rank: Seq<int>|
        {
            &&& rank.len() == units.len()
            &&& (forall|v: int| 0 <= v < rank.len() ==> 0 <= #[trigger] rank[v] < rank.len())
            &&& (forall|p: int, m: int|
                0 <= p < units.len() && 0 <= m < units.len() && module_edge(units, p, m)
                    ==> #[trigger] rank[p] < #[trigger] rank[m])
        }
}

/// There is an import path of length `k` from the application (module 0) to
/// module `m`.
pub open spec fn has_import_path(units: Seq<ImageCommonEntry>, m: int, k: nat) -> bool
    decreases k,
{
    if k == 0 {
        m == 0
    } else {
        exists|p: int|
            0 <= p < units.len() && has_import_path(units, p, (k - 1) as nat) && module_edge(
                units,
                p,
                m,
            )
    }
}

/// Module `m` is reachable from the application along import edges.
pub open spec fn module_reachable(units: Seq<ImageCommonEntry>, m: int) -> bool {
    exists|k: nat| has_import_path(units, m, k)
}

/// An acyclicity rank grows weakly along every import path from the
/// application.
proof fn lemma_path_rank(units: Seq<ImageCommonEntry>, rank: Seq<int>, m: int, k: nat)
    requires
        rank.len() == units.len(),
        forall|p: int, q: int|
            0 <= p < units.len() && 0 <= q < units.len() && module_edge(units, p, q)
                ==> #[trigger] rank[p] < #[trigger] rank[q],
        has_import_path(units, m, k),
        0 <= m < units.len(),
        units.len() >= 1,
    ensures
        rank[0] <= rank[m],
    decreases k,
{
    if k > 0 {
        let p = choose|p: int|
            0 <= p < units.len() && has_import_path(units, p, (k - 1) as nat) && module_edge(
                units,
                p,
                m,
            );
        lemma_path_rank(units, rank, p, (k - 1) as nat);
        assert(rank[p] < rank[m]);
    }
}

/// Once the depths are settled, a module at the end of a nonempty import
/// path from the application has a positive depth.
proof fn lemma_path_settled_depth(
    units: Seq<ImageCommonEntry>,
    depths: Seq<usize>,
    m: int,
    k: nat,
)
    requires
        depths.len() == units.len(),
        depths_settled(units, depths),
        has_import_path(units, m, k),
        0 <= m < units.len(),
        units.len() >= 1,
    ensures
        k >= 1 ==> depths[m] as int >= 1,
    decreases k,
{
    if k >= 1 {
        let p = choose|p: int|
            0 <= p < units.len() && has_import_path(units, p, (k - 1) as nat) && module_edge(
                units,
                p,
                m,
            );
        lemma_path_settled_depth(units, depths, p, (k - 1) as nat);
        if k == 1 {
            assert(has_import_path(units, p, 0));
            assert(p == 0);
            assert(depths[m] as int >= depths[0] + 1);
        } else {
            assert(depths[p] as int >= 1);
            assert(depths[m] as int >= depths[p] + 1);
        }
    }
}

/// One relaxation pass: pushes every known depth across every edge.  Returns
/// whether anything changed.
fn relax_pass(units: &Vec<ImageCommonEntry>, depths: &mut Vec<usize>) -> (changed: bool)
    requires
        units@.len() >= 1,
        old(depths)@.len() == units@.len(),
        modules_closed(units@),
        modules_acyclic(units@),
        depths_bounded_by_some_rank(units@, old(depths)@),
        old(depths)@[0] == 0,
        forall|v: int|
            0 <= v < units@.len() && (#[trigger] old(depths)@[v]) > 0 ==> module_reachable(
                units@,
                v,
            ),
        depths_witnessed(units@, old(depths)@),
    ensures
        final(depths)@.len() == units@.len(),
        depths_bounded_by_some_rank(units@, final(depths)@),
        final(depths)@[0] == 0,
        forall|v: int|
            0 <= v < units@.len() && (#[trigger] final(depths)@[v]) > 0 ==> module_reachable(
                units@,
                v,
            ),
        depths_witnessed(units@, final(depths)@),
        forall|v: int|
            0 <= v < units@.len() ==> #[trigger] final(depths)@[v] >= old(depths)@[v],
        forall|v: int|
            0 <= v < units@.len() && old(depths)@[v] > 0 ==> #[trigger] final(depths)@[v] > 0,
        !changed ==> final(depths)@ == old(depths)@,
        !changed ==> depths_settled(units@, final(depths)@),
        changed ==> depth_total(final(depths)@, units@.len() as int) > depth_total(
            old(depths)@,
            units@.len() as int,
        ),
{
    let ghost units_v = units@;
    let n = units.len();
    let mut changed = false;
    let mut p: usize = 0;
    while p < n
        invariant
            n == units@.len(),
            units_v == units@,
            n >= 1,
            depths.len() == n,
            modules_closed(units_v),
            modules_acyclic(units_v),
            depths_bounded_by_some_rank(units_v, depths@),
            p <= n,
            depths@[0] == 0,
            forall|v: int|
                0 <= v < n && (#[trigger] depths@[v]) > 0 ==> module_reachable(units_v, v),
            depths_witnessed(units_v, depths@),
            forall|v: int| 0 <= v < n ==> #[trigger] depths@[v] >= old(depths)@[v],
            forall|v: int| 0 <= v < n && old(depths)@[v] > 0 ==> #[trigger] depths@[v] > 0,
            !changed ==> depths@ == old(depths)@,
            !changed ==> forall|q: int, m: int|
                0 <= q < p && 0 <= m < n && (q == 0 || depths@[q] > 0) && #[trigger] module_edge(
                    units_v,
                    q,
                    m,
                ) ==> depths@[m] as int >= depths@[q] + 1,
            changed ==> depth_total(depths@, n as int) > depth_total(old(depths)@, n as int),
        decreases n - p,
    {
        let reachable = p == 0 || depths[p] > 0;
        if reachable {
            let imports = &units[p].import_module_entries;
            let source_depth = depths[p];
            let mut i: usize = 0;
            while i < imports.len()
                invariant
                    n == units@.len(),
                    units_v == units@,
                    n >= 1,
                    p < n,
                    imports == &units[p as int].import_module_entries,
                    source_depth == depths@[p as int] || (changed && source_depth
                        <= depths@[p as int]),
                    source_depth as int == old(depths)@[p as int] || source_depth
                        == depths@[p as int],
                    p == 0 || depths@[p as int] > 0,
                    source_depth == depths@[p as int],
                    depths.len() == n,
                    modules_closed(units_v),
                    modules_acyclic(units_v),
                    depths_bounded_by_some_rank(units_v, depths@),
                    i <= imports@.len(),
                    depths@[0] == 0,
                    forall|v: int|
                        0 <= v < n && (#[trigger] depths@[v]) > 0 ==> module_reachable(
                            units_v,
                            v,
                        ),
                    depths_witnessed(units_v, depths@),
                    forall|v: int| 0 <= v < n ==> #[trigger] depths@[v] >= old(depths)@[v],
                    forall|v: int|
                        0 <= v < n && old(depths)@[v] > 0 ==> #[trigger] depths@[v] > 0,
                    !changed ==> depths@ == old(depths)@,
                    !changed ==> forall|q: int, m: int|
                        0 <= q < p && 0 <= m < n && (q == 0 || depths@[q] > 0)
                            && #[trigger] module_edge(units_v, q, m) ==> depths@[m] as int
                            >= depths@[q] + 1,
                    !changed ==> forall|e: int|
                        0 <= e < i && !is_self_reference(
                            #[trigger] units_v[p as int].import_module_entries@[e],
                        ) ==> depths@[module_index_of(
                            units_v,
                            units_v[p as int].import_module_entries@[e].name@,
                        )] as int >= depths@[p as int] + 1,
                    changed ==> depth_total(depths@, n as int) > depth_total(
                        old(depths)@,
                        n as int,
                    ),
                decreases imports@.len() - i,
            {
                let entry = &imports[i];
                if !is_self_reference_entry(entry) {
                    match find_module_by_name(units, &entry.name) {
                        Some(target) => {
                            proof {
                                lemma_module_index_of(units_v, entry.name@);
                                assert(!is_self_reference(
                                    units_v[p as int].import_module_entries@[i as int],
                                ));
                                assert(module_index_of(
                                    units_v,
                                    units_v[p as int].import_module_entries@[i as int].name@,
                                ) == target as int);
                                assert(module_edge(units_v, p as int, target as int));
                            }
                            let ghost d_before = depths@;
                            let candidate_ok = depths[target] < source_depth + 1;
                            if candidate_ok {
                                proof {
                                    // the candidate depth stays below the rank
                                    // bound, so the addition cannot overflow
                                    let rank = choose|rank: Seq<int>|
                                        {
                                            &&& rank.len() == units_v.len()
                                            &&& (forall|v: int|
                                                0 <= v < rank.len() ==> 0 <= #[trigger] rank[v]
                                                    < rank.len())
                                            &&& (forall|pp: int, mm: int|
                                                0 <= pp < units_v.len() && 0 <= mm < units_v.len()
                                                    && module_edge(units_v, pp, mm)
                                                    ==> #[trigger] rank[pp] < #[trigger] rank[mm])
                                        };
                                    let brank = choose|brank: Seq<int>|
                                        {
                                            &&& brank.len() == units_v.len()
                                            &&& (forall|v: int|
                                                0 <= v < brank.len() ==> 0 <= #[trigger] brank[v]
                                                    < brank.len())
                                            &&& (forall|pp: int, mm: int|
                                                0 <= pp < units_v.len() && 0 <= mm < units_v.len()
                                                    && module_edge(units_v, pp, mm)
                                                    ==> #[trigger] brank[pp] < #[trigger] brank[mm])
                                            &&& (forall|v: int|
                                                0 <= v < units_v.len() ==> #[trigger] depths@[v]
                                                    <= brank[v])
                                        };
                                    assert(module_edge(units_v, p as int, target as int));
                                    assert(depths@[p as int] <= brank[p as int]);
                                    assert(brank[p as int] < brank[target as int]);
                                    // the source is reachable, so the target is too
                                    if p == 0 {
                                        assert(has_import_path(units_v, 0, 0));
                                        assert(module_reachable(units_v, 0));
                                    }
                                    assert(module_reachable(units_v, p as int));
                                    let pk = choose|pk: nat| has_import_path(units_v, p as int, pk);
                                    assert(has_import_path(units_v, target as int, pk + 1));
                                    assert(module_reachable(units_v, target as int));
                                    // and the application imports nothing back
                                    if target == 0 {
                                        let k0 = choose|k0: nat|
                                            has_import_path(units_v, p as int, k0);
                                        lemma_path_rank(units_v, rank, p as int, k0);
                                        assert(rank[p as int] < rank[0]);
                                        assert(false);
                                    }
                                }
                                let new_depth = source_depth + 1;
                                depths[target] = new_depth;
                                changed = true;
                                proof {
                                    lemma_depth_total_update(
                                        d_before,
                                        depths@,
                                        target as int,
                                        n as int,
                                    );
                                    assert(depths_bounded_by_some_rank(units_v, depths@));
                                    assert forall|w: int|
                                        0 <= w < n && (#[trigger] depths@[w]) > 0 implies depth_parented(
                                        units_v,
                                        depths@,
                                        w,
                                    ) by {
                                        if w == target as int {
                                            assert(0 <= p < n && (p == 0 || depths@[p as int] > 0)
                                                && module_edge(units_v, p as int, w)
                                                && depths@[p as int] + 1 >= depths@[w]);
                                        } else {
                                            assert(depth_parented(units_v, d_before, w));
                                            let q = choose|q: int|
                                                0 <= q < units_v.len() && (q == 0 || d_before[q]
                                                    > 0) && #[trigger] module_edge(units_v, q, w)
                                                    && d_before[q] + 1 >= d_before[w];
                                            assert(0 <= q < units_v.len() && (q == 0 || depths@[q]
                                                > 0) && module_edge(units_v, q, w) && depths@[q]
                                                + 1 >= depths@[w]);
                                        }
                                    }
                                }
                            }
                        },
                        None => {
                            proof {
                                assert(module_index_of(
                                    units_v,
                                    units_v[p as int].import_module_entries@[i as int].name@,
                                ) >= 0);
                            }
                        },
                    }
                }
                i += 1;
            }
            proof {
                if !changed {
                    assert forall|q: int, m: int|
                        0 <= q < p + 1 && 0 <= m < n && (q == 0 || depths@[q] > 0)
                            && #[trigger] module_edge(units_v, q, m) implies depths@[m] as int
                        >= depths@[q] + 1 by {
                        if q == p as int {
                            let e = choose|e: int|
                                {
                                    &&& 0 <= e < units_v[q].import_module_entries@.len()
                                    &&& !is_self_reference(
                                        #[trigger] units_v[q].import_module_entries@[e],
                                    )
                                    &&& module_index_of(
                                        units_v,
                                        units_v[q].import_module_entries@[e].name@,
                                    ) == m
                                };
                            assert(depths@[module_index_of(
                                units_v,
                                units_v[q].import_module_entries@[e].name@,
                            )] as int >= depths@[q] + 1);
                        }
                    }
                }
            }
        } else {
            proof {
                if !changed {
                    assert forall|q: int, m: int|
                        0 <= q < p + 1 && 0 <= m < n && (q == 0 || depths@[q] > 0)
                            && #[trigger] module_edge(units_v, q, m) implies depths@[m] as int
                        >= depths@[q] + 1 by {}
                }
            }
        }
        p += 1;
    }
    changed
}

/// Some acyclicity rank bounds every depth.
pub open spec fn depths_bounded_by_some_rank(
    units: Seq<ImageCommonEntry>,
    depths: Seq<usize>,
) -> bool {
    exists|rank: Seq<int>|
        {
            &&& rank.len() == units.len()
            &&& (forall|v: int| 0 <= v < rank.len() ==> 0 <= #[trigger] rank[v] < rank.len())
            &&& (forall|p: int, m: int|
                0 <= p < units.len() && 0 <= m < units.len() && module_edge(units, p, m)
                    ==> #[trigger] rank[p] < #[trigger] rank[m])
            &&& (forall|v: int| 0 <= v < units.len() ==> #[trigger] depths[v] <= rank[v])
        }
}

/// Every edge out of a reached module is fully relaxed.
pub open spec fn depths_settled(units: Seq<ImageCommonEntry>, depths: Seq<usize>) -> bool {
    forall|q: int, m: int|
        0 <= q < units.len() && 0 <= m < units.len() && (q == 0 || depths[q] > 0)
            && #[trigger] module_edge(units, q, m) ==> depths[m] as int >= depths[q] + 1
}

/// Some reached importer stands directly under `v`, at most one level
/// shallower.
pub open spec fn depth_parented(units: Seq<ImageCommonEntry>, depths: Seq<usize>, v: int) -> bool {
    exists|q: int|
        0 <= q < units.len() && (q == 0 || depths[q] > 0) && #[trigger] module_edge(units, q, v)
            && depths[q] + 1 >= depths[v]
}

/// Every positive depth is justified by an importing module at most one
/// level up.
pub open spec fn depths_witnessed(units: Seq<ImageCommonEntry>, depths: Seq<usize>) -> bool {
    forall|v: int|
        0 <= v < units.len() && (#[trigger] depths[v]) > 0 ==> depth_parented(units, depths, v)
}

/// `v`'s depth is exactly one more than some reached importer's: together
/// with settledness this pins each depth as the deepest use from the
/// application.
pub open spec fn depth_parent_exact(
    units: Seq<ImageCommonEntry>,
    depths: Seq<usize>,
    v: int,
) -> bool {
    exists|q: int|
        0 <= q < units.len() && (q == 0 || depths[q] > 0) && #[trigger] module_edge(units, q, v)
            && depths[q] + 1 == depths[v]
}

/// The sum of all depths, the progress measure of the relaxation.
pub open spec fn depth_total(depths: Seq<usize>, u: int) -> int
    decreases u,
{
    if u <= 0 {
        0
    } else {
        depth_total(depths, u - 1) + depths[u - 1]
    }
}

proof fn lemma_depth_total_update(a: Seq<usize>, b: Seq<usize>, t: int, u: int)
    requires
        a.len() == b.len(),
        0 <= t < a.len(),
        u <= a.len(),
        b[t] > a[t],
        forall|v: int| 0 <= v < a.len() && v != t ==> #[trigger] b[v] == a[v],
    ensures
        t < u ==> depth_total(b, u) > depth_total(a, u),
        u <= t ==> depth_total(b, u) == depth_total(a, u),
    decreases u,
{
    if u > 0 {
        lemma_depth_total_update(a, b, t, u - 1);
    }
}

proof fn lemma_depth_total_bound(depths: Seq<usize>, bound: int, u: int)
    requires
        0 <= u <= depths.len(),
        forall|v: int| 0 <= v < depths.len() ==> #[trigger] depths[v] <= bound,
        0 <= bound,
    ensures
        depth_total(depths, u) <= u * bound,
        0 <= depth_total(depths, u),
    decreases u,
{
    if u > 0 {
        lemma_depth_total_bound(depths, bound, u - 1);
        assert(u * bound == (u - 1) * bound + bound) by (nonlinear_arith);
    }
}

/// Computes each module's depth: the application starts at zero, and each
/// relaxation pass pushes known depths across the import edges until nothing
/// changes.  A module's final depth is then at least one more than that of
/// every reached module importing it.
fn compute_depths(units: &Vec<ImageCommonEntry>) -> (depths: Vec<usize>)
    requires
        units@.len() >= 1,
        modules_closed(units@),
        modules_acyclic(units@),
    ensures
        depths@.len() == units@.len(),
        depths_settled(units@, depths@),
        depths_bounded_by_some_rank(units@, depths@),
        depths@[0] == 0,
        forall|v: int|
            0 <= v < units@.len() && (#[trigger] depths@[v]) > 0 ==> module_reachable(units@, v),
        depths_witnessed(units@, depths@),
{
    let ghost units_v = units@;
    let n = units.len();
    let mut depths: Vec<usize> = Vec::new();
    let mut v0: usize = 0;
    while v0 < n
        invariant
            v0 <= n,
            depths.len() == v0,
            forall|v: int| 0 <= v < v0 ==> #[trigger] depths@[v] == 0,
        decreases n - v0,
    {
        depths.push(0);
        v0 += 1;
    }
    proof {
        // the all-zero assignment is bounded by any acyclicity rank
        let rank = choose|rank: Seq<int>|
            {
                &&& rank.len() == units_v.len()
                &&& (forall|v: int| 0 <= v < rank.len() ==> 0 <= #[trigger] rank[v] < rank.len())
                &&& (forall|p: int, m: int|
                    0 <= p < units_v.len() && 0 <= m < units_v.len() && module_edge(units_v, p, m)
                        ==> #[trigger] rank[p] < #[trigger] rank[m])
            };
        assert(forall|v: int| 0 <= v < units_v.len() ==> #[trigger] depths@[v] <= rank[v]);
        assert(depths_bounded_by_some_rank(units_v, depths@));
        assert(depths_witnessed(units_v, depths@));
    }
    loop
        invariant
            n == units@.len(),
            units_v == units@,
            n >= 1,
            depths.len() == n,
            modules_closed(units_v),
            modules_acyclic(units_v),
            depths_bounded_by_some_rank(units_v, depths@),
            depths@[0] == 0,
            forall|v: int|
                0 <= v < n && (#[trigger] depths@[v]) > 0 ==> module_reachable(units_v, v),
            depths_witnessed(units_v, depths@),
        ensures
            depths.len() == n,
            depths_settled(units_v, depths@),
            depths_bounded_by_some_rank(units_v, depths@),
            depths@[0] == 0,
            forall|v: int|
                0 <= v < n && (#[trigger] depths@[v]) > 0 ==> module_reachable(units_v, v),
            depths_witnessed(units_v, depths@),
        decreases (n as int) * (n as int) - depth_total(depths@, n as int),
    {
        let ghost before = depths@;
        let changed = relax_pass(units, &mut depths);
        proof {
            let brank = choose|brank: Seq<int>|
                {
                    &&& brank.len() == units_v.len()
                    &&& (forall|v: int|
                        0 <= v < brank.len() ==> 0 <= #[trigger] brank[v] < brank.len())
                    &&& (forall|p: int, m: int|
                        0 <= p < units_v.len() && 0 <= m < units_v.len() && module_edge(
                            units_v,
                            p,
                            m,
                        ) ==> #[trigger] brank[p] < #[trigger] brank[m])
                    &&& (forall|v: int|
                        0 <= v < units_v.len() ==> #[trigger] depths@[v] <= brank[v])
                };
            lemma_depth_total_bound(depths@, n as int, n as int);
            lemma_depth_total_bound(before, n as int, n as int);
        }
        if !changed {
            break;
        }
    }
    depths
}

// ---------------------------------------------------------------------------
// the stable sort by depth
// ---------------------------------------------------------------------------

/// How many of the first `m` modules have a depth below `d`.
pub open spec fn count_depth_lt(depths: Seq<usize>, d: int, m: int) -> int
    decreases m,
{
    if m <= 0 {
        0
    } else {
        count_depth_lt(depths, d, m - 1) + if (depths[m - 1] as int) < d {
            1int
        } else {
            0int
        }
    }
}

/// How many of the first `m` modules have depth exactly `d`.
pub open spec fn count_depth_eq(depths: Seq<usize>, d: int, m: int) -> int
    decreases m,
{
    if m <= 0 {
        0
    } else {
        count_depth_eq(depths, d, m - 1) + if depths[m - 1] as int == d {
            1int
        } else {
            0int
        }
    }
}

proof fn lemma_count_depth_step(depths: Seq<usize>, d: int, m: int)
    requires
        0 <= m <= depths.len(),
    ensures
        count_depth_lt(depths, d + 1, m) == count_depth_lt(depths, d, m) + count_depth_eq(
            depths,
            d,
            m,
        ),
    decreases m,
{
    if m > 0 {
        lemma_count_depth_step(depths, d, m - 1);
    }
}

proof fn lemma_count_depth_all(depths: Seq<usize>, d: int, m: int)
    requires
        0 <= m <= depths.len(),
        forall|v: int| 0 <= v < depths.len() ==> (#[trigger] depths[v] as int) < d,
    ensures
        count_depth_lt(depths, d, m) == m,
    decreases m,
{
    if m > 0 {
        lemma_count_depth_all(depths, d, m - 1);
    }
}

/// The stable ascending order of module indices by depth: one bucket pass per
/// depth value, each keeping the input order.
fn sorted_order(depths: &Vec<usize>) -> (order: Vec<usize>)
    requires
        forall|v: int| 0 <= v < depths@.len() ==> (#[trigger] depths@[v] as int) < depths@.len(),
    ensures
        order@.len() == depths@.len(),
        forall|k: int| 0 <= k < order@.len() ==> (#[trigger] order@[k] as int) < depths@.len(),
        forall|k: int, l: int| 0 <= k < l < order@.len() ==> order@[k] != order@[l],
        forall|k: int, l: int|
            0 <= k < l < order@.len() ==> depths@[order@[k] as int] <= depths@[order@[l] as int],
        forall|k: int, l: int|
            0 <= k < l < order@.len() && depths@[order@[k] as int] == depths@[order@[l] as int]
                ==> order@[k] < order@[l],
        forall|v: int|
            0 <= v < depths@.len() ==> exists|k: int|
                0 <= k < order@.len() && (#[trigger] order@[k]) as int == #[trigger] (v + 0),
{
    let n = depths.len();
    let mut order: Vec<usize> = Vec::new();
    let ghost mut pos_of: Seq<int> = Seq::new(depths@.len(), |v: int| 0);
    proof {
        lemma_count_lt_zero(depths@, n as int);
    }
    let mut d: usize = 0;
    while d < n
        invariant
            n == depths@.len(),
            forall|v: int| 0 <= v < n ==> (#[trigger] depths@[v] as int) < n,
            d <= n,
            order@.len() == count_depth_lt(depths@, d as int, n as int),
            order@.len() <= n,
            forall|k: int|
                0 <= k < order@.len() ==> (#[trigger] order@[k] as int) < n
                    && (depths@[order@[k] as int] as int) < d,
            forall|k: int, l: int| 0 <= k < l < order@.len() ==> order@[k] != order@[l],
            forall|k: int, l: int|
                0 <= k < l < order@.len() ==> (depths@[order@[k] as int]
                    < depths@[order@[l] as int] || (depths@[order@[k] as int]
                    == depths@[order@[l] as int] && order@[k] < order@[l])),
            pos_of.len() == n,
            forall|v: int|
                0 <= v < n && (depths@[v] as int) < d ==> {
                    &&& 0 <= #[trigger] pos_of[v] < order@.len()
                    &&& order@[pos_of[v]] as int == v
                },
        decreases n - d,
    {
        proof {
            lemma_count_eq_mono(depths@, d as int, 0, 0);
        }
        let mut m: usize = 0;
        while m < n
            invariant
                n == depths@.len(),
                forall|v: int| 0 <= v < n ==> (#[trigger] depths@[v] as int) < n,
                d < n,
                m <= n,
                order@.len() == count_depth_lt(depths@, d as int, n as int) + count_depth_eq(
                    depths@,
                    d as int,
                    m as int,
                ),
                order@.len() <= n,
                forall|k: int|
                    0 <= k < order@.len() ==> (#[trigger] order@[k] as int) < n && ((
                    depths@[order@[k] as int] as int) < d || (depths@[order@[k] as int] as int == d
                        && (order@[k] as int) < m)),
                forall|k: int, l: int| 0 <= k < l < order@.len() ==> order@[k] != order@[l],
                forall|k: int, l: int|
                    0 <= k < l < order@.len() ==> (depths@[order@[k] as int]
                        < depths@[order@[l] as int] || (depths@[order@[k] as int]
                        == depths@[order@[l] as int] && order@[k] < order@[l])),
                pos_of.len() == n,
                forall|v: int|
                    0 <= v < n && ((depths@[v] as int) < d || (depths@[v] as int == d && v < m))
                        ==> {
                        &&& 0 <= #[trigger] pos_of[v] < order@.len()
                        &&& order@[pos_of[v]] as int == v
                    },
            decreases n - m,
        {
            if depths[m] == d {
                let ghost before = order@;
                order.push(m);
                proof {
                    pos_of = pos_of.update(m as int, before.len() as int);
                    // the count grows with the bucket, staying within n
                    assert(count_depth_eq(depths@, d as int, m as int + 1) == count_depth_eq(
                        depths@,
                        d as int,
                        m as int,
                    ) + 1);
                    lemma_count_depth_step(depths@, d as int, n as int);
                    lemma_count_eq_mono(depths@, d as int, m as int + 1, n as int);
                    lemma_count_lt_le(depths@, d as int + 1, n as int);
                }
            } else {
                proof {
                    assert(count_depth_eq(depths@, d as int, m as int + 1) == count_depth_eq(
                        depths@,
                        d as int,
                        m as int,
                    ));
                }
            }
            m += 1;
        }
        proof {
            lemma_count_depth_step(depths@, d as int, n as int);
        }
        d += 1;
    }
    proof {
        lemma_count_depth_all(depths@, n as int, n as int);
        assert forall|v: int| 0 <= v < depths@.len() implies exists|k: int|
            0 <= k < order@.len() && (#[trigger] order@[k]) as int == #[trigger] (v + 0) by {
            assert(order@[pos_of[v]] as int == v);
        }
    }
    order
}

proof fn lemma_count_lt_le(depths: Seq<usize>, d: int, m: int)
    requires
        0 <= m,
    ensures
        0 <= count_depth_lt(depths, d, m) <= m,
    decreases m,
{
    if m > 0 {
        lemma_count_lt_le(depths, d, m - 1);
    }
}

proof fn lemma_count_lt_zero(depths: Seq<usize>, m: int)
    requires
        0 <= m,
    ensures
        count_depth_lt(depths, 0, m) == 0,
        count_depth_eq(depths, 0, 0) == 0,
    decreases m,
{
    if m > 0 {
        lemma_count_lt_zero(depths, m - 1);
    }
}

proof fn lemma_count_eq_mono(depths: Seq<usize>, d: int, m1: int, m2: int)
    requires
        0 <= m1 <= m2,
    ensures
        count_depth_eq(depths, d, m1) <= count_depth_eq(depths, d, m2),
        0 <= count_depth_eq(depths, d, m2),
    decreases m2,
{
    if m1 < m2 {
        lemma_count_eq_mono(depths, d, m1, m2 - 1);
    } else if m2 > 0 {
        lemma_count_eq_mono(depths, d, 0, m2 - 1);
    }
}

/// `result` is `units` reordered by a stable ascending sort on a settled
/// depth assignment `d` through the index order `ord`, with no module beyond
/// the application left at depth zero.
pub open spec fn is_depth_sorted(
    units: Seq<ImageCommonEntry>,
    result: Seq<ImageCommonEntry>,
    d: Seq<usize>,
    ord: Seq<usize>,
) -> bool {
    &&& d.len() == units.len()
    &&& ord.len() == units.len()
    &&& result.len() == units.len()
    &&& depths_settled(units, d)
    // the application anchors the depths, and positive depth means reached
    &&& d.len() >= 1 ==> d[0] == 0
    &&& forall|v: int| 0 <= v < d.len() && (#[trigger] d[v]) > 0 ==> module_reachable(units, v)
    &&& forall|v: int| 1 <= v < d.len() ==> (#[trigger] d[v]) > 0
    // each depth is exact: it exceeds some reached importer's by one
    &&& forall|v: int|
        0 <= v < d.len() && (#[trigger] d[v]) > 0 ==> depth_parent_exact(units, d, v)
    // `ord` is a permutation carrying `units` onto `result`
    &&& forall|k: int| 0 <= k < ord.len() ==> (#[trigger] ord[k] as int) < units.len()
    &&& forall|k: int, l: int| 0 <= k < l < ord.len() ==> ord[k] != ord[l]
    &&& forall|v: int|
        0 <= v < units.len() ==> exists|k: int|
            0 <= k < ord.len() && (#[trigger] ord[k]) as int == #[trigger] (v + 0)
    &&& forall|k: int| 0 <= k < ord.len() ==> #[trigger] result[k] == units[ord[k] as int]
    // ascending in depth, stable on ties; the application comes first
    &&& forall|k: int, l: int|
        0 <= k < l < ord.len() ==> d[(#[trigger] ord[k]) as int] <= d[(#[trigger] ord[l]) as int]
    &&& forall|k: int, l: int|
        0 <= k < l < ord.len() && d[(#[trigger] ord[k]) as int] == d[(#[trigger] ord[l]) as int]
            ==> ord[k] < ord[l]
    &&& result.len() >= 1 ==> result[0] == units[0]
}

/// Some module besides the application is unreachable, and `le` reports it.
pub open spec fn dangling_module_witness(le: LinkErrorType, units: Seq<ImageCommonEntry>) -> bool {
    exists|w: int|
        {
            &&& 1 <= w < units.len()
            &&& !module_reachable(units, #[trigger] (w + 0))
            &&& le matches LinkErrorType::DanglingModule(nm) && nm@ == units[w].name@
        }
}

/// Some settled depth assignment and stable order witness the result.
pub open spec fn depth_sort_result_ok(
    units: Seq<ImageCommonEntry>,
    result: Seq<ImageCommonEntry>,
) -> bool {
    exists|d: Seq<usize>, ord: Seq<usize>| is_depth_sorted(units, result, d, ord)
}

/// Sorts the application (element 0) and its shared modules by their deepest
/// use from the application: depths grow along import edges, the
/// sort is stable, and a module that stays unreached at depth zero besides
/// the application is reported as dangling.
#[verifier::rlimit(100)]
#[verifier::spinoff_prover]
pub fn sort_modules_by_dependent_deepth(
    image_common_entries: Vec<ImageCommonEntry>,
) -> (r: Result<Vec<ImageCommonEntry>, LinkerError>)
    requires
        image_common_entries@.len() >= 1,
        modules_closed(image_common_entries@),
        modules_acyclic(image_common_entries@),
    ensures
        r matches Ok(sorted) ==> depth_sort_result_ok(image_common_entries@, sorted@),
        (forall|v: int|
            1 <= v < image_common_entries@.len() ==> module_reachable(
                image_common_entries@,
                #[trigger] (v + 0),
            )) ==> r is Ok,
        r matches Err(le) ==> dangling_module_witness(le.error_type, image_common_entries@),
{
    let ghost units = image_common_entries@;
    let n = image_common_entries.len();
    let depths = compute_depths(&image_common_entries);
    proof {
        // the settled depths stay below some acyclicity rank, hence below n
        let brank = choose|brank: Seq<int>|
            {
                &&& brank.len() == units.len()
                &&& (forall|v: int| 0 <= v < brank.len() ==> 0 <= #[trigger] brank[v] < brank.len())
                &&& (forall|p: int, m: int|
                    0 <= p < units.len() && 0 <= m < units.len() && module_edge(units, p, m)
                        ==> #[trigger] brank[p] < #[trigger] brank[m])
                &&& (forall|v: int| 0 <= v < units.len() ==> #[trigger] depths@[v] <= brank[v])
            };
        assert(forall|v: int| 0 <= v < depths@.len() ==> (#[trigger] depths@[v] as int) < n);
    }

    // a module nothing reaches should not have been supplied
    let mut v: usize = 1;
    while v < n
        invariant
            n == units.len(),
            units == image_common_entries@,
            depths.len() == n,
            depths_settled(units, depths@),
            depths@[0] == 0,
            v >= 1,
            forall|w: int| 1 <= w < v ==> (#[trigger] depths@[w]) > 0,
        decreases n - v,
    {
        if depths[v] == 0 {
            let err = LinkerError::new(
                LinkErrorType::DanglingModule(copy_string(&image_common_entries[v].name)),
            );
            proof {
                // a reached module would have a positive settled depth
                if module_reachable(units, v as int) {
                    let k = choose|k: nat| has_import_path(units, v as int, k);
                    if k == 0 {
                        assert(v as int == 0);
                    } else {
                        lemma_path_settled_depth(units, depths@, v as int, k);
                    }
                    assert(false);
                }
                assert(!module_reachable(units, (v as int) + 0));
                assert(dangling_module_witness(err.error_type, units));
            }
            return Err(err);
        }
        v += 1;
    }

    let order = sorted_order(&depths);

    // move the modules into their sorted places
    let mut remaining = image_common_entries;
    let mut slots: Vec<Option<ImageCommonEntry>> = Vec::new();
    let mut w: usize = 0;
    while w < n
        invariant
            n == units.len(),
            w <= n,
            remaining@ == units.subrange(w as int, n as int),
            slots.len() == w,
            forall|x: int| 0 <= x < w ==> #[trigger] slots@[x] == Some(units[x]),
        decreases n - w,
    {
        let e = remaining.remove(0);
        proof {
            assert(e == units[w as int]);
            assert(remaining@ =~= units.subrange(w as int + 1, n as int));
        }
        slots.push(Some(e));
        w += 1;
    }
    let mut sorted: Vec<ImageCommonEntry> = Vec::new();
    let mut k: usize = 0;
    while k < n
        invariant
            n == units.len(),
            k <= n,
            order@.len() == n,
            slots.len() == n,
            forall|x: int| 0 <= x < order@.len() ==> (#[trigger] order@[x] as int) < n,
            forall|x: int, y: int| 0 <= x < y < order@.len() ==> order@[x] != order@[y],
            sorted.len() == k,
            forall|x: int| 0 <= x < k ==> #[trigger] sorted@[x] == units[order@[x] as int],
            forall|x: int|
                0 <= x < n ==> (#[trigger] slots@[x] == Some(units[x]) || slots@[x] is None),
            forall|x: int|
                0 <= x < n && (#[trigger] slots@[x]) is None ==> exists|y: int|
                    0 <= y < k && (#[trigger] order@[y]) as int == x,
        decreases n - k,
    {
        let m = order[k];
        let s = slots.remove(m);
        slots.insert(m, None);
        match s {
            Some(e) => {
                sorted.push(e);
                proof {
                    assert forall|x: int|
                        0 <= x < n && (#[trigger] slots@[x]) is None implies exists|y: int|
                        0 <= y < k + 1 && (#[trigger] order@[y]) as int == x by {
                        if x == m as int {
                            assert(order@[k as int] as int == x);
                        } else {
                            let y = choose|y: int|
                                0 <= y < k && (#[trigger] order@[y]) as int == x;
                            assert(order@[y] as int == x);
                        }
                    }
                }
            },
            None => {
                proof {
                    let y = choose|y: int|
                        0 <= y < k && (#[trigger] order@[y]) as int == m as int;
                    assert(order@[y] == order@[k as int]);
                    assert(false);
                }
            },
        }
        k += 1;
    }
    proof {
        // the application is the unique module at depth zero, so the stable
        // ascending sort keeps it first
        let k0 = choose|k: int|
            0 <= k < order@.len() && (#[trigger] order@[k]) as int == #[trigger] (0 + 0);
        if k0 != 0 {
            assert(depths@[order@[0] as int] <= depths@[order@[k0] as int]);
            assert(order@[0] != order@[k0]);
            assert(depths@[order@[0] as int] > 0);
        }
        assert(sorted@[0] == units[order@[0] as int]);
        assert forall|v: int|
            0 <= v < depths@.len() && (#[trigger] depths@[v]) > 0 implies depth_parent_exact(
            units,
            depths@,
            v,
        ) by {
            assert(depth_parented(units, depths@, v));
            let q = choose|q: int|
                0 <= q < units.len() && (q == 0 || depths@[q] > 0) && #[trigger] module_edge(
                    units,
                    q,
                    v,
                ) && depths@[q] + 1 >= depths@[v];
            assert(depths@[v] as int >= depths@[q] + 1);
            assert(0 <= q < units.len() && (q == 0 || depths@[q] > 0) && module_edge(units, q, v)
                && depths@[q] + 1 == depths@[v]);
        }
        assert(is_depth_sorted(units, sorted@, depths@, order@));
        assert(depth_sort_result_ok(units, sorted@));
    }
    Ok(sorted)
}

// ---------------------------------------------------------------------------
// the cross-module index build
// ---------------------------------------------------------------------------

/// An already-linked module is internally consistent for indexing: every
/// import names an import-module entry, type references are in range, and the
/// export-function table parallels the function table.
pub open spec fn linked_module_wf(e: ImageCommonEntry) -> bool {
    &&& e.export_function_entries@.len() == e.function_entries@.len()
    &&& forall|i: int|
        0 <= i < e.import_function_entries@.len() ==> {
            &&& (#[trigger] e.import_function_entries@[i]).import_module_index
                < e.import_module_entries@.len()
            &&& e.import_function_entries@[i].type_index < e.type_entries@.len()
        }
    &&& forall|i: int|
        0 <= i < e.import_data_entries@.len() ==> (
        #[trigger] e.import_data_entries@[i]).import_module_index
            < e.import_module_entries@.len()
    &&& forall|j: int|
        0 <= j < e.function_entries@.len() ==> (#[trigger] e.function_entries@[j]).type_index
            < e.type_entries@.len()
    &&& forall|i: int|
        0 <= i < e.external_function_entries@.len() ==> {
            &&& (#[trigger] e.external_function_entries@[i]).external_library_index
                < e.external_library_entries@.len()
            &&& e.external_function_entries@[i].type_index < e.type_entries@.len()
        }
}

/// Every module of the sorted array is consistent, and every import-module
/// name of every module resolves to a module of the array.
pub open spec fn modules_indexable(units: Seq<ImageCommonEntry>) -> bool {
    &&& forall|m: int| 0 <= m < units.len() ==> linked_module_wf(#[trigger] units[m])
    &&& forall|m: int, i: int|
        0 <= m < units.len() && 0 <= i < units[m].import_module_entries@.len()
            && !is_self_reference(#[trigger] units[m].import_module_entries@[i])
            ==> module_index_of(units, units[m].import_module_entries@[i].name@) >= 0
}

/// The module an import of `m` resolves to: the first module named by the
/// import's import-module entry.
pub open spec fn import_target(units: Seq<ImageCommonEntry>, m: int, module_index: int) -> int {
    module_index_of(units, units[m].import_module_entries@[module_index].name@)
}

/// The emitted function index entry resolves import `i` of module `m`: it
/// points at a public export of the import's full name whose function type is
/// structurally equal to the import's declared type (at each module's own
/// type table).
pub open spec fn function_import_resolved(
    units: Seq<ImageCommonEntry>,
    m: int,
    i: int,
    fi: FunctionIndexEntry,
) -> bool {
    let imp = units[m].import_function_entries@[i];
    let tgt = import_target(units, m, imp.import_module_index as int);
    let target = units[tgt];
    &&& fi.target_module_index == tgt
    &&& (fi.function_internal_index as int) < target.export_function_entries@.len()
    &&& target.export_function_entries@[fi.function_internal_index as int].full_name@
        == imp.full_name@
    &&& target.export_function_entries@[fi.function_internal_index as int].visibility
        == Visibility::Public
    &&& type_entry_deq(
        units[m].type_entries@[imp.type_index as int],
        target.type_entries@[target.function_entries@[fi.function_internal_index as int].type_index as int],
    )
}

/// Every function import of every module resolves cleanly: the named export
/// exists at the target module, is public, and its type is structurally equal
/// to the import's declared type.
pub open spec fn function_imports_resolvable(units: Seq<ImageCommonEntry>) -> bool {
    forall|m: int, i: int|
        0 <= m < units.len() && 0 <= i < units[m].import_function_entries@.len() ==> {
            let imp = #[trigger] units[m].import_function_entries@[i];
            let target = units[import_target(units, m, imp.import_module_index as int)];
            let pos = crate::merger::find_export_fn(target.export_function_entries@, imp.full_name@);
            &&& import_target(units, m, imp.import_module_index as int) >= 0
            &&& pos >= 0
            &&& target.export_function_entries@[pos].visibility == Visibility::Public
            &&& type_entry_deq(
                units[m].type_entries@[imp.type_index as int],
                target.type_entries@[target.function_entries@[pos].type_index as int],
            )
        }
}

/// Some function import fails to resolve, and `le` is the error it produces.
pub open spec fn function_index_error_witness(
    le: LinkErrorType,
    units: Seq<ImageCommonEntry>,
) -> bool {
    exists|m: int, i: int|
        {
            &&& 0 <= m < units.len() && 0 <= i < units[m].import_function_entries@.len()
            &&& {
                let imp = #[trigger] units[m].import_function_entries@[i];
                let target = units[import_target(units, m, imp.import_module_index as int)];
                let pos = crate::merger::find_export_fn(
                    target.export_function_entries@,
                    imp.full_name@,
                );
                ||| ({
                    &&& import_target(units, m, imp.import_module_index as int) < 0
                    &&& le matches LinkErrorType::FunctionNotFound(n) && n@ == imp.full_name@
                })
                ||| ({
                    &&& import_target(units, m, imp.import_module_index as int) >= 0
                    &&& pos < 0
                    &&& le matches LinkErrorType::FunctionNotFound(n) && n@ == imp.full_name@
                })
                ||| ({
                    &&& import_target(units, m, imp.import_module_index as int) >= 0
                    &&& pos >= 0
                    &&& target.export_function_entries@[pos].visibility != Visibility::Public
                    &&& le matches LinkErrorType::FunctionNotExported(n) && n@ == imp.full_name@
                })
                ||| ({
                    &&& import_target(units, m, imp.import_module_index as int) >= 0
                    &&& pos >= 0
                    &&& target.export_function_entries@[pos].visibility == Visibility::Public
                    &&& !type_entry_deq(
                        units[m].type_entries@[imp.type_index as int],
                        target.type_entries@[target.function_entries@[pos].type_index as int],
                    )
                    &&& le matches LinkErrorType::ImportFunctionTypeMismatch(n) && n@
                        == imp.full_name@
                })
            }
        }
}

/// Every data import of every module resolves cleanly: the named export-datum
/// exists at the target module, carries the import's section, and is public.
pub open spec fn data_imports_resolvable(units: Seq<ImageCommonEntry>) -> bool {
    forall|m: int, i: int|
        0 <= m < units.len() && 0 <= i < units[m].import_data_entries@.len() ==> {
            let imp = #[trigger] units[m].import_data_entries@[i];
            let target = units[import_target(units, m, imp.import_module_index as int)];
            let pos = crate::merger::find_export_data(target.export_data_entries@, imp.full_name@);
            &&& import_target(units, m, imp.import_module_index as int) >= 0
            &&& pos >= 0
            &&& target.export_data_entries@[pos].section_type == imp.data_section_type
            &&& target.export_data_entries@[pos].visibility == Visibility::Public
        }
}

/// Some data import fails to resolve, and `le` is the error it produces: the
/// section is compared before the visibility.
pub open spec fn data_index_error_witness(le: LinkErrorType, units: Seq<ImageCommonEntry>) -> bool {
    exists|m: int, i: int|
        {
            &&& 0 <= m < units.len() && 0 <= i < units[m].import_data_entries@.len()
            &&& {
                let imp = #[trigger] units[m].import_data_entries@[i];
                let target = units[import_target(units, m, imp.import_module_index as int)];
                let pos = crate::merger::find_export_data(
                    target.export_data_entries@,
                    imp.full_name@,
                );
                ||| ({
                    &&& import_target(units, m, imp.import_module_index as int) < 0
                    &&& le matches LinkErrorType::DataNotFound(n) && n@ == imp.full_name@
                })
                ||| ({
                    &&& import_target(units, m, imp.import_module_index as int) >= 0
                    &&& pos < 0
                    &&& le matches LinkErrorType::DataNotFound(n) && n@ == imp.full_name@
                })
                ||| ({
                    &&& import_target(units, m, imp.import_module_index as int) >= 0
                    &&& pos >= 0
                    &&& target.export_data_entries@[pos].section_type != imp.data_section_type
                    &&& le matches LinkErrorType::ImportDataSectionMismatch(n, sec) && n@
                        == imp.full_name@ && sec == imp.data_section_type
                })
                ||| ({
                    &&& import_target(units, m, imp.import_module_index as int) >= 0
                    &&& pos >= 0
                    &&& target.export_data_entries@[pos].section_type == imp.data_section_type
                    &&& target.export_data_entries@[pos].visibility != Visibility::Public
                    &&& le matches LinkErrorType::DataNotExported(n) && n@ == imp.full_name@
                })
            }
        }
}

/// Builds each module's function index list: one resolved entry per
/// import, then one per internal function.
#[verifier::rlimit(100)]
#[verifier::spinoff_prover]
fn build_function_index_lists(units: &Vec<ImageCommonEntry>) -> (r: Result<
    Vec<FunctionIndexListEntry>,
    LinkerError,
>)
    requires
        modules_indexable(units@),
    ensures
        function_imports_resolvable(units@) ==> r is Ok,
        r matches Err(le) ==> function_index_error_witness(le.error_type, units@),
        r matches Ok(lists) ==> ({
            &&& lists@.len() == units@.len()
            &&& forall|m: int|
                0 <= m < units@.len() ==> (#[trigger] lists@[m]).index_entries@.len()
                    == units@[m].import_function_entries@.len()
                    + units@[m].function_entries@.len()
            &&& forall|m: int, i: int|
                0 <= m < units@.len() && 0 <= i < units@[m].import_function_entries@.len()
                    ==> function_import_resolved(
                    units@,
                    m,
                    i,
                    #[trigger] lists@[m].index_entries@[i],
                )
            &&& forall|m: int, j: int|
                #![trigger lists@[m].index_entries@[units@[m].import_function_entries@.len() + j]]
                0 <= m < units@.len() && 0 <= j < units@[m].function_entries@.len() ==> lists@[m].index_entries@[units@[m].import_function_entries@.len()
                    + j] == (FunctionIndexEntry {
                    target_module_index: m as usize,
                    function_internal_index: j as usize,
                })
        }),
        r matches Err(le) ==> {
            ||| le.error_type matches LinkErrorType::FunctionNotFound(_)
            ||| le.error_type matches LinkErrorType::FunctionNotExported(_)
            ||| le.error_type matches LinkErrorType::ImportFunctionTypeMismatch(_)
        },
{
    let ghost units_v = units@;
    let n = units.len();
    let mut lists: Vec<FunctionIndexListEntry> = Vec::new();
    let mut m: usize = 0;
    while m < n
        invariant
            n == units@.len(),
            units_v == units@,
            modules_indexable(units_v),
            m <= n,
            lists.len() == m,
            forall|v: int|
                0 <= v < m ==> (#[trigger] lists@[v]).index_entries@.len()
                    == units_v[v].import_function_entries@.len()
                    + units_v[v].function_entries@.len(),
            forall|v: int, i: int|
                0 <= v < m && 0 <= i < units_v[v].import_function_entries@.len()
                    ==> function_import_resolved(
                    units_v,
                    v,
                    i,
                    #[trigger] lists@[v].index_entries@[i],
                ),
            forall|v: int, j: int|
                #![trigger lists@[v].index_entries@[units_v[v].import_function_entries@.len() + j]]
                0 <= v < m && 0 <= j < units_v[v].function_entries@.len() ==> lists@[v].index_entries@[units_v[v].import_function_entries@.len()
                    + j] == (FunctionIndexEntry {
                    target_module_index: v as usize,
                    function_internal_index: j as usize,
                }),
        decreases n - m,
    {
        let source = &units[m];
        let mut index_entries: Vec<FunctionIndexEntry> = Vec::new();
        let mut i: usize = 0;
        while i < source.import_function_entries.len()
            invariant
                n == units@.len(),
                units_v == units@,
                modules_indexable(units_v),
                m < n,
                source == &units[m as int],
                i <= source.import_function_entries@.len(),
                index_entries.len() == i,
                forall|k: int|
                    0 <= k < i ==> function_import_resolved(
                        units_v,
                        m as int,
                        k,
                        #[trigger] index_entries@[k],
                    ),
            decreases source.import_function_entries.len() - i,
        {
            let import_function_entry = &source.import_function_entries[i];
            let target_module_name =
                &source.import_module_entries[import_function_entry.import_module_index].name;
            let target_module_index = match find_module_by_name(units, target_module_name) {
                Some(t) => t,
                None => {
                    let err = LinkerError::new(
                        LinkErrorType::FunctionNotFound(
                            copy_string(&import_function_entry.full_name),
                        ),
                    );
                    proof {
                        let imp = units_v[m as int].import_function_entries@[i as int];
                        assert(import_target(units_v, m as int, imp.import_module_index as int)
                            < 0);
                        assert(function_index_error_witness(err.error_type, units_v));
                    }
                    return Err(err);
                },
            };
            proof {
                lemma_module_index_of(units_v, target_module_name@);
            }
            let target_module = &units[target_module_index];
            match crate::merger::find_export_function(
                &target_module.export_function_entries,
                &import_function_entry.full_name,
            ) {
                Some(target_function_internal_index) => {
                    proof {
                        crate::merger::lemma_find_export_fn(
                            target_module.export_function_entries@,
                            import_function_entry.full_name@,
                        );
                    }
                    proof {
                        assert(target_module_index as int == import_target(
                            units_v,
                            m as int,
                            units_v[m as int].import_function_entries@[i as int].import_module_index as int,
                        ));
                    }
                    let export_entry =
                        &target_module.export_function_entries[target_function_internal_index];
                    let is_public = matches!(export_entry.visibility, Visibility::Public);
                    if !is_public {
                        let err = LinkerError::new(
                            LinkErrorType::FunctionNotExported(
                                copy_string(&import_function_entry.full_name),
                            ),
                        );
                        proof {
                            assert(function_index_error_witness(err.error_type, units_v));
                        }
                        return Err(err);
                    }
                    let target_function_entry =
                        &target_module.function_entries[target_function_internal_index];
                    let expected_type = &source.type_entries[import_function_entry.type_index];
                    let actual_type = &target_module.type_entries[target_function_entry.type_index];
                    if !type_entry_matches(expected_type, actual_type) {
                        let err = LinkerError::new(
                            LinkErrorType::ImportFunctionTypeMismatch(
                                copy_string(&import_function_entry.full_name),
                            ),
                        );
                        proof {
                            assert(function_index_error_witness(err.error_type, units_v));
                        }
                        return Err(err);
                    }
                    index_entries.push(
                        FunctionIndexEntry {
                            target_module_index,
                            function_internal_index: target_function_internal_index,
                        },
                    );
                },
                None => {
                    let err = LinkerError::new(
                        LinkErrorType::FunctionNotFound(
                            copy_string(&import_function_entry.full_name),
                        ),
                    );
                    proof {
                        assert(target_module_index as int == import_target(
                            units_v,
                            m as int,
                            units_v[m as int].import_function_entries@[i as int].import_module_index as int,
                        ));
                        assert(function_index_error_witness(err.error_type, units_v));
                    }
                    return Err(err);
                },
            }
            i += 1;
        }
        let import_count = source.import_function_entries.len();
        let internal_count = source.function_entries.len();
        let mut j: usize = 0;
        while j < internal_count
            invariant
                m < n,
                n == units@.len(),
                units_v == units@,
                source == &units[m as int],
                import_count == units_v[m as int].import_function_entries@.len(),
                internal_count == units_v[m as int].function_entries@.len(),
                j <= internal_count,
                index_entries.len() == import_count + j,
                forall|k: int|
                    0 <= k < import_count ==> function_import_resolved(
                        units_v,
                        m as int,
                        k,
                        #[trigger] index_entries@[k],
                    ),
                forall|k: int|
                    0 <= k < j ==> #[trigger] index_entries@[import_count + k]
                        == (FunctionIndexEntry {
                        target_module_index: m,
                        function_internal_index: k as usize,
                    }),
            decreases internal_count - j,
        {
            index_entries.push(
                FunctionIndexEntry { target_module_index: m, function_internal_index: j },
            );
            j += 1;
        }
        lists.push(FunctionIndexListEntry { index_entries });
        m += 1;
    }
    Ok(lists)
}

/// The emitted data index entry resolves data import `i` of module `m`: it
/// points at a public export datum of the import's full name whose section
/// matches the import's declared section.
pub open spec fn data_import_resolved(
    units: Seq<ImageCommonEntry>,
    m: int,
    i: int,
    di: DataIndexEntry,
) -> bool {
    let imp = units[m].import_data_entries@[i];
    let tgt = import_target(units, m, imp.import_module_index as int);
    let target = units[tgt];
    &&& di.target_module_index == tgt
    &&& (di.data_internal_index as int) < target.export_data_entries@.len()
    &&& target.export_data_entries@[di.data_internal_index as int].full_name@ == imp.full_name@
    &&& target.export_data_entries@[di.data_internal_index as int].visibility == Visibility::Public
    &&& target.export_data_entries@[di.data_internal_index as int].section_type
        == imp.data_section_type
    &&& di.target_data_section_type == imp.data_section_type
}

/// Builds each module's data index list: one resolved entry per
/// import, then the internal read-only, read-write and uninitialized data in
/// order.
#[verifier::rlimit(100)]
#[verifier::spinoff_prover]
fn build_data_index_lists(units: &Vec<ImageCommonEntry>) -> (r: Result<
    Vec<DataIndexListEntry>,
    LinkerError,
>)
    requires
        modules_indexable(units@),
    ensures
        data_imports_resolvable(units@) ==> r is Ok,
        r matches Err(le) ==> data_index_error_witness(le.error_type, units@),
        r matches Ok(lists) ==> ({
            &&& lists@.len() == units@.len()
            &&& forall|m: int|
                0 <= m < units@.len() ==> (#[trigger] lists@[m]).index_entries@.len()
                    == units@[m].import_data_entries@.len()
                    + units@[m].read_only_data_entries@.len()
                    + units@[m].read_write_data_entries@.len()
                    + units@[m].uninit_data_entries@.len()
            &&& forall|m: int, i: int|
                0 <= m < units@.len() && 0 <= i < units@[m].import_data_entries@.len()
                    ==> data_import_resolved(units@, m, i, #[trigger] lists@[m].index_entries@[i])
            &&& forall|m: int, j: int|
                #![trigger lists@[m].index_entries@[units@[m].import_data_entries@.len() + j]]
                0 <= m < units@.len() && 0 <= j < units@[m].read_only_data_entries@.len()
                    + units@[m].read_write_data_entries@.len()
                    + units@[m].uninit_data_entries@.len() ==> {
                    let e = lists@[m].index_entries@[units@[m].import_data_entries@.len() + j];
                    &&& e.target_module_index == m
                    &&& if j < units@[m].read_only_data_entries@.len() {
                        e.data_internal_index as int == j && e.target_data_section_type
                            == DataSectionType::ReadOnly
                    } else if j < units@[m].read_only_data_entries@.len()
                        + units@[m].read_write_data_entries@.len() {
                        e.data_internal_index as int == j
                            - units@[m].read_only_data_entries@.len()
                            && e.target_data_section_type == DataSectionType::ReadWrite
                    } else {
                        e.data_internal_index as int == j
                            - units@[m].read_only_data_entries@.len()
                            - units@[m].read_write_data_entries@.len()
                            && e.target_data_section_type == DataSectionType::Uninit
                    }
                }
        }),
        r matches Err(le) ==> {
            ||| le.error_type matches LinkErrorType::DataNotFound(_)
            ||| le.error_type matches LinkErrorType::DataNotExported(_)
            ||| le.error_type matches LinkErrorType::ImportDataSectionMismatch(_, _)
        },
{
    let ghost units_v = units@;
    let n = units.len();
    let mut lists: Vec<DataIndexListEntry> = Vec::new();
    let mut m: usize = 0;
    while m < n
        invariant
            n == units@.len(),
            units_v == units@,
            modules_indexable(units_v),
            m <= n,
            lists.len() == m,
            forall|v: int|
                0 <= v < m ==> (#[trigger] lists@[v]).index_entries@.len()
                    == units_v[v].import_data_entries@.len()
                    + units_v[v].read_only_data_entries@.len()
                    + units_v[v].read_write_data_entries@.len()
                    + units_v[v].uninit_data_entries@.len(),
            forall|v: int, i: int|
                0 <= v < m && 0 <= i < units_v[v].import_data_entries@.len()
                    ==> data_import_resolved(
                    units_v,
                    v,
                    i,
                    #[trigger] lists@[v].index_entries@[i],
                ),
            forall|v: int, j: int|
                #![trigger lists@[v].index_entries@[units_v[v].import_data_entries@.len() + j]]
                0 <= v < m && 0 <= j < units_v[v].read_only_data_entries@.len()
                    + units_v[v].read_write_data_entries@.len()
                    + units_v[v].uninit_data_entries@.len() ==> {
                    let e = lists@[v].index_entries@[units_v[v].import_data_entries@.len() + j];
                    &&& e.target_module_index == v
                    &&& if j < units_v[v].read_only_data_entries@.len() {
                        e.data_internal_index as int == j && e.target_data_section_type
                            == DataSectionType::ReadOnly
                    } else if j < units_v[v].read_only_data_entries@.len()
                        + units_v[v].read_write_data_entries@.len() {
                        e.data_internal_index as int == j
                            - units_v[v].read_only_data_entries@.len()
                            && e.target_data_section_type == DataSectionType::ReadWrite
                    } else {
                        e.data_internal_index as int == j
                            - units_v[v].read_only_data_entries@.len()
                            - units_v[v].read_write_data_entries@.len()
                            && e.target_data_section_type == DataSectionType::Uninit
                    }
                },
        decreases n - m,
    {
        let source = &units[m];
        let mut index_entries: Vec<DataIndexEntry> = Vec::new();
        let mut i: usize = 0;
        while i < source.import_data_entries.len()
            invariant
                n == units@.len(),
                units_v == units@,
                modules_indexable(units_v),
                m < n,
                source == &units[m as int],
                i <= source.import_data_entries@.len(),
                index_entries.len() == i,
                forall|k: int|
                    0 <= k < i ==> data_import_resolved(
                        units_v,
                        m as int,
                        k,
                        #[trigger] index_entries@[k],
                    ),
            decreases source.import_data_entries.len() - i,
        {
            let import_data_entry = &source.import_data_entries[i];
            let target_module_name =
                &source.import_module_entries[import_data_entry.import_module_index].name;
            let target_module_index = match find_module_by_name(units, target_module_name) {
                Some(t) => t,
                None => {
                    let err = LinkerError::new(
                        LinkErrorType::DataNotFound(copy_string(&import_data_entry.full_name)),
                    );
                    proof {
                        let imp = units_v[m as int].import_data_entries@[i as int];
                        assert(import_target(units_v, m as int, imp.import_module_index as int)
                            < 0);
                        assert(data_index_error_witness(err.error_type, units_v));
                    }
                    return Err(err);
                },
            };
            proof {
                lemma_module_index_of(units_v, target_module_name@);
            }
            let target_module = &units[target_module_index];
            match crate::merger::find_export_datum(
                &target_module.export_data_entries,
                &import_data_entry.full_name,
            ) {
                Some(target_data_internal_index) => {
                    proof {
                        crate::merger::lemma_find_export_data(
                            target_module.export_data_entries@,
                            import_data_entry.full_name@,
                        );
                    }
                    proof {
                        assert(target_module_index as int == import_target(
                            units_v,
                            m as int,
                            units_v[m as int].import_data_entries@[i as int].import_module_index as int,
                        ));
                    }
                    let target_export_data_entry =
                        &target_module.export_data_entries[target_data_internal_index];
                    if !(target_export_data_entry.section_type
                        == import_data_entry.data_section_type) {
                        let err = LinkerError::new(
                            LinkErrorType::ImportDataSectionMismatch(
                                copy_string(&import_data_entry.full_name),
                                import_data_entry.data_section_type,
                            ),
                        );
                        proof {
                            assert(data_index_error_witness(err.error_type, units_v));
                        }
                        return Err(err);
                    }
                    let is_public = matches!(target_export_data_entry.visibility, Visibility::Public);
                    if !is_public {
                        let err = LinkerError::new(
                            LinkErrorType::DataNotExported(
                                copy_string(&import_data_entry.full_name),
                            ),
                        );
                        proof {
                            assert(data_index_error_witness(err.error_type, units_v));
                        }
                        return Err(err);
                    }
                    index_entries.push(
                        DataIndexEntry {
                            target_module_index,
                            data_internal_index: target_data_internal_index,
                            target_data_section_type: import_data_entry.data_section_type,
                        },
                    );
                },
                None => {
                    let err = LinkerError::new(
                        LinkErrorType::DataNotFound(copy_string(&import_data_entry.full_name)),
                    );
                    proof {
                        assert(target_module_index as int == import_target(
                            units_v,
                            m as int,
                            units_v[m as int].import_data_entries@[i as int].import_module_index as int,
                        ));
                        assert(data_index_error_witness(err.error_type, units_v));
                    }
                    return Err(err);
                },
            }
            i += 1;
        }
        let import_count = source.import_data_entries.len();
        let ro_count = source.read_only_data_entries.len();
        let rw_count = source.read_write_data_entries.len();
        let un_count = source.uninit_data_entries.len();
        let mut j: usize = 0;
        while j < ro_count
            invariant
                m < n,
                n == units@.len(),
                units_v == units@,
                source == &units[m as int],
                import_count == units_v[m as int].import_data_entries@.len(),
                ro_count == units_v[m as int].read_only_data_entries@.len(),
                j <= ro_count,
                index_entries.len() == import_count + j,
                forall|k: int|
                    0 <= k < import_count ==> data_import_resolved(
                        units_v,
                        m as int,
                        k,
                        #[trigger] index_entries@[k],
                    ),
                forall|k: int|
                    0 <= k < j ==> #[trigger] index_entries@[import_count + k] == (DataIndexEntry {
                        target_module_index: m,
                        data_internal_index: k as usize,
                        target_data_section_type: DataSectionType::ReadOnly,
                    }),
            decreases ro_count - j,
        {
            index_entries.push(
                DataIndexEntry {
                    target_module_index: m,
                    data_internal_index: j,
                    target_data_section_type: DataSectionType::ReadOnly,
                },
            );
            j += 1;
        }
        let mut j2: usize = 0;
        while j2 < rw_count
            invariant
                m < n,
                n == units@.len(),
                units_v == units@,
                source == &units[m as int],
                import_count == units_v[m as int].import_data_entries@.len(),
                ro_count == units_v[m as int].read_only_data_entries@.len(),
                rw_count == units_v[m as int].read_write_data_entries@.len(),
                j2 <= rw_count,
                index_entries.len() == import_count + ro_count + j2,
                forall|k: int|
                    0 <= k < import_count ==> data_import_resolved(
                        units_v,
                        m as int,
                        k,
                        #[trigger] index_entries@[k],
                    ),
                forall|k: int|
                    0 <= k < ro_count ==> #[trigger] index_entries@[import_count + k]
                        == (DataIndexEntry {
                        target_module_index: m,
                        data_internal_index: k as usize,
                        target_data_section_type: DataSectionType::ReadOnly,
                    }),
                forall|k: int|
                    0 <= k < j2 ==> #[trigger] index_entries@[import_count + ro_count + k]
                        == (DataIndexEntry {
                        target_module_index: m,
                        data_internal_index: k as usize,
                        target_data_section_type: DataSectionType::ReadWrite,
                    }),
            decreases rw_count - j2,
        {
            index_entries.push(
                DataIndexEntry {
                    target_module_index: m,
                    data_internal_index: j2,
                    target_data_section_type: DataSectionType::ReadWrite,
                },
            );
            j2 += 1;
        }
        let mut j3: usize = 0;
        while j3 < un_count
            invariant
                m < n,
                n == units@.len(),
                units_v == units@,
                source == &units[m as int],
                import_count == units_v[m as int].import_data_entries@.len(),
                ro_count == units_v[m as int].read_only_data_entries@.len(),
                rw_count == units_v[m as int].read_write_data_entries@.len(),
                un_count == units_v[m as int].uninit_data_entries@.len(),
                j3 <= un_count,
                index_entries.len() == import_count + ro_count + rw_count + j3,
                forall|k: int|
                    0 <= k < import_count ==> data_import_resolved(
                        units_v,
                        m as int,
                        k,
                        #[trigger] index_entries@[k],
                    ),
                forall|k: int|
                    0 <= k < ro_count ==> #[trigger] index_entries@[import_count + k]
                        == (DataIndexEntry {
                        target_module_index: m,
                        data_internal_index: k as usize,
                        target_data_section_type: DataSectionType::ReadOnly,
                    }),
                forall|k: int|
                    0 <= k < rw_count ==> #[trigger] index_entries@[import_count + ro_count + k]
                        == (DataIndexEntry {
                        target_module_index: m,
                        data_internal_index: k as usize,
                        target_data_section_type: DataSectionType::ReadWrite,
                    }),
                forall|k: int|
                    0 <= k < j3 ==> #[trigger] index_entries@[import_count + ro_count + rw_count
                        + k] == (DataIndexEntry {
                        target_module_index: m,
                        data_internal_index: k as usize,
                        target_data_section_type: DataSectionType::Uninit,
                    }),
            decreases un_count - j3,
        {
            index_entries.push(
                DataIndexEntry {
                    target_module_index: m,
                    data_internal_index: j3,
                    target_data_section_type: DataSectionType::Uninit,
                },
            );
            j3 += 1;
        }
        lists.push(DataIndexListEntry { index_entries });
        proof {
            assert forall|j: int|
                0 <= j < units_v[m as int].read_only_data_entries@.len()
                    + units_v[m as int].read_write_data_entries@.len()
                    + units_v[m as int].uninit_data_entries@.len() implies {
                let e = #[trigger] lists@[m as int].index_entries@[units_v[m as int].import_data_entries@.len()
                    + j];
                &&& e.target_module_index == m as int
                &&& if j < units_v[m as int].read_only_data_entries@.len() {
                    e.data_internal_index as int == j && e.target_data_section_type
                        == DataSectionType::ReadOnly
                } else if j < units_v[m as int].read_only_data_entries@.len()
                    + units_v[m as int].read_write_data_entries@.len() {
                    e.data_internal_index as int == j
                        - units_v[m as int].read_only_data_entries@.len()
                        && e.target_data_section_type == DataSectionType::ReadWrite
                } else {
                    e.data_internal_index as int == j
                        - units_v[m as int].read_only_data_entries@.len()
                        - units_v[m as int].read_write_data_entries@.len()
                        && e.target_data_section_type == DataSectionType::Uninit
                }
            } by {
                if j < ro_count as int {
                    assert(lists@[m as int].index_entries@[import_count + j] == (DataIndexEntry {
                        target_module_index: m,
                        data_internal_index: j as usize,
                        target_data_section_type: DataSectionType::ReadOnly,
                    }));
                } else if j < ro_count + rw_count {
                    assert(lists@[m as int].index_entries@[import_count + ro_count as int + (j
                        - ro_count)] == (DataIndexEntry {
                        target_module_index: m,
                        data_internal_index: (j - ro_count) as usize,
                        target_data_section_type: DataSectionType::ReadWrite,
                    }));
                } else {
                    assert(lists@[m as int].index_entries@[import_count + ro_count as int
                        + rw_count as int + (j - ro_count - rw_count)] == (DataIndexEntry {
                        target_module_index: m,
                        data_internal_index: (j - ro_count - rw_count) as usize,
                        target_data_section_type: DataSectionType::Uninit,
                    }));
                }
            }
        }
        m += 1;
    }
    Ok(lists)
}

// ---------------------------------------------------------------------------
// the unified external tables
// ---------------------------------------------------------------------------

/// Some declaration of some module matches this unified entry by name and
/// translated library index.
pub open spec fn unified_extfn_from_units(
    units: Seq<ImageCommonEntry>,
    lib_remaps: Seq<Vec<usize>>,
    e: ExternalFunctionEntry,
) -> bool {
    exists|u: int, i: int|
        {
            &&& 0 <= u < units.len() && 0 <= i < units[u].external_function_entries@.len()
            &&& e.name@ == (#[trigger] units[u].external_function_entries@[i]).name@
            &&& e.external_library_index == lib_remaps[u]@[units[u].external_function_entries@[i].external_library_index as int]
        }
}

/// Some declaration of some module is this unified entry's first occurrence:
/// the names agree, the library index is the declaration's translated one,
/// and the unified type at the entry's index is structurally equal to the
/// declarer's type.
pub open spec fn unified_extfn_witnessed(
    lists: Seq<Vec<ExternalFunctionEntry>>,
    type_lists: Seq<Vec<TypeEntry>>,
    lib_remaps: Seq<Vec<usize>>,
    types_m: Seq<TypeEntry>,
    e: ExternalFunctionEntry,
) -> bool {
    exists|u: int, i: int|
        {
            &&& 0 <= u < lists.len() && 0 <= i < lists[u]@.len()
            &&& e.name@ == (#[trigger] lists[u]@[i]).name@
            &&& e.external_library_index as int
                == lib_remaps[u]@[lists[u]@[i].external_library_index as int]
            &&& (e.type_index as int) < types_m.len()
            &&& type_entry_deq(
                types_m[e.type_index as int],
                type_lists[u]@[lists[u]@[i].type_index as int],
            )
        }
}

/// One step of the unified fold: a declaration whose (name, unified library)
/// identity already stands is dropped; a new identity is appended, its type
/// the structurally equal deduplicated entry, appended first where none
/// stands.
pub open spec fn unified_fold_insert(
    fns: Seq<(Seq<char>, usize, int)>,
    types: Seq<TypeEntry>,
    name: Seq<char>,
    lib: usize,
    ty: TypeEntry,
) -> (Seq<(Seq<char>, usize, int)>, Seq<TypeEntry>) {
    if exists|k: int| 0 <= k < fns.len() && (#[trigger] fns[k]).0 == name && fns[k].1 == lib {
        (fns, types)
    } else if exists|t: int| 0 <= t < types.len() && type_entry_deq(#[trigger] types[t], ty) {
        let t = choose|t: int| 0 <= t < types.len() && type_entry_deq(#[trigger] types[t], ty);
        (fns.push((name, lib, t)), types)
    } else {
        (fns.push((name, lib, types.len() as int)), types.push(ty))
    }
}

/// The unified function and type tables after the first `i` declarations of
/// each module up to `u`, folded in module-major, declaration-minor order:
/// function identities as (name, unified library, unified type index)
/// triples.
pub open spec fn unified_fold_upto(
    lists: Seq<Vec<ExternalFunctionEntry>>,
    type_lists: Seq<Vec<TypeEntry>>,
    lib_remaps: Seq<Vec<usize>>,
    u: int,
    i: int,
) -> (Seq<(Seq<char>, usize, int)>, Seq<TypeEntry>)
    decreases u, i,
    when i >= 0
{
    if u <= 0 && i <= 0 {
        (Seq::empty(), Seq::empty())
    } else if i <= 0 {
        unified_fold_upto(lists, type_lists, lib_remaps, u - 1, lists[u - 1]@.len() as int)
    } else {
        let e = lists[u]@[i - 1];
        let prev = unified_fold_upto(lists, type_lists, lib_remaps, u, i - 1);
        unified_fold_insert(
            prev.0,
            prev.1,
            e.name@,
            lib_remaps[u]@[e.external_library_index as int],
            type_lists[u]@[e.type_index as int],
        )
    }
}

/// The built tables are, entry for entry, the fold prefix at module `u`,
/// declaration `i`.
pub open spec fn unified_tables_folded_at(
    merged: Seq<ExternalFunctionEntry>,
    types_m: Seq<TypeEntry>,
    lists: Seq<Vec<ExternalFunctionEntry>>,
    type_lists: Seq<Vec<TypeEntry>>,
    lib_remaps: Seq<Vec<usize>>,
    u: int,
    i: int,
) -> bool {
    let f = unified_fold_upto(lists, type_lists, lib_remaps, u, i);
    &&& merged.len() == f.0.len()
    &&& types_m.len() == f.1.len()
    &&& forall|k: int|
        0 <= k < merged.len() ==> {
            &&& (#[trigger] merged[k]).name@ == f.0[k].0
            &&& merged[k].external_library_index == f.0[k].1
            &&& merged[k].type_index as int == f.0[k].2
        }
    &&& forall|t: int| 0 <= t < types_m.len() ==> type_entry_deq(#[trigger] types_m[t], f.1[t])
}

/// The unified function table is the first-occurrence fold of the translated
/// declarations, and the unified type table the first-occurrence fold of
/// their types.
pub open spec fn unified_tables_folded(
    merged: Seq<ExternalFunctionEntry>,
    types_m: Seq<TypeEntry>,
    lists: Seq<Vec<ExternalFunctionEntry>>,
    type_lists: Seq<Vec<TypeEntry>>,
    lib_remaps: Seq<Vec<usize>>,
) -> bool {
    unified_tables_folded_at(merged, types_m, lists, type_lists, lib_remaps, lists.len() as int, 0)
}

/// The given tables copy the modules' declarations entry for entry, the
/// library remaps point at unified libraries of the declarations' library
/// names, and the unified tables are the first-occurrence fold of the
/// copies.
pub open spec fn dynamic_unified_remaps_ok(
    units: Seq<ImageCommonEntry>,
    index: ImageIndexEntry,
    lists: Seq<Vec<ExternalFunctionEntry>>,
    type_lists: Seq<Vec<TypeEntry>>,
    lib_remaps: Seq<Vec<usize>>,
) -> bool {
    &&& lists.len() == units.len()
    &&& type_lists.len() == units.len()
    &&& lib_remaps.len() == units.len()
    &&& forall|u: int|
        0 <= u < units.len() ==> (#[trigger] lists[u])@.len()
            == units[u].external_function_entries@.len()
    &&& forall|u: int, i: int|
        #![trigger lists[u]@[i]]
        0 <= u < units.len() && 0 <= i < units[u].external_function_entries@.len()
            ==> crate::entry::external_function_deq(
            lists[u]@[i],
            units[u].external_function_entries@[i],
        )
    &&& forall|u: int|
        0 <= u < units.len() ==> (#[trigger] type_lists[u])@.len() == units[u].type_entries@.len()
    &&& forall|u: int, i: int|
        #![trigger type_lists[u]@[i]]
        0 <= u < units.len() && 0 <= i < units[u].type_entries@.len() ==> type_entry_deq(
            type_lists[u]@[i],
            units[u].type_entries@[i],
        )
    &&& forall|u: int|
        0 <= u < units.len() ==> (#[trigger] lib_remaps[u])@.len()
            == units[u].external_library_entries@.len()
    &&& forall|u: int, j: int|
        #![trigger lib_remaps[u]@[j]]
        0 <= u < units.len() && 0 <= j < units[u].external_library_entries@.len() ==> {
            &&& (lib_remaps[u]@[j] as int) < index.unified_external_library_entries@.len()
            &&& index.unified_external_library_entries@[lib_remaps[u]@[j] as int].name@
                == units[u].external_library_entries@[j].name@
        }
    &&& unified_tables_folded(
        index.unified_external_function_entries@,
        index.unified_external_type_entries@,
        lists,
        type_lists,
        lib_remaps,
    )
}

/// The unified external-function and type tables are the first-occurrence
/// fold of the modules' declarations, translated through remap tables that
/// name-match the unified library table.
pub open spec fn dynamic_unified_folded(
    units: Seq<ImageCommonEntry>,
    index: ImageIndexEntry,
) -> bool {
    exists|lists: Seq<Vec<ExternalFunctionEntry>>,
        type_lists: Seq<Vec<TypeEntry>>,
        lib_remaps: Seq<Vec<usize>>|
        #[trigger] dynamic_unified_remaps_ok(units, index, lists, type_lists, lib_remaps)
}

/// Unifies the external functions of all modules and deduplicates their
/// types: two declarations are one function exactly when they agree on the
/// name and the unified library, and the first occurrence fixes the entry's
/// type, which indexes the deduplicated type table.
#[verifier::rlimit(100)]
#[verifier::spinoff_prover]
fn build_external_function_and_type_entries(
    external_library_remap_indices_list: &Vec<Vec<usize>>,
    type_entries_list: &Vec<Vec<TypeEntry>>,
    external_function_entries_list: &Vec<Vec<ExternalFunctionEntry>>,
) -> (r: (Vec<TypeEntry>, Vec<ExternalFunctionEntry>, Vec<Vec<usize>>))
    requires
        external_library_remap_indices_list.len() == external_function_entries_list.len(),
        type_entries_list.len() == external_function_entries_list.len(),
        forall|u: int, i: int|
            0 <= u < external_function_entries_list.len() && 0 <= i
                < external_function_entries_list@[u]@.len() ==> {
                &&& (#[trigger] external_function_entries_list@[u]@[i]).external_library_index
                    < external_library_remap_indices_list@[u]@.len()
                &&& external_function_entries_list@[u]@[i].type_index
                    < type_entries_list@[u]@.len()
            },
    ensures
        ({
            let types_m = r.0;
            let merged = r.1;
            let remaps = r.2;
            let lists = external_function_entries_list@;
            let lib_remaps = external_library_remap_indices_list@;
            &&& crate::merger::type_table_distinct(types_m@)
            &&& crate::merger::external_functions_distinct(merged@)
            &&& forall|k: int|
                0 <= k < merged@.len() ==> (#[trigger] merged@[k]).type_index < types_m@.len()
            &&& forall|k: int|
                0 <= k < merged@.len() ==> unified_extfn_witnessed(
                    lists,
                    type_entries_list@,
                    lib_remaps,
                    types_m@,
                    #[trigger] merged@[k],
                )
            &&& remaps.len() == lists.len()
            &&& forall|u: int|
                0 <= u < lists.len() ==> (#[trigger] remaps@[u])@.len() == lists[u]@.len()
            &&& forall|u: int, i: int|
                0 <= u < lists.len() && 0 <= i < lists[u]@.len() ==> crate::merger::extfn_slot_ok(
                    remaps@[u]@[i],
                    #[trigger] lists[u]@[i],
                    lib_remaps[u],
                    merged@,
                )
            // the unified tables are the first-occurrence folds of the
            // translated declarations
            &&& unified_tables_folded(merged@, types_m@, lists, type_entries_list@, lib_remaps)
        }),
{
    let ghost lists = external_function_entries_list@;
    let ghost lib_remaps = external_library_remap_indices_list@;
    let mut type_entries_merged: Vec<TypeEntry> = Vec::new();
    let mut merged: Vec<ExternalFunctionEntry> = Vec::new();
    let mut remaps: Vec<Vec<usize>> = Vec::new();
    let mut u: usize = 0;
    while u < external_function_entries_list.len()
        invariant
            lists == external_function_entries_list@,
            lib_remaps == external_library_remap_indices_list@,
            lib_remaps.len() == lists.len(),
            type_entries_list@.len() == lists.len(),
            forall|v: int, i: int|
                0 <= v < lists.len() && 0 <= i < lists[v]@.len() ==> {
                    &&& (#[trigger] lists[v]@[i]).external_library_index < lib_remaps[v]@.len()
                    &&& lists[v]@[i].type_index < type_entries_list@[v]@.len()
                },
            u <= lists.len(),
            crate::merger::type_table_distinct(type_entries_merged@),
            crate::merger::external_functions_distinct(merged@),
            forall|k: int|
                0 <= k < merged@.len() ==> (#[trigger] merged@[k]).type_index
                    < type_entries_merged@.len(),
            forall|k: int|
                0 <= k < merged@.len() ==> unified_extfn_witnessed(
                    lists,
                    type_entries_list@,
                    lib_remaps,
                    type_entries_merged@,
                    #[trigger] merged@[k],
                ),
            remaps.len() == u,
            forall|v: int| 0 <= v < u ==> (#[trigger] remaps@[v])@.len() == lists[v]@.len(),
            forall|v: int, i: int|
                0 <= v < u && 0 <= i < lists[v]@.len() ==> crate::merger::extfn_slot_ok(
                    remaps@[v]@[i],
                    #[trigger] lists[v]@[i],
                    lib_remaps[v],
                    merged@,
                ),
            unified_tables_folded_at(
                merged@,
                type_entries_merged@,
                lists,
                type_entries_list@,
                lib_remaps,
                u as int,
                0,
            ),
        decreases external_function_entries_list.len() - u,
    {
        let source = &external_function_entries_list[u];
        let unit_types = &type_entries_list[u];
        let mut indices: Vec<usize> = Vec::new();
        let mut i: usize = 0;
        while i < source.len()
            invariant
                lists == external_function_entries_list@,
                lib_remaps == external_library_remap_indices_list@,
                lib_remaps.len() == lists.len(),
                type_entries_list@.len() == lists.len(),
                forall|v: int, k: int|
                    0 <= v < lists.len() && 0 <= k < lists[v]@.len() ==> {
                        &&& (#[trigger] lists[v]@[k]).external_library_index
                            < lib_remaps[v]@.len()
                        &&& lists[v]@[k].type_index < type_entries_list@[v]@.len()
                    },
                u < lists.len(),
                source == &external_function_entries_list[u as int],
                unit_types == &type_entries_list[u as int],
                i <= source@.len(),
                crate::merger::type_table_distinct(type_entries_merged@),
                crate::merger::external_functions_distinct(merged@),
                forall|k: int|
                    0 <= k < merged@.len() ==> (#[trigger] merged@[k]).type_index
                        < type_entries_merged@.len(),
                forall|k: int|
                    0 <= k < merged@.len() ==> unified_extfn_witnessed(
                        lists,
                        type_entries_list@,
                        lib_remaps,
                        type_entries_merged@,
                        #[trigger] merged@[k],
                    ),
                remaps.len() == u,
                forall|v: int| 0 <= v < u ==> (#[trigger] remaps@[v])@.len() == lists[v]@.len(),
                forall|v: int, k: int|
                    0 <= v < u && 0 <= k < lists[v]@.len() ==> crate::merger::extfn_slot_ok(
                        remaps@[v]@[k],
                        #[trigger] lists[v]@[k],
                        lib_remaps[v],
                        merged@,
                    ),
                indices.len() == i,
                forall|k: int|
                    0 <= k < i ==> crate::merger::extfn_slot_ok(
                        indices@[k],
                        #[trigger] lists[u as int]@[k],
                        lib_remaps[u as int],
                        merged@,
                    ),
                unified_tables_folded_at(
                    merged@,
                    type_entries_merged@,
                    lists,
                    type_entries_list@,
                    lib_remaps,
                    u as int,
                    i as int,
                ),
        decreases source.len() - i,
        {
            let entry_source = &source[i];
            let ghost facc = unified_fold_upto(
                lists,
                type_entries_list@,
                lib_remaps,
                u as int,
                i as int,
            );
            let ghost name_i = lists[u as int]@[i as int].name@;
            let ghost lib_i = lib_remaps[u as int]@[lists[u as int]@[i as int].external_library_index as int];
            let ghost ty_i = type_entries_list@[u as int]@[lists[u as int]@[i as int].type_index as int];
            let merged_library_index =
                external_library_remap_indices_list[u][entry_source.external_library_index];
            match crate::merger::find_external_function(
                &merged,
                &entry_source.name,
                merged_library_index,
            ) {
                Some(pos) => {
                    proof {
                        assert(facc.0[pos as int].0 == name_i && facc.0[pos as int].1 == lib_i);
                        assert(unified_fold_upto(
                            lists,
                            type_entries_list@,
                            lib_remaps,
                            u as int,
                            i as int + 1,
                        ) == facc);
                    }
                    indices.push(pos);
                },
                None => {
                    proof {
                        assert forall|k: int| 0 <= k < facc.0.len() implies !((
                        #[trigger] facc.0[k]).0 == name_i && facc.0[k].1 == lib_i) by {
                            assert(merged@[k].name@ == facc.0[k].0);
                            assert(merged@[k].external_library_index == facc.0[k].1);
                        }
                    }
                    let type_entry_source = &unit_types[entry_source.type_index];
                    let type_index_merged = match crate::merger::find_type(
                        &type_entries_merged,
                        type_entry_source,
                    ) {
                        Some(pos) => {
                            proof {
                                // the fold reuses the one structurally equal
                                // deduplicated type
                                assert(type_entry_deq(facc.1[pos as int], ty_i));
                                let t = choose|t: int|
                                    0 <= t < facc.1.len() && type_entry_deq(
                                        #[trigger] facc.1[t],
                                        ty_i,
                                    );
                                if t != pos as int {
                                    assert(type_entry_deq(type_entries_merged@[t], facc.1[t]));
                                    assert(type_entry_deq(
                                        type_entries_merged@[t],
                                        type_entries_merged@[pos as int],
                                    ));
                                    assert(false);
                                }
                                assert(unified_fold_upto(
                                    lists,
                                    type_entries_list@,
                                    lib_remaps,
                                    u as int,
                                    i as int + 1,
                                ) == (facc.0.push((name_i, lib_i, pos as int)), facc.1));
                            }
                            pos
                        },
                        None => {
                            let pos = type_entries_merged.len();
                            proof {
                                assert forall|t: int| 0 <= t < facc.1.len() implies !type_entry_deq(
                                    #[trigger] facc.1[t],
                                    ty_i,
                                ) by {
                                    assert(type_entry_deq(type_entries_merged@[t], facc.1[t]));
                                    assert(!type_entry_deq(type_entries_merged@[t], ty_i));
                                }
                                assert(unified_fold_upto(
                                    lists,
                                    type_entries_list@,
                                    lib_remaps,
                                    u as int,
                                    i as int + 1,
                                ) == (
                                    facc.0.push((name_i, lib_i, facc.1.len() as int)),
                                    facc.1.push(ty_i),
                                ));
                            }
                            type_entries_merged.push(
                                crate::entry::copy_type_entry(type_entry_source),
                            );
                            pos
                        },
                    };
                    let pos = merged.len();
                    merged.push(
                        ExternalFunctionEntry {
                            name: copy_string(&entry_source.name),
                            external_library_index: merged_library_index,
                            type_index: type_index_merged,
                        },
                    );
                    proof {
                        assert(type_entry_deq(
                            type_entries_merged@[type_index_merged as int],
                            type_entries_list@[u as int]@[lists[u as int]@[i as int].type_index as int],
                        ));
                        assert(unified_extfn_witnessed(
                            lists,
                            type_entries_list@,
                            lib_remaps,
                            type_entries_merged@,
                            merged@[pos as int],
                        ));
                    }
                    indices.push(pos);
                },
            }
            i += 1;
        }
        proof {
            assert(unified_fold_upto(lists, type_entries_list@, lib_remaps, u as int + 1, 0)
                == unified_fold_upto(
                lists,
                type_entries_list@,
                lib_remaps,
                u as int,
                lists[u as int]@.len() as int,
            ));
        }
        remaps.push(indices);
        u += 1;
    }
    proof {
        assert(unified_tables_folded_at(
            merged@,
            type_entries_merged@,
            lists,
            type_entries_list@,
            lib_remaps,
            lists.len() as int,
            0,
        ));
    }
    (type_entries_merged, merged, remaps)
}

// ---------------------------------------------------------------------------
// entry points
// ---------------------------------------------------------------------------

/// An identifier character of a full-name segment.
pub open spec fn is_word_char(c: char) -> bool {
    ||| 97 <= c as u32 <= 122
    ||| 65 <= c as u32 <= 90
    ||| 48 <= c as u32 <= 57
    ||| c as u32 == 95
}

/// The export is the default entry point of the module.
pub open spec fn is_default_entry(module: Seq<char>, full: Seq<char>) -> bool {
    full == module + "::_start"@
}

/// The export is the entry point of the executable unit `unit`.
pub open spec fn is_exec_unit_entry(module: Seq<char>, full: Seq<char>, unit: Seq<char>) -> bool {
    &&& unit.len() >= 1
    &&& forall|k: int| 0 <= k < unit.len() ==> is_word_char(#[trigger] unit[k])
    &&& full == module + "::app::"@ + unit + "::_start"@
}

/// The end of the run of word characters starting at `from`.
pub open spec fn word_run_end(s: Seq<char>, from: int) -> int
    decreases s.len() - from,
{
    if from < 0 || from >= s.len() {
        from
    } else if !is_word_char(s[from]) {
        from
    } else {
        word_run_end(s, from + 1)
    }
}

proof fn lemma_word_run_end(s: Seq<char>, from: int)
    requires
        0 <= from <= s.len(),
    ensures
        from <= word_run_end(s, from) <= s.len(),
        forall|k: int| from <= k < word_run_end(s, from) ==> is_word_char(#[trigger] s[k]),
        word_run_end(s, from) < s.len() ==> !is_word_char(s[word_run_end(s, from)]),
    decreases s.len() - from,
{
    if from < s.len() && is_word_char(s[from]) {
        lemma_word_run_end(s, from + 1);
    }
}

/// From position `from`, the text reads as one or more `::`-separated word
/// segments whose last segment names a unit test: `test_` followed by at
/// least one more character.  `seen_segment` records whether a submodule
/// segment has come before, which the final segment requires.
pub open spec fn test_tail_ok(s: Seq<char>, from: int, seen_segment: bool) -> bool
    decreases s.len() - from,
    when 0 <= from
{
    let j = word_run_end(s, from);
    if j == from {
        false
    } else if j >= s.len() {
        seen_segment && j - from >= 6 && s.subrange(from, from + 5) == "test_"@
    } else if s[j] == ':' && from < j && j + 2 < s.len() && s[j + 1] == ':' {
        test_tail_ok(s, j + 2, true)
    } else {
        false
    }
}

/// The export is the unit test `unit` of the module's test tree.
pub open spec fn is_test_entry(module: Seq<char>, full: Seq<char>, unit: Seq<char>) -> bool {
    &&& full == module + "::tests::"@ + unit
    &&& test_tail_ok(unit, 0, false)
}

/// The export at `idx` is the module's default entry point.
pub open spec fn matches_default(app: ImageCommonEntry, idx: int) -> bool {
    is_default_entry(app.name@, app.export_function_entries@[idx].full_name@)
}

/// The unit name an executable-unit export carries: the characters between
/// the `::app::` prefix and the `::_start` suffix.
pub open spec fn exec_unit_name_of(app: ImageCommonEntry, idx: int) -> Seq<char> {
    let full = app.export_function_entries@[idx].full_name@;
    full.subrange(app.name@.len() as int + 7, full.len() as int - 8)
}

/// The export at `idx` is an executable unit's entry point.
pub open spec fn matches_exec_unit(app: ImageCommonEntry, idx: int) -> bool {
    is_exec_unit_entry(
        app.name@,
        app.export_function_entries@[idx].full_name@,
        exec_unit_name_of(app, idx),
    )
}

/// The unit name a test export carries: everything after the `::tests::`
/// prefix.
pub open spec fn test_unit_name_of(app: ImageCommonEntry, idx: int) -> Seq<char> {
    let full = app.export_function_entries@[idx].full_name@;
    full.subrange(app.name@.len() as int + 9, full.len() as int)
}

/// The export at `idx` is a unit test.
pub open spec fn matches_test(app: ImageCommonEntry, idx: int) -> bool {
    is_test_entry(
        app.name@,
        app.export_function_entries@[idx].full_name@,
        test_unit_name_of(app, idx),
    )
}

/// How many of the first `m` exports are the default entry point.
pub open spec fn count_default_upto(app: ImageCommonEntry, m: int) -> int
    decreases m,
{
    if m <= 0 {
        0
    } else {
        count_default_upto(app, m - 1) + if matches_default(app, m - 1) {
            1int
        } else {
            0int
        }
    }
}

/// How many of the first `m` exports are executable-unit entry points.
pub open spec fn count_exec_upto(app: ImageCommonEntry, m: int) -> int
    decreases m,
{
    if m <= 0 {
        0
    } else {
        count_exec_upto(app, m - 1) + if matches_exec_unit(app, m - 1) {
            1int
        } else {
            0int
        }
    }
}

/// How many of the first `m` exports are unit tests.
pub open spec fn count_test_upto(app: ImageCommonEntry, m: int) -> int
    decreases m,
{
    if m <= 0 {
        0
    } else {
        count_test_upto(app, m - 1) + if matches_test(app, m - 1) {
            1int
        } else {
            0int
        }
    }
}

proof fn lemma_count_default_le(app: ImageCommonEntry, m: int)
    requires
        0 <= m,
    ensures
        0 <= count_default_upto(app, m) <= m,
        0 <= count_exec_upto(app, m) <= m,
        0 <= count_test_upto(app, m) <= m,
    decreases m,
{
    if m > 0 {
        lemma_count_default_le(app, m - 1);
    }
}

/// One emitted entry point is sound: its public index names an export of the
/// application whose full name matches the pattern its unit name came from.
pub open spec fn entry_point_sound(app: ImageCommonEntry, ep: EntryPointEntry) -> bool {
    exists|idx: int|
        {
            &&& 0 <= idx < app.export_function_entries@.len()
            &&& ep.function_public_index as int == app.import_function_entries@.len() + idx
            &&& {
                let full = (#[trigger] app.export_function_entries@[idx]).full_name@;
                ||| (ep.unit_name@ == "_start"@ && is_default_entry(app.name@, full))
                ||| is_exec_unit_entry(app.name@, full, ep.unit_name@)
                ||| is_test_entry(app.name@, full, ep.unit_name@)
            }
        }
}

/// The application exports a default entry point.
pub open spec fn module_has_default_entry(app: ImageCommonEntry) -> bool {
    exists|idx: int|
        0 <= idx < app.export_function_entries@.len() && is_default_entry(
            app.name@,
            (#[trigger] app.export_function_entries@[idx]).full_name@,
        )
}

/// Some emitted entry point is the default one.
pub open spec fn default_entry_emitted(r: Seq<EntryPointEntry>) -> bool {
    exists|k: int| 0 <= k < r.len() && (#[trigger] r[k]).unit_name@ == "_start"@
}

/// Decides whether `c` is an identifier character.
fn word_char(c: char) -> (r: bool)
    ensures
        r == is_word_char(c),
{
    let v = c as u32;
    (97 <= v && v <= 122) || (65 <= v && v <= 90) || (48 <= v && v <= 57) || v == 95
}

/// Decides whether `p` occurs in `s` at position `from`.
fn str_matches_at(s: &str, from: usize, p: &str) -> (r: bool)
    requires
        from <= s@.len(),
    ensures
        r == (from + p@.len() <= s@.len() && s@.subrange(from as int, from + p@.len()) == p@),
{
    let s_len = s.unicode_len();
    let p_len = p.unicode_len();
    if p_len > s_len - from {
        return false;
    }
    let mut k: usize = 0;
    while k < p_len
        invariant
            s_len == s@.len(),
            from + p_len <= s_len,
            p_len == p@.len(),
            k <= p_len,
            forall|t: int| 0 <= t < k ==> s@[from + t] == p@[t],
        decreases p_len - k,
    {
        if s.get_char(from + k) != p.get_char(k) {
            proof {
                assert(s@[from + k as int] != p@[k as int]);
            }
            return false;
        }
        k += 1;
    }
    proof {
        assert(s@.subrange(from as int, from + p@.len()) =~= p@);
    }
    true
}

/// Decides `test_tail_ok`: reads a word run and either ends at a test leaf or
/// crosses a `::` into the next segment.
fn test_tail_check(s: &str, from: usize, seen_segment: bool) -> (r: bool)
    requires
        from <= s@.len(),
    ensures
        r == test_tail_ok(s@, from as int, seen_segment),
    decreases s@.len() - from,
{
    proof {
        lemma_word_run_end(s@, from as int);
    }
    let s_len = s.unicode_len();
    // the word run
    let mut j: usize = from;
    while j < s_len && word_char(s.get_char(j))
        invariant
            from <= j <= s_len,
            s_len == s@.len(),
            forall|k: int| from <= k < j ==> is_word_char(#[trigger] s@[k]),
            word_run_end(s@, from as int) >= j,
        decreases s_len - j,
    {
        proof {
            lemma_word_run_end_step(s@, from as int, j as int);
        }
        j += 1;
    }
    proof {
        lemma_word_run_end_stop(s@, from as int, j as int);
    }
    if j == from {
        return false;
    }
    if j == s_len {
        let leaf = seen_segment && j - from >= 6 && str_matches_at(s, from, "test_");
        proof {
            reveal_strlit("test_");
        }
        return leaf;
    }
    if s.get_char(j) == ':' && s_len - j > 2 && s.get_char(j + 1) == ':' {
        test_tail_check(s, j + 2, true)
    } else {
        false
    }
}

proof fn lemma_word_run_end_step(s: Seq<char>, from: int, j: int)
    requires
        0 <= from <= j < s.len(),
        forall|k: int| from <= k < j ==> is_word_char(#[trigger] s[k]),
        is_word_char(s[j]),
    ensures
        word_run_end(s, from) >= j + 1,
    decreases j - from,
{
    if from < j {
        lemma_word_run_end_step(s, from + 1, j);
    } else {
        lemma_word_run_end(s, j + 1);
    }
}

proof fn lemma_word_run_end_stop(s: Seq<char>, from: int, j: int)
    requires
        0 <= from <= j <= s.len(),
        forall|k: int| from <= k < j ==> is_word_char(#[trigger] s[k]),
        j == s.len() || !is_word_char(s[j]),
    ensures
        word_run_end(s, from) == j,
    decreases j - from,
{
    if from < j {
        lemma_word_run_end_stop(s, from + 1, j);
    }
}

/// `r` is exactly the entry-point list of `app`: one entry per matching
/// export, in pattern-major (default, executable units, tests),
/// declaration-minor order, each carrying its unit name and public index.
pub open spec fn entry_points_exact(app: ImageCommonEntry, r: Seq<EntryPointEntry>) -> bool {
    let n = app.export_function_entries@.len() as int;
    &&& r.len() == count_default_upto(app, n) + count_exec_upto(app, n) + count_test_upto(app, n)
    &&& forall|idx: int|
        0 <= idx < n && #[trigger] matches_default(app, idx) ==> {
            let k = count_default_upto(app, idx);
            &&& 0 <= k < r.len()
            &&& r[k].unit_name@ == "_start"@
            &&& r[k].function_public_index as int == app.import_function_entries@.len() + idx
        }
    &&& forall|idx: int|
        0 <= idx < n && #[trigger] matches_exec_unit(app, idx) ==> {
            let k = count_default_upto(app, n) + count_exec_upto(app, idx);
            &&& 0 <= k < r.len()
            &&& r[k].unit_name@ == exec_unit_name_of(app, idx)
            &&& r[k].function_public_index as int == app.import_function_entries@.len() + idx
        }
    &&& forall|idx: int|
        0 <= idx < n && #[trigger] matches_test(app, idx) ==> {
            let k = count_default_upto(app, n) + count_exec_upto(app, n) + count_test_upto(app, idx);
            &&& 0 <= k < r.len()
            &&& r[k].unit_name@ == test_unit_name_of(app, idx)
            &&& r[k].function_public_index as int == app.import_function_entries@.len() + idx
        }
}

/// Searches the application's exports for its entry points: the default
/// `_start`, one per executable unit under `app`, and one per unit test under
/// `tests`, each at its function public index.  The passes emit the default
/// entries, then the executable units, then the tests, each in export order,
/// and nothing else.
#[verifier::rlimit(100)]
#[verifier::spinoff_prover]
pub fn find_entry_points(main_module_entry: &ImageCommonEntry) -> (r: Vec<EntryPointEntry>)
    requires
        main_module_entry.import_function_entries@.len()
            + main_module_entry.export_function_entries@.len() <= usize::MAX,
    ensures
        forall|k: int|
            0 <= k < r@.len() ==> entry_point_sound(*main_module_entry, #[trigger] r@[k]),
        module_has_default_entry(*main_module_entry) ==> default_entry_emitted(r@),
        entry_points_exact(*main_module_entry, r@),
        r@.len() == count_default_upto(
            *main_module_entry,
            main_module_entry.export_function_entries@.len() as int,
        ) + count_exec_upto(
            *main_module_entry,
            main_module_entry.export_function_entries@.len() as int,
        ) + count_test_upto(
            *main_module_entry,
            main_module_entry.export_function_entries@.len() as int,
        ),
        forall|idx: int|
            0 <= idx < main_module_entry.export_function_entries@.len() && #[trigger] matches_default(
                *main_module_entry,
                idx,
            ) ==> {
                let k = count_default_upto(*main_module_entry, idx);
                &&& 0 <= k < r@.len()
                &&& r@[k].unit_name@ == "_start"@
                &&& r@[k].function_public_index as int
                    == main_module_entry.import_function_entries@.len() + idx
            },
        forall|idx: int|
            0 <= idx < main_module_entry.export_function_entries@.len() && #[trigger] matches_exec_unit(
                *main_module_entry,
                idx,
            ) ==> {
                let k = count_default_upto(
                    *main_module_entry,
                    main_module_entry.export_function_entries@.len() as int,
                ) + count_exec_upto(*main_module_entry, idx);
                &&& 0 <= k < r@.len()
                &&& r@[k].unit_name@ == exec_unit_name_of(*main_module_entry, idx)
                &&& r@[k].function_public_index as int
                    == main_module_entry.import_function_entries@.len() + idx
            },
        forall|idx: int|
            0 <= idx < main_module_entry.export_function_entries@.len() && #[trigger] matches_test(
                *main_module_entry,
                idx,
            ) ==> {
                let k = count_default_upto(
                    *main_module_entry,
                    main_module_entry.export_function_entries@.len() as int,
                ) + count_exec_upto(
                    *main_module_entry,
                    main_module_entry.export_function_entries@.len() as int,
                ) + count_test_upto(*main_module_entry, idx);
                &&& 0 <= k < r@.len()
                &&& r@[k].unit_name@ == test_unit_name_of(*main_module_entry, idx)
                &&& r@[k].function_public_index as int
                    == main_module_entry.import_function_entries@.len() + idx
            },
{
    let ghost app = *main_module_entry;
    let export_function_entries = &main_module_entry.export_function_entries;
    let import_functions_count = main_module_entry.import_function_entries.len();
    let module_name = &main_module_entry.name;
    let module_name_len = module_name.as_str().unicode_len();
    let export_count = export_function_entries.len();
    let ghost n = export_count as int;

    let mut entry_point_entries: Vec<EntryPointEntry> = Vec::new();

    // the default entry point
    let mut i: usize = 0;
    while i < export_count
        invariant
            app == *main_module_entry,
            export_count == app.export_function_entries@.len(),
            n == export_count as int,
            import_functions_count == app.import_function_entries@.len(),
            module_name == &main_module_entry.name,
            export_function_entries == &main_module_entry.export_function_entries,
            module_name_len == app.name@.len(),
            i <= export_count,
            import_functions_count + export_count <= usize::MAX,
            entry_point_entries@.len() == count_default_upto(app, i as int),
            forall|k: int|
                0 <= k < entry_point_entries@.len() ==> entry_point_sound(
                    app,
                    #[trigger] entry_point_entries@[k],
                ),
            forall|idx: int|
                0 <= idx < i && #[trigger] matches_default(app, idx) ==> {
                    let k = count_default_upto(app, idx);
                    &&& 0 <= k < entry_point_entries@.len()
                    &&& entry_point_entries@[k].unit_name@ == "_start"@
                    &&& entry_point_entries@[k].function_public_index as int
                        == import_functions_count + idx
                },
        decreases export_count - i,
    {
        proof {
            lemma_count_default_le(app, i as int);
        }
        let full = export_function_entries[i].full_name.as_str();
        let full_len = full.unicode_len();
        if full_len >= 8 && full_len - 8 == module_name_len && str_matches_at(
            full,
            0,
            module_name.as_str(),
        ) && str_matches_at(full, module_name_len, "::_start") {
            proof {
                reveal_strlit("::_start");
                reveal_strlit("_start");
                assert(full@ =~= app.name@ + "::_start"@);
                assert(matches_default(app, i as int));
            }
            entry_point_entries.push(
                EntryPointEntry {
                    unit_name: "_start".to_owned(),
                    function_public_index: import_functions_count + i,
                },
            );
            proof {
                let ep = entry_point_entries@.last();
                assert(entry_point_sound(app, ep));
            }
        } else {
            proof {
                // an export that fails a check is not the default entry
                if matches_default(app, i as int) {
                    reveal_strlit("::_start");
                    assert(full@ == app.name@ + "::_start"@);
                    assert(full@.len() == app.name@.len() + 8);
                    assert(full@.subrange(0, module_name_len as int) =~= app.name@);
                    assert(full@.subrange(module_name_len as int, full@.len() as int)
                        =~= "::_start"@);
                    assert(false);
                }
            }
        }
        i += 1;
    }

    // the executable units
    let mut i2: usize = 0;
    while i2 < export_count
        invariant
            app == *main_module_entry,
            export_count == app.export_function_entries@.len(),
            n == export_count as int,
            import_functions_count == app.import_function_entries@.len(),
            module_name == &main_module_entry.name,
            export_function_entries == &main_module_entry.export_function_entries,
            module_name_len == app.name@.len(),
            i2 <= export_count,
            import_functions_count + export_count <= usize::MAX,
            entry_point_entries@.len() == count_default_upto(app, n) + count_exec_upto(
                app,
                i2 as int,
            ),
            forall|k: int|
                0 <= k < entry_point_entries@.len() ==> entry_point_sound(
                    app,
                    #[trigger] entry_point_entries@[k],
                ),
            forall|idx: int|
                0 <= idx < n && #[trigger] matches_default(app, idx) ==> {
                    let k = count_default_upto(app, idx);
                    &&& 0 <= k < entry_point_entries@.len()
                    &&& entry_point_entries@[k].unit_name@ == "_start"@
                    &&& entry_point_entries@[k].function_public_index as int
                        == import_functions_count + idx
                },
            forall|idx: int|
                0 <= idx < i2 && #[trigger] matches_exec_unit(app, idx) ==> {
                    let k = count_default_upto(app, n) + count_exec_upto(app, idx);
                    &&& 0 <= k < entry_point_entries@.len()
                    &&& entry_point_entries@[k].unit_name@ == exec_unit_name_of(app, idx)
                    &&& entry_point_entries@[k].function_public_index as int
                        == import_functions_count + idx
                },
        decreases export_count - i2,
    {
        proof {
            lemma_count_default_le(app, i2 as int);
        }
        let full = export_function_entries[i2].full_name.as_str();
        let full_len = full.unicode_len();
        if full_len >= 16 && module_name_len <= full_len - 16 && str_matches_at(
            full,
            0,
            module_name.as_str(),
        ) && str_matches_at(full, module_name_len, "::app::") && str_matches_at(
            full,
            full_len - 8,
            "::_start",
        ) {
            let prefix_len = module_name_len + 7;
            // the middle must be one nonempty run of word characters
            let unit_from = prefix_len;
            let unit_to = full_len - 8;
            let mut all_word = true;
            let mut k: usize = unit_from;
            while k < unit_to
                invariant
                    unit_from <= k <= unit_to,
                    unit_to < full@.len(),
                    all_word == (forall|t: int|
                        unit_from <= t < k ==> is_word_char(#[trigger] full@[t])),
                decreases unit_to - k,
            {
                if !word_char(full.get_char(k)) {
                    all_word = false;
                    proof {
                        assert(!is_word_char(full@[k as int]));
                    }
                    k = unit_to;
                } else {
                    proof {
                        assert(is_word_char(full@[k as int]));
                    }
                    k += 1;
                }
            }
            if all_word {
                let unit = full.substring_char(unit_from, unit_to).to_owned();
                proof {
                    reveal_strlit("::app::");
                    reveal_strlit("::_start");
                    assert(unit@ == full@.subrange(unit_from as int, unit_to as int));
                    assert(full@ =~= app.name@ + "::app::"@ + unit@ + "::_start"@);
                    assert(is_exec_unit_entry(
                        app.name@,
                        app.export_function_entries@[i2 as int].full_name@,
                        unit@,
                    ));
                    assert(unit@ == exec_unit_name_of(app, i2 as int));
                    assert(matches_exec_unit(app, i2 as int));
                }
                entry_point_entries.push(
                    EntryPointEntry {
                        unit_name: unit,
                        function_public_index: import_functions_count + i2,
                    },
                );
            } else {
                proof {
                    if matches_exec_unit(app, i2 as int) {
                        let u = exec_unit_name_of(app, i2 as int);
                        reveal_strlit("::app::");
                        reveal_strlit("::_start");
                        assert(full@ == app.name@ + "::app::"@ + u + "::_start"@);
                        let bad = choose|t: int|
                            unit_from <= t < unit_to && !is_word_char(#[trigger] full@[t]);
                        assert(u[bad - unit_from] == full@[bad]);
                        assert(false);
                    }
                }
            }
        } else {
            proof {
                // an export that fails a check names no executable unit
                if matches_exec_unit(app, i2 as int) {
                    let u = exec_unit_name_of(app, i2 as int);
                    reveal_strlit("::app::");
                    reveal_strlit("::_start");
                    assert(full@ == app.name@ + "::app::"@ + u + "::_start"@);
                    assert(full@.len() == app.name@.len() + 15 + u.len());
                    assert(full@.subrange(0, module_name_len as int) =~= app.name@);
                    assert(full@.subrange(module_name_len as int, module_name_len as int + 7)
                        =~= "::app::"@);
                    assert(full@.subrange(full@.len() - 8, full@.len() as int) =~= "::_start"@);
                    assert(false);
                }
            }
        }
        i2 += 1;
    }

    // the unit tests
    let mut i3: usize = 0;
    while i3 < export_count
        invariant
            app == *main_module_entry,
            export_count == app.export_function_entries@.len(),
            n == export_count as int,
            import_functions_count == app.import_function_entries@.len(),
            module_name == &main_module_entry.name,
            export_function_entries == &main_module_entry.export_function_entries,
            module_name_len == app.name@.len(),
            i3 <= export_count,
            import_functions_count + export_count <= usize::MAX,
            entry_point_entries@.len() == count_default_upto(app, n) + count_exec_upto(app, n)
                + count_test_upto(app, i3 as int),
            forall|k: int|
                0 <= k < entry_point_entries@.len() ==> entry_point_sound(
                    app,
                    #[trigger] entry_point_entries@[k],
                ),
            forall|idx: int|
                0 <= idx < n && #[trigger] matches_default(app, idx) ==> {
                    let k = count_default_upto(app, idx);
                    &&& 0 <= k < entry_point_entries@.len()
                    &&& entry_point_entries@[k].unit_name@ == "_start"@
                    &&& entry_point_entries@[k].function_public_index as int
                        == import_functions_count + idx
                },
            forall|idx: int|
                0 <= idx < n && #[trigger] matches_exec_unit(app, idx) ==> {
                    let k = count_default_upto(app, n) + count_exec_upto(app, idx);
                    &&& 0 <= k < entry_point_entries@.len()
                    &&& entry_point_entries@[k].unit_name@ == exec_unit_name_of(app, idx)
                    &&& entry_point_entries@[k].function_public_index as int
                        == import_functions_count + idx
                },
            forall|idx: int|
                0 <= idx < i3 && #[trigger] matches_test(app, idx) ==> {
                    let k = count_default_upto(app, n) + count_exec_upto(app, n)
                        + count_test_upto(app, idx);
                    &&& 0 <= k < entry_point_entries@.len()
                    &&& entry_point_entries@[k].unit_name@ == test_unit_name_of(app, idx)
                    &&& entry_point_entries@[k].function_public_index as int
                        == import_functions_count + idx
                },
        decreases export_count - i3,
    {
        proof {
            lemma_count_default_le(app, i3 as int);
        }
        let full = export_function_entries[i3].full_name.as_str();
        let full_len = full.unicode_len();
        if full_len >= 10 && module_name_len <= full_len - 10 && str_matches_at(
            full,
            0,
            module_name.as_str(),
        ) && str_matches_at(full, module_name_len, "::tests::") {
            let prefix_len = module_name_len + 9;
            if test_tail_check(full, prefix_len, false) {
                let unit = full.substring_char(prefix_len, full_len).to_owned();
                proof {
                    reveal_strlit("::tests::");
                    assert(unit@ == full@.subrange(prefix_len as int, full_len as int));
                    assert(full@ =~= app.name@ + "::tests::"@ + unit@);
                    lemma_test_tail_shift(full@, unit@, prefix_len as int);
                    assert(is_test_entry(
                        app.name@,
                        app.export_function_entries@[i3 as int].full_name@,
                        unit@,
                    ));
                    assert(unit@ == test_unit_name_of(app, i3 as int));
                    assert(matches_test(app, i3 as int));
                }
                entry_point_entries.push(
                    EntryPointEntry {
                        unit_name: unit,
                        function_public_index: import_functions_count + i3,
                    },
                );
            } else {
                proof {
                    if matches_test(app, i3 as int) {
                        let u = test_unit_name_of(app, i3 as int);
                        reveal_strlit("::tests::");
                        assert(full@ == app.name@ + "::tests::"@ + u);
                        assert(u =~= full@.subrange(prefix_len as int, full@.len() as int));
                        lemma_test_tail_shift_back(full@, u, prefix_len as int, prefix_len as int, false);
                        assert(false);
                    }
                }
            }
        } else {
            proof {
                // an export that fails a check names no unit test
                if matches_test(app, i3 as int) {
                    let u = test_unit_name_of(app, i3 as int);
                    reveal_strlit("::tests::");
                    assert(full@ == app.name@ + "::tests::"@ + u);
                    assert(full@.len() == app.name@.len() + 9 + u.len());
                    lemma_word_run_end(u, 0);
                    assert(u.len() >= 1);
                    assert(full@.subrange(0, module_name_len as int) =~= app.name@);
                    assert(full@.subrange(module_name_len as int, module_name_len as int + 9)
                        =~= "::tests::"@);
                    assert(false);
                }
            }
        }
        i3 += 1;
    }
    proof {
        if module_has_default_entry(app) {
            let idx = choose|idx: int|
                0 <= idx < app.export_function_entries@.len() && is_default_entry(
                    app.name@,
                    (#[trigger] app.export_function_entries@[idx]).full_name@,
                );
            assert(matches_default(app, idx));
            assert(entry_point_entries@[count_default_upto(app, idx)].unit_name@ == "_start"@);
            assert(default_entry_emitted(entry_point_entries@));
        }
    }
    entry_point_entries
}


/// A test tail read inside the full name reads the same as the tail on its
/// own.
proof fn lemma_test_tail_shift(s: Seq<char>, t: Seq<char>, off: int)
    requires
        0 <= off,
        t =~= s.subrange(off, s.len() as int),
        test_tail_ok(s, off, false),
    ensures
        test_tail_ok(t, 0, false),
{
    lemma_test_tail_shift_rec(s, t, off, off, false);
}

proof fn lemma_word_run_end_shift(s: Seq<char>, t: Seq<char>, off: int, from: int)
    requires
        0 <= off <= from <= s.len(),
        t =~= s.subrange(off, s.len() as int),
    ensures
        word_run_end(t, from - off) == word_run_end(s, from) - off,
    decreases s.len() - from,
{
    if from < s.len() && is_word_char(s[from]) {
        lemma_word_run_end_shift(s, t, off, from + 1);
    }
}


/// A test tail read on its own reads the same inside the full name.
proof fn lemma_test_tail_shift_back(s: Seq<char>, t: Seq<char>, off: int, from: int, seen: bool)
    requires
        0 <= off <= from <= s.len(),
        t =~= s.subrange(off, s.len() as int),
        test_tail_ok(t, from - off, seen),
    ensures
        test_tail_ok(s, from, seen),
    decreases s.len() - from,
{
    lemma_word_run_end(t, from - off);
    lemma_word_run_end_shift(s, t, off, from);
    let j = word_run_end(s, from);
    if j >= s.len() {
        assert(t.subrange(from - off, from - off + 5) =~= s.subrange(from, from + 5));
    } else if s[j] == ':' && from < j && j + 2 < s.len() && s[j + 1] == ':' {
        lemma_test_tail_shift_back(s, t, off, j + 2, true);
    }
}

proof fn lemma_test_tail_shift_rec(s: Seq<char>, t: Seq<char>, off: int, from: int, seen: bool)
    requires
        0 <= off <= from <= s.len(),
        t =~= s.subrange(off, s.len() as int),
        test_tail_ok(s, from, seen),
    ensures
        test_tail_ok(t, from - off, seen),
    decreases s.len() - from,
{
    lemma_word_run_end(s, from);
    lemma_word_run_end_shift(s, t, off, from);
    let j = word_run_end(s, from);
    if j >= s.len() {
        assert(t.subrange(from - off, from - off + 5) =~= s.subrange(from, from + 5));
    } else if s[j] == ':' && from < j && j + 2 < s.len() && s[j + 1] == ':' {
        lemma_test_tail_shift_rec(s, t, off, j + 2, true);
    }
}

// ---------------------------------------------------------------------------
// the dynamic link
// ---------------------------------------------------------------------------

/// The index of the first dynamic-link module entry named `name`, or `-1`.
pub open spec fn dlm_index_of(dlms: Seq<DynamicLinkModuleEntry>, name: Seq<char>) -> int
    decreases dlms.len(),
{
    if dlms.len() == 0 {
        -1
    } else if dlms[0].name@ == name {
        0
    } else {
        let r = dlm_index_of(dlms.subrange(1, dlms.len() as int), name);
        if r < 0 {
            -1
        } else {
            r + 1
        }
    }
}

proof fn lemma_dlm_index_of(dlms: Seq<DynamicLinkModuleEntry>, name: Seq<char>)
    ensures
        dlm_index_of(dlms, name) == -1 ==> forall|k: int|
            0 <= k < dlms.len() ==> (#[trigger] dlms[k]).name@ != name,
        dlm_index_of(dlms, name) >= 0 ==> {
            &&& dlm_index_of(dlms, name) < dlms.len()
            &&& dlms[dlm_index_of(dlms, name)].name@ == name
        },
    decreases dlms.len(),
{
    if dlms.len() == 0 {
    } else if dlms[0].name@ == name {
    } else {
        let t = dlms.subrange(1, dlms.len() as int);
        lemma_dlm_index_of(t, name);
        assert(forall|k: int| 0 <= k < t.len() ==> t[k] == dlms[k + 1]);
        if dlm_index_of(t, name) == -1 {
            assert forall|k: int| 0 <= k < dlms.len() implies (#[trigger] dlms[k]).name@
                != name by {
                if k >= 1 {
                    assert(t[k - 1].name@ != name);
                }
            }
        }
    }
}

/// Finds the first dynamic-link module entry named `name`.
fn find_dlm_by_name(dlms: &Vec<DynamicLinkModuleEntry>, name: &String) -> (r: Option<usize>)
    ensures
        match r {
            Some(p) => {
                &&& p < dlms.len()
                &&& dlms@[p as int].name@ == name@
            },
            None => dlm_index_of(dlms@, name@) == -1,
        },
{
    proof {
        lemma_dlm_index_of(dlms@, name@);
    }
    let mut i: usize = 0;
    while i < dlms.len()
        invariant
            i <= dlms.len(),
            forall|k: int| 0 <= k < i ==> (#[trigger] dlms@[k]).name@ != name@,
        decreases dlms.len() - i,
    {
        if string_matches(&dlms[i].name, name) {
            return Some(i);
        }
        i += 1;
    }
    proof {
        lemma_dlm_index_of(dlms@, name@);
        if dlm_index_of(dlms@, name@) >= 0 {
            assert(dlms@[dlm_index_of(dlms@, name@)].name@ == name@);
        }
    }
    None
}

/// Every shared dependency of the modules' external libraries carries a
/// well-formed version string.
pub open spec fn modules_xlib_versions_valid(units: Seq<ImageCommonEntry>) -> bool {
    forall|u: int, i: int|
        0 <= u < units.len() && 0 <= i < units[u].external_library_entries@.len() ==> ((
        #[trigger] units[u].external_library_entries@[i]).value is Share
            ==> crate::merger::valid_version(
            crate::merger::share_version_x(units[u].external_library_entries@[i].value),
        ))
}

/// A loader location is named for every module.
pub open spec fn dlm_covering(
    units: Seq<ImageCommonEntry>,
    dlms: Seq<DynamicLinkModuleEntry>,
) -> bool {
    forall|m: int|
        0 <= m < units.len() ==> dlm_index_of(dlms, (#[trigger] units[m]).name@) >= 0
}

/// Every same-name pair among the modules' external libraries can be merged.
pub open spec fn modules_xlibs_compatible(units: Seq<ImageCommonEntry>) -> bool {
    forall|u: int, i: int, v: int, j: int|
        0 <= u < units.len() && 0 <= i < units[u].external_library_entries@.len() && 0 <= v
            < units.len() && 0 <= j < units[v].external_library_entries@.len() && (
        #[trigger] units[u].external_library_entries@[i]).name@ == (
        #[trigger] units[v].external_library_entries@[j]).name@
            ==> crate::merger::xdep_pair_ok(
            units[u].external_library_entries@[i].value,
            units[v].external_library_entries@[j].value,
        )
}

/// Some same-name pair among the modules' external libraries cannot be
/// merged, and `le` is the error it produces.
pub open spec fn modules_xlib_conflict_witness(
    le: LinkErrorType,
    units: Seq<ImageCommonEntry>,
) -> bool {
    exists|u: int, i: int, v: int, j: int|
        {
            &&& 0 <= u < units.len() && 0 <= i < units[u].external_library_entries@.len()
            &&& 0 <= v < units.len() && 0 <= j < units[v].external_library_entries@.len()
            &&& (#[trigger] units[u].external_library_entries@[i]).name@ == (
            #[trigger] units[v].external_library_entries@[j]).name@
            &&& !crate::merger::xdep_pair_ok(
                units[u].external_library_entries@[i].value,
                units[v].external_library_entries@[j].value,
            )
            &&& crate::merger::xdep_conflict_error(
                le,
                units[u].external_library_entries@[i].name@,
                units[u].external_library_entries@[i].value,
                units[v].external_library_entries@[j].value,
            )
        }
}

/// Some module declares this unified external function: the names agree and
/// the unified type at the entry's index is structurally equal to the
/// declarer's type.
pub open spec fn unified_extfn_from_modules(
    units: Seq<ImageCommonEntry>,
    types_m: Seq<TypeEntry>,
    e: ExternalFunctionEntry,
) -> bool {
    exists|u: int, i: int|
        {
            &&& 0 <= u < units.len() && 0 <= i < units[u].external_function_entries@.len()
            &&& e.name@ == (#[trigger] units[u].external_function_entries@[i]).name@
            &&& (e.type_index as int) < types_m.len()
            &&& type_entry_deq(
                types_m[e.type_index as int],
                units[u].type_entries@[units[u].external_function_entries@[i].type_index as int],
            )
        }
}

/// Some module declares this unified external library.
pub open spec fn unified_xlib_from_modules(
    units: Seq<ImageCommonEntry>,
    e: crate::entry::ExternalLibraryEntry,
) -> bool {
    exists|u: int, i: int|
        {
            &&& 0 <= u < units.len() && 0 <= i < units[u].external_library_entries@.len()
            &&& crate::entry::external_library_deq(
                e,
                #[trigger] units[u].external_library_entries@[i],
            )
        }
}

/// What a successful dynamic link guarantees of the emitted image index.
pub open spec fn dynamic_link_post(
    units: Seq<ImageCommonEntry>,
    dlms: Seq<DynamicLinkModuleEntry>,
    index: ImageIndexEntry,
) -> bool {
    // per-module function index lists: imports resolved, then internals
    &&& index.function_index_list_entries@.len() == units.len()
    &&& forall|m: int|
        0 <= m < units.len() ==> (
        #[trigger] index.function_index_list_entries@[m]).index_entries@.len()
            == units[m].import_function_entries@.len() + units[m].function_entries@.len()
    &&& forall|m: int, i: int|
        0 <= m < units.len() && 0 <= i < units[m].import_function_entries@.len()
            ==> function_import_resolved(
            units,
            m,
            i,
            #[trigger] index.function_index_list_entries@[m].index_entries@[i],
        )
    &&& forall|m: int, j: int|
        #![trigger index.function_index_list_entries@[m].index_entries@[units[m].import_function_entries@.len() + j]]
        0 <= m < units.len() && 0 <= j < units[m].function_entries@.len()
            ==> index.function_index_list_entries@[m].index_entries@[units[m].import_function_entries@.len()
            + j] == (FunctionIndexEntry {
            target_module_index: m as usize,
            function_internal_index: j as usize,
        })
    // per-module data index lists: imports resolved, then the internal
    // read-only, read-write and uninitialized data in order
    &&& index.data_index_list_entries@.len() == units.len()
    &&& forall|m: int|
        0 <= m < units.len() ==> (#[trigger] index.data_index_list_entries@[m]).index_entries@.len()
            == units[m].import_data_entries@.len() + units[m].read_only_data_entries@.len()
            + units[m].read_write_data_entries@.len() + units[m].uninit_data_entries@.len()
    &&& forall|m: int, i: int|
        0 <= m < units.len() && 0 <= i < units[m].import_data_entries@.len()
            ==> data_import_resolved(
            units,
            m,
            i,
            #[trigger] index.data_index_list_entries@[m].index_entries@[i],
        )
    &&& forall|m: int, j: int|
        #![trigger index.data_index_list_entries@[m].index_entries@[units[m].import_data_entries@.len() + j]]
        0 <= m < units.len() && 0 <= j < units[m].read_only_data_entries@.len()
            + units[m].read_write_data_entries@.len() + units[m].uninit_data_entries@.len() ==> {
            let e = index.data_index_list_entries@[m].index_entries@[units[m].import_data_entries@.len()
                + j];
            &&& e.target_module_index == m
            &&& if j < units[m].read_only_data_entries@.len() {
                e.data_internal_index as int == j && e.target_data_section_type
                    == DataSectionType::ReadOnly
            } else if j < units[m].read_only_data_entries@.len()
                + units[m].read_write_data_entries@.len() {
                e.data_internal_index as int == j - units[m].read_only_data_entries@.len()
                    && e.target_data_section_type == DataSectionType::ReadWrite
            } else {
                e.data_internal_index as int == j - units[m].read_only_data_entries@.len()
                    - units[m].read_write_data_entries@.len() && e.target_data_section_type
                    == DataSectionType::Uninit
            }
        }
    // the unified tables: no (name, library) pair twice, no type twice, no
    // library name twice, every entry declared by some module, the library
    // names in first-occurrence order over the sorted modules, and the
    // function and type tables the first-occurrence fold of the translated
    // declarations
    &&& crate::merger::external_functions_distinct(index.unified_external_function_entries@)
    &&& crate::merger::type_table_distinct(index.unified_external_type_entries@)
    &&& crate::merger::external_library_names_distinct(index.unified_external_library_entries@)
    &&& crate::merger::library_names_folded(
        index.unified_external_library_entries@,
        crate::linker::unit_xlibs(units),
    )
    &&& dynamic_unified_folded(units, index)
    // a unified table exists only where every same-name library pair of the
    // modules could be reconciled
    &&& modules_xlibs_compatible(units)
    &&& forall|k: int|
        0 <= k < index.unified_external_function_entries@.len() ==> unified_extfn_from_modules(
            units,
            index.unified_external_type_entries@,
            #[trigger] index.unified_external_function_entries@[k],
        )
    &&& forall|k: int|
        0 <= k < index.unified_external_library_entries@.len() ==> unified_xlib_from_modules(
            units,
            #[trigger] index.unified_external_library_entries@[k],
        )
    // per-module external-function index lists: each declaration's slot names
    // a unified entry of the same name whose library bears the declaration's
    // library name
    &&& index.external_function_index_entries@.len() == units.len()
    &&& forall|m: int|
        0 <= m < units.len() ==> (
        #[trigger] index.external_function_index_entries@[m]).index_entries@.len()
            == units[m].external_function_entries@.len()
    &&& forall|m: int, k: int|
        0 <= m < units.len() && 0 <= k < units[m].external_function_entries@.len() ==> {
            let src = units[m].external_function_entries@[k];
            let slot = (
            #[trigger] index.external_function_index_entries@[m].index_entries@[k]).unified_external_function_index;
            &&& (slot as int) < index.unified_external_function_entries@.len()
            &&& index.unified_external_function_entries@[slot as int].name@ == src.name@
            &&& (index.unified_external_function_entries@[slot as int].external_library_index as int)
                < index.unified_external_library_entries@.len()
            &&& index.unified_external_library_entries@[index.unified_external_function_entries@[slot as int].external_library_index as int].name@
                == units[m].external_library_entries@[src.external_library_index as int].name@
        }
    // every emitted entry point is sound, and the default one is found
    // whenever the application exports it
    &&& forall|k: int|
        0 <= k < index.entry_point_entries@.len() ==> entry_point_sound(
            units[0],
            #[trigger] index.entry_point_entries@[k],
        )
    &&& module_has_default_entry(units[0]) ==> default_entry_emitted(index.entry_point_entries@)
    &&& entry_points_exact(units[0], index.entry_point_entries@)
    // the loader locations, in sorted module order
    &&& index.dynamic_link_module_entries@.len() == units.len()
    &&& forall|m: int|
        0 <= m < units.len() ==> (#[trigger] index.dynamic_link_module_entries@[m]).name@
            == units[m].name@
    &&& forall|m: int|
        0 <= m < units.len() ==> exists|k: int|
            0 <= k < dlms.len() && dynamic_link_module_deq(
                #[trigger] index.dynamic_link_module_entries@[m],
                dlms[k],
            )
}

/// Resolves every inter-module reference of the depth-sorted modules:
/// per-module function and data index lists, the unified external
/// library, type and function tables with per-module external-function index
/// lists, the application's entry points, and the loader locations reordered
/// to the sorted module order.
#[verifier::rlimit(100)]
#[verifier::spinoff_prover]
pub fn dynamic_link(
    image_common_entries: &Vec<ImageCommonEntry>,
    dynamic_link_module_entries: &Vec<DynamicLinkModuleEntry>,
) -> (r: Result<ImageIndexEntry, LinkerError>)
    requires
        image_common_entries@.len() >= 1,
        modules_indexable(image_common_entries@),
        crate::merger::external_library_names_distinct(
            image_common_entries@[0].external_library_entries@,
        ),
        modules_xlib_versions_valid(image_common_entries@),
        dlm_covering(image_common_entries@, dynamic_link_module_entries@),
        image_common_entries@[0].import_function_entries@.len()
            + image_common_entries@[0].export_function_entries@.len() <= usize::MAX,
    ensures
        r matches Ok(index) ==> dynamic_link_post(
            image_common_entries@,
            dynamic_link_module_entries@,
            index,
        ),
        (function_imports_resolvable(image_common_entries@) && data_imports_resolvable(
            image_common_entries@,
        ) && modules_xlibs_compatible(image_common_entries@)) ==> r is Ok,
        r matches Err(le) ==> {
            ||| function_index_error_witness(le.error_type, image_common_entries@)
            ||| data_index_error_witness(le.error_type, image_common_entries@)
            ||| modules_xlib_conflict_witness(le.error_type, image_common_entries@)
        },
{
    let ghost units = image_common_entries@;
    let n = image_common_entries.len();

    let function_index_list_entries = match build_function_index_lists(image_common_entries) {
        Ok(l) => l,
        Err(e) => {
            return Err(e);
        },
    };
    let data_index_list_entries = match build_data_index_lists(image_common_entries) {
        Ok(l) => l,
        Err(e) => {
            return Err(e);
        },
    };

    // collect each module's external libraries, types and declarations
    let mut external_library_entries_list: Vec<Vec<crate::entry::ExternalLibraryEntry>> =
        Vec::new();
    let mut type_entries_list: Vec<Vec<TypeEntry>> = Vec::new();
    let mut external_function_entries_list: Vec<Vec<ExternalFunctionEntry>> = Vec::new();
    let mut u: usize = 0;
    while u < n
        invariant
            n == units.len(),
            units == image_common_entries@,
            u <= n,
            external_library_entries_list.len() == u,
            type_entries_list.len() == u,
            external_function_entries_list.len() == u,
            forall|v: int|
                0 <= v < u ==> (#[trigger] external_library_entries_list@[v])@.len()
                    == units[v].external_library_entries@.len(),
            forall|v: int, i: int|
                #![trigger external_library_entries_list@[v]@[i]]
                0 <= v < u && 0 <= i < units[v].external_library_entries@.len()
                    ==> crate::entry::external_library_deq(
                    external_library_entries_list@[v]@[i],
                    units[v].external_library_entries@[i],
                ),
            forall|v: int|
                0 <= v < u ==> (#[trigger] type_entries_list@[v])@.len()
                    == units[v].type_entries@.len(),
            forall|v: int, i: int|
                #![trigger type_entries_list@[v]@[i]]
                0 <= v < u && 0 <= i < units[v].type_entries@.len() ==> type_entry_deq(
                    type_entries_list@[v]@[i],
                    units[v].type_entries@[i],
                ),
            forall|v: int|
                0 <= v < u ==> (#[trigger] external_function_entries_list@[v])@.len()
                    == units[v].external_function_entries@.len(),
            forall|v: int, i: int|
                #![trigger external_function_entries_list@[v]@[i]]
                0 <= v < u && 0 <= i < units[v].external_function_entries@.len()
                    ==> crate::entry::external_function_deq(
                    external_function_entries_list@[v]@[i],
                    units[v].external_function_entries@[i],
                ),
        decreases n - u,
    {
        let src = &image_common_entries[u];
        let mut libs: Vec<crate::entry::ExternalLibraryEntry> = Vec::new();
        let mut i: usize = 0;
        while i < src.external_library_entries.len()
            invariant
                u < n,
                n == units.len(),
                units == image_common_entries@,
                src == &image_common_entries[u as int],
                i <= src.external_library_entries@.len(),
                libs.len() == i,
                forall|k: int|
                    0 <= k < i ==> crate::entry::external_library_deq(
                        #[trigger] libs@[k],
                        units[u as int].external_library_entries@[k],
                    ),
            decreases src.external_library_entries.len() - i,
        {
            libs.push(crate::entry::copy_external_library_entry(&src.external_library_entries[i]));
            i += 1;
        }
        let mut tys: Vec<TypeEntry> = Vec::new();
        let mut i2: usize = 0;
        while i2 < src.type_entries.len()
            invariant
                u < n,
                n == units.len(),
                units == image_common_entries@,
                src == &image_common_entries[u as int],
                i2 <= src.type_entries@.len(),
                tys.len() == i2,
                forall|k: int|
                    0 <= k < i2 ==> type_entry_deq(
                        #[trigger] tys@[k],
                        units[u as int].type_entries@[k],
                    ),
            decreases src.type_entries.len() - i2,
        {
            tys.push(crate::entry::copy_type_entry(&src.type_entries[i2]));
            i2 += 1;
        }
        let mut xfns: Vec<ExternalFunctionEntry> = Vec::new();
        let mut i3: usize = 0;
        while i3 < src.external_function_entries.len()
            invariant
                u < n,
                n == units.len(),
                units == image_common_entries@,
                src == &image_common_entries[u as int],
                i3 <= src.external_function_entries@.len(),
                xfns.len() == i3,
                forall|k: int|
                    0 <= k < i3 ==> crate::entry::external_function_deq(
                        #[trigger] xfns@[k],
                        units[u as int].external_function_entries@[k],
                    ),
            decreases src.external_function_entries.len() - i3,
        {
            xfns.push(
                crate::entry::copy_external_function_entry(&src.external_function_entries[i3]),
            );
            i3 += 1;
        }
        external_library_entries_list.push(libs);
        type_entries_list.push(tys);
        external_function_entries_list.push(xfns);
        u += 1;
    }

    // unify the external libraries, then the external functions and types
    proof {
        assert forall|v: int, i: int|
            0 <= v < external_library_entries_list@.len() && 0 <= i
                < external_library_entries_list@[v]@.len() implies ((
        #[trigger] external_library_entries_list@[v]@[i]).value is Share
            ==> crate::merger::valid_version(
            crate::merger::share_version_x(external_library_entries_list@[v]@[i].value),
        )) by {
            assert(crate::entry::external_library_deq(
                external_library_entries_list@[v]@[i],
                units[v].external_library_entries@[i],
            ));
        }
    }
    proof {
        // name-uniqueness of module 0's libraries carries over the copies
        assert forall|x: int, y: int|
            0 <= x < y < external_library_entries_list@[0]@.len() implies (
        #[trigger] external_library_entries_list@[0]@[x]).name@ != (
        #[trigger] external_library_entries_list@[0]@[y]).name@ by {
            assert(crate::entry::external_library_deq(
                external_library_entries_list@[0]@[x],
                units[0].external_library_entries@[x],
            ));
            assert(crate::entry::external_library_deq(
                external_library_entries_list@[0]@[y],
                units[0].external_library_entries@[y],
            ));
        }
        // same-name compatibility carries over componentwise equal copies
        if modules_xlibs_compatible(units) {
            assert forall|u: int, i: int, v: int, j: int|
                0 <= u < external_library_entries_list@.len() && 0 <= i
                    < external_library_entries_list@[u]@.len() && 0 <= v
                    < external_library_entries_list@.len() && 0 <= j
                    < external_library_entries_list@[v]@.len() && (
            #[trigger] external_library_entries_list@[u]@[i]).name@ == (
            #[trigger] external_library_entries_list@[v]@[j]).name@ implies crate::merger::xdep_pair_ok(
                external_library_entries_list@[u]@[i].value,
                external_library_entries_list@[v]@[j].value,
            ) by {
                assert(crate::entry::external_library_deq(
                    external_library_entries_list@[u]@[i],
                    units[u].external_library_entries@[i],
                ));
                assert(crate::entry::external_library_deq(
                    external_library_entries_list@[v]@[j],
                    units[v].external_library_entries@[j],
                ));
                crate::merger::lemma_xdep_pair_congruence(
                    units[u].external_library_entries@[i].value,
                    external_library_entries_list@[u]@[i].value,
                    units[v].external_library_entries@[j].value,
                    external_library_entries_list@[v]@[j].value,
                );
            }
        }
    }
    let (unified_external_library_entries, external_library_remap_indices_list) = match crate::merger::merge_external_library_entries(
        &external_library_entries_list,
    ) {
        Ok(p) => p,
        Err(e) => {
            proof {
                // the conflicting pair of copies stands for the same pair of
                // module entries
                let (wu, wi, wv, wj) = choose|wu: int, wi: int, wv: int, wj: int|
                    {
                        &&& 0 <= wu < external_library_entries_list@.len() && 0 <= wi
                            < external_library_entries_list@[wu]@.len()
                        &&& 0 <= wv < external_library_entries_list@.len() && 0 <= wj
                            < external_library_entries_list@[wv]@.len()
                        &&& (#[trigger] external_library_entries_list@[wu]@[wi]).name@ == (
                        #[trigger] external_library_entries_list@[wv]@[wj]).name@
                        &&& !crate::merger::xdep_pair_ok(
                            external_library_entries_list@[wu]@[wi].value,
                            external_library_entries_list@[wv]@[wj].value,
                        )
                        &&& crate::merger::xdep_conflict_error(
                            e.error_type,
                            external_library_entries_list@[wu]@[wi].name@,
                            external_library_entries_list@[wu]@[wi].value,
                            external_library_entries_list@[wv]@[wj].value,
                        )
                    };
                assert(crate::entry::external_library_deq(
                    external_library_entries_list@[wu]@[wi],
                    units[wu].external_library_entries@[wi],
                ));
                assert(crate::entry::external_library_deq(
                    external_library_entries_list@[wv]@[wj],
                    units[wv].external_library_entries@[wj],
                ));
                crate::merger::lemma_xdep_pair_congruence(
                    units[wu].external_library_entries@[wi].value,
                    external_library_entries_list@[wu]@[wi].value,
                    units[wv].external_library_entries@[wj].value,
                    external_library_entries_list@[wv]@[wj].value,
                );
                assert(modules_xlib_conflict_witness(e.error_type, units));
            }
            return Err(e);
        },
    };
    proof {
        assert forall|v: int, i: int|
            0 <= v < external_function_entries_list@.len() && 0 <= i
                < external_function_entries_list@[v]@.len() implies {
            &&& (#[trigger] external_function_entries_list@[v]@[i]).external_library_index
                < external_library_remap_indices_list@[v]@.len()
            &&& external_function_entries_list@[v]@[i].type_index < type_entries_list@[v]@.len()
        } by {
            assert(crate::entry::external_function_deq(
                external_function_entries_list@[v]@[i],
                units[v].external_function_entries@[i],
            ));
            assert(crate::entry::external_library_deq(
                external_library_entries_list@[v]@[units[v].external_function_entries@[i].external_library_index as int],
                units[v].external_library_entries@[units[v].external_function_entries@[i].external_library_index as int],
            ));
        }
    }
    let (unified_external_type_entries, unified_external_function_entries, remap_lists) =
        build_external_function_and_type_entries(
        &external_library_remap_indices_list,
        &type_entries_list,
        &external_function_entries_list,
    );

    // one index entry per module declaration
    let mut external_function_index_entries: Vec<ExternalFunctionIndexListEntry> = Vec::new();
    let mut remaining_remaps = remap_lists;
    let ghost g_remaps = remaining_remaps@;
    let mut u2: usize = 0;
    while u2 < n
        invariant
            n == units.len(),
            units == image_common_entries@,
            g_remaps.len() == n,
            remaining_remaps@ == g_remaps.subrange(u2 as int, n as int),
            u2 <= n,
            external_function_index_entries.len() == u2,
            forall|v: int|
                0 <= v < u2 ==> (
                #[trigger] external_function_index_entries@[v]).index_entries@.len()
                    == g_remaps[v]@.len(),
            forall|v: int, k: int|
                #![trigger external_function_index_entries@[v].index_entries@[k]]
                0 <= v < u2 && 0 <= k < g_remaps[v]@.len()
                    ==> external_function_index_entries@[v].index_entries@[k].unified_external_function_index
                    == g_remaps[v]@[k],
        decreases n - u2,
    {
        let indices = remaining_remaps.remove(0);
        proof {
            assert(indices == g_remaps[u2 as int]);
            assert(remaining_remaps@ == g_remaps.subrange(u2 as int + 1, n as int));
        }
        let mut index_entries: Vec<ExternalFunctionIndexEntry> = Vec::new();
        let mut k: usize = 0;
        while k < indices.len()
            invariant
                k <= indices.len(),
                index_entries.len() == k,
                forall|t: int|
                    0 <= t < k ==> (#[trigger] index_entries@[t]).unified_external_function_index
                        == indices@[t],
            decreases indices.len() - k,
        {
            index_entries.push(
                ExternalFunctionIndexEntry { unified_external_function_index: indices[k] },
            );
            k += 1;
        }
        external_function_index_entries.push(ExternalFunctionIndexListEntry { index_entries });
        u2 += 1;
    }

    // the application's entry points
    let entry_point_entries = find_entry_points(&image_common_entries[0]);

    // the loader locations, reordered to the module order
    let mut sorted_dynamic_link_module_entries: Vec<DynamicLinkModuleEntry> = Vec::new();
    let mut u3: usize = 0;
    while u3 < n
        invariant
            n == units.len(),
            units == image_common_entries@,
            dlm_covering(units, dynamic_link_module_entries@),
            u3 <= n,
            sorted_dynamic_link_module_entries.len() == u3,
            forall|v: int|
                0 <= v < u3 ==> (#[trigger] sorted_dynamic_link_module_entries@[v]).name@
                    == units[v].name@,
            forall|v: int|
                0 <= v < u3 ==> exists|k: int|
                    0 <= k < dynamic_link_module_entries@.len() && dynamic_link_module_deq(
                        #[trigger] sorted_dynamic_link_module_entries@[v],
                        dynamic_link_module_entries@[k],
                    ),
        decreases n - u3,
    {
        match find_dlm_by_name(dynamic_link_module_entries, &image_common_entries[u3].name) {
            Some(k) => {
                let copied = copy_dynamic_link_module_entry(&dynamic_link_module_entries[k]);
                sorted_dynamic_link_module_entries.push(copied);
            },
            None => {
                proof {
                    assert(dlm_index_of(dynamic_link_module_entries@, units[u3 as int].name@)
                        >= 0);
                }
                // cannot happen: a location is named for every module
                let copied = DynamicLinkModuleEntry {
                    name: copy_string(&image_common_entries[u3].name),
                    module_location: crate::entry::ModuleLocation::Embed,
                };
                sorted_dynamic_link_module_entries.push(copied);
            },
        }
        u3 += 1;
    }

    // each declaration's slot names a unified entry of the same name whose
    // library bears the declaration's library name
    proof {
        assert forall|m: int, k: int|
            0 <= m < units.len() && 0 <= k < units[m].external_function_entries@.len() implies {
            let src = units[m].external_function_entries@[k];
            let slot = (
            #[trigger] external_function_index_entries@[m].index_entries@[k]).unified_external_function_index;
            &&& (slot as int) < unified_external_function_entries@.len()
            &&& unified_external_function_entries@[slot as int].name@ == src.name@
            &&& (unified_external_function_entries@[slot as int].external_library_index as int)
                < unified_external_library_entries@.len()
            &&& unified_external_library_entries@[unified_external_function_entries@[slot as int].external_library_index as int].name@
                == units[m].external_library_entries@[src.external_library_index as int].name@
        } by {
            assert(crate::entry::external_function_deq(
                external_function_entries_list@[m]@[k],
                units[m].external_function_entries@[k],
            ));
            assert(crate::merger::extfn_slot_ok(
                g_remaps[m]@[k],
                external_function_entries_list@[m]@[k],
                external_library_remap_indices_list@[m],
                unified_external_function_entries@,
            ));
            let libidx = units[m].external_function_entries@[k].external_library_index as int;
            assert(unified_external_library_entries@[external_library_remap_indices_list@[m]@[libidx] as int].name@
                == external_library_entries_list@[m]@[libidx].name@);
            assert(crate::entry::external_library_deq(
                external_library_entries_list@[m]@[libidx],
                units[m].external_library_entries@[libidx],
            ));
        }
        // every unified external function is some module's declaration
        assert forall|k: int|
            0 <= k < unified_external_function_entries@.len() implies unified_extfn_from_modules(
            units,
            unified_external_type_entries@,
            #[trigger] unified_external_function_entries@[k],
        ) by {
            assert(unified_extfn_witnessed(
                external_function_entries_list@,
                type_entries_list@,
                external_library_remap_indices_list@,
                unified_external_type_entries@,
                unified_external_function_entries@[k],
            ));
            let (wu, wi) = choose|wu: int, wi: int|
                {
                    &&& 0 <= wu < external_function_entries_list@.len() && 0 <= wi
                        < external_function_entries_list@[wu]@.len()
                    &&& unified_external_function_entries@[k].name@ == (
                    #[trigger] external_function_entries_list@[wu]@[wi]).name@
                    &&& unified_external_function_entries@[k].external_library_index as int
                        == external_library_remap_indices_list@[wu]@[external_function_entries_list@[wu]@[wi].external_library_index as int]
                    &&& (unified_external_function_entries@[k].type_index as int)
                        < unified_external_type_entries@.len()
                    &&& type_entry_deq(
                        unified_external_type_entries@[unified_external_function_entries@[k].type_index as int],
                        type_entries_list@[wu]@[external_function_entries_list@[wu]@[wi].type_index as int],
                    )
                };
            assert(crate::entry::external_function_deq(
                external_function_entries_list@[wu]@[wi],
                units[wu].external_function_entries@[wi],
            ));
            assert(type_entry_deq(
                type_entries_list@[wu]@[units[wu].external_function_entries@[wi].type_index as int],
                units[wu].type_entries@[units[wu].external_function_entries@[wi].type_index as int],
            ));
        }
        // every unified external library is some module's declaration
        assert forall|k: int|
            0 <= k < unified_external_library_entries@.len() implies unified_xlib_from_modules(
            units,
            #[trigger] unified_external_library_entries@[k],
        ) by {
            assert(crate::merger::library_from_lists(
                external_library_entries_list@,
                unified_external_library_entries@[k],
            ));
            let (wu, wi) = choose|wu: int, wi: int|
                0 <= wu < external_library_entries_list@.len() && 0 <= wi
                    < external_library_entries_list@[wu]@.len()
                    && crate::entry::external_library_deq(
                    unified_external_library_entries@[k],
                    #[trigger] external_library_entries_list@[wu]@[wi],
                );
            assert(crate::entry::external_library_deq(
                external_library_entries_list@[wu]@[wi],
                units[wu].external_library_entries@[wi],
            ));
            crate::merger::lemma_xdep_deq_trans(
                unified_external_library_entries@[k].value,
                external_library_entries_list@[wu]@[wi].value,
                units[wu].external_library_entries@[wi].value,
            );
            assert(crate::entry::external_library_deq(
                unified_external_library_entries@[k],
                units[wu].external_library_entries@[wi],
            ));
        }
    }

    let index_entry = ImageIndexEntry {
        function_index_list_entries,
        entry_point_entries,
        data_index_list_entries,
        unified_external_library_entries,
        unified_external_type_entries,
        unified_external_function_entries,
        external_function_index_entries,
        dynamic_link_module_entries: sorted_dynamic_link_module_entries,
    };
    proof {
        // the unified library names fold alike over the copies and the
        // modules themselves
        crate::merger::lemma_library_name_fold_congr(
            external_library_entries_list@,
            crate::linker::unit_xlibs(units),
            units.len() as int,
            0,
        );
        assert(crate::merger::library_names_folded(
            index_entry.unified_external_library_entries@,
            crate::linker::unit_xlibs(units),
        ));
        // compatibility carries from the copies to the modules
        assert forall|u: int, i: int, v: int, j: int|
            0 <= u < units.len() && 0 <= i < units[u].external_library_entries@.len() && 0 <= v
                < units.len() && 0 <= j < units[v].external_library_entries@.len() && (
            #[trigger] units[u].external_library_entries@[i]).name@ == (
            #[trigger] units[v].external_library_entries@[j]).name@ implies crate::merger::xdep_pair_ok(
            units[u].external_library_entries@[i].value,
            units[v].external_library_entries@[j].value,
        ) by {
            assert(crate::entry::external_library_deq(
                external_library_entries_list@[u]@[i],
                units[u].external_library_entries@[i],
            ));
            assert(crate::entry::external_library_deq(
                external_library_entries_list@[v]@[j],
                units[v].external_library_entries@[j],
            ));
            assert(crate::merger::xdep_pair_ok(
                external_library_entries_list@[u]@[i].value,
                external_library_entries_list@[v]@[j].value,
            ));
            crate::merger::lemma_xdep_pair_congruence(
                units[u].external_library_entries@[i].value,
                external_library_entries_list@[u]@[i].value,
                units[v].external_library_entries@[j].value,
                external_library_entries_list@[v]@[j].value,
            );
        }
        assert(modules_xlibs_compatible(units));
        // the remap tables of the run witness the unified fold
        assert forall|u: int, j: int|
            #![trigger external_library_remap_indices_list@[u]@[j]]
            0 <= u < units.len() && 0 <= j < units[u].external_library_entries@.len() implies {
            &&& (external_library_remap_indices_list@[u]@[j] as int)
                < index_entry.unified_external_library_entries@.len()
            &&& index_entry.unified_external_library_entries@[external_library_remap_indices_list@[u]@[j] as int].name@
                == units[u].external_library_entries@[j].name@
        } by {
            assert(unified_external_library_entries@[external_library_remap_indices_list@[u]@[j] as int].name@
                == external_library_entries_list@[u]@[j].name@);
            assert(crate::entry::external_library_deq(
                external_library_entries_list@[u]@[j],
                units[u].external_library_entries@[j],
            ));
        }
        assert(dynamic_unified_remaps_ok(
            units,
            index_entry,
            external_function_entries_list@,
            type_entries_list@,
            external_library_remap_indices_list@,
        ));
        assert(dynamic_unified_folded(units, index_entry));
    }
    Ok(index_entry)
}

/// Builds the application image index for the sorted modules: the historical
/// name of [`dynamic_link`], kept for callers of the earlier interface.
pub fn build_indices(
    image_common_entries: &Vec<ImageCommonEntry>,
    dynamic_link_module_entries: &Vec<DynamicLinkModuleEntry>,
) -> (r: Result<ImageIndexEntry, LinkerError>)
    requires
        image_common_entries@.len() >= 1,
        modules_indexable(image_common_entries@),
        crate::merger::external_library_names_distinct(
            image_common_entries@[0].external_library_entries@,
        ),
        modules_xlib_versions_valid(image_common_entries@),
        dlm_covering(image_common_entries@, dynamic_link_module_entries@),
        image_common_entries@[0].import_function_entries@.len()
            + image_common_entries@[0].export_function_entries@.len() <= usize::MAX,
    ensures
        r matches Ok(index) ==> dynamic_link_post(
            image_common_entries@,
            dynamic_link_module_entries@,
            index,
        ),
        (function_imports_resolvable(image_common_entries@) && data_imports_resolvable(
            image_common_entries@,
        ) && modules_xlibs_compatible(image_common_entries@)) ==> r is Ok,
        r matches Err(le) ==> {
            ||| function_index_error_witness(le.error_type, image_common_entries@)
            ||| data_index_error_witness(le.error_type, image_common_entries@)
            ||| modules_xlib_conflict_witness(le.error_type, image_common_entries@)
        },
{
    dynamic_link(image_common_entries, dynamic_link_module_entries)
}

/// The dependency entry is one of the sorted modules' import entries.
pub open spec fn dep_entry_from_modules(
    sorted: Seq<ImageCommonEntry>,
    e: ImportModuleEntry,
) -> bool {
    exists|m: int, i: int|
        {
            &&& 0 <= m < sorted.len() && 0 <= i < sorted[m].import_module_entries@.len()
            &&& crate::entry::import_module_deq(
                e,
                #[trigger] sorted[m].import_module_entries@[i],
            )
        }
}

/// Sorts the modules by depth and lists their dependency entries in the same
/// order: the canonical self-reference for the application, and for every
/// other module the first import entry of the link set naming it.
pub fn sort_modules(image_common_entries: Vec<ImageCommonEntry>) -> (r: Result<
    (Vec<ImageCommonEntry>, Vec<ImportModuleEntry>),
    LinkerError,
>)
    requires
        image_common_entries@.len() >= 1,
        modules_closed(image_common_entries@),
        modules_acyclic(image_common_entries@),
    ensures
        r matches Ok(p) ==> ({
            let sorted = p.0;
            let deps = p.1;
            &&& depth_sort_result_ok(image_common_entries@, sorted@)
            &&& deps@.len() == sorted@.len()
            &&& is_self_reference(deps@[0])
            &&& forall|k: int|
                1 <= k < deps@.len() ==> (#[trigger] deps@[k]).name@ == sorted@[k].name@
            &&& forall|k: int|
                1 <= k < deps@.len() ==> dep_entry_from_modules(sorted@, #[trigger] deps@[k])
        }),
        (forall|v: int|
            1 <= v < image_common_entries@.len() ==> module_reachable(
                image_common_entries@,
                #[trigger] (v + 0),
            )) ==> r is Ok,
        r matches Err(le) ==> dangling_module_witness(le.error_type, image_common_entries@),
{
    let ghost units = image_common_entries@;
    let sorted = match sort_modules_by_dependent_deepth(image_common_entries) {
        Ok(s) => s,
        Err(e) => {
            return Err(e);
        },
    };
    let ghost sorted_v = sorted@;
    let ghost (gd, gord) = choose|d: Seq<usize>, ord: Seq<usize>|
        is_depth_sorted(units, sorted@, d, ord);
    let n = sorted.len();
    let mut deps: Vec<ImportModuleEntry> = Vec::new();
    deps.push(ImportModuleEntry::self_reference_entry());
    let mut k: usize = 1;
    while k < n
        invariant
            1 <= k <= n || (n == 0 && k == 1),
            n == sorted@.len(),
            sorted_v == sorted@,
            units.len() == n,
            modules_closed(units),
            is_depth_sorted(units, sorted_v, gd, gord),
            deps.len() == k,
            is_self_reference(deps@[0]),
            forall|t: int| 1 <= t < k ==> (#[trigger] deps@[t]).name@ == sorted_v[t].name@,
            forall|t: int|
                1 <= t < k ==> dep_entry_from_modules(sorted_v, #[trigger] deps@[t]),
        decreases n - k,
    {
        let mut found: Option<ImportModuleEntry> = None;
        let mut m: usize = 0;
        while m < n
            invariant
                n == sorted@.len(),
                sorted_v == sorted@,
                k < n,
                m <= n,
                match found {
                    Some(e) => dep_entry_from_modules(sorted_v, e) && e.name@
                        == sorted_v[k as int].name@,
                    None => forall|w: int, i: int|
                        0 <= w < m && 0 <= i < sorted_v[w].import_module_entries@.len() ==> (
                        #[trigger] sorted_v[w].import_module_entries@[i]).name@
                            != sorted_v[k as int].name@,
                },
            decreases n - m,
        {
            match crate::merger::find_import_module_by_name(
                &sorted[m].import_module_entries,
                &sorted[k].name,
            ) {
                Some(i) => {
                    let e = crate::entry::copy_import_module_entry(
                        &sorted[m].import_module_entries[i],
                    );
                    found = Some(e);
                    m = n;
                },
                None => {
                    m += 1;
                },
            }
        }
        match found {
            Some(e) => {
                deps.push(e);
            },
            None => {
                let err = LinkerError::new(
                    LinkErrorType::DanglingModule(copy_string(&sorted[k].name)),
                );
                proof {
                    // no import of any module names this one, so nothing
                    // reaches it
                    let w = gord[k as int] as int;
                    if w == 0 {
                        // the application stands at position 0 alone
                        assert(gd[gord[0] as int] <= gd[gord[k as int] as int]);
                        assert(gord[0] != gord[k as int]);
                        assert(gd[gord[0] as int] > 0);
                        assert(false);
                    }
                    assert(sorted_v[k as int] == units[w]);
                    if module_reachable(units, w + 0) {
                        let pk = choose|pk: nat| has_import_path(units, w, pk);
                        assert(pk >= 1);
                        let p = choose|p: int|
                            0 <= p < units.len() && has_import_path(units, p, (pk - 1) as nat)
                                && module_edge(units, p, w);
                        let i = choose|i: int|
                            {
                                &&& 0 <= i < units[p].import_module_entries@.len()
                                &&& !is_self_reference(
                                    #[trigger] units[p].import_module_entries@[i],
                                )
                                &&& module_index_of(
                                    units,
                                    units[p].import_module_entries@[i].name@,
                                ) == w
                            };
                        lemma_module_index_of(units, units[p].import_module_entries@[i].name@);
                        assert(units[p].import_module_entries@[i].name@ == units[w].name@);
                        let mp = choose|mp: int|
                            0 <= mp < gord.len() && (#[trigger] gord[mp]) as int == #[trigger] (p
                                + 0);
                        assert(sorted_v[mp] == units[p]);
                        assert(sorted_v[mp].import_module_entries@[i].name@
                            == sorted_v[k as int].name@);
                        assert(false);
                    }
                    assert(!module_reachable(units, w + 0));
                    assert(dangling_module_witness(err.error_type, units));
                }
                return Err(err);
            },
        }
        k += 1;
    }
    Ok((sorted, deps))
}

} // verus!
