//! Laws of the resolver: exactly which identifiers the computed order and
//! failed set contain.
//!
//! The central notion is resolvability ([`good`]): an identifier whose
//! descriptor exists, all of whose dependencies are resolvable, with no
//! dependency cycle reachable from it.  The traversal places exactly the
//! resolvable identifiers, and fails exactly the declared ones that are
//! not resolvable.

use vstd::prelude::*;

use crate::mod_system::model::ModView;
use crate::mod_system::model::Trav;
use crate::mod_system::model::dep_edge;
use crate::mod_system::model::deps_of;
use crate::mod_system::model::has_mod;
use crate::mod_system::model::distinct_ids;
use crate::mod_system::model::found_mod;
use crate::mod_system::model::ids_of;
use crate::mod_system::model::lemma_find_idx;
use crate::mod_system::model::lemma_sort_mods;
use crate::mod_system::model::lemma_sorted_mods_unique;
use crate::mod_system::model::resolution;
use crate::mod_system::model::resolution_failed;
use crate::mod_system::model::resolution_order;
use crate::mod_system::model::root_ids;
use crate::mod_system::model::run_roots;
use crate::mod_system::model::sort_mods;
use crate::mod_system::model::trav_empty;
use crate::mod_system::model::lemma_ids_of;
use crate::mod_system::model::push_unique;
use crate::mod_system::model::visit;
use crate::mod_system::model::visit_deps;

verus! {

/// `id` can be fully expanded within `k` steps: its descriptor exists and
/// every declared dependency can be expanded within `k - 1`.
pub open spec fn goodk(mm: Seq<ModView>, id: Seq<char>, k: nat) -> bool
    decreases k,
{
    &&& k > 0
    &&& has_mod(mm, id)
    &&& forall|j: int|
        0 <= j < deps_of(mm, id).len() ==> goodk(mm, #[trigger] deps_of(mm, id)[j], (k - 1) as nat)
}

/// `id` is resolvable: every identifier reachable from it through declared
/// dependencies has a descriptor, and no dependency cycle is reachable.
pub open spec fn good(mm: Seq<ModView>, id: Seq<char>) -> bool {
    exists|k: nat| goodk(mm, id, k)
}

pub proof fn lemma_goodk_mono(mm: Seq<ModView>, id: Seq<char>, k1: nat, k2: nat)
    requires
        goodk(mm, id, k1),
        k1 <= k2,
    ensures
        goodk(mm, id, k2),
    decreases k2,
{
    assert forall|j: int| 0 <= j < deps_of(mm, id).len() implies goodk(
        mm,
        #[trigger] deps_of(mm, id)[j],
        (k2 - 1) as nat,
    ) by {
        lemma_goodk_mono(mm, deps_of(mm, id)[j], (k1 - 1) as nat, (k2 - 1) as nat);
    }
}

/// A resolvable identifier has a descriptor.
pub proof fn lemma_good_has_mod(mm: Seq<ModView>, id: Seq<char>)
    requires
        good(mm, id),
    ensures
        has_mod(mm, id),
{
    let k = choose|k: nat| goodk(mm, id, k);
    assert(goodk(mm, id, k));
}

/// Resolvability follows every dependency edge.
pub proof fn lemma_good_step(mm: Seq<ModView>, a: Seq<char>, b: Seq<char>)
    requires
        good(mm, a),
        dep_edge(mm, a, b),
    ensures
        good(mm, b),
{
    let k = choose|k: nat| goodk(mm, a, k);
    let j = choose|j: int| 0 <= j < deps_of(mm, a).len() && #[trigger] deps_of(mm, a)[j] == b;
    assert(goodk(mm, deps_of(mm, a)[j], (k - 1) as nat));
}

/// A common expansion bound for finitely many resolvable identifiers.
proof fn lemma_common_bound(mm: Seq<ModView>, ds: Seq<Seq<char>>) -> (k: nat)
    requires
        forall|j: int| 0 <= j < ds.len() ==> good(mm, #[trigger] ds[j]),
    ensures
        forall|j: int| 0 <= j < ds.len() ==> goodk(mm, #[trigger] ds[j], k),
    decreases ds.len(),
{
    if ds.len() == 0 {
        1
    } else {
        let rest = ds.drop_last();
        assert(forall|j: int| 0 <= j < rest.len() ==> rest[j] == ds[j]);
        let kr = lemma_common_bound(mm, rest);
        let kl = choose|kl: nat| goodk(mm, ds.last(), kl);
        let k = if kr >= kl {
            kr
        } else {
            kl
        };
        assert forall|j: int| 0 <= j < ds.len() implies goodk(mm, #[trigger] ds[j], k) by {
            if j < ds.len() - 1 {
                assert(goodk(mm, rest[j], kr));
                lemma_goodk_mono(mm, ds[j], kr, k);
            } else {
                assert(goodk(mm, ds.last(), kl));
                lemma_goodk_mono(mm, ds[j], kl, k);
            }
        }
        k
    }
}

/// An identifier whose descriptor exists and whose dependencies are all
/// resolvable is itself resolvable.
pub proof fn lemma_good_from_deps(mm: Seq<ModView>, id: Seq<char>)
    requires
        has_mod(mm, id),
        forall|j: int| 0 <= j < deps_of(mm, id).len() ==> good(mm, #[trigger] deps_of(mm, id)[j]),
    ensures
        good(mm, id),
{
    let k = lemma_common_bound(mm, deps_of(mm, id));
    assert(goodk(mm, id, k + 1));
}

/// `p` walks dependency edges and closes back on its first identifier.
pub open spec fn is_cycle(mm: Seq<ModView>, p: Seq<Seq<char>>) -> bool {
    &&& p.len() >= 1
    &&& forall|i: int| 0 <= i < p.len() - 1 ==> dep_edge(mm, #[trigger] p[i], p[i + 1])
    &&& dep_edge(mm, p.last(), p[0])
}

/// Walking `i` edges of a cycle spends `i` expansion steps.
proof fn lemma_cycle_walk(mm: Seq<ModView>, p: Seq<Seq<char>>, k: nat, i: int)
    requires
        is_cycle(mm, p),
        goodk(mm, p[0], k),
        0 <= i < p.len(),
    ensures
        i < k,
        goodk(mm, p[i], (k - i) as nat),
    decreases i,
{
    if i > 0 {
        lemma_cycle_walk(mm, p, k, i - 1);
        assert(dep_edge(mm, p[i - 1], p[i]));
        let j = choose|j: int|
            0 <= j < deps_of(mm, p[i - 1]).len() && #[trigger] deps_of(mm, p[i - 1])[j] == p[i];
        assert(goodk(mm, deps_of(mm, p[i - 1])[j], (k - i) as nat));
    }
}

proof fn lemma_cycle_not_goodk(mm: Seq<ModView>, p: Seq<Seq<char>>, k: nat)
    requires
        is_cycle(mm, p),
    ensures
        !goodk(mm, p[0], k),
    decreases k,
{
    if goodk(mm, p[0], k) {
        let n = p.len() as int;
        lemma_cycle_walk(mm, p, k, n - 1);
        assert(dep_edge(mm, p[n - 1], p[0]));
        let j = choose|j: int|
            0 <= j < deps_of(mm, p[n - 1]).len() && #[trigger] deps_of(mm, p[n - 1])[j] == p[0];
        assert(goodk(mm, deps_of(mm, p[n - 1])[j], (k - n) as nat));
        lemma_cycle_not_goodk(mm, p, (k - n) as nat);
    }
}

/// No identifier on a dependency cycle is resolvable.
pub proof fn lemma_cycle_not_good(mm: Seq<ModView>, p: Seq<Seq<char>>, i: int)
    requires
        is_cycle(mm, p),
        0 <= i < p.len(),
    ensures
        !good(mm, p[i]),
{
    let q = p.skip(i) + p.take(i);
    assert(q.len() == p.len());
    assert forall|h: int| 0 <= h < q.len() implies q[h] == p[if h < p.len() - i {
        h + i
    } else {
        h - (p.len() - i)
    }] by {}
    assert(q[0] == p[i]);
    assert forall|h: int| 0 <= h < q.len() - 1 implies dep_edge(mm, #[trigger] q[h], q[h + 1]) by {
        let n = p.len() as int;
        if h + 1 < n - i {
            assert(q[h] == p[h + i] && q[h + 1] == p[h + i + 1]);
        } else if h + 1 == n - i {
            assert(q[h] == p[n - 1] && q[h + 1] == p[0]);
        } else {
            assert(q[h] == p[h - (n - i)] && q[h + 1] == p[h + 1 - (n - i)]);
        }
    }
    let n = p.len() as int;
    if i == 0 {
        assert(q.last() == p[n - 1]);
    } else {
        assert(q.last() == p[i - 1]);
    }
    assert(dep_edge(mm, q.last(), q[0]));
    assert(is_cycle(mm, q));
    if good(mm, p[i]) {
        let k = choose|k: nat| goodk(mm, q[0], k);
        lemma_cycle_not_goodk(mm, q, k);
    }
}

/// Some position strictly before `i` of the order holds `d`.
pub open spec fn placed_before(t: Trav, i: int, d: Seq<char>) -> bool {
    exists|h: int| 0 <= h < i && t.order[h] == d
}

/// The traversal invariant.  Every placed identifier is resolvable, placed
/// once, and placed after all of its dependencies; every failed identifier
/// is a declared one that is not resolvable.
pub open spec fn wf_trav(mm: Seq<ModView>, t: Trav) -> bool {
    &&& (forall|i: int| 0 <= i < t.order.len() ==> good(mm, #[trigger] t.order[i]))
    &&& (forall|i: int, j: int| 0 <= i < j < t.order.len() ==> t.order[i] != t.order[j])
    &&& (forall|i: int, j: int|
        0 <= i < t.order.len() && 0 <= j < deps_of(mm, t.order[i]).len() ==> placed_before(
            t,
            i,
            #[trigger] deps_of(mm, t.order[i])[j],
        ))
    &&& (forall|x: Seq<char>| #[trigger] t.failed.contains(x) ==> has_mod(mm, x) && !good(mm, x))
}

/// The active path steps along dependency edges.
pub open spec fn stack_path_ok(mm: Seq<ModView>, stack: Seq<Seq<char>>) -> bool {
    forall|i: int| 0 <= i < stack.len() - 1 ==> dep_edge(mm, #[trigger] stack[i], stack[i + 1])
}

/// `id` is a root (empty path) or a dependency of the path's tip.
pub open spec fn link_ok(mm: Seq<ModView>, stack: Seq<Seq<char>>, id: Seq<char>) -> bool {
    stack.len() == 0 || dep_edge(mm, stack.last(), id)
}

proof fn lemma_prefix_contains(a: Seq<Seq<char>>, b: Seq<Seq<char>>, x: Seq<char>)
    requires
        a.is_prefix_of(b),
        a.contains(x),
    ensures
        b.contains(x),
{
    let i = choose|i: int| 0 <= i < a.len() && a[i] == x;
    assert(b[i] == x);
}

/// What one visit does: it preserves the invariant, only extends the
/// order and the failed set, touches nothing on the active path, and
/// succeeds exactly on resolvable identifiers — placing them — while
/// recording every declared unresolvable identifier it rejects.
pub proof fn lemma_visit_sound(mm: Seq<ModView>, stack: Seq<Seq<char>>, t: Trav, id: Seq<char>)
    requires
        wf_trav(mm, t),
        stack_path_ok(mm, stack),
        link_ok(mm, stack, id),
    ensures
        ({
            let (t1, ok) = visit(mm, stack, t, id);
            &&& wf_trav(mm, t1)
            &&& t.order.is_prefix_of(t1.order)
            &&& (forall|x: Seq<char>| t.failed.contains(x) ==> t1.failed.contains(x))
            &&& (forall|x: Seq<char>|
                t1.failed.contains(x) ==> t.failed.contains(x) || !good(mm, x))
            &&& (forall|x: Seq<char>|
                t1.order.contains(x) && !t.order.contains(x) ==> !stack.contains(x))
            &&& (ok <==> good(mm, id))
            &&& (ok ==> t1.order.contains(id) && t1.failed == t.failed)
            &&& (!ok && has_mod(mm, id) ==> t1.failed.contains(id))
        }),
    decreases ids_of(mm).difference(stack.to_set()).len(), 0int, 0int,
{
    broadcast use vstd::set::group_set_axioms;
    broadcast use vstd::seq_lib::seq_to_set_is_finite;
    broadcast use vstd::seq_lib::lemma_seq_contains_after_push;

    lemma_ids_of(mm, id);
    let (t1, ok) = visit(mm, stack, t, id);
    if t.order.contains(id) {
        let i = choose|i: int| 0 <= i < t.order.len() && t.order[i] == id;
        assert(good(mm, t.order[i]));
        assert(t.order.is_prefix_of(t.order)) by {
            assert(t.order =~= t.order.subrange(0, t.order.len() as int));
        }
    } else if !has_mod(mm, id) {
        if good(mm, id) {
            lemma_good_has_mod(mm, id);
        }
        assert(t.order.is_prefix_of(t.order)) by {
            assert(t.order =~= t.order.subrange(0, t.order.len() as int));
        }
    } else if stack.contains(id) {
        let i = choose|i: int| 0 <= i < stack.len() && stack[i] == id;
        let p = stack.skip(i);
        assert(p[0] == id);
        assert forall|h: int| 0 <= h < p.len() - 1 implies dep_edge(mm, #[trigger] p[h], p[h + 1])
            by {
            assert(p[h] == stack[i + h] && p[h + 1] == stack[i + h + 1]);
        }
        assert(p.last() == stack.last());
        assert(is_cycle(mm, p));
        lemma_cycle_not_good(mm, p, 0);
        assert(!good(mm, id));
        assert(t1.failed == push_unique(t.failed, id));
        assert forall|x: Seq<char>| #[trigger] t1.failed.contains(x) implies t.failed.contains(x)
            || !good(mm, x) by {
            if !t.failed.contains(x) {
                assert(x == id);
            }
        }
        assert(t1.failed.contains(id));
        assert(t.order.is_prefix_of(t1.order)) by {
            assert(t.order =~= t.order.subrange(0, t.order.len() as int));
        }
    } else {
        let stack1 = stack.push(id);
        let ds = deps_of(mm, id);
        assert forall|h: int| 0 <= h < stack1.len() - 1 implies dep_edge(
            mm,
            #[trigger] stack1[h],
            stack1[h + 1],
        ) by {
            if h < stack.len() - 1 {
                assert(stack1[h] == stack[h] && stack1[h + 1] == stack[h + 1]);
            } else {
                assert(stack1[h] == stack.last() && stack1[h + 1] == id);
            }
        }
        assert(stack_path_ok(mm, stack1));
        assert(stack1.last() == id);
        assert forall|j: int| 0 <= j < ds.len() implies link_ok(mm, stack1, #[trigger] ds[j]) by {
            assert(dep_edge(mm, id, ds[j]));
        }
        assert(ids_of(mm).difference(stack1.to_set()).len() < ids_of(mm).difference(
            stack.to_set(),
        ).len()) by {
            let before = ids_of(mm).difference(stack.to_set());
            let after = ids_of(mm).difference(stack1.to_set());
            assert(stack1.to_set() =~= stack.to_set().insert(id));
            assert(after =~= before.remove(id));
            assert(before.contains(id));
        }
        lemma_visit_deps_sound(mm, stack1, t, ds);
        let (t2, okd) = visit_deps(mm, stack1, t, ds);
        assert(wf_trav(mm, t2));
        assert forall|x: Seq<char>|
            t2.order.contains(x) && !t.order.contains(x) implies !stack.contains(x) by {
            assert(!stack1.contains(x));
        }
        if okd {
            assert(forall|j: int| 0 <= j < ds.len() ==> good(mm, #[trigger] ds[j]));
            lemma_good_from_deps(mm, id);
            assert(!t2.order.contains(id)) by {
                assert(stack1.contains(id));
            }
            assert(t1.order == t2.order.push(id));
            assert(t1.order.contains(id)) by {
                assert(t1.order[t2.order.len() as int] == id);
            }
            assert forall|i: int| 0 <= i < t1.order.len() implies good(
                mm,
                #[trigger] t1.order[i],
            ) by {
                if i < t2.order.len() {
                    assert(t1.order[i] == t2.order[i]);
                }
            }
            assert forall|i: int, j: int| 0 <= i < j < t1.order.len() implies t1.order[i]
                != t1.order[j] by {
                if j < t2.order.len() {
                    assert(t1.order[i] == t2.order[i] && t1.order[j] == t2.order[j]);
                } else {
                    assert(t1.order[i] == t2.order[i] && t1.order[j] == id);
                    if t2.order[i] == id {
                        assert(t2.order.contains(id));
                    }
                }
            }
            assert forall|i: int, j: int|
                0 <= i < t1.order.len() && 0 <= j < deps_of(mm, t1.order[i]).len() implies
            placed_before(t1, i, #[trigger] deps_of(mm, t1.order[i])[j]) by {
                if i < t2.order.len() {
                    assert(t1.order[i] == t2.order[i]);
                    assert(0 <= j < deps_of(mm, t2.order[i]).len());
                    assert(placed_before(t2, i, deps_of(mm, t2.order[i])[j]));
                    let h = choose|h: int| 0 <= h < i && t2.order[h] == deps_of(
                        mm,
                        t2.order[i],
                    )[j];
                    assert(t1.order[h] == t2.order[h]);
                    assert(t1.order[h] == deps_of(mm, t1.order[i])[j]);
                } else {
                    assert(t1.order[i] == id);
                    assert(deps_of(mm, t1.order[i]) == ds);
                    assert(good(mm, ds[j]));
                    assert(t2.order.contains(ds[j]));
                    let h = choose|h: int| 0 <= h < t2.order.len() && t2.order[h] == ds[j];
                    assert(t1.order[h] == t2.order[h]);
                    assert(t1.order[h] == deps_of(mm, t1.order[i])[j]);
                }
            }
            assert(t.order.is_prefix_of(t1.order)) by {
                assert(t.order.is_prefix_of(t2.order));
                assert forall|i: int| 0 <= i < t.order.len() implies t.order[i] == t1.order[i] by {
                    assert(t.order[i] == t2.order.subrange(0, t.order.len() as int)[i]);
                    assert(t1.order[i] == t2.order[i]);
                }
                assert(t.order =~= t1.order.subrange(0, t.order.len() as int));
            }
            assert forall|x: Seq<char>|
                t1.order.contains(x) && !t.order.contains(x) implies !stack.contains(x) by {
                let i = choose|i: int| 0 <= i < t1.order.len() && t1.order[i] == x;
                if i < t2.order.len() {
                    assert(t2.order.contains(x));
                } else {
                    assert(x == id);
                }
            }
        } else {
            let j = choose|j: int| 0 <= j < ds.len() && !good(mm, #[trigger] ds[j]);
            if good(mm, id) {
                lemma_good_step(mm, id, ds[j]);
            }
            assert(!good(mm, id));
            assert(t1.failed == push_unique(t2.failed, id));
            assert forall|x: Seq<char>| #[trigger] t1.failed.contains(x) implies has_mod(mm, x)
                && !good(mm, x) by {
                if !t2.failed.contains(x) {
                    assert(x == id);
                }
            }
            assert forall|x: Seq<char>| #[trigger] t1.failed.contains(x) implies t.failed.contains(
                x,
            ) || !good(mm, x) by {
                if !t2.failed.contains(x) {
                    assert(x == id);
                }
            }
            assert forall|x: Seq<char>| t.failed.contains(x) implies t1.failed.contains(x) by {
                assert(t2.failed.contains(x));
            }
            assert(t1.failed.contains(id));
        }
    }
}

/// What visiting a dependency list does, threading the outcome through
/// every entry.
pub proof fn lemma_visit_deps_sound(
    mm: Seq<ModView>,
    stack: Seq<Seq<char>>,
    t: Trav,
    ds: Seq<Seq<char>>,
)
    requires
        wf_trav(mm, t),
        stack_path_ok(mm, stack),
        forall|j: int| 0 <= j < ds.len() ==> link_ok(mm, stack, #[trigger] ds[j]),
    ensures
        ({
            let (t1, ok) = visit_deps(mm, stack, t, ds);
            &&& wf_trav(mm, t1)
            &&& t.order.is_prefix_of(t1.order)
            &&& (forall|x: Seq<char>| t.failed.contains(x) ==> t1.failed.contains(x))
            &&& (forall|x: Seq<char>|
                t1.failed.contains(x) ==> t.failed.contains(x) || !good(mm, x))
            &&& (forall|x: Seq<char>|
                t1.order.contains(x) && !t.order.contains(x) ==> !stack.contains(x))
            &&& (ok <==> (forall|j: int| 0 <= j < ds.len() ==> good(mm, #[trigger] ds[j])))
            &&& (forall|j: int|
                0 <= j < ds.len() && good(mm, #[trigger] ds[j]) ==> t1.order.contains(ds[j]))
            &&& (forall|j: int|
                0 <= j < ds.len() && !good(mm, #[trigger] ds[j]) && has_mod(mm, ds[j])
                    ==> t1.failed.contains(ds[j]))
            &&& (ok ==> t1.failed == t.failed)
        }),
    decreases ids_of(mm).difference(stack.to_set()).len(), 1int, ds.len(),
{
    let (t1, ok) = visit_deps(mm, stack, t, ds);
    if ds.len() == 0 {
        assert(t.order.is_prefix_of(t.order)) by {
            assert(t.order =~= t.order.subrange(0, t.order.len() as int));
        }
    } else {
        lemma_visit_sound(mm, stack, t, ds[0]);
        let (ta, oka) = visit(mm, stack, t, ds[0]);
        assert forall|j: int| 0 <= j < ds.drop_first().len() implies link_ok(
            mm,
            stack,
            #[trigger] ds.drop_first()[j],
        ) by {
            assert(ds.drop_first()[j] == ds[j + 1]);
        }
        lemma_visit_deps_sound(mm, stack, ta, ds.drop_first());
        let (tb, okb) = visit_deps(mm, stack, ta, ds.drop_first());
        assert(t1 == tb && ok == (oka && okb));
        assert(t.order.is_prefix_of(t1.order)) by {
            assert forall|i: int| 0 <= i < t.order.len() implies t.order[i] == t1.order[i] by {
                assert(t.order[i] == ta.order.subrange(0, t.order.len() as int)[i]);
                assert(ta.order[i] == tb.order.subrange(0, ta.order.len() as int)[i]);
            }
            assert(t.order =~= t1.order.subrange(0, t.order.len() as int));
        }
        assert forall|x: Seq<char>|
            t1.order.contains(x) && !t.order.contains(x) implies !stack.contains(x) by {
            if ta.order.contains(x) {
            } else {
            }
        }
        if ok {
            assert forall|j: int| 0 <= j < ds.len() implies good(mm, #[trigger] ds[j]) by {
                if j == 0 {
                } else {
                    assert(ds.drop_first()[j - 1] == ds[j]);
                }
            }
        } else {
            assert(!(forall|j: int| 0 <= j < ds.len() ==> good(mm, #[trigger] ds[j]))) by {
                if !oka {
                    assert(!good(mm, ds[0]));
                } else {
                    let j = choose|j: int|
                        0 <= j < ds.drop_first().len() && !good(mm, #[trigger] ds.drop_first()[j]);
                    assert(ds.drop_first()[j] == ds[j + 1]);
                    assert(!good(mm, ds[j + 1]));
                }
            }
        }
        assert forall|j: int|
            0 <= j < ds.len() && good(mm, #[trigger] ds[j]) implies t1.order.contains(ds[j]) by {
            if j == 0 {
                assert(ta.order.contains(ds[0]));
                lemma_prefix_contains(ta.order, t1.order, ds[0]);
            } else {
                assert(ds.drop_first()[j - 1] == ds[j]);
            }
        }
        assert forall|j: int|
            0 <= j < ds.len() && !good(mm, #[trigger] ds[j]) && has_mod(mm, ds[j]) implies t1
            .failed.contains(ds[j]) by {
            if j == 0 {
                assert(ta.failed.contains(ds[0]));
            } else {
                assert(ds.drop_first()[j - 1] == ds[j]);
            }
        }
    }
}

/// Running every root from an empty outcome places exactly the declared,
/// resolvable identifiers and fails exactly the declared, unresolvable
/// ones.
proof fn lemma_run_roots(mm: Seq<ModView>)
    ensures
        wf_trav(mm, run_roots(mm)),
        forall|id: Seq<char>|
            #[trigger] run_roots(mm).order.contains(id) <==> has_mod(mm, id) && good(mm, id),
        forall|id: Seq<char>|
            #[trigger] run_roots(mm).failed.contains(id) <==> has_mod(mm, id) && !good(mm, id),
{
    let roots = root_ids(mm);
    let t0 = trav_empty();
    let empty_stack = Seq::<Seq<char>>::empty();
    assert(wf_trav(mm, t0));
    assert(stack_path_ok(mm, empty_stack));
    assert(forall|j: int| 0 <= j < roots.len() ==> link_ok(mm, empty_stack, #[trigger] roots[j]));
    lemma_visit_deps_sound(mm, empty_stack, t0, roots);
    let (t, ok) = visit_deps(mm, empty_stack, t0, roots);
    assert(t == run_roots(mm));
    assert forall|id: Seq<char>| #[trigger] t.order.contains(id) <==> has_mod(mm, id) && good(
        mm,
        id,
    ) by {
        lemma_find_idx(mm, id);
        if has_mod(mm, id) && good(mm, id) {
            let j = crate::mod_system::model::find_idx(mm, id);
            assert(roots[j] == mm[j].id);
            assert(roots[j] == id);
            assert(t.order.contains(roots[j]));
        }
        if t.order.contains(id) {
            let i = choose|i: int| 0 <= i < t.order.len() && t.order[i] == id;
            assert(good(mm, t.order[i]));
            lemma_good_has_mod(mm, id);
        }
    }
    assert forall|id: Seq<char>| #[trigger] t.failed.contains(id) <==> has_mod(mm, id) && !good(
        mm,
        id,
    ) by {
        lemma_find_idx(mm, id);
        if has_mod(mm, id) && !good(mm, id) {
            let j = crate::mod_system::model::find_idx(mm, id);
            assert(roots[j] == mm[j].id);
            assert(roots[j] == id);
            assert(t.failed.contains(roots[j]));
        }
    }
}

proof fn lemma_count_two(s: Seq<ModView>, x: ModView)
    requires
        s.to_multiset().count(x) >= 2,
    ensures
        exists|i: int, j: int| 0 <= i < j < s.len() && #[trigger] s[i] == x && #[trigger] s[j] == x,
{
    broadcast use vstd::seq_lib::group_to_multiset_ensures;

    assert(s.contains(x));
    let i = choose|i: int| 0 <= i < s.len() && s[i] == x;
    assert(s.remove(i).to_multiset() =~= s.to_multiset().remove(x));
    assert(s.remove(i).to_multiset().count(x) >= 1);
    assert(s.remove(i).contains(x));
    let j0 = choose|j0: int| 0 <= j0 < s.remove(i).len() && s.remove(i)[j0] == x;
    if j0 < i {
        assert(s[j0] == s.remove(i)[j0]);
        assert(0 <= j0 < i < s.len() && s[j0] == x && s[i] == x);
    } else {
        assert(s[j0 + 1] == s.remove(i)[j0]);
        assert(0 <= i < j0 + 1 < s.len() && s[i] == x && s[j0 + 1] == x);
    }
}

proof fn lemma_two_indexes_count(s: Seq<ModView>, i: int, j: int)
    requires
        0 <= i < j < s.len(),
        s[i] == s[j],
    ensures
        s.to_multiset().count(s[i]) >= 2,
{
    broadcast use vstd::seq_lib::group_to_multiset_ensures;

    assert(s.remove(i).to_multiset() =~= s.to_multiset().remove(s[i]));
    assert(s.remove(i)[j - 1] == s[j]);
    assert(s.remove(i).contains(s[i]));
    assert(s.remove(i).to_multiset().count(s[i]) >= 1);
}

/// Distinctness of identifiers carries across any rearrangement.
proof fn lemma_distinct_to_multiset(a: Seq<ModView>, b: Seq<ModView>)
    requires
        distinct_ids(a),
        a.to_multiset() == b.to_multiset(),
    ensures
        distinct_ids(b),
{
    broadcast use vstd::seq_lib::group_to_multiset_ensures;

    assert forall|i: int, j: int| 0 <= i < j < b.len() implies b[i].id != b[j].id by {
        if b[i].id == b[j].id {
            if b[i] == b[j] {
                lemma_two_indexes_count(b, i, j);
                lemma_count_two(a, b[i]);
                let (i2, j2) = choose|i2: int, j2: int|
                    0 <= i2 < j2 < a.len() && #[trigger] a[i2] == b[i] && #[trigger] a[j2] == b[i];
                assert(a[i2].id == a[j2].id);
            } else {
                assert(b.contains(b[i]));
                assert(b.contains(b[j]));
                assert(b.to_multiset().count(b[i]) > 0);
                assert(b.to_multiset().count(b[j]) > 0);
                assert(a.to_multiset().count(b[i]) > 0);
                assert(a.to_multiset().count(b[j]) > 0);
                assert(a.contains(b[i]));
                assert(a.contains(b[j]));
                let ia = choose|ia: int| 0 <= ia < a.len() && a[ia] == b[i];
                let ja = choose|ja: int| 0 <= ja < a.len() && a[ja] == b[j];
                assert(ia != ja);
                assert(a[ia].id == a[ja].id);
            }
        }
    }
}

/// Sorting neither adds nor loses identifiers.
proof fn lemma_sort_has_mod(s: Seq<ModView>, id: Seq<char>)
    ensures
        has_mod(sort_mods(s), id) <==> has_mod(s, id),
{
    broadcast use vstd::seq_lib::group_to_multiset_ensures;

    lemma_sort_mods(s);
    let ss = sort_mods(s);
    lemma_find_idx(s, id);
    lemma_find_idx(ss, id);
    if has_mod(s, id) {
        let m = found_mod(s, id);
        assert(s.contains(m));
        assert(s.to_multiset().count(m) > 0);
        assert(ss.to_multiset().count(m) > 0);
        assert(ss.contains(m));
        let i = choose|i: int| 0 <= i < ss.len() && ss[i] == m;
        assert(ss[i].id == id);
    }
    if has_mod(ss, id) {
        let m = found_mod(ss, id);
        assert(ss.contains(m));
        assert(ss.to_multiset().count(m) > 0);
        assert(s.to_multiset().count(m) > 0);
        assert(s.contains(m));
        let i = choose|i: int| 0 <= i < s.len() && s[i] == m;
        assert(s[i].id == id);
    }
}

/// With distinct identifiers, lookup yields the same descriptor before and
/// after sorting.
proof fn lemma_sort_found(s: Seq<ModView>, id: Seq<char>)
    requires
        distinct_ids(s),
        has_mod(s, id),
    ensures
        has_mod(sort_mods(s), id),
        found_mod(sort_mods(s), id) == found_mod(s, id),
{
    broadcast use vstd::seq_lib::group_to_multiset_ensures;

    lemma_sort_mods(s);
    lemma_sort_has_mod(s, id);
    let ss = sort_mods(s);
    lemma_find_idx(s, id);
    lemma_find_idx(ss, id);
    let a = found_mod(s, id);
    let b = found_mod(ss, id);
    assert(ss.contains(b));
    assert(ss.to_multiset().count(b) > 0);
    assert(s.to_multiset().count(b) > 0);
    assert(s.contains(b));
    let k = choose|k: int| 0 <= k < s.len() && s[k] == b;
    let fi = crate::mod_system::model::find_idx(s, id);
    assert(s[fi] == a && s[fi].id == id && s[k].id == id);
    if k != fi {
        assert(s[k].id != s[fi].id);
    }
}

proof fn lemma_sort_goodk(s: Seq<ModView>, id: Seq<char>, k: nat)
    requires
        distinct_ids(s),
    ensures
        goodk(sort_mods(s), id, k) <==> goodk(s, id, k),
    decreases k,
{
    if k > 0 {
        lemma_sort_has_mod(s, id);
        if has_mod(s, id) {
            lemma_sort_found(s, id);
            let ss = sort_mods(s);
            assert(deps_of(ss, id) == deps_of(s, id));
            assert forall|j: int| 0 <= j < deps_of(s, id).len() implies (goodk(
                ss,
                #[trigger] deps_of(s, id)[j],
                (k - 1) as nat,
            ) <==> goodk(s, deps_of(s, id)[j], (k - 1) as nat)) by {
                lemma_sort_goodk(s, deps_of(s, id)[j], (k - 1) as nat);
            }
        }
    }
}

/// With distinct identifiers, resolvability is indifferent to sorting.
proof fn lemma_sort_good(s: Seq<ModView>, id: Seq<char>)
    requires
        distinct_ids(s),
    ensures
        good(sort_mods(s), id) <==> good(s, id),
{
    if good(sort_mods(s), id) {
        let k = choose|k: nat| goodk(sort_mods(s), id, k);
        lemma_sort_goodk(s, id, k);
        assert(goodk(s, id, k));
    }
    if good(s, id) {
        let k = choose|k: nat| goodk(s, id, k);
        lemma_sort_goodk(s, id, k);
        assert(goodk(sort_mods(s), id, k));
    }
}

/// What resolution computes, exactly: the order holds the declared,
/// resolvable identifiers and the failed set holds the declared,
/// unresolvable ones.
pub proof fn lemma_resolution_characterized(mods: Seq<ModView>)
    requires
        distinct_ids(mods),
    ensures
        forall|id: Seq<char>|
            #[trigger] resolution_order(mods).contains(id) <==> has_mod(mods, id) && good(
                mods,
                id,
            ),
        forall|id: Seq<char>|
            #[trigger] resolution_failed(mods).contains(id) <==> has_mod(mods, id) && !good(
                mods,
                id,
            ),
{
    lemma_run_roots(sort_mods(mods));
    assert forall|id: Seq<char>|
        #[trigger] resolution_order(mods).contains(id) <==> has_mod(mods, id) && good(
            mods,
            id,
        ) by {
        lemma_sort_has_mod(mods, id);
        lemma_sort_good(mods, id);
    }
    assert forall|id: Seq<char>|
        #[trigger] resolution_failed(mods).contains(id) <==> has_mod(mods, id) && !good(
            mods,
            id,
        ) by {
        lemma_sort_has_mod(mods, id);
        lemma_sort_good(mods, id);
    }
}

/// No partial inclusion: no identifier is placed twice, and an identifier
/// placed by resolution has each of its dependencies placed strictly
/// earlier in the same order.
pub proof fn lemma_no_partial_inclusion(mods: Seq<ModView>)
    requires
        distinct_ids(mods),
    ensures
        forall|i: int, j: int|
            0 <= i < j < resolution_order(mods).len() ==> resolution_order(mods)[i]
                != resolution_order(mods)[j],
        forall|i: int, j: int|
            0 <= i < resolution_order(mods).len() && 0 <= j < deps_of(
                mods,
                resolution_order(mods)[i],
            ).len() ==> placed_before(
                resolution(mods),
                i,
                #[trigger] deps_of(mods, resolution_order(mods)[i])[j],
            ),
{
    let smm = sort_mods(mods);
    lemma_run_roots(smm);
    lemma_resolution_characterized(mods);
    let t = resolution(mods);
    assert forall|i: int, j: int|
        0 <= i < t.order.len() && 0 <= j < deps_of(mods, t.order[i]).len() implies placed_before(
        t,
        i,
        #[trigger] deps_of(mods, t.order[i])[j],
    ) by {
        let x = t.order[i];
        assert(t.order.contains(x));
        assert(resolution_order(mods).contains(x));
        assert(has_mod(mods, x));
        lemma_sort_found(mods, x);
        assert(deps_of(smm, x) == deps_of(mods, x));
        assert(placed_before(t, i, deps_of(smm, t.order[i])[j]));
    }
}

/// Every dependency of every descriptor is itself declared.
pub open spec fn all_deps_present(mods: Seq<ModView>) -> bool {
    forall|i: int, j: int|
        0 <= i < mods.len() && 0 <= j < mods[i].deps.len() ==> has_mod(
            mods,
            #[trigger] mods[i].deps[j],
        )
}

/// `rank` witnesses that the dependency graph is acyclic: it strictly
/// drops along every declared dependency edge.
pub open spec fn rank_ok(mods: Seq<ModView>, rank: Map<Seq<char>, nat>) -> bool {
    forall|i: int, j: int|
        0 <= i < mods.len() && 0 <= j < mods[i].deps.len() ==> rank[#[trigger] mods[i].deps[j]]
            < rank[mods[i].id]
}

proof fn lemma_rank_good(mods: Seq<ModView>, rank: Map<Seq<char>, nat>, id: Seq<char>)
    requires
        distinct_ids(mods),
        all_deps_present(mods),
        rank_ok(mods, rank),
        has_mod(mods, id),
    ensures
        good(mods, id),
    decreases rank[id],
{
    lemma_find_idx(mods, id);
    let fi = crate::mod_system::model::find_idx(mods, id);
    assert(mods[fi].id == id);
    assert(deps_of(mods, id) == mods[fi].deps);
    assert forall|j: int| 0 <= j < deps_of(mods, id).len() implies good(
        mods,
        #[trigger] deps_of(mods, id)[j],
    ) by {
        assert(mods[fi].deps[j] == deps_of(mods, id)[j]);
        assert(has_mod(mods, mods[fi].deps[j]));
        assert(rank[mods[fi].deps[j]] < rank[id]);
        lemma_rank_good(mods, rank, mods[fi].deps[j]);
    }
    lemma_good_from_deps(mods, id);
}

/// Acyclic correctness: with every dependency declared, and a rank
/// witnessing that no dependency cycle exists, resolution fails nothing
/// and places every declared identifier exactly once.
pub proof fn lemma_acyclic_all_resolved(mods: Seq<ModView>, rank: Map<Seq<char>, nat>)
    requires
        distinct_ids(mods),
        all_deps_present(mods),
        rank_ok(mods, rank),
    ensures
        resolution_failed(mods).len() == 0,
        resolution_order(mods).len() == mods.len(),
        forall|i: int|
            0 <= i < mods.len() ==> resolution_order(mods).contains(#[trigger] mods[i].id),
{
    broadcast use vstd::set::group_set_axioms;
    broadcast use vstd::seq_lib::seq_to_set_is_finite;

    let smm = sort_mods(mods);
    lemma_run_roots(smm);
    lemma_resolution_characterized(mods);
    let t = resolution(mods);
    if t.failed.len() > 0 {
        let x = t.failed[0];
        assert(t.failed.contains(x));
        assert(resolution_failed(mods).contains(x));
        lemma_rank_good(mods, rank, x);
    }
    assert forall|i: int| 0 <= i < mods.len() implies t.order.contains(#[trigger] mods[i].id) by {
        lemma_find_idx(mods, mods[i].id);
        assert(has_mod(mods, mods[i].id));
        lemma_rank_good(mods, rank, mods[i].id);
        assert(resolution_order(mods).contains(mods[i].id));
    }
    assert(t.order.no_duplicates()) by {
        assert forall|i: int, j: int|
            0 <= i < t.order.len() && 0 <= j < t.order.len() && i != j implies t.order[i]
            != t.order[j] by {
            if i < j {
            } else {
            }
        }
    }
    t.order.unique_seq_to_set();
    let mapped = mods.map_values(|m: ModView| m.id);
    assert(mapped.no_duplicates()) by {
        assert forall|i: int, j: int|
            0 <= i < mapped.len() && 0 <= j < mapped.len() && i != j implies mapped[i]
            != mapped[j] by {
            assert(mapped[i] == mods[i].id && mapped[j] == mods[j].id);
        }
    }
    mapped.unique_seq_to_set();
    assert(t.order.to_set() =~= ids_of(mods)) by {
        assert forall|id: Seq<char>| #[trigger] t.order.to_set().contains(id) implies ids_of(
            mods,
        ).contains(id) by {
            assert(resolution_order(mods).contains(id));
            lemma_ids_of(mods, id);
        }
        assert forall|id: Seq<char>| #[trigger] ids_of(mods).contains(id) implies t.order.to_set()
            .contains(id) by {
            lemma_ids_of(mods, id);
            lemma_rank_good(mods, rank, id);
            assert(resolution_order(mods).contains(id));
        }
    }
}

/// Cycle exclusion: every identifier on a dependency cycle is failed, and
/// kept out of the order.
pub proof fn lemma_cycle_excluded(mods: Seq<ModView>, p: Seq<Seq<char>>, i: int)
    requires
        distinct_ids(mods),
        is_cycle(mods, p),
        0 <= i < p.len(),
    ensures
        resolution_failed(mods).contains(p[i]),
        !resolution_order(mods).contains(p[i]),
{
    lemma_cycle_not_good(mods, p, i);
    if i < p.len() - 1 {
        assert(dep_edge(mods, p[i], p[i + 1]));
    } else {
        assert(p.last() == p[i]);
        assert(dep_edge(mods, p[i], p[0]));
    }
    lemma_resolution_characterized(mods);
}

/// Transitive failure: a mod that depends on a failed or undeclared
/// identifier is itself failed, and kept out of the order.
pub proof fn lemma_failure_propagates(mods: Seq<ModView>, y: Seq<char>, d: Seq<char>)
    requires
        distinct_ids(mods),
        has_mod(mods, y),
        deps_of(mods, y).contains(d),
        !has_mod(mods, d) || resolution_failed(mods).contains(d),
    ensures
        resolution_failed(mods).contains(y),
        !resolution_order(mods).contains(y),
{
    lemma_resolution_characterized(mods);
    if good(mods, d) {
        lemma_good_has_mod(mods, d);
    }
    assert(!good(mods, d));
    if good(mods, y) {
        lemma_good_step(mods, y, d);
    }
}

/// Missing dependency: a mod one of whose declared dependencies has no
/// descriptor is failed, and kept out of the order.
pub proof fn lemma_missing_dependency_fails(mods: Seq<ModView>, i: int, j: int)
    requires
        distinct_ids(mods),
        0 <= i < mods.len(),
        0 <= j < mods[i].deps.len(),
        !has_mod(mods, mods[i].deps[j]),
    ensures
        resolution_failed(mods).contains(mods[i].id),
        !resolution_order(mods).contains(mods[i].id),
{
    lemma_find_idx(mods, mods[i].id);
    assert(has_mod(mods, mods[i].id));
    let fi = crate::mod_system::model::find_idx(mods, mods[i].id);
    if fi < i {
        assert(mods[fi].id != mods[i].id);
    }
    assert(fi == i);
    assert(deps_of(mods, mods[i].id) == mods[i].deps);
    assert(deps_of(mods, mods[i].id).contains(mods[i].deps[j]));
    lemma_failure_propagates(mods, mods[i].id, mods[i].deps[j]);
}

/// Resolution is a pure function of which descriptors are present: two
/// arrangements of the same descriptors resolve to the same order and the
/// same failed set.
pub proof fn lemma_resolution_order_independent(m1: Seq<ModView>, m2: Seq<ModView>)
    requires
        distinct_ids(m1),
        m1.to_multiset() == m2.to_multiset(),
    ensures
        resolution(m1) == resolution(m2),
{
    lemma_sort_mods(m1);
    lemma_sort_mods(m2);
    lemma_distinct_to_multiset(m1, sort_mods(m1));
    lemma_sorted_mods_unique(sort_mods(m1), sort_mods(m2));
    assert(sort_mods(m1) == sort_mods(m2));
}

} // verus!
