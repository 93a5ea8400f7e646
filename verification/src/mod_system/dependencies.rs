//! Mod descriptors and the dependency resolver's result types.

use vstd::prelude::*;

use crate::mod_system::model::ModView;
use crate::mod_system::model::Trav;
use crate::mod_system::model::deps_of;
use crate::mod_system::model::find_idx;
use crate::mod_system::model::has_mod;
use crate::mod_system::model::ids_of;
use crate::mod_system::model::insert_sorted;
use crate::mod_system::model::key_lt;
use crate::mod_system::model::lemma_find_idx;
use crate::mod_system::model::lemma_ids_of;
use crate::mod_system::model::lex_lt;
use crate::mod_system::model::push_unique;
use crate::mod_system::model::resolution;
use crate::mod_system::model::root_ids;
use crate::mod_system::model::run_roots;
use crate::mod_system::model::sort_mods;
use crate::mod_system::model::trav_empty;
use crate::mod_system::model::visit;
use crate::mod_system::model::visit_deps;

verus! {

use vstd::std_specs::iter::IteratorSpec;

/// One discovered mod: its unique identifier, its priority hint (lower
/// values load first), and the identifiers of the mods it depends on.
#[derive(Debug, Clone)]
pub struct LoadedMod {
    pub id: String,
    pub load_order: u32,
    pub dependencies: Vec<String>,
}

/// The character sequences of a sequence of strings.
pub open spec fn strs_view(s: Seq<String>) -> Seq<Seq<char>> {
    s.map_values(|x: String| x@)
}

impl View for LoadedMod {
    type V = ModView;

    open spec fn view(&self) -> ModView {
        ModView {
            id: self.id@,
            load_order: self.load_order,
            deps: strs_view(self.dependencies@),
        }
    }
}

impl LoadedMod {
    pub fn new(id: String, load_order: u32, dependencies: Vec<String>) -> (m: Self)
        ensures
            m@ == (ModView { id: id@, load_order, deps: strs_view(dependencies@) }),
    {
        Self { id, load_order, dependencies }
    }
}

/// The descriptor views of a sequence of descriptors.
pub open spec fn views(s: Seq<LoadedMod>) -> Seq<ModView> {
    s.map_values(|m: LoadedMod| m@)
}

/// Compare two strings in the identifier order of the model.
fn str_lt(a: &str, b: &str) -> (r: bool)
    ensures
        r == lex_lt(a@, b@),
{
    let mut ia = a.chars();
    let mut ib = b.chars();
    let ghost mut k: int = 0;
    loop
        invariant
            0 <= k <= a@.len(),
            ia.remaining() =~= a@.skip(k),
            lex_lt(a@, b@) == lex_lt(ia.remaining(), ib.remaining()),
        decreases a@.len() - k,
    {
        let ghost ra = ia.remaining();
        let ghost rb = ib.remaining();
        let ca = ia.next();
        let cb = ib.next();
        match (ca, cb) {
            (None, None) => {
                return false;
            },
            (None, Some(_)) => {
                return true;
            },
            (Some(_), None) => {
                return false;
            },
            (Some(x), Some(y)) => {
                if x < y {
                    return true;
                }
                if y < x {
                    return false;
                }
                proof {
                    assert(ra[0] == rb[0]);
                    assert(ia.remaining() =~= a@.skip(k + 1)) by {
                        assert(ra.drop_first() =~= a@.skip(k).drop_first());
                    }
                    k = k + 1;
                }
            },
        }
    }
}

/// Compare two descriptors by the sort key of the model.
fn mod_key_lt(a: &LoadedMod, b: &LoadedMod) -> (r: bool)
    ensures
        r == key_lt(a@, b@),
{
    if a.load_order < b.load_order {
        true
    } else if a.load_order == b.load_order {
        str_lt(a.id.as_str(), b.id.as_str())
    } else {
        false
    }
}

/// Insert a descriptor into an already key-sorted vector, behind every
/// element that does not strictly exceed it.
fn insert_by_key(sorted: Vec<LoadedMod>, m: LoadedMod) -> (r: Vec<LoadedMod>)
    ensures
        views(r@) == insert_sorted(m@, views(sorted@)),
{
    let ghost w = views(sorted@);
    let ghost mv = m@;
    let mut v = sorted;
    let mut j: usize = 0;
    proof {
        assert(insert_sorted(mv, w) =~= w.take(0) + insert_sorted(mv, w.skip(0))) by {
            assert(w.skip(0) =~= w);
        }
    }
    while j < v.len() && !mod_key_lt(&m, &v[j])
        invariant
            j <= v.len(),
            v@ == sorted@,
            w == views(sorted@),
            mv == m@,
            insert_sorted(mv, w) == w.take(j as int) + insert_sorted(mv, w.skip(j as int)),
        decreases v.len() - j,
    {
        proof {
            assert(w.skip(j as int)[0] == w[j as int]);
            assert(w[j as int] == v@[j as int]@);
            assert(w.skip(j as int).drop_first() =~= w.skip(j as int + 1));
            assert(insert_sorted(mv, w.skip(j as int)) == seq![w[j as int]] + insert_sorted(
                mv,
                w.skip(j as int + 1),
            ));
            assert(w.take(j as int) + (seq![w[j as int]] + insert_sorted(mv, w.skip(j as int + 1)))
                =~= w.take(j as int + 1) + insert_sorted(mv, w.skip(j as int + 1)));
        }
        j += 1;
    }
    proof {
        if j < v.len() {
            assert(w.skip(j as int)[0] == v@[j as int]@);
            assert(insert_sorted(mv, w.skip(j as int)) == seq![mv] + w.skip(j as int));
        } else {
            assert(w.skip(j as int).len() == 0);
            assert(insert_sorted(mv, w.skip(j as int)) == seq![mv]);
        }
    }
    v.insert(j, m);
    proof {
        assert(views(v@) =~= insert_sorted(mv, w)) by {
            if j < w.len() {
                assert(insert_sorted(mv, w) == w.take(j as int) + (seq![mv] + w.skip(j as int)));
            } else {
                assert(insert_sorted(mv, w) == w.take(j as int) + seq![mv]);
            }
        }
    }
    v
}

/// Sort descriptors by ascending priority, identifier order breaking ties.
fn sort_loaded(mods: Vec<LoadedMod>) -> (r: Vec<LoadedMod>)
    ensures
        views(r@) == sort_mods(views(mods@)),
{
    let ghost ms = views(mods@);
    let mut rest = mods;
    let mut out: Vec<LoadedMod> = Vec::new();
    proof {
        assert(views(out@) =~= sort_mods(ms.take(0))) by {
            assert(ms.take(0).len() == 0);
        }
    }
    while rest.len() > 0
        invariant
            rest.len() <= ms.len(),
            views(rest@) =~= ms.skip(ms.len() - rest.len()),
            views(out@) == sort_mods(ms.take(ms.len() - rest.len())),
        decreases rest.len(),
    {
        let ghost k = ms.len() - rest.len();
        let m = rest.remove(0);
        proof {
            assert(views(rest@) =~= ms.skip(k + 1)) by {
                assert forall|i: int| 0 <= i < rest@.len() implies views(rest@)[i] == ms.skip(
                    k + 1,
                )[i] by {
                    assert(ms.skip(k)[i + 1] == ms[k + i + 1]);
                }
            }
            assert(m@ == ms.skip(k)[0]);
            assert(ms[k] == ms.skip(k)[0]);
        }
        out = insert_by_key(out, m);
        proof {
            assert(ms.take(k + 1).drop_last() =~= ms.take(k));
            assert(ms.take(k + 1).last() == ms[k]);
            assert(sort_mods(ms.take(k + 1)) == insert_sorted(ms[k], sort_mods(ms.take(k))));
        }
    }
    proof {
        assert(ms.take(ms.len() as int) =~= ms);
    }
    out
}

/// Whether some string of `v` spells `id`.
fn contains_id(v: &Vec<String>, id: &String) -> (r: bool)
    ensures
        r == strs_view(v@).contains(id@),
{
    let mut i: usize = 0;
    while i < v.len()
        invariant
            i <= v.len(),
            forall|k: int| 0 <= k < i ==> strs_view(v@)[k] != id@,
        decreases v.len() - i,
    {
        if v[i] == *id {
            proof {
                assert(strs_view(v@)[i as int] == id@);
            }
            return true;
        }
        i += 1;
    }
    proof {
        if strs_view(v@).contains(id@) {
            let k = choose|k: int| 0 <= k < strs_view(v@).len() && strs_view(v@)[k] == id@;
            assert(false);
        }
    }
    false
}

/// Index of the first descriptor carrying `id`, if any.
fn find_mod_idx(mods: &Vec<LoadedMod>, id: &String) -> (r: Option<usize>)
    ensures
        match r {
            Some(i) => i as int == find_idx(views(mods@), id@) && (i as int) < mods@.len(),
            None => !has_mod(views(mods@), id@),
        },
{
    let ghost smm = views(mods@);
    let mut i: usize = 0;
    while i < mods.len()
        invariant
            i <= mods.len(),
            smm == views(mods@),
            forall|k: int| 0 <= k < i ==> smm[k].id != id@,
        decreases mods.len() - i,
    {
        if mods[i].id == *id {
            proof {
                lemma_find_idx(smm, id@);
                assert(smm[i as int].id == id@);
            }
            return Some(i);
        }
        i += 1;
    }
    proof {
        lemma_find_idx(smm, id@);
        if has_mod(smm, id@) {
            assert(smm[find_idx(smm, id@)].id == id@);
        }
    }
    None
}

/// Record `id` as failed unless it is already recorded.
fn push_unique_exec(v: &mut Vec<String>, id: &String)
    ensures
        strs_view(final(v)@) == push_unique(strs_view(old(v)@), id@),
{
    if !contains_id(v, id) {
        v.push(id.clone());
        proof {
            assert(strs_view(v@) =~= strs_view(old(v)@).push(id@));
        }
    }
}

/// Traversal state threaded through the depth-first visits.
struct ResolveState {
    stack: Vec<String>,
    order: Vec<String>,
    failed: Vec<String>,
}

/// The traversal outcome that a state carries.
spec fn t_view(st: ResolveState) -> Trav {
    Trav { order: strs_view(st.order@), failed: strs_view(st.failed@) }
}

/// One depth-first visit, mirroring [`visit`] of the model exactly.
#[verifier::loop_isolation(false)]
fn visit_exec(mods: &Vec<LoadedMod>, st: &mut ResolveState, id: &String) -> (ok: bool)
    ensures
        final(st).stack@ == old(st).stack@,
        (t_view(*final(st)), ok) == visit(
            views(mods@),
            strs_view(old(st).stack@),
            t_view(*old(st)),
            id@,
        ),
    decreases ids_of(views(mods@)).difference(strs_view(old(st).stack@).to_set()).len(),
{
    let ghost smm = views(mods@);
    let ghost stk0 = strs_view(st.stack@);
    let ghost orig_stack = st.stack@;
    let ghost t0 = t_view(*st);
    if contains_id(&st.order, id) {
        return true;
    }
    match find_mod_idx(mods, id) {
        None => {
            proof {
                lemma_find_idx(smm, id@);
            }
            false
        },
        Some(idx) => {
            if contains_id(&st.stack, id) {
                push_unique_exec(&mut st.failed, id);
                false
            } else {
                let pushed = id.clone();
                let ghost pg = pushed;
                st.stack.push(pushed);
                proof {
                    assert(strs_view(st.stack@) =~= stk0.push(id@));
                }
                let ghost stk1 = stk0.push(id@);
                let ghost ds = deps_of(smm, id@);
                proof {
                    lemma_find_idx(smm, id@);
                    assert(ds =~= strs_view(mods@[idx as int].dependencies@)) by {
                        assert(smm[idx as int] == mods@[idx as int]@);
                    }
                }
                let deps_len = mods[idx].dependencies.len();
                let mut ok = true;
                let mut j: usize = 0;
                proof {
                    assert(ds.skip(0) =~= ds);
                }
                while j < deps_len
                    invariant
                        j <= deps_len,
                        idx < mods@.len(),
                        deps_len == mods@[idx as int].dependencies@.len(),
                        smm == views(mods@),
                        stk1 == stk0.push(id@),
                        has_mod(smm, id@),
                        !stk0.contains(id@),
                        ds == deps_of(smm, id@),
                        ds == strs_view(mods@[idx as int].dependencies@),
                        ds.len() == deps_len,
                        st.stack@ == orig_stack.push(pg),
                        strs_view(st.stack@) == stk1,
                        ({
                            let (tr, okr) = visit_deps(smm, stk1, t_view(*st), ds.skip(j as int));
                            (tr, ok && okr)
                        }) == visit_deps(smm, stk1, t0, ds),
                    decreases deps_len - j,
                {
                    proof {
                        broadcast use vstd::set::group_set_axioms;
                        broadcast use vstd::seq_lib::seq_to_set_is_finite;
                        broadcast use vstd::seq_lib::lemma_seq_contains_after_push;

                        lemma_ids_of(smm, id@);
                        let before = ids_of(smm).difference(stk0.to_set());
                        let after = ids_of(smm).difference(stk1.to_set());
                        assert(stk1.to_set() =~= stk0.to_set().insert(id@));
                        assert(after =~= before.remove(id@));
                        assert(before.contains(id@));
                        assert(after.len() < before.len());
                        assert(ds[j as int] == mods@[idx as int].dependencies@[j as int]@);
                    }
                    let dep = &mods[idx].dependencies[j];
                    let okj = visit_exec(mods, st, dep);
                    proof {
                        assert(ds.skip(j as int)[0] == ds[j as int]);
                        assert(ds.skip(j as int).drop_first() =~= ds.skip(j as int + 1));
                    }
                    ok = ok && okj;
                    j += 1;
                }
                proof {
                    assert(ds.skip(deps_len as int).len() == 0);
                }
                let _ = st.stack.pop();
                proof {
                    assert(st.stack@ =~= orig_stack);
                }
                if ok {
                    let ghost ord_before = st.order@;
                    st.order.push(id.clone());
                    proof {
                        assert(strs_view(st.order@) =~= strs_view(ord_before).push(id@));
                    }
                    true
                } else {
                    push_unique_exec(&mut st.failed, id);
                    false
                }
            }
        },
    }
}

/// Why a resolution session could not place every mod.
#[derive(Debug)]
pub enum DependencyError {
    /// A declared dependency identifier has no matching descriptor.
    MissingDependency(String),
    /// Traversal re-entered an identifier already on the active path.
    CircularDependency(String),
    /// Strict-mode aggregate: every identifier that could not be placed.
    ResolutionFailed(Vec<String>),
}

/// Resolve a descriptor set into a load order.
///
/// Descriptors are first sorted by ascending priority, identifiers
/// breaking ties, and then visited depth first in that order, so that the
/// outcome is a pure function of the descriptors themselves.  In strict
/// mode a non-empty failed set aborts the whole load; in lenient mode the
/// order holds the maximal resolvable subset.
#[verifier::loop_isolation(false)]
pub fn resolve_dependencies(mods: Vec<LoadedMod>, strict: bool) -> (r: Result<
    Vec<String>,
    DependencyError,
>)
    ensures
        ({
            let t = resolution(views(mods@));
            match r {
                Ok(order) => (!strict || t.failed.len() == 0) && strs_view(order@) == t.order,
                Err(e) => strict && t.failed.len() > 0 && (e matches
                    DependencyError::ResolutionFailed(f) && strs_view(f@) == t.failed),
            }
        }),
{
    let ghost ms = views(mods@);
    let sorted = sort_loaded(mods);
    let ghost smm = views(sorted@);
    let ghost roots = root_ids(smm);
    let mut st = ResolveState { stack: Vec::new(), order: Vec::new(), failed: Vec::new() };
    proof {
        assert(strs_view(st.stack@) =~= Seq::<Seq<char>>::empty());
        assert(strs_view(st.order@) =~= Seq::<Seq<char>>::empty());
        assert(strs_view(st.failed@) =~= Seq::<Seq<char>>::empty());
        assert(roots.skip(0) =~= roots);
    }
    let mut i: usize = 0;
    while i < sorted.len()
        invariant
            i <= sorted.len(),
            smm == views(sorted@),
            roots == root_ids(smm),
            roots.len() == sorted@.len(),
            st.stack@.len() == 0,
            visit_deps(smm, Seq::empty(), t_view(st), roots.skip(i as int)).0 == run_roots(smm),
        decreases sorted.len() - i,
    {
        proof {
            assert(roots[i as int] == sorted@[i as int]@.id);
            assert(strs_view(st.stack@) =~= Seq::<Seq<char>>::empty());
        }
        let _ = visit_exec(&sorted, &mut st, &sorted[i].id);
        proof {
            assert(roots.skip(i as int)[0] == roots[i as int]);
            assert(roots.skip(i as int).drop_first() =~= roots.skip(i as int + 1));
        }
        i += 1;
    }
    proof {
        assert(roots.skip(sorted@.len() as int).len() == 0);
        assert(t_view(st) == run_roots(smm));
    }
    if strict {
        if st.failed.len() > 0 {
            return Err(DependencyError::ResolutionFailed(st.failed));
        }
    }
    Ok(st.order)
}

} // verus!
