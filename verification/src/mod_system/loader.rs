//! The compute spine of a load session: descriptors for a batch of
//! manifests, the resolver run on them, and the execution plan that the
//! host walks when it runs each mod's entry script.

use vstd::prelude::*;

use crate::mod_system::dependencies::DependencyError;
use crate::mod_system::dependencies::LoadedMod;
use crate::mod_system::dependencies::resolve_dependencies;
use crate::mod_system::dependencies::strs_view;
use crate::mod_system::dependencies::views;
use crate::mod_system::manifest::Manifest;
use crate::mod_system::manifest::hint_as_priority;
use crate::mod_system::model::ModView;
use crate::mod_system::model::dedup_last;
use crate::mod_system::model::distinct_ids;
use crate::mod_system::model::has_mod;
use crate::mod_system::model::lemma_dedup_last;
use crate::mod_system::model::lemma_find_idx;
use crate::mod_system::model::resolution;

verus! {

/// Why a whole load session failed.
#[derive(Debug)]
pub enum ModLoadError {
    /// The configured mod root does not exist or cannot be read.
    DirectoryNotFound,
    /// A manifest file could not be read or parsed.
    ManifestLoadError(String),
    /// A mod's entry script failed while running.
    PythonExecutionError(String),
    /// The dependency resolver refused the whole set.
    DependencyResolutionError(String),
}

/// The descriptor view that a manifest flattens to.
pub open spec fn manifest_view(m: Manifest) -> ModView {
    ModView {
        id: m.mod_info.id@,
        load_order: hint_as_priority(m.mod_info.load_order as int) as u32,
        deps: m.dep_ids(),
    }
}

/// The descriptor views of a batch of manifests, in their order.
pub open spec fn manifest_views(ms: Seq<Manifest>) -> Seq<ModView> {
    ms.map_values(|m: Manifest| manifest_view(m))
}

/// Whether some descriptor of `mods` carries `id`.
fn declares_id(mods: &Vec<LoadedMod>, id: &String) -> (r: bool)
    ensures
        r == has_mod(views(mods@), id@),
{
    let ghost smm = views(mods@);
    let mut i: usize = 0;
    while i < mods.len()
        invariant
            i <= mods@.len(),
            smm == views(mods@),
            forall|k: int| 0 <= k < i ==> smm[k].id != id@,
        decreases mods@.len() - i,
    {
        if mods[i].id == *id {
            proof {
                lemma_find_idx(smm, id@);
                assert(smm[i as int].id == id@);
            }
            return true;
        }
        i += 1;
    }
    proof {
        lemma_find_idx(smm, id@);
        if has_mod(smm, id@) {
            assert(smm[crate::mod_system::model::find_idx(smm, id@)].id == id@);
        }
    }
    false
}

/// Collapse duplicate identifiers the way the registry would: a later
/// registration replaces an earlier one, so for each identifier only the
/// last descriptor survives.
fn dedup_descriptors(mods: Vec<LoadedMod>) -> (r: Vec<LoadedMod>)
    ensures
        views(r@) == dedup_last(views(mods@)),
{
    let ghost ms = views(mods@);
    let mut rest = mods;
    let mut out: Vec<LoadedMod> = Vec::new();
    proof {
        assert(ms.skip(0) =~= ms);
        assert(views(out@) + dedup_last(ms) =~= dedup_last(ms));
    }
    while rest.len() > 0
        invariant
            rest.len() <= ms.len(),
            views(rest@) =~= ms.skip(ms.len() - rest.len()),
            dedup_last(ms) == views(out@) + dedup_last(ms.skip(ms.len() - rest.len())),
        decreases rest.len(),
    {
        let ghost k = ms.len() - rest.len();
        let m = rest.remove(0);
        proof {
            assert(views(rest@) =~= ms.skip(k + 1)) by {
                assert forall|i: int| 0 <= i < rest@.len() implies views(rest@)[i] == ms.skip(
                    k + 1,
                )[i] by {
                    assert(ms.skip(k)[i + 1] == ms[k + i + 1]);
                }
            }
            assert(m@ == ms.skip(k)[0]);
            assert(ms.skip(k)[0] == ms[k]);
            assert(ms.skip(k).drop_first() =~= ms.skip(k + 1));
        }
        if declares_id(&rest, &m.id) {
            proof {
                assert(dedup_last(ms.skip(k)) == dedup_last(ms.skip(k + 1)));
            }
        } else {
            let ghost mval = m;
            let ghost before = out@;
            out.push(m);
            proof {
                assert(out@ == before.push(mval));
                assert(dedup_last(ms.skip(k)) == seq![ms[k]] + dedup_last(ms.skip(k + 1)));
                assert(views(out@) =~= views(before).push(mval@)) by {
                    assert forall|i: int| 0 <= i < out@.len() implies views(out@)[i] == views(
                        before,
                    ).push(mval@)[i] by {
                        if i < before.len() {
                            assert(out@[i] == before[i]);
                        } else {
                            assert(out@[i] == mval);
                        }
                    }
                }
                assert(views(before) + (seq![ms[k]] + dedup_last(ms.skip(k + 1))) =~= views(out@)
                    + dedup_last(ms.skip(k + 1)));
            }
        }
    }
    proof {
        assert(ms.skip(ms.len() as int).len() == 0);
        assert(views(out@) + dedup_last(ms.skip(ms.len() as int)) =~= views(out@));
    }
    out
}

/// The resolver descriptors for a batch of manifests: one per distinct
/// identifier, a later manifest replacing an earlier one with the same
/// id, as registration into a keyed registry would.
pub fn collect_descriptors(manifests: &Vec<Manifest>) -> (mods: Vec<LoadedMod>)
    ensures
        views(mods@) == dedup_last(manifest_views(manifests@)),
        distinct_ids(views(mods@)),
{
    let mut mods: Vec<LoadedMod> = Vec::new();
    let mut i: usize = 0;
    proof {
        assert(views(mods@) =~= manifest_views(manifests@).take(0));
    }
    while i < manifests.len()
        invariant
            i <= manifests@.len(),
            views(mods@) == manifest_views(manifests@).take(i as int),
        decreases manifests@.len() - i,
    {
        let m = manifests[i].to_loaded_mod();
        let ghost mval = m;
        let ghost mv = m@;
        let ghost before = mods@;
        mods.push(m);
        proof {
            let hint = hint_as_priority(manifests@[i as int].mod_info.load_order as int);
            assert(0 <= hint < 0x1_0000_0000);
            assert(mv.load_order as int == hint);
            assert(mv.load_order == hint as u32);
            assert(mv == manifest_view(manifests@[i as int]));
            assert(mods@ == before.push(mval));
            assert(views(before) == manifest_views(manifests@).take(i as int));
            assert(views(before).len() == before.len());
            assert(before.len() == i as int);
            assert forall|k: int| 0 <= k < mods@.len() implies views(mods@)[k] == manifest_views(
                manifests@,
            ).take(i as int + 1)[k] by {
                if k < i as int {
                    assert(mods@[k] == before[k]);
                    assert(views(before)[k] == manifest_views(manifests@).take(i as int)[k]);
                } else {
                    assert(mods@[k] == mval);
                }
            }
            assert(views(mods@) =~= manifest_views(manifests@).take(i as int + 1));
        }
        i += 1;
    }
    proof {
        assert(manifest_views(manifests@).take(manifests@.len() as int) =~= manifest_views(
            manifests@,
        ));
    }
    let deduped = dedup_descriptors(mods);
    proof {
        lemma_dedup_last(manifest_views(manifests@));
    }
    deduped
}

/// Resolve a batch of manifests into a load order: the pure middle of a
/// load session, between discovery and execution.  Duplicate identifiers
/// are collapsed first, a later manifest replacing an earlier one, so the
/// resolver's input ids are pairwise distinct.
pub fn plan_load_order(manifests: &Vec<Manifest>, strict: bool) -> (r: Result<
    Vec<String>,
    DependencyError,
>)
    ensures
        ({
            let t = resolution(dedup_last(manifest_views(manifests@)));
            match r {
                Ok(order) => (!strict || t.failed.len() == 0) && strs_view(order@) == t.order,
                Err(e) => strict && t.failed.len() > 0 && (e matches
                    DependencyError::ResolutionFailed(f) && strs_view(f@) == t.failed),
            }
        }),
{
    let mods = collect_descriptors(manifests);
    resolve_dependencies(mods, strict)
}

/// Index of the first manifest whose mod carries `id`, or the batch size
/// if none does.
pub open spec fn manifest_idx(ms: Seq<Manifest>, id: Seq<char>) -> int
    decreases ms.len(),
{
    if ms.len() == 0 {
        0
    } else if ms[0].mod_info.id@ == id {
        0
    } else {
        1 + manifest_idx(ms.drop_first(), id)
    }
}

pub proof fn lemma_manifest_idx(ms: Seq<Manifest>, id: Seq<char>)
    ensures
        0 <= manifest_idx(ms, id) <= ms.len(),
        manifest_idx(ms, id) < ms.len() ==> ms[manifest_idx(ms, id)].mod_info.id@ == id,
        forall|k: int| 0 <= k < manifest_idx(ms, id) ==> ms[k].mod_info.id@ != id,
    decreases ms.len(),
{
    if ms.len() > 0 && ms[0].mod_info.id@ != id {
        lemma_manifest_idx(ms.drop_first(), id);
        assert forall|k: int| 0 <= k < manifest_idx(ms, id) implies ms[k].mod_info.id@ != id by {
            if k > 0 {
                assert(ms[k] == ms.drop_first()[k - 1]);
            }
        }
    }
}

/// The manifest indices that a resolved order calls for, skipping any
/// identifier without a manifest.
pub open spec fn plan_of(ms: Seq<Manifest>, ids: Seq<Seq<char>>) -> Seq<int>
    decreases ids.len(),
{
    if ids.len() == 0 {
        Seq::empty()
    } else {
        let rest = plan_of(ms, ids.drop_first());
        if manifest_idx(ms, ids[0]) < ms.len() {
            seq![manifest_idx(ms, ids[0])] + rest
        } else {
            rest
        }
    }
}

/// Look up each ordered identifier's manifest: the executor runs exactly
/// these manifests, in exactly this sequence, each fully before the next.
pub fn execution_plan(order: &Vec<String>, manifests: &Vec<Manifest>) -> (plan: Vec<usize>)
    ensures
        plan@.map_values(|u: usize| u as int) == plan_of(manifests@, strs_view(order@)),
        forall|i: int| 0 <= i < plan@.len() ==> (#[trigger] plan@[i]) < manifests@.len(),
{
    let ghost ids = strs_view(order@);
    let mut plan: Vec<usize> = Vec::new();
    let mut i: usize = 0;
    proof {
        assert(ids.skip(0) =~= ids);
        assert(plan@.map_values(|u: usize| u as int) =~= Seq::<int>::empty());
    }
    while i < order.len()
        invariant
            i <= order@.len(),
            ids == strs_view(order@),
            forall|h: int| 0 <= h < plan@.len() ==> (#[trigger] plan@[h]) < manifests@.len(),
            plan_of(manifests@, ids) == plan@.map_values(|u: usize| u as int) + plan_of(
                manifests@,
                ids.skip(i as int),
            ),
        decreases order@.len() - i,
    {
        proof {
            assert(ids.skip(i as int)[0] == ids[i as int]);
            assert(ids.skip(i as int).drop_first() =~= ids.skip(i as int + 1));
        }
        match find_manifest(manifests, &order[i]) {
            Some(idx) => {
                plan.push(idx);
                proof {
                    assert(plan@.map_values(|u: usize| u as int) =~= plan@.drop_last().map_values(
                        |u: usize| u as int,
                    ).push(idx as int));
                    assert(plan@.drop_last() =~= plan@.subrange(0, plan@.len() - 1));
                    assert(plan@.drop_last().map_values(|u: usize| u as int) + (seq![idx as int]
                        + plan_of(manifests@, ids.skip(i as int + 1))) =~= plan@.map_values(
                        |u: usize| u as int,
                    ) + plan_of(manifests@, ids.skip(i as int + 1)));
                }
            },
            None => {},
        }
        i += 1;
    }
    proof {
        assert(ids.skip(order@.len() as int).len() == 0);
        assert(plan@.map_values(|u: usize| u as int) + Seq::<int>::empty() =~= plan@.map_values(
            |u: usize| u as int,
        ));
    }
    plan
}

/// Index of the first manifest carrying `id`, if any.
fn find_manifest(manifests: &Vec<Manifest>, id: &String) -> (r: Option<usize>)
    ensures
        match r {
            Some(i) => i as int == manifest_idx(manifests@, id@) && (i as int) < manifests@.len(),
            None => manifest_idx(manifests@, id@) == manifests@.len(),
        },
{
    proof {
        lemma_manifest_idx(manifests@, id@);
    }
    let mut i: usize = 0;
    while i < manifests.len()
        invariant
            i <= manifests@.len(),
            forall|k: int| 0 <= k < i ==> manifests@[k].mod_info.id@ != id@,
        decreases manifests@.len() - i,
    {
        if manifests[i].mod_info.id == *id {
            proof {
                lemma_manifest_idx(manifests@, id@);
                assert(manifests@[i as int].mod_info.id@ == id@);
            }
            return Some(i);
        }
        i += 1;
    }
    proof {
        lemma_manifest_idx(manifests@, id@);
        if manifest_idx(manifests@, id@) < manifests@.len() {
            assert(manifests@[manifest_idx(manifests@, id@)].mod_info.id@ == id@);
        }
    }
    None
}

} // verus!
