//! Structured mod metadata, as the external manifest reader hands it
//! over, and its flattening into resolver descriptors.

use vstd::prelude::*;

use crate::mod_system::dependencies::LoadedMod;

verus! {

/// Identity, entry point and ordering hint of one mod.
#[derive(Debug, Clone)]
pub struct ModInfo {
    pub id: String,
    pub name: String,
    pub version: String,
    pub authors: Vec<String>,
    pub main: String,
    pub load_order: i32,
}

/// One mod's manifest: its identity and its dependency table, each entry
/// a required identifier with a version string that carries no meaning
/// for resolution.
#[derive(Debug, Clone)]
pub struct Manifest {
    pub mod_info: ModInfo,
    pub dependencies: Vec<(String, String)>,
}

/// The ordering hint as the resolver's unsigned priority: the signed
/// range shifted up by `2^31`, so that a lower hint always loads first —
/// negative hints included.
pub open spec fn hint_as_priority(x: int) -> int {
    x + 0x8000_0000
}

impl Manifest {
    /// The identifiers of the dependency table, in declaration order.
    pub open spec fn dep_ids(&self) -> Seq<Seq<char>> {
        self.dependencies@.map_values(|p: (String, String)| p.0@)
    }

    /// Flatten this manifest into the descriptor the resolver consumes.
    pub fn to_loaded_mod(&self) -> (m: LoadedMod)
        ensures
            m@.id == self.mod_info.id@,
            m@.load_order as int == hint_as_priority(self.mod_info.load_order as int),
            m@.deps == self.dep_ids(),
    {
        let priority: u32 = ((self.mod_info.load_order as i64) + 0x8000_0000i64) as u32;
        let mut deps: Vec<String> = Vec::new();
        let mut i: usize = 0;
        proof {
            assert(crate::mod_system::dependencies::strs_view(deps@) =~= self.dep_ids().take(0));
        }
        while i < self.dependencies.len()
            invariant
                i <= self.dependencies@.len(),
                crate::mod_system::dependencies::strs_view(deps@) == self.dep_ids().take(i as int),
            decreases self.dependencies@.len() - i,
        {
            let dep = self.dependencies[i].0.clone();
            proof {
                assert(dep@ == self.dependencies@[i as int].0@);
                assert(self.dep_ids()[i as int] == self.dependencies@[i as int].0@);
            }
            let ghost depval = dep;
            let ghost before = deps@;
            deps.push(dep);
            proof {
                assert(deps@ == before.push(depval));
                assert(crate::mod_system::dependencies::strs_view(before) == self.dep_ids().take(
                    i as int,
                ));
                assert(crate::mod_system::dependencies::strs_view(before).len() == before.len());
                assert(before.len() == i as int);
                assert forall|k: int|
                    0 <= k < deps@.len() implies crate::mod_system::dependencies::strs_view(
                    deps@,
                )[k] == self.dep_ids().take(i as int + 1)[k] by {
                    if k < i as int {
                        assert(deps@[k] == before[k]);
                        assert(crate::mod_system::dependencies::strs_view(before)[k]
                            == self.dep_ids().take(i as int)[k]);
                    } else {
                        assert(deps@[k] == depval);
                    }
                }
                assert(crate::mod_system::dependencies::strs_view(deps@) =~= self.dep_ids().take(
                    i as int + 1,
                ));
            }
            i += 1;
        }
        proof {
            assert(self.dep_ids().take(self.dependencies@.len() as int) =~= self.dep_ids());
        }
        LoadedMod::new(self.mod_info.id.clone(), priority, deps)
    }
}

} // verus!
