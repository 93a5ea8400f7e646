//! The named-callback table that mod scripts fill through the
//! registration surface.  The callable values themselves are opaque to
//! the library: the host keeps them in a store of its own and hands the
//! table a plain handle.  The table holds each callback's name, the
//! module that registered it, and that handle, and decides which binding
//! a name resolves to — a later registration under the same name replaces
//! the earlier one.

use vstd::prelude::*;

use crate::python_bridge::types::first_idx;
use crate::python_bridge::types::lemma_first_idx;

verus! {

/// One registered callback: its name, the module that registered it, and
/// the host's handle for the callable value.
#[derive(Debug, Clone)]
pub struct FunctionBinding {
    pub name: String,
    pub module: String,
    pub handle: usize,
}

/// The callback table, keyed by name.
#[derive(Debug)]
pub struct FunctionTable {
    pub entries: Vec<FunctionBinding>,
}

/// Index of the first binding named `name`, or the table size.
pub open spec fn function_pos(entries: Seq<FunctionBinding>, name: Seq<char>) -> int {
    first_idx(entries, |b: FunctionBinding| b.name@ == name)
}

fn find_function(entries: &Vec<FunctionBinding>, name: &String) -> (r: Option<usize>)
    ensures
        match r {
            Some(i) => i as int == function_pos(entries@, name@) && (i as int) < entries@.len(),
            None => function_pos(entries@, name@) == entries@.len(),
        },
{
    let ghost p = |b: FunctionBinding| b.name@ == name@;
    proof {
        lemma_first_idx(entries@, p);
    }
    let mut i: usize = 0;
    while i < entries.len()
        invariant
            i <= entries@.len(),
            forall|k: int| 0 <= k < i ==> !p(#[trigger] entries@[k]),
            p == (|b: FunctionBinding| b.name@ == name@),
        decreases entries@.len() - i,
    {
        if entries[i].name == *name {
            proof {
                lemma_first_idx(entries@, p);
                assert(p(entries@[i as int]));
            }
            return Some(i);
        }
        i += 1;
    }
    proof {
        lemma_first_idx(entries@, p);
        if first_idx(entries@, p) < entries@.len() {
            assert(p(entries@[first_idx(entries@, p)]));
        }
    }
    None
}

impl FunctionTable {
    /// An empty table.
    pub fn new() -> (r: Self)
        ensures
            r.entries@.len() == 0,
    {
        FunctionTable { entries: Vec::new() }
    }

    /// Bind `name` to a module and handle.  A name already bound is
    /// rebound in place; a new name is appended.
    pub fn register(&mut self, name: String, module: String, handle: usize)
        ensures
            ({
                let i = function_pos(old(self).entries@, name@);
                let e = if i < old(self).entries@.len() {
                    final(self).entries@[i]
                } else {
                    final(self).entries@.last()
                };
                &&& (if i < old(self).entries@.len() {
                    final(self).entries@ == old(self).entries@.update(i, e)
                } else {
                    final(self).entries@ == old(self).entries@.push(e)
                })
                &&& e.name == name
                &&& e.module == module
                &&& e.handle == handle
            }),
    {
        let binding = FunctionBinding { name: name.clone(), module, handle };
        match find_function(&self.entries, &name) {
            Some(i) => {
                let _ = self.entries.remove(i);
                self.entries.insert(i, binding);
                proof {
                    assert(final(self).entries@ =~= old(self).entries@.update(
                        i as int,
                        final(self).entries@[i as int],
                    ));
                }
            },
            None => {
                self.entries.push(binding);
            },
        }
    }

    /// The handle bound to `name`, if the name is bound at all.
    pub fn lookup(&self, name: &String) -> (r: Option<usize>)
        ensures
            ({
                let i = function_pos(self.entries@, name@);
                match r {
                    Some(h) => i < self.entries@.len() && h == self.entries@[i].handle,
                    None => i == self.entries@.len(),
                }
            }),
    {
        match find_function(&self.entries, name) {
            Some(i) => Some(self.entries[i].handle),
            None => None,
        }
    }
}

} // verus!
