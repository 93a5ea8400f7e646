//! Data carried by the tab and button registration tables.

use vstd::prelude::*;

verus! {

/// Index of the first element satisfying `p`, or the length if none does.
pub open spec fn first_idx<T>(s: Seq<T>, p: spec_fn(T) -> bool) -> int
    decreases s.len(),
{
    if s.len() == 0 {
        0
    } else if p(s[0]) {
        0
    } else {
        1 + first_idx(s.drop_first(), p)
    }
}

pub proof fn lemma_first_idx<T>(s: Seq<T>, p: spec_fn(T) -> bool)
    ensures
        0 <= first_idx(s, p) <= s.len(),
        first_idx(s, p) < s.len() ==> p(s[first_idx(s, p)]),
        forall|k: int| 0 <= k < first_idx(s, p) ==> !p(#[trigger] s[k]),
    decreases s.len(),
{
    if s.len() > 0 && !p(s[0]) {
        lemma_first_idx(s.drop_first(), p);
        assert forall|k: int| 0 <= k < first_idx(s, p) implies !p(#[trigger] s[k]) by {
            if k > 0 {
                assert(s[k] == s.drop_first()[k - 1]);
            }
        }
    }
}

/// A top-level tab contributed by a mod, with its dropdown menus.
#[derive(Debug, Clone)]
pub struct TabDefinition {
    pub id: String,
    pub name: String,
    pub icon: Option<String>,
    pub dropdown_menus: Vec<DropdownMenu>,
}

/// A named dropdown menu inside a tab.
#[derive(Debug, Clone)]
pub struct DropdownMenu {
    pub name: String,
    pub icon: Option<String>,
    pub items: Vec<MenuItem>,
}

/// One entry of a dropdown menu, bound to a registered callback name.
#[derive(Debug, Clone)]
pub struct MenuItem {
    pub name: String,
    pub icon: Option<String>,
    pub function_name: String,
}

/// A standalone button bound to a registered callback name.
#[derive(Debug, Clone)]
pub struct ButtonDefinition {
    pub id: String,
    pub name: String,
    pub icon: Option<String>,
    pub function_name: String,
}

} // verus!
