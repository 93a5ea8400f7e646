//! The tab and button tables that mod scripts populate while loading,
//! reframed as one owned context object, and every operation the
//! registration surface offers on them.
//!
//! Lookups match the first entry with the sought identifier or name;
//! operations on a missing entry leave the tables untouched and report
//! that nothing was found.

use vstd::prelude::*;

use crate::python_bridge::types::ButtonDefinition;
use crate::python_bridge::types::DropdownMenu;
use crate::python_bridge::types::MenuItem;
use crate::python_bridge::types::TabDefinition;
use crate::python_bridge::types::first_idx;
use crate::python_bridge::types::lemma_first_idx;

verus! {

/// The registration tables for one load session.
#[derive(Debug)]
pub struct UiRegistry {
    pub tabs: Vec<TabDefinition>,
    pub buttons: Vec<ButtonDefinition>,
}

/// Index of the first tab carrying `id`, or the table size.
pub open spec fn tab_pos(tabs: Seq<TabDefinition>, id: Seq<char>) -> int {
    first_idx(tabs, |t: TabDefinition| t.id@ == id)
}

/// Index of the first menu named `name`, or the tab's menu count.
pub open spec fn menu_pos(menus: Seq<DropdownMenu>, name: Seq<char>) -> int {
    first_idx(menus, |m: DropdownMenu| m.name@ == name)
}

/// Index of the first item named `name`, or the menu's item count.
pub open spec fn item_pos(items: Seq<MenuItem>, name: Seq<char>) -> int {
    first_idx(items, |m: MenuItem| m.name@ == name)
}

/// Index of the first button carrying `id`, or the table size.
pub open spec fn button_pos(buttons: Seq<ButtonDefinition>, id: Seq<char>) -> int {
    first_idx(buttons, |b: ButtonDefinition| b.id@ == id)
}

impl UiRegistry {
    /// An empty pair of tables.
    pub fn new() -> (r: Self)
        ensures
            r.tabs@.len() == 0,
            r.buttons@.len() == 0,
    {
        UiRegistry { tabs: Vec::new(), buttons: Vec::new() }
    }
}

fn find_tab(tabs: &Vec<TabDefinition>, id: &String) -> (r: Option<usize>)
    ensures
        match r {
            Some(i) => i as int == tab_pos(tabs@, id@) && (i as int) < tabs@.len(),
            None => tab_pos(tabs@, id@) == tabs@.len(),
        },
{
    let ghost p = |t: TabDefinition| t.id@ == id@;
    proof {
        lemma_first_idx(tabs@, p);
    }
    let mut i: usize = 0;
    while i < tabs.len()
        invariant
            i <= tabs@.len(),
            forall|k: int| 0 <= k < i ==> !p(#[trigger] tabs@[k]),
            p == (|t: TabDefinition| t.id@ == id@),
        decreases tabs@.len() - i,
    {
        if tabs[i].id == *id {
            proof {
                lemma_first_idx(tabs@, p);
                assert(p(tabs@[i as int]));
            }
            return Some(i);
        }
        i += 1;
    }
    proof {
        lemma_first_idx(tabs@, p);
        if first_idx(tabs@, p) < tabs@.len() {
            assert(p(tabs@[first_idx(tabs@, p)]));
        }
    }
    None
}

fn find_menu(menus: &Vec<DropdownMenu>, name: &String) -> (r: Option<usize>)
    ensures
        match r {
            Some(i) => i as int == menu_pos(menus@, name@) && (i as int) < menus@.len(),
            None => menu_pos(menus@, name@) == menus@.len(),
        },
{
    let ghost p = |m: DropdownMenu| m.name@ == name@;
    proof {
        lemma_first_idx(menus@, p);
    }
    let mut i: usize = 0;
    while i < menus.len()
        invariant
            i <= menus@.len(),
            forall|k: int| 0 <= k < i ==> !p(#[trigger] menus@[k]),
            p == (|m: DropdownMenu| m.name@ == name@),
        decreases menus@.len() - i,
    {
        if menus[i].name == *name {
            proof {
                lemma_first_idx(menus@, p);
                assert(p(menus@[i as int]));
            }
            return Some(i);
        }
        i += 1;
    }
    proof {
        lemma_first_idx(menus@, p);
        if first_idx(menus@, p) < menus@.len() {
            assert(p(menus@[first_idx(menus@, p)]));
        }
    }
    None
}

fn find_item(items: &Vec<MenuItem>, name: &String) -> (r: Option<usize>)
    ensures
        match r {
            Some(i) => i as int == item_pos(items@, name@) && (i as int) < items@.len(),
            None => item_pos(items@, name@) == items@.len(),
        },
{
    let ghost p = |m: MenuItem| m.name@ == name@;
    proof {
        lemma_first_idx(items@, p);
    }
    let mut i: usize = 0;
    while i < items.len()
        invariant
            i <= items@.len(),
            forall|k: int| 0 <= k < i ==> !p(#[trigger] items@[k]),
            p == (|m: MenuItem| m.name@ == name@),
        decreases items@.len() - i,
    {
        if items[i].name == *name {
            proof {
                lemma_first_idx(items@, p);
                assert(p(items@[i as int]));
            }
            return Some(i);
        }
        i += 1;
    }
    proof {
        lemma_first_idx(items@, p);
        if first_idx(items@, p) < items@.len() {
            assert(p(items@[first_idx(items@, p)]));
        }
    }
    None
}

fn find_button(buttons: &Vec<ButtonDefinition>, id: &String) -> (r: Option<usize>)
    ensures
        match r {
            Some(i) => i as int == button_pos(buttons@, id@) && (i as int) < buttons@.len(),
            None => button_pos(buttons@, id@) == buttons@.len(),
        },
{
    let ghost p = |b: ButtonDefinition| b.id@ == id@;
    proof {
        lemma_first_idx(buttons@, p);
    }
    let mut i: usize = 0;
    while i < buttons.len()
        invariant
            i <= buttons@.len(),
            forall|k: int| 0 <= k < i ==> !p(#[trigger] buttons@[k]),
            p == (|b: ButtonDefinition| b.id@ == id@),
        decreases buttons@.len() - i,
    {
        if buttons[i].id == *id {
            proof {
                lemma_first_idx(buttons@, p);
                assert(p(buttons@[i as int]));
            }
            return Some(i);
        }
        i += 1;
    }
    proof {
        lemma_first_idx(buttons@, p);
        if first_idx(buttons@, p) < buttons@.len() {
            assert(p(buttons@[first_idx(buttons@, p)]));
        }
    }
    None
}

/// Append a new tab with no dropdown menus.
pub fn register_tab(reg: &mut UiRegistry, tab_id: String, tab_name: String, icon: Option<String>)
    ensures
        final(reg).buttons@ == old(reg).buttons@,
        final(reg).tabs@ == old(reg).tabs@.push(final(reg).tabs@.last()),
        ({
            let t = final(reg).tabs@.last();
            &&& t.id == tab_id
            &&& t.name == tab_name
            &&& t.icon == icon
            &&& t.dropdown_menus@.len() == 0
        }),
{
    let tab = TabDefinition { id: tab_id, name: tab_name, icon, dropdown_menus: Vec::new() };
    reg.tabs.push(tab);
}

/// Append an empty dropdown menu to the tab carrying `tab_id`.
pub fn add_dropdown_menu(
    reg: &mut UiRegistry,
    tab_id: String,
    menu_name: String,
    icon: Option<String>,
) -> (found: bool)
    ensures
        found == (tab_pos(old(reg).tabs@, tab_id@) < old(reg).tabs@.len()),
        final(reg).buttons@ == old(reg).buttons@,
        !found ==> final(reg).tabs@ == old(reg).tabs@,
        found ==> ({
            let i = tab_pos(old(reg).tabs@, tab_id@);
            let t0 = old(reg).tabs@[i];
            let t1 = final(reg).tabs@[i];
            &&& final(reg).tabs@ == old(reg).tabs@.update(i, t1)
            &&& t1.id == t0.id
            &&& t1.name == t0.name
            &&& t1.icon == t0.icon
            &&& t1.dropdown_menus@ == t0.dropdown_menus@.push(t1.dropdown_menus@.last())
            &&& ({
                let m = t1.dropdown_menus@.last();
                &&& m.name == menu_name
                &&& m.icon == icon
                &&& m.items@.len() == 0
            })
        }),
{
    match find_tab(&reg.tabs, &tab_id) {
        None => false,
        Some(i) => {
            let mut t = reg.tabs.remove(i);
            t.dropdown_menus.push(DropdownMenu { name: menu_name, icon, items: Vec::new() });
            reg.tabs.insert(i, t);
            proof {
                assert(final(reg).tabs@ =~= old(reg).tabs@.update(
                    i as int,
                    final(reg).tabs@[i as int],
                ));
            }
            true
        },
    }
}

/// Append an item to a named menu of the tab carrying `tab_id`.
pub fn add_menu_item(
    reg: &mut UiRegistry,
    tab_id: String,
    menu_name: String,
    item_name: String,
    function_name: String,
    icon: Option<String>,
) -> (found: bool)
    ensures
        final(reg).buttons@ == old(reg).buttons@,
        ({
            let ts = old(reg).tabs@;
            let ti = tab_pos(ts, tab_id@);
            &&& found == (ti < ts.len() && menu_pos(ts[ti].dropdown_menus@, menu_name@)
                < ts[ti].dropdown_menus@.len())
            &&& !found ==> final(reg).tabs@ == ts
            &&& found ==> ({
                let ms = ts[ti].dropdown_menus@;
                let mi = menu_pos(ms, menu_name@);
                let t1 = final(reg).tabs@[ti];
                let m1 = t1.dropdown_menus@[mi];
                &&& final(reg).tabs@ == ts.update(ti, t1)
                &&& t1.id == ts[ti].id
                &&& t1.name == ts[ti].name
                &&& t1.icon == ts[ti].icon
                &&& t1.dropdown_menus@ == ms.update(mi, m1)
                &&& m1.name == ms[mi].name
                &&& m1.icon == ms[mi].icon
                &&& m1.items@ == ms[mi].items@.push(
                    (MenuItem { name: item_name, icon, function_name }),
                )
            })
        }),
{
    match find_tab(&reg.tabs, &tab_id) {
        None => false,
        Some(i) => {
            match find_menu(&reg.tabs[i].dropdown_menus, &menu_name) {
                None => false,
                Some(j) => {
                    let mut t = reg.tabs.remove(i);
                    let mut m = t.dropdown_menus.remove(j);
                    m.items.push(MenuItem { name: item_name, icon, function_name });
                    t.dropdown_menus.insert(j, m);
                    proof {
                        assert(t.dropdown_menus@ =~= old(reg).tabs@[i as int].dropdown_menus@
                            .update(j as int, t.dropdown_menus@[j as int]));
                    }
                    reg.tabs.insert(i, t);
                    proof {
                        assert(final(reg).tabs@ =~= old(reg).tabs@.update(
                            i as int,
                            final(reg).tabs@[i as int],
                        ));
                    }
                    true
                },
            }
        },
    }
}

/// Append a new standalone button.
pub fn register_button(
    reg: &mut UiRegistry,
    button_id: String,
    button_name: String,
    function_name: String,
    icon: Option<String>,
)
    ensures
        final(reg).tabs@ == old(reg).tabs@,
        final(reg).buttons@ == old(reg).buttons@.push(final(reg).buttons@.last()),
        ({
            let b = final(reg).buttons@.last();
            &&& b.id == button_id
            &&& b.name == button_name
            &&& b.function_name == function_name
            &&& b.icon == icon
        }),
{
    let button = ButtonDefinition { id: button_id, name: button_name, icon, function_name };
    reg.buttons.push(button);
}

/// Replace the icon of the tab carrying `tab_id`.
pub fn modify_tab_icon(reg: &mut UiRegistry, tab_id: String, new_icon: String) -> (found: bool)
    ensures
        found == (tab_pos(old(reg).tabs@, tab_id@) < old(reg).tabs@.len()),
        final(reg).buttons@ == old(reg).buttons@,
        !found ==> final(reg).tabs@ == old(reg).tabs@,
        found ==> ({
            let i = tab_pos(old(reg).tabs@, tab_id@);
            let t0 = old(reg).tabs@[i];
            let t1 = final(reg).tabs@[i];
            &&& final(reg).tabs@ == old(reg).tabs@.update(i, t1)
            &&& t1.id == t0.id
            &&& t1.name == t0.name
            &&& t1.icon == Some(new_icon)
            &&& t1.dropdown_menus@ == t0.dropdown_menus@
        }),
{
    match find_tab(&reg.tabs, &tab_id) {
        None => false,
        Some(i) => {
            let t = reg.tabs.remove(i);
            let t2 = TabDefinition { icon: Some(new_icon), ..t };
            reg.tabs.insert(i, t2);
            proof {
                assert(final(reg).tabs@ =~= old(reg).tabs@.update(
                    i as int,
                    final(reg).tabs@[i as int],
                ));
            }
            true
        },
    }
}

/// Replace the display name of the tab carrying `tab_id`.
pub fn modify_tab_name(reg: &mut UiRegistry, tab_id: String, new_name: String) -> (found: bool)
    ensures
        found == (tab_pos(old(reg).tabs@, tab_id@) < old(reg).tabs@.len()),
        final(reg).buttons@ == old(reg).buttons@,
        !found ==> final(reg).tabs@ == old(reg).tabs@,
        found ==> ({
            let i = tab_pos(old(reg).tabs@, tab_id@);
            let t0 = old(reg).tabs@[i];
            let t1 = final(reg).tabs@[i];
            &&& final(reg).tabs@ == old(reg).tabs@.update(i, t1)
            &&& t1.id == t0.id
            &&& t1.name == new_name
            &&& t1.icon == t0.icon
            &&& t1.dropdown_menus@ == t0.dropdown_menus@
        }),
{
    match find_tab(&reg.tabs, &tab_id) {
        None => false,
        Some(i) => {
            let t = reg.tabs.remove(i);
            let t2 = TabDefinition { name: new_name, ..t };
            reg.tabs.insert(i, t2);
            proof {
                assert(final(reg).tabs@ =~= old(reg).tabs@.update(
                    i as int,
                    final(reg).tabs@[i as int],
                ));
            }
            true
        },
    }
}

/// Append an item to an existing menu: the modification surface's name
/// for the same operation as [`add_menu_item`].
pub fn add_menu_item_to_existing(
    reg: &mut UiRegistry,
    tab_id: String,
    menu_name: String,
    item_name: String,
    function_name: String,
    icon: Option<String>,
) -> (found: bool)
    ensures
        final(reg).buttons@ == old(reg).buttons@,
        ({
            let ts = old(reg).tabs@;
            let ti = tab_pos(ts, tab_id@);
            &&& found == (ti < ts.len() && menu_pos(ts[ti].dropdown_menus@, menu_name@)
                < ts[ti].dropdown_menus@.len())
            &&& !found ==> final(reg).tabs@ == ts
            &&& found ==> ({
                let ms = ts[ti].dropdown_menus@;
                let mi = menu_pos(ms, menu_name@);
                let t1 = final(reg).tabs@[ti];
                let m1 = t1.dropdown_menus@[mi];
                &&& final(reg).tabs@ == ts.update(ti, t1)
                &&& t1.id == ts[ti].id
                &&& t1.name == ts[ti].name
                &&& t1.icon == ts[ti].icon
                &&& t1.dropdown_menus@ == ms.update(mi, m1)
                &&& m1.name == ms[mi].name
                &&& m1.icon == ms[mi].icon
                &&& m1.items@ == ms[mi].items@.push(
                    (MenuItem { name: item_name, icon, function_name }),
                )
            })
        }),
{
    add_menu_item(reg, tab_id, menu_name, item_name, function_name, icon)
}

/// Remove the first item named `item_name` from a named menu.
pub fn remove_menu_item(
    reg: &mut UiRegistry,
    tab_id: String,
    menu_name: String,
    item_name: String,
) -> (found: bool)
    ensures
        final(reg).buttons@ == old(reg).buttons@,
        ({
            let ts = old(reg).tabs@;
            let ti = tab_pos(ts, tab_id@);
            &&& found == (ti < ts.len() && menu_pos(ts[ti].dropdown_menus@, menu_name@)
                < ts[ti].dropdown_menus@.len() && item_pos(
                ts[ti].dropdown_menus@[menu_pos(ts[ti].dropdown_menus@, menu_name@)].items@,
                item_name@,
            ) < ts[ti].dropdown_menus@[menu_pos(ts[ti].dropdown_menus@, menu_name@)].items@.len())
            &&& !found ==> final(reg).tabs@ == ts
            &&& found ==> ({
                let ms = ts[ti].dropdown_menus@;
                let mi = menu_pos(ms, menu_name@);
                let ii = item_pos(ms[mi].items@, item_name@);
                let t1 = final(reg).tabs@[ti];
                let m1 = t1.dropdown_menus@[mi];
                &&& final(reg).tabs@ == ts.update(ti, t1)
                &&& t1.id == ts[ti].id
                &&& t1.name == ts[ti].name
                &&& t1.icon == ts[ti].icon
                &&& t1.dropdown_menus@ == ms.update(mi, m1)
                &&& m1.name == ms[mi].name
                &&& m1.icon == ms[mi].icon
                &&& m1.items@ == ms[mi].items@.remove(ii)
            })
        }),
{
    match find_tab(&reg.tabs, &tab_id) {
        None => false,
        Some(i) => {
            match find_menu(&reg.tabs[i].dropdown_menus, &menu_name) {
                None => false,
                Some(j) => {
                    match find_item(&reg.tabs[i].dropdown_menus[j].items, &item_name) {
                        None => false,
                        Some(k) => {
                            let mut t = reg.tabs.remove(i);
                            let mut m = t.dropdown_menus.remove(j);
                            let _ = m.items.remove(k);
                            t.dropdown_menus.insert(j, m);
                            proof {
                                assert(t.dropdown_menus@ =~= old(reg).tabs@[i as int]
                                    .dropdown_menus@.update(j as int, t.dropdown_menus@[j as int]));
                            }
                            reg.tabs.insert(i, t);
                            proof {
                                assert(final(reg).tabs@ =~= old(reg).tabs@.update(
                                    i as int,
                                    final(reg).tabs@[i as int],
                                ));
                            }
                            true
                        },
                    }
                },
            }
        },
    }
}

/// Rebind the first item named `old_item_name` of a named menu to a new
/// name, callback and icon.
pub fn modify_menu_item(
    reg: &mut UiRegistry,
    tab_id: String,
    menu_name: String,
    old_item_name: String,
    new_item_name: String,
    new_function_name: String,
    new_icon: Option<String>,
) -> (found: bool)
    ensures
        final(reg).buttons@ == old(reg).buttons@,
        ({
            let ts = old(reg).tabs@;
            let ti = tab_pos(ts, tab_id@);
            &&& found == (ti < ts.len() && menu_pos(ts[ti].dropdown_menus@, menu_name@)
                < ts[ti].dropdown_menus@.len() && item_pos(
                ts[ti].dropdown_menus@[menu_pos(ts[ti].dropdown_menus@, menu_name@)].items@,
                old_item_name@,
            ) < ts[ti].dropdown_menus@[menu_pos(ts[ti].dropdown_menus@, menu_name@)].items@.len())
            &&& !found ==> final(reg).tabs@ == ts
            &&& found ==> ({
                let ms = ts[ti].dropdown_menus@;
                let mi = menu_pos(ms, menu_name@);
                let ii = item_pos(ms[mi].items@, old_item_name@);
                let t1 = final(reg).tabs@[ti];
                let m1 = t1.dropdown_menus@[mi];
                &&& final(reg).tabs@ == ts.update(ti, t1)
                &&& t1.id == ts[ti].id
                &&& t1.name == ts[ti].name
                &&& t1.icon == ts[ti].icon
                &&& t1.dropdown_menus@ == ms.update(mi, m1)
                &&& m1.name == ms[mi].name
                &&& m1.icon == ms[mi].icon
                &&& m1.items@ == ms[mi].items@.update(
                    ii,
                    (MenuItem {
                        name: new_item_name,
                        icon: new_icon,
                        function_name: new_function_name,
                    }),
                )
            })
        }),
{
    match find_tab(&reg.tabs, &tab_id) {
        None => false,
        Some(i) => {
            match find_menu(&reg.tabs[i].dropdown_menus, &menu_name) {
                None => false,
                Some(j) => {
                    match find_item(&reg.tabs[i].dropdown_menus[j].items, &old_item_name) {
                        None => false,
                        Some(k) => {
                            let mut t = reg.tabs.remove(i);
                            let mut m = t.dropdown_menus.remove(j);
                            let _ = m.items.remove(k);
                            m.items.insert(
                                k,
                                MenuItem {
                                    name: new_item_name,
                                    icon: new_icon,
                                    function_name: new_function_name,
                                },
                            );
                            proof {
                                assert(m.items@ =~= old(reg).tabs@[i as int].dropdown_menus@[
                                    j as int].items@.update(k as int, m.items@[k as int]));
                            }
                            t.dropdown_menus.insert(j, m);
                            proof {
                                assert(t.dropdown_menus@ =~= old(reg).tabs@[i as int]
                                    .dropdown_menus@.update(j as int, t.dropdown_menus@[j as int]));
                            }
                            reg.tabs.insert(i, t);
                            proof {
                                assert(final(reg).tabs@ =~= old(reg).tabs@.update(
                                    i as int,
                                    final(reg).tabs@[i as int],
                                ));
                            }
                            true
                        },
                    }
                },
            }
        },
    }
}

/// Remove the first button carrying `button_id`.
pub fn remove_button(reg: &mut UiRegistry, button_id: String) -> (found: bool)
    ensures
        final(reg).tabs@ == old(reg).tabs@,
        found == (button_pos(old(reg).buttons@, button_id@) < old(reg).buttons@.len()),
        !found ==> final(reg).buttons@ == old(reg).buttons@,
        found ==> final(reg).buttons@ == old(reg).buttons@.remove(
            button_pos(old(reg).buttons@, button_id@),
        ),
{
    match find_button(&reg.buttons, &button_id) {
        None => false,
        Some(i) => {
            let _ = reg.buttons.remove(i);
            true
        },
    }
}

/// Rebind the first button carrying `button_id` to a new name, callback
/// and icon.
pub fn modify_button(
    reg: &mut UiRegistry,
    button_id: String,
    new_name: String,
    new_function_name: String,
    new_icon: Option<String>,
) -> (found: bool)
    ensures
        final(reg).tabs@ == old(reg).tabs@,
        found == (button_pos(old(reg).buttons@, button_id@) < old(reg).buttons@.len()),
        !found ==> final(reg).buttons@ == old(reg).buttons@,
        found ==> ({
            let i = button_pos(old(reg).buttons@, button_id@);
            let b0 = old(reg).buttons@[i];
            let b1 = final(reg).buttons@[i];
            &&& final(reg).buttons@ == old(reg).buttons@.update(i, b1)
            &&& b1.id == b0.id
            &&& b1.name == new_name
            &&& b1.function_name == new_function_name
            &&& b1.icon == new_icon
        }),
{
    match find_button(&reg.buttons, &button_id) {
        None => false,
        Some(i) => {
            let b = reg.buttons.remove(i);
            let b2 = ButtonDefinition {
                name: new_name,
                function_name: new_function_name,
                icon: new_icon,
                ..b
            };
            reg.buttons.insert(i, b2);
            proof {
                assert(final(reg).buttons@ =~= old(reg).buttons@.update(
                    i as int,
                    final(reg).buttons@[i as int],
                ));
            }
            true
        },
    }
}

} // verus!
