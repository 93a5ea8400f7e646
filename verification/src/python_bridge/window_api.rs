//! The window table and the operations the registration surface offers
//! on it: creating windows, toggling their flags, appending elements, and
//! reading or writing per-element values.
//!
//! Lookups match the first entry with the sought identifier; operations
//! on a missing window leave everything untouched and report that nothing
//! was found.  Writing a value never fails: a missing state entry is
//! created on the way, as the table a script talks to would do.

use vstd::prelude::*;

use crate::python_bridge::types::first_idx;
use crate::python_bridge::types::lemma_first_idx;
use crate::python_bridge::window_types::ButtonElement;
use crate::python_bridge::window_types::CheckboxElement;
use crate::python_bridge::window_types::ColorPickerElement;
use crate::python_bridge::window_types::ComboBoxElement;
use crate::python_bridge::window_types::DragValueElement;
use crate::python_bridge::window_types::ElementState;
use crate::python_bridge::window_types::HeadingElement;
use crate::python_bridge::window_types::HyperlinkElement;
use crate::python_bridge::window_types::ImageElement;
use crate::python_bridge::window_types::LabelElement;
use crate::python_bridge::window_types::ProgressBarElement;
use crate::python_bridge::window_types::RadioButtonElement;
use crate::python_bridge::window_types::SliderElement;
use crate::python_bridge::window_types::TextEditElement;
use crate::python_bridge::window_types::UiElement;
use crate::python_bridge::window_types::WindowDefinition;

verus! {

/// The window table and the element values of each window.
#[derive(Debug)]
pub struct WindowSystem {
    pub windows: Vec<WindowDefinition>,
    pub states: Vec<(String, ElementState)>,
}

impl WindowSystem {
    /// An empty window table.
    pub fn new() -> (r: Self)
        ensures
            r.windows@.len() == 0,
            r.states@.len() == 0,
    {
        WindowSystem { windows: Vec::new(), states: Vec::new() }
    }
}

/// Index of the first window carrying `id`, or the table size.
pub open spec fn window_pos(ws: Seq<WindowDefinition>, id: Seq<char>) -> int {
    first_idx(ws, |w: WindowDefinition| w.id@ == id)
}

/// Index of the first pair keyed by `k`, or the list's length.
pub open spec fn key_pos<T>(s: Seq<(String, T)>, k: Seq<char>) -> int {
    first_idx(s, |p: (String, T)| p.0@ == k)
}

fn find_window(ws: &Vec<WindowDefinition>, id: &String) -> (r: Option<usize>)
    ensures
        match r {
            Some(i) => i as int == window_pos(ws@, id@) && (i as int) < ws@.len(),
            None => window_pos(ws@, id@) == ws@.len(),
        },
{
    let ghost p = |w: WindowDefinition| w.id@ == id@;
    proof {
        lemma_first_idx(ws@, p);
    }
    let mut i: usize = 0;
    while i < ws.len()
        invariant
            i <= ws@.len(),
            forall|k: int| 0 <= k < i ==> !p(#[trigger] ws@[k]),
            p == (|w: WindowDefinition| w.id@ == id@),
        decreases ws@.len() - i,
    {
        if ws[i].id == *id {
            proof {
                lemma_first_idx(ws@, p);
                assert(p(ws@[i as int]));
            }
            return Some(i);
        }
        i += 1;
    }
    proof {
        lemma_first_idx(ws@, p);
        if first_idx(ws@, p) < ws@.len() {
            assert(p(ws@[first_idx(ws@, p)]));
        }
    }
    None
}

fn find_key<T>(s: &Vec<(String, T)>, k: &String) -> (r: Option<usize>)
    ensures
        match r {
            Some(i) => i as int == key_pos(s@, k@) && (i as int) < s@.len(),
            None => key_pos(s@, k@) == s@.len(),
        },
{
    let ghost p = |q: (String, T)| q.0@ == k@;
    proof {
        lemma_first_idx(s@, p);
    }
    let mut i: usize = 0;
    while i < s.len()
        invariant
            i <= s@.len(),
            forall|h: int| 0 <= h < i ==> !p(#[trigger] s@[h]),
            p == (|q: (String, T)| q.0@ == k@),
        decreases s@.len() - i,
    {
        if s[i].0 == *k {
            proof {
                lemma_first_idx(s@, p);
                assert(p(s@[i as int]));
            }
            return Some(i);
        }
        i += 1;
    }
    proof {
        lemma_first_idx(s@, p);
        if first_idx(s@, p) < s@.len() {
            assert(p(s@[first_idx(s@, p)]));
        }
    }
    None
}

/// Append `el` to the element list of the window carrying `window_id`.
fn push_element(ws: &mut WindowSystem, window_id: &String, el: UiElement) -> (found: bool)
    ensures
        found == (window_pos(old(ws).windows@, window_id@) < old(ws).windows@.len()),
        final(ws).states@ == old(ws).states@,
        !found ==> final(ws).windows@ == old(ws).windows@,
        found ==> ({
            let i = window_pos(old(ws).windows@, window_id@);
            let w0 = old(ws).windows@[i];
            let w1 = final(ws).windows@[i];
            &&& final(ws).windows@ == old(ws).windows@.update(i, w1)
            &&& w1.id == w0.id
            &&& w1.title == w0.title
            &&& w1.visible == w0.visible
            &&& w1.resizable == w0.resizable
            &&& w1.collapsible == w0.collapsible
            &&& w1.scroll == w0.scroll
            &&& w1.elements@ == w0.elements@.push(el)
        }),
{
    match find_window(&ws.windows, window_id) {
        None => false,
        Some(i) => {
            let mut w = ws.windows.remove(i);
            w.elements.push(el);
            ws.windows.insert(i, w);
            proof {
                assert(final(ws).windows@ =~= old(ws).windows@.update(
                    i as int,
                    final(ws).windows@[i as int],
                ));
            }
            true
        },
    }
}

/// After initializing `text` value `k` of window `w`: a present value is
/// untouched; a missing one appears with the default; nothing else moves.
pub open spec fn states_text_init(
    s0: Seq<(String, ElementState)>,
    s1: Seq<(String, ElementState)>,
    w: Seq<char>,
    k: Seq<char>,
) -> bool {
    let si = key_pos(s0, w);
    if si < s0.len() {
        if key_pos(s0[si].1.text_values@, k) < s0[si].1.text_values@.len() {
            s1 == s0
        } else {
            &&& s1 == s0.update(si, s1[si])
            &&& s1[si].0 == s0[si].0
            &&& s1[si].1.bool_values@ == s0[si].1.bool_values@
            &&& s1[si].1.combo_values@ == s0[si].1.combo_values@
            &&& s1[si].1.text_values@ == s0[si].1.text_values@.push(
                s1[si].1.text_values@.last(),
            )
            &&& s1[si].1.text_values@.last().0@ == k
            &&& s1[si].1.text_values@.last().1@ == Seq::<char>::empty()
        }
    } else {
        &&& s1 == s0.push(s1.last())
        &&& s1.last().0@ == w
        &&& s1.last().1.bool_values@.len() == 0
        &&& s1.last().1.combo_values@.len() == 0
        &&& s1.last().1.text_values@.len() == 1
        &&& s1.last().1.text_values@[0].0@ == k
        &&& s1.last().1.text_values@[0].1@ == Seq::<char>::empty()
    }
}

fn init_text_state(states: &mut Vec<(String, ElementState)>, w: &String, k: &String)
    ensures
        states_text_init(old(states)@, final(states)@, w@, k@),
{
    match find_key(states, w) {
        Some(si) => {
            match find_key(&states[si].1.text_values, k) {
                Some(_) => {},
                None => {
                    let mut entry = states.remove(si);
                    entry.1.text_values.push((k.clone(), String::new()));
                    states.insert(si, entry);
                    proof {
                        assert(final(states)@ =~= old(states)@.update(
                            si as int,
                            final(states)@[si as int],
                        ));
                    }
                },
            }
        },
        None => {
            let mut st = ElementState::new();
            st.text_values.push((k.clone(), String::new()));
            states.push((w.clone(), st));
        },
    }
}

/// After initializing `bool` value `k` of window `w`: a present value is
/// untouched; a missing one appears with the default; nothing else moves.
pub open spec fn states_bool_init(
    s0: Seq<(String, ElementState)>,
    s1: Seq<(String, ElementState)>,
    w: Seq<char>,
    k: Seq<char>,
) -> bool {
    let si = key_pos(s0, w);
    if si < s0.len() {
        if key_pos(s0[si].1.bool_values@, k) < s0[si].1.bool_values@.len() {
            s1 == s0
        } else {
            &&& s1 == s0.update(si, s1[si])
            &&& s1[si].0 == s0[si].0
            &&& s1[si].1.text_values@ == s0[si].1.text_values@
            &&& s1[si].1.combo_values@ == s0[si].1.combo_values@
            &&& s1[si].1.bool_values@ == s0[si].1.bool_values@.push(
                s1[si].1.bool_values@.last(),
            )
            &&& s1[si].1.bool_values@.last().0@ == k
            &&& !s1[si].1.bool_values@.last().1
        }
    } else {
        &&& s1 == s0.push(s1.last())
        &&& s1.last().0@ == w
        &&& s1.last().1.text_values@.len() == 0
        &&& s1.last().1.combo_values@.len() == 0
        &&& s1.last().1.bool_values@.len() == 1
        &&& s1.last().1.bool_values@[0].0@ == k
        &&& !s1.last().1.bool_values@[0].1
    }
}

fn init_bool_state(states: &mut Vec<(String, ElementState)>, w: &String, k: &String)
    ensures
        states_bool_init(old(states)@, final(states)@, w@, k@),
{
    match find_key(states, w) {
        Some(si) => {
            match find_key(&states[si].1.bool_values, k) {
                Some(_) => {},
                None => {
                    let mut entry = states.remove(si);
                    entry.1.bool_values.push((k.clone(), false));
                    states.insert(si, entry);
                    proof {
                        assert(final(states)@ =~= old(states)@.update(
                            si as int,
                            final(states)@[si as int],
                        ));
                    }
                },
            }
        },
        None => {
            let mut st = ElementState::new();
            st.bool_values.push((k.clone(), false));
            states.push((w.clone(), st));
        },
    }
}

/// After initializing `combo` value `k` of window `w`: a present value is
/// untouched; a missing one appears with the default; nothing else moves.
pub open spec fn states_combo_init(
    s0: Seq<(String, ElementState)>,
    s1: Seq<(String, ElementState)>,
    w: Seq<char>,
    k: Seq<char>,
) -> bool {
    let si = key_pos(s0, w);
    if si < s0.len() {
        if key_pos(s0[si].1.combo_values@, k) < s0[si].1.combo_values@.len() {
            s1 == s0
        } else {
            &&& s1 == s0.update(si, s1[si])
            &&& s1[si].0 == s0[si].0
            &&& s1[si].1.text_values@ == s0[si].1.text_values@
            &&& s1[si].1.bool_values@ == s0[si].1.bool_values@
            &&& s1[si].1.combo_values@ == s0[si].1.combo_values@.push(
                s1[si].1.combo_values@.last(),
            )
            &&& s1[si].1.combo_values@.last().0@ == k
            &&& s1[si].1.combo_values@.last().1 == 0
        }
    } else {
        &&& s1 == s0.push(s1.last())
        &&& s1.last().0@ == w
        &&& s1.last().1.text_values@.len() == 0
        &&& s1.last().1.bool_values@.len() == 0
        &&& s1.last().1.combo_values@.len() == 1
        &&& s1.last().1.combo_values@[0].0@ == k
        &&& s1.last().1.combo_values@[0].1 == 0
    }
}

fn init_combo_state(states: &mut Vec<(String, ElementState)>, w: &String, k: &String)
    ensures
        states_combo_init(old(states)@, final(states)@, w@, k@),
{
    match find_key(states, w) {
        Some(si) => {
            match find_key(&states[si].1.combo_values, k) {
                Some(_) => {},
                None => {
                    let mut entry = states.remove(si);
                    entry.1.combo_values.push((k.clone(), 0));
                    states.insert(si, entry);
                    proof {
                        assert(final(states)@ =~= old(states)@.update(
                            si as int,
                            final(states)@[si as int],
                        ));
                    }
                },
            }
        },
        None => {
            let mut st = ElementState::new();
            st.combo_values.push((k.clone(), 0));
            states.push((w.clone(), st));
        },
    }
}


/// Create a window, or reset an existing one with the same identifier to
/// a fresh window under the new title.
pub fn create_window(ws: &mut WindowSystem, id: String, title: String)
    ensures
        final(ws).states@ == old(ws).states@,
        ({
            let i = window_pos(old(ws).windows@, id@);
            let w = if i < old(ws).windows@.len() {
                final(ws).windows@[i]
            } else {
                final(ws).windows@.last()
            };
            &&& (if i < old(ws).windows@.len() {
                final(ws).windows@ == old(ws).windows@.update(i, w)
            } else {
                final(ws).windows@ == old(ws).windows@.push(w)
            })
            &&& w.id == id
            &&& w.title == title
            &&& w.visible
            &&& w.resizable
            &&& w.collapsible
            &&& w.scroll
            &&& w.elements@.len() == 0
        }),
{
    let fresh = WindowDefinition::new(id.clone(), title);
    match find_window(&ws.windows, &id) {
        Some(i) => {
            let _ = ws.windows.remove(i);
            ws.windows.insert(i, fresh);
            proof {
                assert(final(ws).windows@ =~= old(ws).windows@.update(
                    i as int,
                    final(ws).windows@[i as int],
                ));
            }
        },
        None => {
            ws.windows.push(fresh);
        },
    }
}

/// Make the window carrying `id` visible.
pub fn show_window(ws: &mut WindowSystem, id: String) -> (found: bool)
    ensures
        found == (window_pos(old(ws).windows@, id@) < old(ws).windows@.len()),
        final(ws).states@ == old(ws).states@,
        !found ==> final(ws).windows@ == old(ws).windows@,
        found ==> ({
            let i = window_pos(old(ws).windows@, id@);
            let w0 = old(ws).windows@[i];
            let w1 = final(ws).windows@[i];
            &&& final(ws).windows@ == old(ws).windows@.update(i, w1)
            &&& w1.id == w0.id
            &&& w1.title == w0.title
            &&& w1.visible == true
            &&& w1.resizable == w0.resizable
            &&& w1.collapsible == w0.collapsible
            &&& w1.scroll == w0.scroll
            &&& w1.elements@ == w0.elements@
        }),
{
    match find_window(&ws.windows, &id) {
        None => false,
        Some(i) => {
            let w = ws.windows.remove(i);
            let w2 = WindowDefinition { visible: true, ..w };
            ws.windows.insert(i, w2);
            proof {
                assert(final(ws).windows@ =~= old(ws).windows@.update(
                    i as int,
                    final(ws).windows@[i as int],
                ));
            }
            true
        },
    }
}

/// Make the window carrying `id` invisible.
pub fn hide_window(ws: &mut WindowSystem, id: String) -> (found: bool)
    ensures
        found == (window_pos(old(ws).windows@, id@) < old(ws).windows@.len()),
        final(ws).states@ == old(ws).states@,
        !found ==> final(ws).windows@ == old(ws).windows@,
        found ==> ({
            let i = window_pos(old(ws).windows@, id@);
            let w0 = old(ws).windows@[i];
            let w1 = final(ws).windows@[i];
            &&& final(ws).windows@ == old(ws).windows@.update(i, w1)
            &&& w1.id == w0.id
            &&& w1.title == w0.title
            &&& w1.visible == false
            &&& w1.resizable == w0.resizable
            &&& w1.collapsible == w0.collapsible
            &&& w1.scroll == w0.scroll
            &&& w1.elements@ == w0.elements@
        }),
{
    match find_window(&ws.windows, &id) {
        None => false,
        Some(i) => {
            let w = ws.windows.remove(i);
            let w2 = WindowDefinition { visible: false, ..w };
            ws.windows.insert(i, w2);
            proof {
                assert(final(ws).windows@ =~= old(ws).windows@.update(
                    i as int,
                    final(ws).windows@[i as int],
                ));
            }
            true
        },
    }
}

/// Set whether the window carrying `id` can be resized.
pub fn set_window_resizable(ws: &mut WindowSystem, id: String, resizable: bool) -> (found: bool)
    ensures
        found == (window_pos(old(ws).windows@, id@) < old(ws).windows@.len()),
        final(ws).states@ == old(ws).states@,
        !found ==> final(ws).windows@ == old(ws).windows@,
        found ==> ({
            let i = window_pos(old(ws).windows@, id@);
            let w0 = old(ws).windows@[i];
            let w1 = final(ws).windows@[i];
            &&& final(ws).windows@ == old(ws).windows@.update(i, w1)
            &&& w1.id == w0.id
            &&& w1.title == w0.title
            &&& w1.resizable == resizable
            &&& w1.visible == w0.visible
            &&& w1.collapsible == w0.collapsible
            &&& w1.scroll == w0.scroll
            &&& w1.elements@ == w0.elements@
        }),
{
    match find_window(&ws.windows, &id) {
        None => false,
        Some(i) => {
            let w = ws.windows.remove(i);
            let w2 = WindowDefinition { resizable: resizable, ..w };
            ws.windows.insert(i, w2);
            proof {
                assert(final(ws).windows@ =~= old(ws).windows@.update(
                    i as int,
                    final(ws).windows@[i as int],
                ));
            }
            true
        },
    }
}

/// Set whether the window carrying `id` can be collapsed.
pub fn set_window_collapsible(ws: &mut WindowSystem, id: String, collapsible: bool) -> (found: bool)
    ensures
        found == (window_pos(old(ws).windows@, id@) < old(ws).windows@.len()),
        final(ws).states@ == old(ws).states@,
        !found ==> final(ws).windows@ == old(ws).windows@,
        found ==> ({
            let i = window_pos(old(ws).windows@, id@);
            let w0 = old(ws).windows@[i];
            let w1 = final(ws).windows@[i];
            &&& final(ws).windows@ == old(ws).windows@.update(i, w1)
            &&& w1.id == w0.id
            &&& w1.title == w0.title
            &&& w1.collapsible == collapsible
            &&& w1.visible == w0.visible
            &&& w1.resizable == w0.resizable
            &&& w1.scroll == w0.scroll
            &&& w1.elements@ == w0.elements@
        }),
{
    match find_window(&ws.windows, &id) {
        None => false,
        Some(i) => {
            let w = ws.windows.remove(i);
            let w2 = WindowDefinition { collapsible: collapsible, ..w };
            ws.windows.insert(i, w2);
            proof {
                assert(final(ws).windows@ =~= old(ws).windows@.update(
                    i as int,
                    final(ws).windows@[i as int],
                ));
            }
            true
        },
    }
}

/// Set whether the window carrying `id` scrolls its contents.
pub fn set_window_scroll(ws: &mut WindowSystem, id: String, scroll: bool) -> (found: bool)
    ensures
        found == (window_pos(old(ws).windows@, id@) < old(ws).windows@.len()),
        final(ws).states@ == old(ws).states@,
        !found ==> final(ws).windows@ == old(ws).windows@,
        found ==> ({
            let i = window_pos(old(ws).windows@, id@);
            let w0 = old(ws).windows@[i];
            let w1 = final(ws).windows@[i];
            &&& final(ws).windows@ == old(ws).windows@.update(i, w1)
            &&& w1.id == w0.id
            &&& w1.title == w0.title
            &&& w1.scroll == scroll
            &&& w1.visible == w0.visible
            &&& w1.resizable == w0.resizable
            &&& w1.collapsible == w0.collapsible
            &&& w1.elements@ == w0.elements@
        }),
{
    match find_window(&ws.windows, &id) {
        None => false,
        Some(i) => {
            let w = ws.windows.remove(i);
            let w2 = WindowDefinition { scroll: scroll, ..w };
            ws.windows.insert(i, w2);
            proof {
                assert(final(ws).windows@ =~= old(ws).windows@.update(
                    i as int,
                    final(ws).windows@[i as int],
                ));
            }
            true
        },
    }
}

/// `v`, or `false` when absent.
pub open spec fn spec_opt_false(v: Option<bool>) -> bool {
    match v {
        Some(b) => b,
        None => false,
    }
}

/// `v`, or `true` when absent.
pub open spec fn spec_opt_true(v: Option<bool>) -> bool {
    match v {
        Some(b) => b,
        None => true,
    }
}

fn opt_false(v: Option<bool>) -> (r: bool)
    ensures
        r == spec_opt_false(v),
{
    match v {
        Some(b) => b,
        None => false,
    }
}

fn opt_true(v: Option<bool>) -> (r: bool)
    ensures
        r == spec_opt_true(v),
{
    match v {
        Some(b) => b,
        None => true,
    }
}

/// Append a text label to the window carrying `window_id`.
pub fn add_label(ws: &mut WindowSystem, window_id: String, text: String, wrap: Option<bool>, selectable: Option<bool>) -> (found: bool)
    ensures
        found == (window_pos(old(ws).windows@, window_id@) < old(ws).windows@.len()),
        final(ws).states@ == old(ws).states@,
        !found ==> final(ws).windows@ == old(ws).windows@,
        found ==> ({
            let i = window_pos(old(ws).windows@, window_id@);
            let w0 = old(ws).windows@[i];
            let w1 = final(ws).windows@[i];
            &&& final(ws).windows@ == old(ws).windows@.update(i, w1)
            &&& w1.id == w0.id
            &&& w1.title == w0.title
            &&& w1.visible == w0.visible
            &&& w1.resizable == w0.resizable
            &&& w1.collapsible == w0.collapsible
            &&& w1.scroll == w0.scroll
            &&& w1.elements@ == w0.elements@.push((UiElement::Label(LabelElement { text, wrap: spec_opt_false(wrap), selectable: spec_opt_false(selectable) })))
        }),
{
    let found = push_element(ws, &window_id, UiElement::Label(LabelElement { text, wrap: opt_false(wrap), selectable: opt_false(selectable) }));
    found
}

/// Append a push button to the window carrying `window_id`.
pub fn add_button(ws: &mut WindowSystem, window_id: String, text: String, function_name: Option<String>, small: Option<bool>) -> (found: bool)
    ensures
        found == (window_pos(old(ws).windows@, window_id@) < old(ws).windows@.len()),
        final(ws).states@ == old(ws).states@,
        !found ==> final(ws).windows@ == old(ws).windows@,
        found ==> ({
            let i = window_pos(old(ws).windows@, window_id@);
            let w0 = old(ws).windows@[i];
            let w1 = final(ws).windows@[i];
            &&& final(ws).windows@ == old(ws).windows@.update(i, w1)
            &&& w1.id == w0.id
            &&& w1.title == w0.title
            &&& w1.visible == w0.visible
            &&& w1.resizable == w0.resizable
            &&& w1.collapsible == w0.collapsible
            &&& w1.scroll == w0.scroll
            &&& w1.elements@ == w0.elements@.push((UiElement::Button(ButtonElement { text, function_name, small: spec_opt_false(small) })))
        }),
{
    let found = push_element(ws, &window_id, UiElement::Button(ButtonElement { text, function_name, small: opt_false(small) }));
    found
}

/// Append a text-edit field and give it an empty initial value.
pub fn add_text_edit(ws: &mut WindowSystem, window_id: String, id: String, multiline: Option<bool>, hint: Option<String>, password: Option<bool>) -> (found: bool)
    ensures
        found == (window_pos(old(ws).windows@, window_id@) < old(ws).windows@.len()),
        found ==> states_text_init(old(ws).states@, final(ws).states@, window_id@, id@),
        !found ==> final(ws).states@ == old(ws).states@,
        !found ==> final(ws).windows@ == old(ws).windows@,
        found ==> ({
            let i = window_pos(old(ws).windows@, window_id@);
            let w0 = old(ws).windows@[i];
            let w1 = final(ws).windows@[i];
            &&& final(ws).windows@ == old(ws).windows@.update(i, w1)
            &&& w1.id == w0.id
            &&& w1.title == w0.title
            &&& w1.visible == w0.visible
            &&& w1.resizable == w0.resizable
            &&& w1.collapsible == w0.collapsible
            &&& w1.scroll == w0.scroll
            &&& w1.elements@ == w0.elements@.push((UiElement::TextEdit(TextEditElement { id, multiline: spec_opt_false(multiline), hint, password: spec_opt_false(password) })))
        }),
{
    let found = push_element(ws, &window_id, UiElement::TextEdit(TextEditElement { id: id.clone(), multiline: opt_false(multiline), hint, password: opt_false(password) }));
    if found {
        init_text_state(&mut ws.states, &window_id, &id);
    }
    found
}

/// Append a checkbox and give it an unchecked initial value.
pub fn add_checkbox(ws: &mut WindowSystem, window_id: String, id: String, label: String) -> (found: bool)
    ensures
        found == (window_pos(old(ws).windows@, window_id@) < old(ws).windows@.len()),
        found ==> states_bool_init(old(ws).states@, final(ws).states@, window_id@, id@),
        !found ==> final(ws).states@ == old(ws).states@,
        !found ==> final(ws).windows@ == old(ws).windows@,
        found ==> ({
            let i = window_pos(old(ws).windows@, window_id@);
            let w0 = old(ws).windows@[i];
            let w1 = final(ws).windows@[i];
            &&& final(ws).windows@ == old(ws).windows@.update(i, w1)
            &&& w1.id == w0.id
            &&& w1.title == w0.title
            &&& w1.visible == w0.visible
            &&& w1.resizable == w0.resizable
            &&& w1.collapsible == w0.collapsible
            &&& w1.scroll == w0.scroll
            &&& w1.elements@ == w0.elements@.push((UiElement::Checkbox(CheckboxElement { id, label })))
        }),
{
    let found = push_element(ws, &window_id, UiElement::Checkbox(CheckboxElement { id: id.clone(), label }));
    if found {
        init_bool_state(&mut ws.states, &window_id, &id);
    }
    found
}

/// Append a radio button and give it an unselected initial value.
pub fn add_radio_button(ws: &mut WindowSystem, window_id: String, id: String, label: String, group: String) -> (found: bool)
    ensures
        found == (window_pos(old(ws).windows@, window_id@) < old(ws).windows@.len()),
        found ==> states_bool_init(old(ws).states@, final(ws).states@, window_id@, id@),
        !found ==> final(ws).states@ == old(ws).states@,
        !found ==> final(ws).windows@ == old(ws).windows@,
        found ==> ({
            let i = window_pos(old(ws).windows@, window_id@);
            let w0 = old(ws).windows@[i];
            let w1 = final(ws).windows@[i];
            &&& final(ws).windows@ == old(ws).windows@.update(i, w1)
            &&& w1.id == w0.id
            &&& w1.title == w0.title
            &&& w1.visible == w0.visible
            &&& w1.resizable == w0.resizable
            &&& w1.collapsible == w0.collapsible
            &&& w1.scroll == w0.scroll
            &&& w1.elements@ == w0.elements@.push((UiElement::RadioButton(RadioButtonElement { id, label, group })))
        }),
{
    let found = push_element(ws, &window_id, UiElement::RadioButton(RadioButtonElement { id: id.clone(), label, group }));
    if found {
        init_bool_state(&mut ws.states, &window_id, &id);
    }
    found
}

/// Append a slider; its numeric range and value live with the rendering layer.
pub fn add_slider(ws: &mut WindowSystem, window_id: String, id: String, label: Option<String>, integer: Option<bool>) -> (found: bool)
    ensures
        found == (window_pos(old(ws).windows@, window_id@) < old(ws).windows@.len()),
        final(ws).states@ == old(ws).states@,
        !found ==> final(ws).windows@ == old(ws).windows@,
        found ==> ({
            let i = window_pos(old(ws).windows@, window_id@);
            let w0 = old(ws).windows@[i];
            let w1 = final(ws).windows@[i];
            &&& final(ws).windows@ == old(ws).windows@.update(i, w1)
            &&& w1.id == w0.id
            &&& w1.title == w0.title
            &&& w1.visible == w0.visible
            &&& w1.resizable == w0.resizable
            &&& w1.collapsible == w0.collapsible
            &&& w1.scroll == w0.scroll
            &&& w1.elements@ == w0.elements@.push((UiElement::Slider(SliderElement { id, label, integer: spec_opt_false(integer) })))
        }),
{
    let found = push_element(ws, &window_id, UiElement::Slider(SliderElement { id, label, integer: opt_false(integer) }));
    found
}

/// Append a drag-value; its numeric value lives with the rendering layer.
pub fn add_drag_value(ws: &mut WindowSystem, window_id: String, id: String, label: Option<String>) -> (found: bool)
    ensures
        found == (window_pos(old(ws).windows@, window_id@) < old(ws).windows@.len()),
        final(ws).states@ == old(ws).states@,
        !found ==> final(ws).windows@ == old(ws).windows@,
        found ==> ({
            let i = window_pos(old(ws).windows@, window_id@);
            let w0 = old(ws).windows@[i];
            let w1 = final(ws).windows@[i];
            &&& final(ws).windows@ == old(ws).windows@.update(i, w1)
            &&& w1.id == w0.id
            &&& w1.title == w0.title
            &&& w1.visible == w0.visible
            &&& w1.resizable == w0.resizable
            &&& w1.collapsible == w0.collapsible
            &&& w1.scroll == w0.scroll
            &&& w1.elements@ == w0.elements@.push((UiElement::DragValue(DragValueElement { id, label })))
        }),
{
    let found = push_element(ws, &window_id, UiElement::DragValue(DragValueElement { id, label }));
    found
}

/// Append a combo box and select its first option initially.
pub fn add_combo_box(ws: &mut WindowSystem, window_id: String, id: String, label: String, options: Vec<String>) -> (found: bool)
    ensures
        found == (window_pos(old(ws).windows@, window_id@) < old(ws).windows@.len()),
        found ==> states_combo_init(old(ws).states@, final(ws).states@, window_id@, id@),
        !found ==> final(ws).states@ == old(ws).states@,
        !found ==> final(ws).windows@ == old(ws).windows@,
        found ==> ({
            let i = window_pos(old(ws).windows@, window_id@);
            let w0 = old(ws).windows@[i];
            let w1 = final(ws).windows@[i];
            &&& final(ws).windows@ == old(ws).windows@.update(i, w1)
            &&& w1.id == w0.id
            &&& w1.title == w0.title
            &&& w1.visible == w0.visible
            &&& w1.resizable == w0.resizable
            &&& w1.collapsible == w0.collapsible
            &&& w1.scroll == w0.scroll
            &&& w1.elements@ == w0.elements@.push((UiElement::ComboBox(ComboBoxElement { id, label, options })))
        }),
{
    let found = push_element(ws, &window_id, UiElement::ComboBox(ComboBoxElement { id: id.clone(), label, options }));
    if found {
        init_combo_state(&mut ws.states, &window_id, &id);
    }
    found
}

/// Append a horizontal separator line.
pub fn add_separator(ws: &mut WindowSystem, window_id: String) -> (found: bool)
    ensures
        found == (window_pos(old(ws).windows@, window_id@) < old(ws).windows@.len()),
        final(ws).states@ == old(ws).states@,
        !found ==> final(ws).windows@ == old(ws).windows@,
        found ==> ({
            let i = window_pos(old(ws).windows@, window_id@);
            let w0 = old(ws).windows@[i];
            let w1 = final(ws).windows@[i];
            &&& final(ws).windows@ == old(ws).windows@.update(i, w1)
            &&& w1.id == w0.id
            &&& w1.title == w0.title
            &&& w1.visible == w0.visible
            &&& w1.resizable == w0.resizable
            &&& w1.collapsible == w0.collapsible
            &&& w1.scroll == w0.scroll
            &&& w1.elements@ == w0.elements@.push((UiElement::Separator))
        }),
{
    let found = push_element(ws, &window_id, UiElement::Separator);
    found
}

/// Append vertical spacing; its amount lives with the rendering layer.
pub fn add_spacing(ws: &mut WindowSystem, window_id: String) -> (found: bool)
    ensures
        found == (window_pos(old(ws).windows@, window_id@) < old(ws).windows@.len()),
        final(ws).states@ == old(ws).states@,
        !found ==> final(ws).windows@ == old(ws).windows@,
        found ==> ({
            let i = window_pos(old(ws).windows@, window_id@);
            let w0 = old(ws).windows@[i];
            let w1 = final(ws).windows@[i];
            &&& final(ws).windows@ == old(ws).windows@.update(i, w1)
            &&& w1.id == w0.id
            &&& w1.title == w0.title
            &&& w1.visible == w0.visible
            &&& w1.resizable == w0.resizable
            &&& w1.collapsible == w0.collapsible
            &&& w1.scroll == w0.scroll
            &&& w1.elements@ == w0.elements@.push((UiElement::Spacing))
        }),
{
    let found = push_element(ws, &window_id, UiElement::Spacing);
    found
}

/// Append a hyperlink.
pub fn add_hyperlink(ws: &mut WindowSystem, window_id: String, text: String, url: String) -> (found: bool)
    ensures
        found == (window_pos(old(ws).windows@, window_id@) < old(ws).windows@.len()),
        final(ws).states@ == old(ws).states@,
        !found ==> final(ws).windows@ == old(ws).windows@,
        found ==> ({
            let i = window_pos(old(ws).windows@, window_id@);
            let w0 = old(ws).windows@[i];
            let w1 = final(ws).windows@[i];
            &&& final(ws).windows@ == old(ws).windows@.update(i, w1)
            &&& w1.id == w0.id
            &&& w1.title == w0.title
            &&& w1.visible == w0.visible
            &&& w1.resizable == w0.resizable
            &&& w1.collapsible == w0.collapsible
            &&& w1.scroll == w0.scroll
            &&& w1.elements@ == w0.elements@.push((UiElement::Hyperlink(HyperlinkElement { text, url })))
        }),
{
    let found = push_element(ws, &window_id, UiElement::Hyperlink(HyperlinkElement { text, url }));
    found
}

/// Append an image by source path; its display size lives with the rendering layer.
pub fn add_image(ws: &mut WindowSystem, window_id: String, path: String) -> (found: bool)
    ensures
        found == (window_pos(old(ws).windows@, window_id@) < old(ws).windows@.len()),
        final(ws).states@ == old(ws).states@,
        !found ==> final(ws).windows@ == old(ws).windows@,
        found ==> ({
            let i = window_pos(old(ws).windows@, window_id@);
            let w0 = old(ws).windows@[i];
            let w1 = final(ws).windows@[i];
            &&& final(ws).windows@ == old(ws).windows@.update(i, w1)
            &&& w1.id == w0.id
            &&& w1.title == w0.title
            &&& w1.visible == w0.visible
            &&& w1.resizable == w0.resizable
            &&& w1.collapsible == w0.collapsible
            &&& w1.scroll == w0.scroll
            &&& w1.elements@ == w0.elements@.push((UiElement::Image(ImageElement { path })))
        }),
{
    let found = push_element(ws, &window_id, UiElement::Image(ImageElement { path }));
    found
}

/// Append a progress bar; its numeric value lives with the rendering layer.
pub fn add_progress_bar(ws: &mut WindowSystem, window_id: String, id: String, show_percentage: Option<bool>) -> (found: bool)
    ensures
        found == (window_pos(old(ws).windows@, window_id@) < old(ws).windows@.len()),
        final(ws).states@ == old(ws).states@,
        !found ==> final(ws).windows@ == old(ws).windows@,
        found ==> ({
            let i = window_pos(old(ws).windows@, window_id@);
            let w0 = old(ws).windows@[i];
            let w1 = final(ws).windows@[i];
            &&& final(ws).windows@ == old(ws).windows@.update(i, w1)
            &&& w1.id == w0.id
            &&& w1.title == w0.title
            &&& w1.visible == w0.visible
            &&& w1.resizable == w0.resizable
            &&& w1.collapsible == w0.collapsible
            &&& w1.scroll == w0.scroll
            &&& w1.elements@ == w0.elements@.push((UiElement::ProgressBar(ProgressBarElement { id, show_percentage: spec_opt_true(show_percentage) })))
        }),
{
    let found = push_element(ws, &window_id, UiElement::ProgressBar(ProgressBarElement { id, show_percentage: opt_true(show_percentage) }));
    found
}

/// Append a loading spinner; its size lives with the rendering layer.
pub fn add_spinner(ws: &mut WindowSystem, window_id: String) -> (found: bool)
    ensures
        found == (window_pos(old(ws).windows@, window_id@) < old(ws).windows@.len()),
        final(ws).states@ == old(ws).states@,
        !found ==> final(ws).windows@ == old(ws).windows@,
        found ==> ({
            let i = window_pos(old(ws).windows@, window_id@);
            let w0 = old(ws).windows@[i];
            let w1 = final(ws).windows@[i];
            &&& final(ws).windows@ == old(ws).windows@.update(i, w1)
            &&& w1.id == w0.id
            &&& w1.title == w0.title
            &&& w1.visible == w0.visible
            &&& w1.resizable == w0.resizable
            &&& w1.collapsible == w0.collapsible
            &&& w1.scroll == w0.scroll
            &&& w1.elements@ == w0.elements@.push((UiElement::Spinner))
        }),
{
    let found = push_element(ws, &window_id, UiElement::Spinner);
    found
}

/// Append a color picker; its color value lives with the rendering layer.
pub fn add_color_picker(ws: &mut WindowSystem, window_id: String, id: String, label: String, alpha: Option<bool>) -> (found: bool)
    ensures
        found == (window_pos(old(ws).windows@, window_id@) < old(ws).windows@.len()),
        final(ws).states@ == old(ws).states@,
        !found ==> final(ws).windows@ == old(ws).windows@,
        found ==> ({
            let i = window_pos(old(ws).windows@, window_id@);
            let w0 = old(ws).windows@[i];
            let w1 = final(ws).windows@[i];
            &&& final(ws).windows@ == old(ws).windows@.update(i, w1)
            &&& w1.id == w0.id
            &&& w1.title == w0.title
            &&& w1.visible == w0.visible
            &&& w1.resizable == w0.resizable
            &&& w1.collapsible == w0.collapsible
            &&& w1.scroll == w0.scroll
            &&& w1.elements@ == w0.elements@.push((UiElement::ColorPicker(ColorPickerElement { id, label, alpha: spec_opt_false(alpha) })))
        }),
{
    let found = push_element(ws, &window_id, UiElement::ColorPicker(ColorPickerElement { id, label, alpha: opt_false(alpha) }));
    found
}

/// The heading level actually shown: the requested level clamped into
/// 1 through 3, or 1 when none was requested.
pub open spec fn spec_heading_level(level: Option<u8>) -> u8 {
    match level {
        Some(l) => if l < 1 { 1 } else if l > 3 { 3 } else { l },
        None => 1,
    }
}

/// Append a heading at the requested level, clamped into 1 through 3.
pub fn add_heading(ws: &mut WindowSystem, window_id: String, text: String, level: Option<u8>) -> (found: bool)
    ensures
        found == (window_pos(old(ws).windows@, window_id@) < old(ws).windows@.len()),
        final(ws).states@ == old(ws).states@,
        !found ==> final(ws).windows@ == old(ws).windows@,
        found ==> ({
            let i = window_pos(old(ws).windows@, window_id@);
            let w0 = old(ws).windows@[i];
            let w1 = final(ws).windows@[i];
            &&& final(ws).windows@ == old(ws).windows@.update(i, w1)
            &&& w1.id == w0.id
            &&& w1.title == w0.title
            &&& w1.visible == w0.visible
            &&& w1.resizable == w0.resizable
            &&& w1.collapsible == w0.collapsible
            &&& w1.scroll == w0.scroll
            &&& w1.elements@ == w0.elements@.push(
                (UiElement::Heading(HeadingElement { text, level: spec_heading_level(level) })),
            )
        }),
{
    let lv: u8 = match level {
        Some(l) => if l < 1 {
            1
        } else if l > 3 {
            3
        } else {
            l
        },
        None => 1,
    };
    push_element(ws, &window_id, UiElement::Heading(HeadingElement { text, level: lv }))
}


/// The recorded text value of element `k` of window `w`, or the
/// default when the window or the element has no recorded value.
pub open spec fn spec_text_value(s: Seq<(String, ElementState)>, w: Seq<char>, k: Seq<char>) -> Seq<char> {
    let si = key_pos(s, w);
    if si < s.len() {
        let tp = key_pos(s[si].1.text_values@, k);
        if tp < s[si].1.text_values@.len() {
            s[si].1.text_values@[tp].1@
        } else {
            Seq::<char>::empty()
        }
    } else {
        Seq::<char>::empty()
    }
}

/// Read an element's text value.
pub fn get_text_value(states: &Vec<(String, ElementState)>, window_id: String, element_id: String) -> (r: String)
    ensures
        r@ == spec_text_value(states@, window_id@, element_id@),
{
    match find_key(states, &window_id) {
        Some(si) => {
            match find_key(&states[si].1.text_values, &element_id) {
                Some(tp) => states[si].1.text_values[tp].1.clone(),
                None => String::new(),
            }
        },
        None => String::new(),
    }
}

/// The recorded bool value of element `k` of window `w`, or the
/// default when the window or the element has no recorded value.
pub open spec fn spec_bool_value(s: Seq<(String, ElementState)>, w: Seq<char>, k: Seq<char>) -> bool {
    let si = key_pos(s, w);
    if si < s.len() {
        let tp = key_pos(s[si].1.bool_values@, k);
        if tp < s[si].1.bool_values@.len() {
            s[si].1.bool_values@[tp].1
        } else {
            false
        }
    } else {
        false
    }
}

/// Read an element's bool value.
pub fn get_bool_value(states: &Vec<(String, ElementState)>, window_id: String, element_id: String) -> (r: bool)
    ensures
        r == spec_bool_value(states@, window_id@, element_id@),
{
    match find_key(states, &window_id) {
        Some(si) => {
            match find_key(&states[si].1.bool_values, &element_id) {
                Some(tp) => states[si].1.bool_values[tp].1,
                None => false,
            }
        },
        None => false,
    }
}

/// The recorded combo value of element `k` of window `w`, or the
/// default when the window or the element has no recorded value.
pub open spec fn spec_combo_value(s: Seq<(String, ElementState)>, w: Seq<char>, k: Seq<char>) -> int {
    let si = key_pos(s, w);
    if si < s.len() {
        let tp = key_pos(s[si].1.combo_values@, k);
        if tp < s[si].1.combo_values@.len() {
            s[si].1.combo_values@[tp].1 as int
        } else {
            0
        }
    } else {
        0
    }
}

/// Read an element's combo value.
pub fn get_combo_value(states: &Vec<(String, ElementState)>, window_id: String, element_id: String) -> (r: usize)
    ensures
        r as int == spec_combo_value(states@, window_id@, element_id@),
{
    match find_key(states, &window_id) {
        Some(si) => {
            match find_key(&states[si].1.combo_values, &element_id) {
                Some(tp) => states[si].1.combo_values[tp].1,
                None => 0,
            }
        },
        None => 0,
    }
}

/// After writing text value `k := value` of window `w`: the entry holds
/// the new value, appearing if it was absent, as is the window's state
/// entry itself; nothing else moves.
pub open spec fn states_text_set(
    s0: Seq<(String, ElementState)>,
    s1: Seq<(String, ElementState)>,
    w: Seq<char>,
    k: Seq<char>,
    value: String,
) -> bool {
    let si = key_pos(s0, w);
    if si < s0.len() {
        &&& s1 == s0.update(si, s1[si])
        &&& s1[si].0 == s0[si].0
        &&& s1[si].1.bool_values@ == s0[si].1.bool_values@
        &&& s1[si].1.combo_values@ == s0[si].1.combo_values@
        &&& ({
            let vs0 = s0[si].1.text_values@;
            let vs1 = s1[si].1.text_values@;
            let tp = key_pos(vs0, k);
            if tp < vs0.len() {
                &&& vs1 == vs0.update(tp, vs1[tp])
                &&& vs1[tp].0@ == k
                &&& vs1[tp].1 == value
            } else {
                &&& vs1 == vs0.push(vs1.last())
                &&& vs1.last().0@ == k
                &&& vs1.last().1 == value
            }
        })
    } else {
        &&& s1 == s0.push(s1.last())
        &&& s1.last().0@ == w
        &&& s1.last().1.bool_values@.len() == 0
        &&& s1.last().1.combo_values@.len() == 0
        &&& s1.last().1.text_values@.len() == 1
        &&& s1.last().1.text_values@[0].0@ == k
        &&& s1.last().1.text_values@[0].1 == value
    }
}

/// Write an element's text value, creating the window's state entry and
/// the element's entry as needed.
pub fn set_text_value(states: &mut Vec<(String, ElementState)>, window_id: String, element_id: String, value: String)
    ensures
        states_text_set(old(states)@, final(states)@, window_id@, element_id@, value),
{
    match find_key(states, &window_id) {
        Some(si) => {
            let mut entry = states.remove(si);
            match find_key(&entry.1.text_values, &element_id) {
                Some(tp) => {
                    let _ = entry.1.text_values.remove(tp);
                    entry.1.text_values.insert(tp, (element_id, value));
                    proof {
                        assert(entry.1.text_values@ =~= old(states)@[si as int].1.text_values@
                            .update(tp as int, entry.1.text_values@[tp as int]));
                    }
                },
                None => {
                    entry.1.text_values.push((element_id, value));
                },
            }
            states.insert(si, entry);
            proof {
                assert(final(states)@ =~= old(states)@.update(
                    si as int,
                    final(states)@[si as int],
                ));
            }
        },
        None => {
            let mut st = ElementState::new();
            st.text_values.push((element_id, value));
            states.push((window_id, st));
        },
    }
}

/// After writing bool value `k := value` of window `w`: the entry holds
/// the new value, appearing if it was absent, as is the window's state
/// entry itself; nothing else moves.
pub open spec fn states_bool_set(
    s0: Seq<(String, ElementState)>,
    s1: Seq<(String, ElementState)>,
    w: Seq<char>,
    k: Seq<char>,
    value: bool,
) -> bool {
    let si = key_pos(s0, w);
    if si < s0.len() {
        &&& s1 == s0.update(si, s1[si])
        &&& s1[si].0 == s0[si].0
        &&& s1[si].1.text_values@ == s0[si].1.text_values@
        &&& s1[si].1.combo_values@ == s0[si].1.combo_values@
        &&& ({
            let vs0 = s0[si].1.bool_values@;
            let vs1 = s1[si].1.bool_values@;
            let tp = key_pos(vs0, k);
            if tp < vs0.len() {
                &&& vs1 == vs0.update(tp, vs1[tp])
                &&& vs1[tp].0@ == k
                &&& vs1[tp].1 == value
            } else {
                &&& vs1 == vs0.push(vs1.last())
                &&& vs1.last().0@ == k
                &&& vs1.last().1 == value
            }
        })
    } else {
        &&& s1 == s0.push(s1.last())
        &&& s1.last().0@ == w
        &&& s1.last().1.text_values@.len() == 0
        &&& s1.last().1.combo_values@.len() == 0
        &&& s1.last().1.bool_values@.len() == 1
        &&& s1.last().1.bool_values@[0].0@ == k
        &&& s1.last().1.bool_values@[0].1 == value
    }
}

/// Write an element's bool value, creating the window's state entry and
/// the element's entry as needed.
pub fn set_bool_value(states: &mut Vec<(String, ElementState)>, window_id: String, element_id: String, value: bool)
    ensures
        states_bool_set(old(states)@, final(states)@, window_id@, element_id@, value),
{
    match find_key(states, &window_id) {
        Some(si) => {
            let mut entry = states.remove(si);
            match find_key(&entry.1.bool_values, &element_id) {
                Some(tp) => {
                    let _ = entry.1.bool_values.remove(tp);
                    entry.1.bool_values.insert(tp, (element_id, value));
                    proof {
                        assert(entry.1.bool_values@ =~= old(states)@[si as int].1.bool_values@
                            .update(tp as int, entry.1.bool_values@[tp as int]));
                    }
                },
                None => {
                    entry.1.bool_values.push((element_id, value));
                },
            }
            states.insert(si, entry);
            proof {
                assert(final(states)@ =~= old(states)@.update(
                    si as int,
                    final(states)@[si as int],
                ));
            }
        },
        None => {
            let mut st = ElementState::new();
            st.bool_values.push((element_id, value));
            states.push((window_id, st));
        },
    }
}

/// After writing combo value `k := value` of window `w`: the entry holds
/// the new value, appearing if it was absent, as is the window's state
/// entry itself; nothing else moves.
pub open spec fn states_combo_set(
    s0: Seq<(String, ElementState)>,
    s1: Seq<(String, ElementState)>,
    w: Seq<char>,
    k: Seq<char>,
    value: usize,
) -> bool {
    let si = key_pos(s0, w);
    if si < s0.len() {
        &&& s1 == s0.update(si, s1[si])
        &&& s1[si].0 == s0[si].0
        &&& s1[si].1.text_values@ == s0[si].1.text_values@
        &&& s1[si].1.bool_values@ == s0[si].1.bool_values@
        &&& ({
            let vs0 = s0[si].1.combo_values@;
            let vs1 = s1[si].1.combo_values@;
            let tp = key_pos(vs0, k);
            if tp < vs0.len() {
                &&& vs1 == vs0.update(tp, vs1[tp])
                &&& vs1[tp].0@ == k
                &&& vs1[tp].1 == value
            } else {
                &&& vs1 == vs0.push(vs1.last())
                &&& vs1.last().0@ == k
                &&& vs1.last().1 == value
            }
        })
    } else {
        &&& s1 == s0.push(s1.last())
        &&& s1.last().0@ == w
        &&& s1.last().1.text_values@.len() == 0
        &&& s1.last().1.bool_values@.len() == 0
        &&& s1.last().1.combo_values@.len() == 1
        &&& s1.last().1.combo_values@[0].0@ == k
        &&& s1.last().1.combo_values@[0].1 == value
    }
}

/// Write an element's combo value, creating the window's state entry and
/// the element's entry as needed.
pub fn set_combo_value(states: &mut Vec<(String, ElementState)>, window_id: String, element_id: String, value: usize)
    ensures
        states_combo_set(old(states)@, final(states)@, window_id@, element_id@, value),
{
    match find_key(states, &window_id) {
        Some(si) => {
            let mut entry = states.remove(si);
            match find_key(&entry.1.combo_values, &element_id) {
                Some(tp) => {
                    let _ = entry.1.combo_values.remove(tp);
                    entry.1.combo_values.insert(tp, (element_id, value));
                    proof {
                        assert(entry.1.combo_values@ =~= old(states)@[si as int].1.combo_values@
                            .update(tp as int, entry.1.combo_values@[tp as int]));
                    }
                },
                None => {
                    entry.1.combo_values.push((element_id, value));
                },
            }
            states.insert(si, entry);
            proof {
                assert(final(states)@ =~= old(states)@.update(
                    si as int,
                    final(states)@[si as int],
                ));
            }
        },
        None => {
            let mut st = ElementState::new();
            st.combo_values.push((element_id, value));
            states.push((window_id, st));
        },
    }
}

} // verus!
