use text_engine::python_bridge::window_api::{
    add_checkbox, add_combo_box, add_heading, add_label, add_separator, add_slider, add_text_edit,
    create_window, get_bool_value, get_combo_value, get_text_value, hide_window,
    set_bool_value, set_combo_value, set_text_value, set_window_resizable, show_window,
    WindowSystem,
};
use text_engine::python_bridge::window_types::UiElement;

fn system_with_window() -> WindowSystem {
    let mut ws = WindowSystem::new();
    create_window(&mut ws, "main".to_string(), "Main".to_string());
    ws
}

#[test]
fn create_window_starts_visible_and_empty() {
    let ws = system_with_window();
    assert_eq!(ws.windows.len(), 1);
    let w = &ws.windows[0];
    assert_eq!(w.id, "main");
    assert_eq!(w.title, "Main");
    assert!(w.visible && w.resizable && w.collapsible && w.scroll);
    assert!(w.elements.is_empty());
}

#[test]
fn creating_again_resets_the_same_slot() {
    let mut ws = system_with_window();
    add_separator(&mut ws, "main".to_string());
    create_window(&mut ws, "main".to_string(), "Fresh".to_string());
    assert_eq!(ws.windows.len(), 1);
    assert_eq!(ws.windows[0].title, "Fresh");
    assert!(ws.windows[0].elements.is_empty());
}

#[test]
fn visibility_and_flags_toggle() {
    let mut ws = system_with_window();
    assert!(hide_window(&mut ws, "main".to_string()));
    assert!(!ws.windows[0].visible);
    assert!(show_window(&mut ws, "main".to_string()));
    assert!(ws.windows[0].visible);
    assert!(set_window_resizable(&mut ws, "main".to_string(), false));
    assert!(!ws.windows[0].resizable);
    assert!(!show_window(&mut ws, "ghost".to_string()));
}

#[test]
fn elements_keep_insertion_order() {
    let mut ws = system_with_window();
    assert!(add_label(
        &mut ws,
        "main".to_string(),
        "hello".to_string(),
        None,
        Some(true)
    ));
    assert!(add_separator(&mut ws, "main".to_string()));
    assert!(add_heading(
        &mut ws,
        "main".to_string(),
        "News".to_string(),
        Some(9)
    ));
    let els = &ws.windows[0].elements;
    assert_eq!(els.len(), 3);
    match &els[0] {
        UiElement::Label(l) => {
            assert_eq!(l.text, "hello");
            assert!(!l.wrap);
            assert!(l.selectable);
        }
        other => panic!("expected a label, got {:?}", other),
    }
    assert!(matches!(els[1], UiElement::Separator));
    match &els[2] {
        UiElement::Heading(h) => {
            assert_eq!(h.text, "News");
            assert_eq!(h.level, 3);
        }
        other => panic!("expected a heading, got {:?}", other),
    }
}

#[test]
fn adding_to_a_missing_window_changes_nothing() {
    let mut ws = system_with_window();
    assert!(!add_label(
        &mut ws,
        "ghost".to_string(),
        "x".to_string(),
        None,
        None
    ));
    assert!(ws.windows[0].elements.is_empty());
    assert!(ws.states.is_empty());
}

#[test]
fn text_edit_initializes_an_empty_value() {
    let mut ws = system_with_window();
    assert!(add_text_edit(
        &mut ws,
        "main".to_string(),
        "name".to_string(),
        None,
        Some("hint".to_string()),
        None,
    ));
    match &ws.windows[0].elements[0] {
        UiElement::TextEdit(t) => {
            assert_eq!(t.id, "name");
            assert!(!t.multiline);
            assert_eq!(t.hint, Some("hint".to_string()));
        }
        other => panic!("expected a text edit, got {:?}", other),
    }
    assert_eq!(
        get_text_value(&ws.states, "main".to_string(), "name".to_string()),
        ""
    );
    set_text_value(
        &mut ws.states,
        "main".to_string(),
        "name".to_string(),
        "alice".to_string(),
    );
    assert_eq!(
        get_text_value(&ws.states, "main".to_string(), "name".to_string()),
        "alice"
    );
    // re-adding does not clobber the recorded value
    assert!(add_text_edit(
        &mut ws,
        "main".to_string(),
        "name".to_string(),
        None,
        None,
        None
    ));
    assert_eq!(
        get_text_value(&ws.states, "main".to_string(), "name".to_string()),
        "alice"
    );
}

#[test]
fn checkbox_and_combo_values_round_trip() {
    let mut ws = system_with_window();
    assert!(add_checkbox(
        &mut ws,
        "main".to_string(),
        "agree".to_string(),
        "I agree".to_string()
    ));
    match &ws.windows[0].elements[0] {
        UiElement::Checkbox(c) => {
            assert_eq!(c.id, "agree");
            assert_eq!(c.label, "I agree");
        }
        other => panic!("expected a checkbox, got {:?}", other),
    }
    assert!(!get_bool_value(
        &ws.states,
        "main".to_string(),
        "agree".to_string()
    ));
    set_bool_value(&mut ws.states, "main".to_string(), "agree".to_string(), true);
    assert!(get_bool_value(
        &ws.states,
        "main".to_string(),
        "agree".to_string()
    ));

    assert!(add_combo_box(
        &mut ws,
        "main".to_string(),
        "mode".to_string(),
        "Mode".to_string(),
        vec!["slow".to_string(), "fast".to_string()],
    ));
    assert_eq!(
        get_combo_value(&ws.states, "main".to_string(), "mode".to_string()),
        0
    );
    set_combo_value(&mut ws.states, "main".to_string(), "mode".to_string(), 1);
    assert_eq!(
        get_combo_value(&ws.states, "main".to_string(), "mode".to_string()),
        1
    );
}

#[test]
fn values_default_when_nothing_is_recorded() {
    let ws = WindowSystem::new();
    assert_eq!(
        get_text_value(&ws.states, "w".to_string(), "e".to_string()),
        ""
    );
    assert!(!get_bool_value(&ws.states, "w".to_string(), "e".to_string()));
    assert_eq!(
        get_combo_value(&ws.states, "w".to_string(), "e".to_string()),
        0
    );
}

#[test]
fn slider_takes_identity_only() {
    let mut ws = system_with_window();
    assert!(add_slider(
        &mut ws,
        "main".to_string(),
        "volume".to_string(),
        Some("Volume".to_string()),
        Some(true),
    ));
    match &ws.windows[0].elements[0] {
        UiElement::Slider(s) => {
            assert_eq!(s.id, "volume");
            assert_eq!(s.label, Some("Volume".to_string()));
            assert!(s.integer);
        }
        other => panic!("expected a slider, got {:?}", other),
    }
}
