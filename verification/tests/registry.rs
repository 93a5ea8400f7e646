use text_engine::python_bridge::registry::{
    add_dropdown_menu, add_menu_item, add_menu_item_to_existing, modify_button, modify_menu_item,
    modify_tab_icon, modify_tab_name, register_button, register_tab, remove_button,
    remove_menu_item, UiRegistry,
};

fn registry_with_tab() -> UiRegistry {
    let mut reg = UiRegistry::new();
    register_tab(
        &mut reg,
        "tools".to_string(),
        "Tools".to_string(),
        Some("wrench".to_string()),
    );
    reg
}

#[test]
fn register_tab_appends_an_empty_tab() {
    let reg = registry_with_tab();
    assert_eq!(reg.tabs.len(), 1);
    assert_eq!(reg.tabs[0].id, "tools");
    assert_eq!(reg.tabs[0].name, "Tools");
    assert_eq!(reg.tabs[0].icon, Some("wrench".to_string()));
    assert!(reg.tabs[0].dropdown_menus.is_empty());
    assert!(reg.buttons.is_empty());
}

#[test]
fn menus_and_items_nest_under_their_tab() {
    let mut reg = registry_with_tab();
    assert!(add_dropdown_menu(
        &mut reg,
        "tools".to_string(),
        "File".to_string(),
        None
    ));
    assert!(add_menu_item(
        &mut reg,
        "tools".to_string(),
        "File".to_string(),
        "Open".to_string(),
        "on_open".to_string(),
        None,
    ));
    assert_eq!(reg.tabs[0].dropdown_menus.len(), 1);
    let menu = &reg.tabs[0].dropdown_menus[0];
    assert_eq!(menu.name, "File");
    assert_eq!(menu.items.len(), 1);
    assert_eq!(menu.items[0].name, "Open");
    assert_eq!(menu.items[0].function_name, "on_open");
}

#[test]
fn operations_on_missing_tabs_change_nothing() {
    let mut reg = registry_with_tab();
    assert!(!add_dropdown_menu(
        &mut reg,
        "nope".to_string(),
        "File".to_string(),
        None
    ));
    assert!(!modify_tab_name(
        &mut reg,
        "nope".to_string(),
        "X".to_string()
    ));
    assert!(!add_menu_item(
        &mut reg,
        "tools".to_string(),
        "absent menu".to_string(),
        "Open".to_string(),
        "on_open".to_string(),
        None,
    ));
    assert_eq!(reg.tabs.len(), 1);
    assert!(reg.tabs[0].dropdown_menus.is_empty());
}

#[test]
fn tab_name_and_icon_can_be_replaced() {
    let mut reg = registry_with_tab();
    assert!(modify_tab_name(
        &mut reg,
        "tools".to_string(),
        "Utilities".to_string()
    ));
    assert!(modify_tab_icon(
        &mut reg,
        "tools".to_string(),
        "gear".to_string()
    ));
    assert_eq!(reg.tabs[0].name, "Utilities");
    assert_eq!(reg.tabs[0].icon, Some("gear".to_string()));
    assert_eq!(reg.tabs[0].id, "tools");
}

#[test]
fn menu_items_can_be_added_modified_and_removed() {
    let mut reg = registry_with_tab();
    add_dropdown_menu(&mut reg, "tools".to_string(), "File".to_string(), None);
    assert!(add_menu_item_to_existing(
        &mut reg,
        "tools".to_string(),
        "File".to_string(),
        "Open".to_string(),
        "on_open".to_string(),
        None,
    ));
    assert!(add_menu_item_to_existing(
        &mut reg,
        "tools".to_string(),
        "File".to_string(),
        "Save".to_string(),
        "on_save".to_string(),
        None,
    ));
    assert!(modify_menu_item(
        &mut reg,
        "tools".to_string(),
        "File".to_string(),
        "Open".to_string(),
        "Open file".to_string(),
        "on_open_file".to_string(),
        Some("folder".to_string()),
    ));
    let items = &reg.tabs[0].dropdown_menus[0].items;
    assert_eq!(items.len(), 2);
    assert_eq!(items[0].name, "Open file");
    assert_eq!(items[0].function_name, "on_open_file");
    assert_eq!(items[0].icon, Some("folder".to_string()));

    assert!(remove_menu_item(
        &mut reg,
        "tools".to_string(),
        "File".to_string(),
        "Open file".to_string(),
    ));
    let items = &reg.tabs[0].dropdown_menus[0].items;
    assert_eq!(items.len(), 1);
    assert_eq!(items[0].name, "Save");

    assert!(!remove_menu_item(
        &mut reg,
        "tools".to_string(),
        "File".to_string(),
        "Open file".to_string(),
    ));
}

#[test]
fn buttons_can_be_registered_modified_and_removed() {
    let mut reg = UiRegistry::new();
    register_button(
        &mut reg,
        "run".to_string(),
        "Run".to_string(),
        "on_run".to_string(),
        None,
    );
    register_button(
        &mut reg,
        "stop".to_string(),
        "Stop".to_string(),
        "on_stop".to_string(),
        None,
    );
    assert_eq!(reg.buttons.len(), 2);

    assert!(modify_button(
        &mut reg,
        "run".to_string(),
        "Run now".to_string(),
        "on_run_now".to_string(),
        Some("play".to_string()),
    ));
    assert_eq!(reg.buttons[0].id, "run");
    assert_eq!(reg.buttons[0].name, "Run now");
    assert_eq!(reg.buttons[0].function_name, "on_run_now");
    assert_eq!(reg.buttons[0].icon, Some("play".to_string()));

    assert!(remove_button(&mut reg, "run".to_string()));
    assert_eq!(reg.buttons.len(), 1);
    assert_eq!(reg.buttons[0].id, "stop");
    assert!(!remove_button(&mut reg, "run".to_string()));
}
