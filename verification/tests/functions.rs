use text_engine::python_bridge::functions::FunctionTable;

#[test]
fn bindings_register_and_resolve_by_name() {
    let mut table = FunctionTable::new();
    table.register("on_open".to_string(), "files".to_string(), 0);
    table.register("on_save".to_string(), "files".to_string(), 1);
    assert_eq!(table.lookup(&"on_open".to_string()), Some(0));
    assert_eq!(table.lookup(&"on_save".to_string()), Some(1));
    assert_eq!(table.lookup(&"on_close".to_string()), None);
}

#[test]
fn re_registering_a_name_replaces_its_binding() {
    let mut table = FunctionTable::new();
    table.register("on_open".to_string(), "files".to_string(), 0);
    table.register("on_open".to_string(), "other".to_string(), 7);
    assert_eq!(table.entries.len(), 1);
    assert_eq!(table.lookup(&"on_open".to_string()), Some(7));
    assert_eq!(table.entries[0].module, "other");
}
