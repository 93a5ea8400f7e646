use text_engine::mod_system::dependencies::{resolve_dependencies, DependencyError, LoadedMod};

fn mod_with(id: &str, load_order: u32, deps: &[&str]) -> LoadedMod {
    LoadedMod::new(
        id.to_string(),
        load_order,
        deps.iter().map(|d| d.to_string()).collect(),
    )
}

fn ordered(r: Result<Vec<String>, DependencyError>) -> Vec<String> {
    match r {
        Ok(order) => order,
        Err(e) => panic!("expected an order, got failure {:?}", e),
    }
}

fn failed(r: Result<Vec<String>, DependencyError>) -> Vec<String> {
    match r {
        Ok(order) => panic!("expected a failure, got order {:?}", order),
        Err(DependencyError::ResolutionFailed(ids)) => ids,
        Err(e) => panic!("unexpected error variant {:?}", e),
    }
}

#[test]
fn chain_resolves_in_dependency_order() {
    let mods = vec![
        mod_with("a", 0, &[]),
        mod_with("b", 0, &["a"]),
        mod_with("c", 0, &["b"]),
    ];
    let order = ordered(resolve_dependencies(mods, false));
    assert_eq!(order, vec!["a", "b", "c"]);

    let mods = vec![
        mod_with("c", 0, &["b"]),
        mod_with("b", 0, &["a"]),
        mod_with("a", 0, &[]),
    ];
    let order = ordered(resolve_dependencies(mods.clone(), true));
    assert_eq!(order, vec!["a", "b", "c"]);
    let order = ordered(resolve_dependencies(mods, false));
    assert_eq!(order, vec!["a", "b", "c"]);
}

#[test]
fn two_cycle_fails_strict_and_empties_lenient() {
    let mods = vec![mod_with("a", 0, &["b"]), mod_with("b", 0, &["a"])];
    let f = failed(resolve_dependencies(mods.clone(), true));
    let mut f_sorted = f.clone();
    f_sorted.sort();
    assert_eq!(f_sorted, vec!["a", "b"]);

    let order = ordered(resolve_dependencies(mods, false));
    assert!(order.is_empty());
}

#[test]
fn missing_dependency_fails_only_the_dependent() {
    let mods = vec![mod_with("a", 0, &[]), mod_with("b", 0, &["z"])];
    let f = failed(resolve_dependencies(mods.clone(), true));
    assert_eq!(f, vec!["b"]);

    let order = ordered(resolve_dependencies(mods, false));
    assert_eq!(order, vec!["a"]);
}

#[test]
fn missing_id_itself_is_not_reported_failed() {
    let mods = vec![mod_with("b", 0, &["z"]), mod_with("c", 1, &["z"])];
    let f = failed(resolve_dependencies(mods, true));
    assert_eq!(f, vec!["b", "c"]);
    assert!(!f.contains(&"z".to_string()));
}

#[test]
fn priorities_order_independent_mods() {
    let mods = vec![
        mod_with("a", 2, &[]),
        mod_with("b", 1, &[]),
        mod_with("c", 3, &[]),
    ];
    let order = ordered(resolve_dependencies(mods, false));
    assert_eq!(order, vec!["b", "a", "c"]);
}

#[test]
fn equal_priorities_break_ties_by_identifier() {
    let mods = vec![
        mod_with("delta", 7, &[]),
        mod_with("alpha", 7, &[]),
        mod_with("charlie", 7, &[]),
    ];
    let order = ordered(resolve_dependencies(mods, false));
    assert_eq!(order, vec!["alpha", "charlie", "delta"]);
}

#[test]
fn diamond_places_every_mod_once() {
    let mods = vec![
        mod_with("d", 0, &["b", "c"]),
        mod_with("b", 0, &["a"]),
        mod_with("c", 0, &["a"]),
        mod_with("a", 0, &[]),
    ];
    let order = ordered(resolve_dependencies(mods, true));
    assert_eq!(order.len(), 4);
    let pos = |id: &str| order.iter().position(|x| x == id).unwrap();
    assert!(pos("a") < pos("b"));
    assert!(pos("a") < pos("c"));
    assert!(pos("b") < pos("d"));
    assert!(pos("c") < pos("d"));
}

#[test]
fn cycle_excludes_transitive_dependents() {
    let mods = vec![
        mod_with("a", 0, &["b"]),
        mod_with("b", 0, &["a"]),
        mod_with("c", 0, &["a"]),
    ];
    let f = failed(resolve_dependencies(mods.clone(), true));
    let mut f_sorted = f;
    f_sorted.sort();
    assert_eq!(f_sorted, vec!["a", "b", "c"]);

    let order = ordered(resolve_dependencies(mods, false));
    assert!(order.is_empty());
}

#[test]
fn self_dependency_is_a_cycle() {
    let mods = vec![mod_with("a", 0, &["a"]), mod_with("b", 0, &[])];
    let f = failed(resolve_dependencies(mods.clone(), true));
    assert_eq!(f, vec!["a"]);
    let order = ordered(resolve_dependencies(mods, false));
    assert_eq!(order, vec!["b"]);
}

#[test]
fn resolving_twice_yields_the_same_order() {
    let mods = vec![
        mod_with("core", 1, &[]),
        mod_with("ui", 2, &["core"]),
        mod_with("extras", 2, &["ui", "core"]),
    ];
    let first = ordered(resolve_dependencies(mods.clone(), false));
    let second = ordered(resolve_dependencies(mods, false));
    assert_eq!(first, second);
    assert_eq!(first, vec!["core", "ui", "extras"]);
}

#[test]
fn input_arrangement_does_not_change_the_order() {
    let a = vec![
        mod_with("core", 1, &[]),
        mod_with("ui", 2, &["core"]),
        mod_with("extras", 3, &["ui"]),
    ];
    let b = vec![
        mod_with("extras", 3, &["ui"]),
        mod_with("core", 1, &[]),
        mod_with("ui", 2, &["core"]),
    ];
    assert_eq!(
        ordered(resolve_dependencies(a, false)),
        ordered(resolve_dependencies(b, false))
    );
}

#[test]
fn dependency_declaration_order_drives_traversal() {
    // "b" is visited as a dependency of "root" before its own priority
    // would have let it run: post-order placement follows declaration.
    let mods = vec![
        mod_with("root", 0, &["y", "x"]),
        mod_with("x", 1, &[]),
        mod_with("y", 2, &[]),
    ];
    let order = ordered(resolve_dependencies(mods, true));
    assert_eq!(order, vec!["y", "x", "root"]);
}

#[test]
fn empty_input_resolves_to_empty_order() {
    let order = ordered(resolve_dependencies(Vec::new(), true));
    assert!(order.is_empty());
}

#[test]
fn loaded_mod_new_keeps_its_fields() {
    let m = LoadedMod::new("m".to_string(), 9, vec!["d".to_string()]);
    assert_eq!(m.id, "m");
    assert_eq!(m.load_order, 9);
    assert_eq!(m.dependencies, vec!["d".to_string()]);
}
