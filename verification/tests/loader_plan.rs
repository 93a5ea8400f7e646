use text_engine::mod_system::dependencies::DependencyError;
use text_engine::mod_system::loader::{collect_descriptors, execution_plan, plan_load_order};
use text_engine::mod_system::manifest::{Manifest, ModInfo};

fn manifest(id: &str, load_order: i32, deps: &[&str], main: &str) -> Manifest {
    Manifest {
        mod_info: ModInfo {
            id: id.to_string(),
            name: format!("The {} mod", id),
            version: "1.0.0".to_string(),
            authors: vec!["someone".to_string()],
            main: main.to_string(),
            load_order,
        },
        dependencies: deps
            .iter()
            .map(|d| (d.to_string(), "*".to_string()))
            .collect(),
    }
}

#[test]
fn descriptors_carry_manifest_identity() {
    let ms = vec![manifest("a", 4, &["b", "c"], "main.py")];
    let mods = collect_descriptors(&ms);
    assert_eq!(mods.len(), 1);
    assert_eq!(mods[0].id, "a");
    assert_eq!(mods[0].load_order, 0x8000_0000 + 4);
    assert_eq!(mods[0].dependencies, vec!["b".to_string(), "c".to_string()]);
}

#[test]
fn ordering_hints_keep_signed_order() {
    // A lower hint loads first, negative hints included: the signed range
    // maps order-preservingly onto the resolver's unsigned priority.
    let ms = vec![
        manifest("late", 5, &[], "main.py"),
        manifest("early", -1, &[], "main.py"),
    ];
    let mods = collect_descriptors(&ms);
    assert_eq!(mods[1].load_order, 0x8000_0000 - 1);
    assert_eq!(mods[0].load_order, 0x8000_0000 + 5);
    let order = plan_load_order(&ms, true).expect("no failures expected");
    assert_eq!(order, vec!["early", "late"]);
}

#[test]
fn duplicate_ids_collapse_to_the_last_manifest() {
    // Registration overwrites by id: only the later manifest reaches the
    // resolver, so its (clean) dependency set decides the outcome.
    let ms = vec![
        manifest("a", 1, &["gone"], "old.py"),
        manifest("b", 2, &[], "b.py"),
        manifest("a", 3, &[], "new.py"),
    ];
    let mods = collect_descriptors(&ms);
    assert_eq!(mods.len(), 2);
    assert_eq!(mods[1].id, "a");
    assert_eq!(mods[1].load_order, 0x8000_0000 + 3);
    assert!(mods[1].dependencies.is_empty());

    let order = plan_load_order(&ms, true).expect("the surviving manifests are clean");
    assert_eq!(order, vec!["b", "a"]);
}

#[test]
fn plan_load_order_resolves_manifests() {
    let ms = vec![
        manifest("ui", 2, &["core"], "ui.py"),
        manifest("core", 1, &[], "core.py"),
    ];
    let order = plan_load_order(&ms, true).expect("no failures expected");
    assert_eq!(order, vec!["core", "ui"]);
}

#[test]
fn plan_load_order_reports_the_failed_set_in_strict_mode() {
    let ms = vec![
        manifest("ok", 1, &[], "a.py"),
        manifest("broken", 2, &["gone"], "b.py"),
    ];
    match plan_load_order(&ms, true) {
        Err(DependencyError::ResolutionFailed(f)) => assert_eq!(f, vec!["broken"]),
        other => panic!("expected a resolution failure, got {:?}", other),
    }
    let order = plan_load_order(&ms, false).expect("lenient mode always yields an order");
    assert_eq!(order, vec!["ok"]);
}

#[test]
fn execution_plan_maps_ids_to_manifests_and_skips_unknown() {
    let ms = vec![
        manifest("a", 1, &[], "a.py"),
        manifest("b", 2, &[], "b.py"),
    ];
    let order = vec!["b".to_string(), "ghost".to_string(), "a".to_string()];
    let plan = execution_plan(&order, &ms);
    assert_eq!(plan, vec![1, 0]);
}
