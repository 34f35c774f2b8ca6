use krew_wasm::errors::KrewWapcError;
use krew_wasm::store::{fetched_artifact, link_result, ModuleStore};

fn path(components: &[&str]) -> Vec<String> {
    components.iter().map(|c| c.to_string()).collect()
}

fn store_root() -> Vec<String> {
    path(&["home", "user", ".cache", "krew-wasm-store"])
}

fn bin_root() -> Vec<String> {
    path(&["home", "user", ".krew-wasm", "bin"])
}

fn canonical_target() -> Vec<String> {
    path(&["home", "user", ".cache", "krew-wasm-store", "registry", "example.com", "mod", "view.wasm:v1"])
}

#[test]
fn installed_module_resolves_and_is_listed() {
    let mut store = ModuleStore::new(store_root(), bin_root());
    let target = canonical_target();
    let plan = store.install(&target, false).expect("install should succeed");
    assert_eq!(plan.name, "view");
    assert!(plan.removed.is_none());
    assert_eq!(plan.alias_target, target);
    assert_eq!(
        plan.alias_path,
        path(&["home", "user", ".cache", "krew-wasm-store", "all", "view"])
    );
    assert_eq!(
        plan.launcher_path,
        path(&["home", "user", ".krew-wasm", "bin", "kubectl-view"])
    );
    let resolved = store.resolve("view").expect("resolve should succeed");
    assert_eq!(resolved, target);
    let listing = store.list();
    assert_eq!(listing.len(), 1);
    assert_eq!(listing[0].0, "view");
    assert_eq!(listing[0].1, "registry://example.com/mod/view.wasm:v1");
}

#[test]
fn second_install_without_force_collides_and_changes_nothing() {
    let mut store = ModuleStore::new(store_root(), bin_root());
    let first = canonical_target();
    store.install(&first, false).expect("first install should succeed");
    let second = path(&["home", "user", ".cache", "krew-wasm-store", "registry", "other.com", "view.wasm:v2"]);
    let err = store.install(&second, false).expect_err("collision expected");
    assert!(matches!(err, KrewWapcError::NameCollision));
    let resolved = store.resolve("view").expect("first install must be untouched");
    assert_eq!(resolved, first);
}

#[test]
fn forced_install_points_at_new_artifact() {
    let mut store = ModuleStore::new(store_root(), bin_root());
    let first = canonical_target();
    store.install(&first, false).expect("first install should succeed");
    let second = path(&["home", "user", ".cache", "krew-wasm-store", "registry", "other.com", "view.wasm:v2"]);
    let plan = store.install(&second, true).expect("forced install should succeed");
    let removal = plan.removed.expect("forced install removes the old module first");
    assert_eq!(removal.unlink_artifact.as_deref(), Some(first.as_slice()));
    let resolved = store.resolve("view").expect("resolve should succeed");
    assert_eq!(resolved, second);
}

#[test]
fn removed_module_is_gone_and_ancestors_are_pruned() {
    let mut store = ModuleStore::new(store_root(), bin_root());
    let target = canonical_target();
    store.install(&target, false).expect("install should succeed");
    let plan = store.remove("view").expect("remove should succeed");
    assert_eq!(
        plan.unlink_alias,
        path(&["home", "user", ".cache", "krew-wasm-store", "all", "view"])
    );
    assert_eq!(
        plan.unlink_launcher,
        path(&["home", "user", ".krew-wasm", "bin", "kubectl-view"])
    );
    assert_eq!(plan.unlink_artifact, Some(target));
    // Deepest first, stopping short of the store root.
    assert_eq!(
        plan.prune_dirs,
        vec![
            path(&["home", "user", ".cache", "krew-wasm-store", "registry", "example.com", "mod"]),
            path(&["home", "user", ".cache", "krew-wasm-store", "registry", "example.com"]),
            path(&["home", "user", ".cache", "krew-wasm-store", "registry"]),
        ]
    );
    let err = store.resolve("view").expect_err("the name must be gone");
    assert!(matches!(err, KrewWapcError::NotFound));
    assert_eq!(store.list().len(), 0);
}

#[test]
fn removing_a_missing_module_fails_with_not_found() {
    let mut store = ModuleStore::new(store_root(), bin_root());
    let err = store.remove("ghost").expect_err("nothing is installed");
    assert!(matches!(err, KrewWapcError::NotFound));
}

#[test]
fn foreign_module_leaves_nothing_to_clean_in_the_store() {
    let mut store = ModuleStore::new(store_root(), bin_root());
    let target = path(&["opt", "modules", "tool.wasm"]);
    let plan = store.install(&target, false).expect("install should succeed");
    assert_eq!(plan.name, "tool");
    let listing = store.list();
    assert_eq!(listing[0].1, "/opt/modules/tool.wasm (not in the store)");
    let removal = store.remove("tool").expect("remove should succeed");
    assert!(removal.unlink_artifact.is_none());
    assert!(removal.prune_dirs.is_empty());
}

#[test]
fn fetch_and_link_failures_map_to_their_errors() {
    let target = canonical_target();
    assert_eq!(fetched_artifact(Some(target.clone())).unwrap(), target);
    assert!(matches!(
        fetched_artifact(None).expect_err("a failed fetch is fatal"),
        KrewWapcError::FetchFailure
    ));
    assert!(link_result(true).is_ok());
    assert!(matches!(
        link_result(false).expect_err("a failed link is fatal"),
        KrewWapcError::FilesystemError
    ));
}

#[test]
fn distinct_modules_coexist() {
    let mut store = ModuleStore::new(store_root(), bin_root());
    let a = canonical_target();
    let b = path(&["home", "user", ".cache", "krew-wasm-store", "registry", "example.com", "mod", "edit.wasm:v1"]);
    store.install(&a, false).expect("install should succeed");
    store.install(&b, false).expect("install should succeed");
    assert_eq!(store.list().len(), 2);
    assert_eq!(store.resolve("view").unwrap(), a);
    assert_eq!(store.resolve("edit").unwrap(), b);
}
