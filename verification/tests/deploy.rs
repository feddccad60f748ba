use jade::package::Derivation;
use jade::store::{DeployAction, Store, StorePath};

#[test]
fn store_path_artifact_and_render() {
    let p = StorePath::new("/js/store/abc-x", "x.jar", "abc");
    assert_eq!(p.render(), "/js/store/abc-x");
    assert_eq!(p.get_artifact(), "/js/store/abc-x/artifact");
}

#[test]
fn make_package_store_path_is_sig_under_root() {
    let st = Store::new("/js/store", "/js/staging");
    let d = Derivation::new(
        "u",
        "x",
        "x.jar",
        false,
        None,
        Some("abc".to_string()),
        vec![],
        vec![],
        "",
    );
    let p = st.make_package_store_path(&d);
    assert_eq!(p.render(), "/js/store/abc-x");
    assert_eq!(p.name, "x.jar");
    assert_eq!(p.hash, "abc");
}

#[test]
fn store_at_root_layout() {
    let st = Store::at_root("/home/me/.jade");
    assert_eq!(st.store_path, "/home/me/.jade/store/");
    assert_eq!(st.temp, "/home/me/.jade/staging");
}

#[test]
fn is_package_in_store_needs_hash_and_presence() {
    let st = Store::new("/js/store", "/js/staging");
    let hashed = Derivation::new(
        "u",
        "x",
        "x.jar",
        false,
        None,
        Some("abc".to_string()),
        vec![],
        vec![],
        "",
    );
    let unhashed = Derivation::new("u", "x", "x.jar", false, None, None, vec![], vec![], "");
    assert!(st.is_package_in_store(&unhashed, true).is_none());
    assert!(st.is_package_in_store(&hashed, false).is_none());
    let p = st.is_package_in_store(&hashed, true).expect("present and hashed");
    assert_eq!(p.render(), "/js/store/abc-x");
}

#[test]
fn symlink_plan_clears_target_first() {
    let p = StorePath::new("/js/store/abc-x", "x.jar", "abc");
    let plan = p.install_plan("/tmp/out", true);
    assert_eq!(plan.len(), 3);
    match &plan[0] {
        DeployAction::EnsureDir { path } => assert_eq!(path, "/tmp/out"),
        _ => panic!("expected the target directory to be ensured first"),
    }
    match &plan[1] {
        DeployAction::RemoveEntry { path } => assert_eq!(path, "/tmp/out/x.jar"),
        _ => panic!("expected the pre-existing entry to be cleared"),
    }
    match &plan[2] {
        DeployAction::Symlink { source, dest } => {
            assert_eq!(source, "/js/store/abc-x/artifact");
            assert_eq!(dest, "/tmp/out/x.jar");
        }
        _ => panic!("expected a symlink"),
    }
}

#[test]
fn copy_plan_mirrors_symlink_plan() {
    let p = StorePath::new("/js/store/abc-x", "x.jar", "abc");
    let plan = p.install_plan("/tmp/out", false);
    assert_eq!(plan.len(), 3);
    match &plan[2] {
        DeployAction::Copy { source, dest } => {
            assert_eq!(source, "/js/store/abc-x/artifact");
            assert_eq!(dest, "/tmp/out/x.jar");
        }
        _ => panic!("expected a copy"),
    }
}

#[test]
fn replan_after_store_change_converges() {
    // deploying twice converges: the second plan removes the old entry and
    // installs the new artifact path
    let p1 = StorePath::new("/js/store/old-x", "x.jar", "old");
    let p2 = StorePath::new("/js/store/new-x", "x.jar", "new");
    let first = p1.install_plan("/tmp/out", true);
    let second = p2.install_plan("/tmp/out", true);
    match (&first[2], &second[1], &second[2]) {
        (
            DeployAction::Symlink { dest: d1, .. },
            DeployAction::RemoveEntry { path },
            DeployAction::Symlink { source, dest: d2 },
        ) => {
            assert_eq!(d1, "/tmp/out/x.jar");
            assert_eq!(path, "/tmp/out/x.jar");
            assert_eq!(source, "/js/store/new-x/artifact");
            assert_eq!(d2, "/tmp/out/x.jar");
        }
        _ => panic!("unexpected plan shape"),
    }
}
