use move_fuzzer::project::{
    has_compiled_extension, join_path, manage_initial_instance, FuzzProject,
};

#[test]
fn default_fuzz_dir_lies_under_the_package() {
    let p = manage_initial_instance("pkg", None);
    assert_eq!(p.fuzz_dir, "pkg/fuzz");
    assert!(p.targets.is_empty());
}

#[test]
fn explicit_fuzz_dir_is_kept() {
    let p = manage_initial_instance("pkg", Some(String::from("elsewhere/dir")));
    assert_eq!(p.fuzz_dir, "elsewhere/dir");
}

#[test]
fn new_keeps_the_collected_targets() {
    let p = FuzzProject::new("pkg", None, vec![String::from("a"), String::from("b")]);
    assert_eq!(p.fuzz_dir, "pkg/fuzz");
    assert_eq!(p.targets, vec![String::from("a"), String::from("b")]);
}

#[test]
fn manifest_lies_in_the_fuzz_dir() {
    let p = manage_initial_instance("pkg", None);
    assert_eq!(p.get_manifest_path(), "pkg/fuzz/Move.toml");
    assert_eq!(p.get_fuzz_dir(), "pkg/fuzz");
}

#[test]
fn targets_dir_and_target_paths() {
    let p = manage_initial_instance("pkg", None);
    assert_eq!(p.get_targets_dir(), "pkg/fuzz/fuzz_targets");
    assert_eq!(p.get_target_path("mytarget"), "pkg/fuzz/fuzz_targets/mytarget.move");
    // An existing extension is replaced, as a path's would be.
    assert_eq!(p.get_target_path("mytarget.old"), "pkg/fuzz/fuzz_targets/mytarget.move");
    // A leading dot is part of the name, not an extension.
    assert_eq!(p.get_target_path(".hidden"), "pkg/fuzz/fuzz_targets/.hidden.move");
}

#[test]
fn default_path_check_looks_at_the_final_component() {
    assert!(manage_initial_instance("x", Some(String::from("fuzz"))).fuzz_dir_is_default_path());
    assert!(manage_initial_instance("x", Some(String::from("a/b/fuzz"))).fuzz_dir_is_default_path());
    assert!(!manage_initial_instance("x", Some(String::from("afuzz"))).fuzz_dir_is_default_path());
    assert!(!manage_initial_instance("x", Some(String::from("fuzzy"))).fuzz_dir_is_default_path());
    assert!(!manage_initial_instance("x", Some(String::from("fuz"))).fuzz_dir_is_default_path());
}

#[test]
fn target_dir_override_is_passed_through() {
    let p = manage_initial_instance("pkg", None);
    assert_eq!(p.get_target_dir(&None), None);
    assert_eq!(
        p.get_target_dir(&Some(String::from("out"))),
        Some(String::from("out"))
    );
}

#[test]
fn compiled_module_extension_is_mv() {
    assert!(has_compiled_extension("m.mv"));
    assert!(has_compiled_extension("dir/pkg.mv"));
    assert!(!has_compiled_extension("m.mvx"));
    assert!(!has_compiled_extension("m.move"));
    assert!(!has_compiled_extension("mv"));
    assert!(!has_compiled_extension(".mv"));
    assert!(!has_compiled_extension("dir.mv/file"));
}

#[test]
fn join_uses_a_single_separator() {
    assert_eq!(join_path("a", "b"), "a/b");
    assert_eq!(join_path("", "b"), "/b");
}
