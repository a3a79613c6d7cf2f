use galaxy_ops::path::{
    choose_vars_file, conf_migration_needed, SysOperatorPath, SysTargetPaths, SysValuePaths,
};
use std::path::Path;

#[test]
fn test_resolve_effective_vars_defaults_to_new_when_both_missing() {
    let dir = Path::new("/nonexistent/galaxy-ops/sys-a");
    let paths = SysOperatorPath::new(&dir.to_string_lossy());

    assert_eq!(
        paths.resolve_effective_vars_file(false, false),
        dir.join("sys/effective_vars.yml").to_string_lossy()
    );
}

#[test]
fn test_choose_vars_file_preference() {
    let c = "merged".to_string();
    let f = "legacy".to_string();
    assert_eq!(choose_vars_file(c.clone(), f.clone(), true, true), "merged");
    assert_eq!(choose_vars_file(c.clone(), f.clone(), false, true), "legacy");
    assert_eq!(choose_vars_file(c.clone(), f.clone(), false, false), "merged");
}

#[test]
fn test_conf_migration_needed() {
    assert!(conf_migration_needed(true, false));
    assert!(!conf_migration_needed(true, true));
    assert!(!conf_migration_needed(false, false));
}

#[test]
fn test_operator_paths() {
    let root = Path::new("/srv/sys-a");
    let paths = SysOperatorPath::new("/srv/sys-a");
    assert_eq!(paths.conf_file_v1(), root.join("sys_prj.yml").to_string_lossy());
    assert_eq!(paths.conf_file_v2(), root.join("sys-prj.yml").to_string_lossy());
    assert_eq!(paths.sys_dir(), root.join("sys").to_string_lossy());
    assert_eq!(paths.value_dir(), root.join("values").to_string_lossy());
    assert_eq!(
        paths.sys_value_file(),
        root.join("values").join("sys_value.yml").to_string_lossy()
    );
    assert_eq!(
        paths.legacy_vars_file(),
        root.join("sys").join("sys_vars.yml").to_string_lossy()
    );
    assert_eq!(paths.to_value_path().root, root.join("values").to_string_lossy());
    let v = SysValuePaths::from_root("/srv/v".to_string()).join("web");
    assert_eq!(v.root().as_str(), Path::new("/srv/v").join("web").to_string_lossy());
    assert_eq!(
        v.mod_value_file(),
        Path::new("/srv/v/web").join("mod_value.yml").to_string_lossy()
    );
    let t = SysTargetPaths::from_root("/srv/sys-a/sys");
    assert_eq!(
        t.define_path,
        Path::new("/srv/sys-a/sys").join("sys_model.yml").to_string_lossy()
    );
}

#[test]
fn test_resolve_vars_file_by_presence() {
    let root = Path::new("/srv/sys-a");
    let paths = SysOperatorPath::new("/srv/sys-a");
    let effective = root.join("sys").join("effective_vars.yml").to_string_lossy().into_owned();
    let merged = root.join("sys").join("merged_vars.yml").to_string_lossy().into_owned();
    let legacy = root.join("sys").join("sys_vars.yml").to_string_lossy().into_owned();
    assert_eq!(paths.resolve_effective_vars_file(true, true), effective);
    assert_eq!(paths.resolve_effective_vars_file(false, true), legacy);
    assert_eq!(paths.resolve_merged_vars_file(true, false), merged);
    assert_eq!(paths.resolve_merged_vars_file(false, true), legacy);
    assert_eq!(paths.resolve_merged_vars_file(false, false), merged);
    assert!(paths.needs_conf_migration(true, false));
    assert!(!paths.needs_conf_migration(true, true));
    assert!(!paths.needs_conf_migration(false, false));
}

#[test]
fn test_join_absolute_and_trailing_separator() {
    let v = SysValuePaths::from_root("/srv/v".to_string()).join("/abs/dir");
    assert_eq!(v.root().as_str(), "/abs/dir");
    let p = SysOperatorPath::new("/srv/sys-a/");
    assert_eq!(p.sys_dir(), "/srv/sys-a/sys");
    let q = SysOperatorPath::new("");
    assert_eq!(q.sys_dir(), "sys");
}

#[test]
fn test_resolve_effective_vars_prefers_new_name() {
    let dir = Path::new("/srv/sys-b");
    let paths = SysOperatorPath::new(&dir.to_string_lossy());
    assert_eq!(
        paths.resolve_effective_vars_file(true, true),
        dir.join("sys/effective_vars.yml").to_string_lossy()
    );
}

#[test]
fn test_resolve_effective_vars_falls_back_to_legacy_name() {
    let dir = Path::new("/srv/sys-b");
    let paths = SysOperatorPath::new(&dir.to_string_lossy());
    assert_eq!(
        paths.resolve_effective_vars_file(false, true),
        dir.join("sys/sys_vars.yml").to_string_lossy()
    );
}
