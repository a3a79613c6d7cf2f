use galaxy_ops::addr::{addr_to_path_string, Address, DependencySet};
use galaxy_ops::conf::{SysConf, SysKind};
use galaxy_ops::define::{ModelSTD, SysDefine};
use galaxy_ops::ops_prj::{
    owner_project_value_dir, OpsProject, OpsProjectConf, OpsSystem, ProjectPath,
};
use galaxy_ops::setting::{LocalizeDict, ModSetting, SysSetting};
use orion_variate::vars::{Mutability, OriginDict, ValueDict, ValueType, VarCollection, VarDefinition};
use std::path::Path;

fn web_stack() -> OpsSystem {
    OpsSystem::new(
        SysDefine::new_without_model("web-stack").with_kind(SysKind::DockerCompose),
        Address::http("http://example.com/web-stack.tar.gz"),
    )
}

#[test]
fn test_addr_to_path_string() {
    let local = Address::local("/tmp/foo.tar.gz");
    assert_eq!(addr_to_path_string(&local), "/tmp/foo.tar.gz");

    let git = Address::git("https://github.com/x/y.git");
    assert_eq!(addr_to_path_string(&git), "https://github.com/x/y.git");

    let http = Address::http("https://x.com/y.tar.gz");
    assert_eq!(addr_to_path_string(&http), "https://x.com/y.tar.gz");
}

#[test]
fn test_owner_project_value_dir() {
    let root = Path::new("/srv/work/cust");
    let mut conf = OpsProjectConf::new("cust", DependencySet::empty_set());
    conf.import_sys(web_stack());
    let sys_dir = root.join("web-stack");

    // 项目声明的系统 -> 返回项目为它维护的值目录
    assert_eq!(
        owner_project_value_dir(&sys_dir.to_string_lossy(), Some(&conf)),
        Some(root.join("values").join("web-stack").to_string_lossy().into_owned())
    );

    // 同层存在但项目未声明的系统 -> None
    let other = root.join("other-sys");
    assert_eq!(owner_project_value_dir(&other.to_string_lossy(), Some(&conf)), None);

    // 不在任何运维项目内 -> None
    let plain = Path::new("/srv/work").join("plain-sys");
    assert_eq!(owner_project_value_dir(&plain.to_string_lossy(), None), None);
}

#[test]
fn test_import_sys_is_idempotent_and_ordered() {
    let mut conf = OpsProjectConf::for_test();
    assert_eq!(conf.name(), "example_sys");
    assert!(conf.sys_models().is_empty());
    conf.import_sys(web_stack());
    conf.import_sys(web_stack());
    assert_eq!(conf.sys_models().len(), 1);
    let db = OpsSystem::new(
        SysDefine::new("db", ModelSTD::x86_ubt22_host()),
        Address::local("../db-0.1.0.tar.gz"),
    );
    conf.import_sys(db);
    assert_eq!(conf.sys_models().len(), 2);
    assert_eq!(conf.sys_models()[0].sys().name(), "web-stack");
    assert_eq!(conf.sys_models()[1].sys().name(), "db");
    assert!(conf.lists_name("db"));
    assert!(!conf.lists_name("cache"));
    // a system with the same name but another address is another system
    let moved = OpsSystem::new(
        SysDefine::new_without_model("web-stack").with_kind(SysKind::DockerCompose),
        Address::local("../web-stack-0.1.0.tar.gz"),
    );
    assert!(!conf.contains(&moved));
    conf.import_sys(moved);
    assert_eq!(conf.sys_models().len(), 3);
}

#[test]
fn test_import_all_merges_legacy_list() {
    let mut conf = OpsProjectConf::new("legacy", DependencySet::empty_set());
    conf.import_sys(web_stack());
    conf.import_all(vec![web_stack(), web_stack()]);
    assert_eq!(conf.sys_models().len(), 1);
    let mut project = OpsProject::make_new("/srv/work/legacy", "legacy");
    project.import_ops_sys(web_stack());
    project.import_ops_sys(web_stack());
    assert_eq!(project.conf().sys_models().len(), 1);
    assert_eq!(project.conf().name(), "legacy");
    assert_eq!(project.root_local(), "/srv/work/legacy");
    assert_eq!(
        project.value_path().root,
        Path::new("/srv/work/legacy").join("values").to_string_lossy()
    );
}

#[test]
fn test_project_paths() {
    let paths = ProjectPath::new("/srv/p");
    assert_eq!(paths.conf_file(), Path::new("/srv/p").join("ops-prj.yml").to_string_lossy());
    assert_eq!(
        paths.target_file(),
        Path::new("/srv/p").join("ops-systems.yml").to_string_lossy()
    );
}

#[test]
fn test_ia_setting_targets() {
    let mut project = OpsProject::new(
        OpsProjectConf::new("p", DependencySet::empty_set()),
        "/nonexistent/galaxy-ops/p",
    );
    project.import_ops_sys(web_stack());
    let targets = project.ia_setting();
    assert_eq!(targets.len(), 1);
    let root = Path::new("/nonexistent/galaxy-ops/p");
    assert_eq!(targets[0].system_name, "web-stack");
    assert_eq!(
        targets[0].vars_path,
        root.join("web-stack").join("sys").join("merged_vars.yml").to_string_lossy()
    );
    assert_eq!(
        targets[0].legacy_vars_path,
        root.join("web-stack").join("sys").join("sys_vars.yml").to_string_lossy()
    );
    assert_eq!(
        targets[0].value_path,
        root.join("values").join("web-stack").to_string_lossy()
    );
}

#[test]
fn test_localize_dict_example_and_insert() {
    let mut d = LocalizeDict::example();
    assert_eq!(d.len(), 1);
    let entries = d.entries();
    assert_eq!(entries[0].0, "example");
    assert!(!entries[0].1.enable());
    assert_eq!(entries[0].1.localize().model, "x86-ubt22-host");
    d.insert("nginx".to_string(), ModSetting::enable_new("nginx", "arm-mac14-host"));
    d.insert("example".to_string(), ModSetting::enable_new("example", "x86-ubt22-host"));
    let names: Vec<String> = d.entries().into_iter().map(|(k, _)| k).collect();
    assert_eq!(names, vec!["example".to_string(), "nginx".to_string()]);
    assert!(d.get("example").map(|s| s.enable()).unwrap_or(false));
    assert!(d.get("missing").is_none());
    d.insert("redis".to_string(), ModSetting::disaple_new("redis", "x86-ubt22-host"));
    let enabled: Vec<String> = d.enabled().into_iter().map(|(k, _)| k).collect();
    assert_eq!(enabled, vec!["example".to_string(), "nginx".to_string()]);
    assert!(LocalizeDict::new().is_empty());
}

#[test]
fn test_sys_conf_kind() {
    let conf = SysConf::new(DependencySet::empty_set());
    assert_eq!(conf.kind(), SysKind::Gxl);
    assert!(!conf.is_docker_compose());
    let conf = conf.with_kind(SysKind::DockerCompose);
    assert_eq!(conf.kind(), SysKind::DockerCompose);
    assert!(conf.is_docker_compose());
}

#[test]
fn test_sys_define_kinds_and_model_label() {
    let d = SysDefine::new("web", ModelSTD::x86_ubt22_host());
    assert!(!d.is_docker_compose());
    assert_eq!(d.model(), Some(ModelSTD::x86_ubt22_host()));
    let d = d.with_kind(SysKind::DockerCompose);
    assert!(d.is_docker_compose());
    assert_eq!(ModelSTD::x86_ubt22_host().label(), "x86-ubt22-host");
    assert_eq!(SysDefine::new_without_model("c").model(), None);
    assert_eq!(SysKind::DockerCompose.label(), "docker-compose");
}

#[test]
fn test_model_labels_round_trip() {
    for m in ModelSTD::all() {
        assert_eq!(ModelSTD::from_label(&m.label()), Some(m));
    }
    assert_eq!(ModelSTD::all().len(), 8);
    assert_eq!(
        ModelSTD::from_label("arm-mac14-host"),
        Some(ModelSTD::new(
            galaxy_ops::define::CpuArch::Arm,
            galaxy_ops::define::OsCPE::MAC14,
            galaxy_ops::define::RunSPC::Host
        ))
    );
    assert_eq!(ModelSTD::from_label("riscv-ubt22-host"), None);
}

#[test]
fn test_reimport_targets_and_system_vars() {
    let mut project = OpsProject::make_new("/srv/p", "p");
    project.import_ops_sys(web_stack());
    project.import_ops_sys(OpsSystem::new(
        SysDefine::new("db", ModelSTD::x86_ubt22_host()),
        Address::git("https://github.com/x/db.git"),
    ));
    assert_eq!(
        project.reimport_targets(),
        vec![
            ("web-stack".to_string(), "http://example.com/web-stack.tar.gz".to_string()),
            ("db".to_string(), "https://github.com/x/db.git".to_string())
        ]
    );
    let vars = vec![
        galaxy_ops::ops_prj::SystemVar {
            name: "test_var".to_string(),
            mutable: true,
            default_text: "default_value".to_string(),
            existing_text: Some("existing_value".to_string()),
        },
        galaxy_ops::ops_prj::SystemVar {
            name: "locked".to_string(),
            mutable: false,
            default_text: "x".to_string(),
            existing_text: None,
        },
        galaxy_ops::ops_prj::SystemVar {
            name: "fresh".to_string(),
            mutable: true,
            default_text: "d".to_string(),
            existing_text: None,
        },
    ];
    assert_eq!(galaxy_ops::ops_prj::settable_vars(&vars), vec![0, 2]);
    assert_eq!(vars[0].kept_value(), "existing_value");
    assert_eq!(vars[2].kept_value(), "d");
}

#[test]
fn test_sys_setting_new_and_add() {
    let vars = VarCollection::define(vec![VarDefinition::from(("SERVICE_IMAGE", "nginx:alpine"))]);
    let mut setting = SysSetting::new(vars.clone());
    assert_eq!(setting.vars(), &vars);
    assert_eq!(setting.list().len(), 1);
    assert!(setting.root().is_none());
    setting.add_mod_setting("nginx".to_string(), ModSetting::enable_new("nginx", "x86-ubt22-host"));
    assert_eq!(setting.list().len(), 2);
    assert_eq!(setting.list().enabled().len(), 1);
    let loaded = SysSetting::from_loaded(vars, None, "/srv/s/sys/setting".to_string());
    assert!(loaded.list().is_empty());
    assert_eq!(loaded.root().as_deref(), Some("/srv/s/sys/setting"));
}

#[test]
fn test_resolved_vars_and_scope_marking() {
    let modules: VarCollection = serde_yaml::from_str(
        "system:\n  - name: A\n    value: mod\n  - name: B\n    value: mod\nmodule:\n  - name: M\n    value: m\n",
    )
    .unwrap();
    let setting: VarCollection = serde_yaml::from_str(
        "immutable:\n  - name: LOCK\n    value: l\nsystem:\n  - name: B\n    value: set\n  - name: C\n    value: set\n",
    )
    .unwrap();
    let merged = galaxy_ops::sys_vars::resolved_vars(modules, &setting);
    assert!(merged.immutable_vars().is_empty());
    assert!(merged.module_vars().is_empty());
    let sys: Vec<(String, String)> = merged
        .system_vars()
        .iter()
        .map(|v| (v.name().clone(), v.value().to_string()))
        .collect();
    assert_eq!(
        sys,
        vec![
            ("A".to_string(), "mod".to_string()),
            ("B".to_string(), "set".to_string()),
            ("C".to_string(), "set".to_string())
        ]
    );
    let loaded = SysSetting::from_loaded(setting, None, "/srv/s".to_string());
    assert!(!loaded.vars().immutable_vars()[0].is_mutable());
    assert!(loaded.vars().system_vars()[0].is_mutable());
}

#[test]
fn test_load_from_marks_var_scopes() {
    let yaml = serde_yaml::to_string(SysSetting::example().vars()).unwrap();
    let vars: VarCollection = serde_yaml::from_str(&yaml).unwrap();
    let loaded = SysSetting::from_loaded(vars, None, "/srv/sys-a/sys/setting".to_string());
    assert_eq!(loaded.vars().immutable_vars()[0].mutability(), &Mutability::Immutable);
    assert_eq!(loaded.vars().system_vars()[0].mutability(), &Mutability::System);
    assert_eq!(loaded.vars().module_vars()[0].mutability(), &Mutability::Module);
    assert_eq!(loaded.root(), &Some("/srv/sys-a/sys/setting".to_string()));
}

#[test]
fn test_new_system_setting_defaults() {
    let setting = SysSetting::new_system();
    let sys = setting.vars().system_vars();
    let names: Vec<&str> = sys.iter().map(|v| v.name().as_str()).collect();
    assert_eq!(names, vec!["SERVICE_IMAGE", "SERVICE_PORT", "REPLICAS"]);
    let values: Vec<String> = sys.iter().map(|v| v.value().to_string()).collect();
    assert_eq!(values, vec!["nginx:alpine", "8080", "1"]);
    assert_eq!(sys[1].value(), &ValueType::Number(8080));
    assert!(sys.iter().all(|v| v.mutability() == &Mutability::System));
    assert!(setting.vars().immutable_vars().is_empty());
    assert!(setting.vars().module_vars().is_empty());
    assert_eq!(setting.list().len(), 1);
    assert_eq!(setting.root(), &None);
}

#[test]
fn test_example_setting_vars() {
    let setting = SysSetting::example();
    let vars = setting.vars();
    assert_eq!(vars.immutable_vars()[0].name(), "HOME");
    assert_eq!(vars.immutable_vars()[0].value().to_string(), "${HOME}");
    assert_eq!(vars.module_vars()[0].name(), "SYS_KEY1");
    assert_eq!(vars.system_vars()[0].name(), "SYS_KEY2");
    assert_eq!(vars.system_vars()[0].value().to_string(), "sys_value2");
}

#[test]
fn test_localize_plan_enabled_modules() {
    let mut setting = SysSetting::example();
    assert!(setting.localize_plan(&OriginDict::new(), None, &OriginDict::new()).is_empty());
    setting.add_mod_setting("web".to_string(), ModSetting::enable_new("web", "x86-ubt22-host"));
    let mut global = ValueDict::new();
    global.insert("SYS_KEY2", ValueType::from("from_global"));
    let mut module = ValueDict::new();
    module.insert("SYS_KEY1", ValueType::from("from_module"));
    let plan = setting.localize_plan(&OriginDict::from(global), None, &OriginDict::from(module));
    assert_eq!(plan.len(), 1);
    assert_eq!(plan[0].0, "web");
    let used = &plan[0].1;
    let keys: Vec<&str> = used.keys().map(|k| k.as_str()).collect();
    assert_eq!(keys, vec!["HOME", "SYS_KEY2", "SYS_KEY1"]);
    assert_eq!(used.get("SYS_KEY2").unwrap().value().to_string(), "from_global");
    assert_eq!(used.get("SYS_KEY2").unwrap().origin().as_deref(), Some("global"));
    assert_eq!(used.get("SYS_KEY1").unwrap().value().to_string(), "from_module");
    assert_eq!(used.get("SYS_KEY1").unwrap().origin().as_deref(), Some("mod-setting"));
}

#[test]
fn test_reimport_removes_only_system_dir() {
    let mut project = OpsProject::new(
        OpsProjectConf::new("p", DependencySet::empty_set()),
        "/srv/p",
    );
    project.import_ops_sys(web_stack());
    let removed = project.system_dir("web-stack");
    assert_eq!(removed, Path::new("/srv/p").join("web-stack").to_string_lossy());
    let values = project.value_path().root;
    assert_eq!(values, Path::new("/srv/p").join("values").to_string_lossy());
    let kept = Path::new(&values).join("web-stack");
    assert!(!kept.starts_with(Path::new(&removed)));
    let targets = project.reimport_targets();
    assert_eq!(targets[0].0, "web-stack");
}
