use galaxy_ops::cmd::SysCommandHandler;
use galaxy_ops::dict::mix_used_value;
use galaxy_ops::env_file::{
    env_file_content, env_file_text, format_env_value, needs_env_quote, quote_env, EnvValue,
};
use galaxy_ops::operator::{
    init_value_files, kind_or_default, mod_opr_values, opr_vars_file, save_plan, sys_opr_values,
    system_value_reference, SaveFilesPresent, ValueFilesPresent,
};
use galaxy_ops::conf::SysKind;
use galaxy_ops::sys_vars::{mod_values_of, sys_values_of, system_values};
use galaxy_ops::value_file::{value_reference, value_text_has_content};
use orion_variate::vars::{
    Mutability, OriginDict, OriginValue, ValueDict, ValueType, VarCollection, VarDefinition,
};

fn empty() -> OriginDict {
    OriginDict::new()
}

#[test]
fn test_build_used_value_with_default_only() {
    let vars = VarCollection::define(vec![VarDefinition::from(("TEST_KEY", "default_value"))]);
    let defaults = OriginDict::from(vars);
    let result = mix_used_value(&empty(), &defaults, None, &empty());
    assert_eq!(
        result.get("TEST_KEY"),
        Some(&OriginValue::from("default_value").with_origin("mod-default"))
    );
}

#[test]
fn test_build_used_value_with_global_value() {
    let mut global_dict = OriginDict::new();
    global_dict.insert("TEST_KEY".to_string(), ValueType::from("global_value"));
    global_dict.insert("PRJ_SPACE".to_string(), ValueType::from("galaxy"));
    let vars = VarCollection::define(vec![
        VarDefinition::from(("TEST_KEY", "default_value")).with_mutability(Mutability::Immutable),
        VarDefinition::from(("PRJ_SPACE", "${HOME}")),
        VarDefinition::from(("SVR_NAME", "gflow")),
        VarDefinition::from(("MOD_SPACE", "${PRJ_SPACE}/${SVR_NAME}")),
        VarDefinition::from(("SVR_SPACE", "/home/${SVR_NAME}")),
    ]);
    let mut mod_values = ValueDict::new();
    mod_values.insert("SVR_NAME", ValueType::from("gflow"));
    let result = mix_used_value(
        &global_dict,
        &OriginDict::from(vars),
        None,
        &OriginDict::from(mod_values),
    );
    assert_eq!(
        result.get("TEST_KEY"),
        Some(
            &OriginValue::from("default_value")
                .with_origin("mod-default")
                .with_mutability(Mutability::Immutable),
        )
    );
    assert_eq!(
        result.get("PRJ_SPACE"),
        Some(&OriginValue::from("galaxy").with_origin("global"))
    );
    assert_eq!(
        result.get("SVR_SPACE"),
        Some(&OriginValue::from("/home/gflow").with_origin("mod-default"))
    );
    assert_eq!(
        result.get("MOD_SPACE"),
        Some(&OriginValue::from("galaxy/gflow").with_origin("mod-default"))
    );
}

#[test]
fn test_build_used_value_with_user_value() {
    let mut user = ValueDict::new();
    user.insert("TEST_KEY", ValueType::from("user_value"));
    let vars = VarCollection::define(vec![VarDefinition::from(("TEST_KEY", "default_value"))]);
    let cust = OriginDict::from(user);
    let result = mix_used_value(&empty(), &OriginDict::from(vars), Some(&cust), &empty());
    assert_eq!(
        result.get("TEST_KEY"),
        Some(&OriginValue::from("user_value").with_origin("mod-cust"))
    );
}

#[test]
fn test_build_used_value_merge_precedence() {
    let mut user = ValueDict::new();
    user.insert("TEST_KEY", ValueType::from("user_value"));
    user.insert("USER_ONLY", ValueType::from("user_only"));

    let mut global_dict = OriginDict::new();
    global_dict.insert("TEST_KEY".to_string(), ValueType::from("global_value"));
    global_dict.insert("GLOBAL_ONLY".to_string(), ValueType::from("global_only"));

    let vars = VarCollection::define(vec![
        VarDefinition::from(("TEST_KEY", "default_value")),
        VarDefinition::from(("DEFAULT_ONLY", "default_only")),
    ]);
    let cust = OriginDict::from(user);
    let result = mix_used_value(&global_dict, &OriginDict::from(vars), Some(&cust), &empty());
    // 验证优先级: global > cust  > default
    assert_eq!(
        result.get("TEST_KEY"),
        Some(&OriginValue::from("global_value").with_origin("global"))
    );
    assert_eq!(
        result.get("GLOBAL_ONLY"),
        Some(&OriginValue::from("global_only").with_origin("global"))
    );
    assert_eq!(
        result.get("USER_ONLY"),
        Some(&OriginValue::from("user_only").with_origin("mod-cust"))
    );
    assert_eq!(
        result.get("DEFAULT_ONLY"),
        Some(&OriginValue::from("default_only").with_origin("mod-default"))
    );
}

#[test]
fn test_empty_vars_returns_empty_dict() {
    let vars = VarCollection::define(vec![]);
    let result = mix_used_value(&empty(), &OriginDict::from(vars), None, &empty());
    assert!(result.is_empty());
}

#[test]
fn test_complex_value_types() {
    let vars = VarCollection::define(vec![
        VarDefinition::from(("STRING_VAR", ValueType::from("default_string"))),
        VarDefinition::from(("NUMBER_VAR", ValueType::from(42))),
        VarDefinition::from(("BOOL_VAR", ValueType::from(true))),
    ]);
    let result = mix_used_value(&empty(), &OriginDict::from(vars), None, &empty());
    assert_eq!(
        result.get("STRING_VAR"),
        Some(&OriginValue::from(ValueType::from("default_string")).with_origin("mod-default"))
    );
    assert_eq!(
        result.get("NUMBER_VAR"),
        Some(&OriginValue::from(ValueType::from(42)).with_origin("mod-default"))
    );
    assert_eq!(
        result.get("BOOL_VAR"),
        Some(&OriginValue::from(ValueType::from(true)).with_origin("mod-default"))
    );
}

#[test]
fn test_global_value_override_precedence() {
    let mut user = ValueDict::new();
    user.insert("TEST_KEY", ValueType::from("user_value"));
    let mut global_dict = OriginDict::new();
    global_dict.insert("TEST_KEY".to_string(), ValueType::from("global_value"));
    let vars = VarCollection::define(vec![VarDefinition::from(("TEST_KEY", "default_value"))]);
    let cust = OriginDict::from(user);
    let result = mix_used_value(&global_dict, &OriginDict::from(vars), Some(&cust), &empty());
    // 全局值应该覆盖用户值和默认值
    assert_eq!(
        result.get("TEST_KEY"),
        Some(&OriginValue::from("global_value").with_origin("global"))
    );
}

#[test]
fn test_immutable_default_survives_every_layer() {
    let vars = VarCollection::define(vec![
        VarDefinition::from(("LOCKED", "base")).with_mutability(Mutability::Immutable),
        VarDefinition::from(("OPEN", "base")),
    ]);
    let mut user = ValueDict::new();
    user.insert("LOCKED", ValueType::from("cust"));
    user.insert("OPEN", ValueType::from("cust"));
    let mut module = ValueDict::new();
    module.insert("OPEN", ValueType::from("module"));
    let mut global_dict = OriginDict::new();
    global_dict.insert("LOCKED", ValueType::from("global"));
    let cust = OriginDict::from(user);
    let result = mix_used_value(
        &global_dict,
        &OriginDict::from(vars),
        Some(&cust),
        &OriginDict::from(module),
    );
    assert_eq!(
        result.get("LOCKED"),
        Some(
            &OriginValue::from("base")
                .with_origin("mod-default")
                .with_mutability(Mutability::Immutable)
        )
    );
    assert_eq!(
        result.get("OPEN"),
        Some(&OriginValue::from("module").with_origin("mod-setting"))
    );
    let keys: Vec<&str> = result.keys().map(|k| k.as_str()).collect();
    assert_eq!(keys, vec!["LOCKED", "OPEN"]);
}

#[test]
fn test_localize_values_customer_over_system() {
    let mut defaults = OriginDict::new();
    defaults.insert("HTTP_PORT", ValueType::from("80"));
    defaults.insert("IMAGE", ValueType::from("nginx"));
    let mut sys = OriginDict::new();
    sys.insert("HTTP_PORT", ValueType::from("8080"));
    sys.insert("REPLICAS", ValueType::from("1"));
    let mut user = OriginDict::new();
    user.insert("HTTP_PORT", ValueType::from("9090"));
    let merged = SysCommandHandler::localize_values(&defaults, &sys, Some(&user));
    assert_eq!(
        merged.get("HTTP_PORT"),
        Some(&OriginValue::from("9090").with_origin("customer"))
    );
    assert_eq!(
        merged.get("REPLICAS"),
        Some(&OriginValue::from("1").with_origin("sys-setting"))
    );
    // a key set only in the resolved defaults is kept
    assert_eq!(
        merged.get("IMAGE"),
        Some(&OriginValue::from("nginx").with_origin("sys-default"))
    );
    let alone = SysCommandHandler::localize_values(&defaults, &sys, None);
    assert_eq!(
        alone.get("HTTP_PORT"),
        Some(&OriginValue::from("8080").with_origin("sys-setting"))
    );
    assert!(env_file_text(&alone).contains("IMAGE=nginx\n"));
}

#[test]
fn test_system_values_keep_and_set() {
    let vars: VarCollection = serde_yaml::from_str(
        "system:\n  - name: test_var\n    value: default_value\n  - name: port\n    value: 80\n",
    )
    .unwrap();
    let mut existing = ValueDict::new();
    existing.insert("OTHER", ValueType::from("x"));
    let kept = system_values(&vars, &existing, &vec![]).unwrap();
    let keys: Vec<&str> = kept.keys().map(|k| k.as_str()).collect();
    assert_eq!(keys, vec!["OTHER", "TEST_VAR", "PORT"]);
    assert_eq!(kept.get("TEST_VAR").map(|v| v.to_string()).as_deref(), Some("default_value"));
    assert_eq!(kept.get("PORT").map(|v| v.to_string()).as_deref(), Some("80"));
    let answered =
        system_values(&vars, &existing, &vec![Some("mine".to_string()), Some("8080".to_string())])
            .unwrap();
    assert_eq!(answered.get("TEST_VAR").map(|v| v.to_string()).as_deref(), Some("mine"));
    assert_eq!(answered.get("PORT").map(|v| v.to_string()).as_deref(), Some("8080"));
    assert!(system_values(&vars, &existing, &vec![None, Some("eighty".to_string())]).is_err());
    let sys = sys_values_of(&vars);
    let keys: Vec<&str> = sys.keys().map(|k| k.as_str()).collect();
    assert_eq!(keys, vec!["TEST_VAR", "PORT"]);
    assert!(mod_values_of(&vars).is_empty());
}

#[test]
fn test_opr_values_tags_layers() {
    let mut sys = OriginDict::new();
    sys.insert("A", ValueType::from("sys"));
    sys.insert("B", ValueType::from("sys"));
    let mut module = OriginDict::new();
    module.insert("B", ValueType::from("mod"));
    let mixed = mod_opr_values(&sys, &module);
    assert_eq!(mixed.get("A"), Some(&OriginValue::from("sys").with_origin("sys-setting")));
    assert_eq!(mixed.get("B"), Some(&OriginValue::from("mod").with_origin("mod-setting")));
    let only = sys_opr_values(&sys);
    assert_eq!(only.get("B"), Some(&OriginValue::from("sys").with_origin("sys-setting")));
}

#[test]
fn test_opr_vars_file_choice() {
    let m = "sys/merged_vars.yml".to_string();
    let l = "sys/sys_vars.yml".to_string();
    assert_eq!(opr_vars_file(m.clone(), l.clone(), true, true), Ok(m.clone()));
    assert_eq!(opr_vars_file(m.clone(), l.clone(), false, true), Ok(l.clone()));
    assert_eq!(opr_vars_file(m.clone(), l.clone(), false, false), Err(m.clone()));
}

#[test]
fn test_export_env_file() {
    let mut dict = OriginDict::new();
    dict.insert("nginx_tag", ValueType::from("1.25-alpine"));
    dict.insert("http_port", ValueType::from(8080u64));
    dict.insert("db_host", ValueType::from("10.0.0.11"));
    dict.insert("db_password", ValueType::from("p@ss word#1"));
    dict.insert("debug", ValueType::from(true));

    let content = env_file_text(&dict);
    assert!(content.contains("NGINX_TAG=1.25-alpine"));
    assert!(content.contains("HTTP_PORT=8080"));
    assert!(content.contains("DB_HOST=10.0.0.11"));
    assert!(content.contains("DB_PASSWORD=\"p@ss word#1\""));
    assert!(content.contains("DEBUG=true"));
}

#[test]
fn test_env_formatting() {
    assert!(needs_env_quote(""));
    assert!(needs_env_quote("a b"));
    assert!(needs_env_quote("${X}"));
    assert!(!needs_env_quote("user@host:/x-1.2+3_4"));
    assert_eq!(quote_env("a\"b\\c\nd"), "\"a\\\"b\\\\c\\nd\"");
    assert_eq!(format_env_value(&EnvValue::Text("plain".to_string())), "plain");
    assert_eq!(format_env_value(&EnvValue::Text("two words".to_string())), "\"two words\"");
    assert_eq!(
        format_env_value(&EnvValue::Structured("{\"a\":1}".to_string())),
        "\"{\\\"a\\\":1}\""
    );
    assert_eq!(format_env_value(&EnvValue::Scalar("42".to_string())), "42");
    let entries = vec![
        ("A".to_string(), EnvValue::Text("x".to_string())),
        ("B".to_string(), EnvValue::Scalar("true".to_string())),
    ];
    assert_eq!(env_file_content(&entries), "A=x\nB=true\n");
}

#[test]
fn test_value_text_comment_only_has_no_content() {
    assert!(!value_text_has_content("# HTTP_PORT: 8080\n# REPLICAS: 3\n"));
    assert!(!value_text_has_content("\n"));
    assert!(!value_text_has_content("---\n"));
    assert!(!value_text_has_content("---\n...\n"));
    assert!(value_text_has_content("HTTP_PORT: 9090\n"));
}

#[test]
fn test_value_reference_is_inert() {
    let mut defaults = ValueDict::new();
    defaults.insert("SERVICE_IMAGE", ValueType::from("nginx:1.25"));
    defaults.insert("NOTE", ValueType::from("multi\nline"));
    let reference = match system_value_reference("sys/merged_vars.yml", &defaults) {
        Ok(t) => t,
        Err(_) => panic!("template"),
    };
    assert!(reference.contains("# SERVICE_IMAGE:"));
    assert!(reference.contains("# NOTE:"));
    assert!(reference.contains("sys/merged_vars.yml"));
    assert!(!value_text_has_content(&reference));
}

#[test]
fn test_value_reference_empty_defaults() {
    let reference = match system_value_reference("sys/merged_vars.yml", &ValueDict::new()) {
        Ok(t) => t,
        Err(_) => panic!("template"),
    };
    assert!(reference.contains("系统变量参考"));
    assert_eq!(reference.lines().count(), 2);
    assert_eq!(reference, value_reference("sys/merged_vars.yml", None));
    assert!(!value_text_has_content(&reference));
}

#[test]
fn test_init_value_files_never_overwrites() {
    let present = ValueFilesPresent {
        modules: vec![true, false],
        setting: true,
        sys_value: false,
    };
    assert!(init_value_files(false, &present).is_err());
    match init_value_files(true, &present) {
        Ok(w) => {
            assert_eq!(w.modules, vec![false, true]);
            assert!(!w.setting);
            assert!(w.sys_value);
        }
        Err(_) => panic!("resolved"),
    }
}

#[test]
fn test_kind_or_default() {
    assert_eq!(kind_or_default(None), SysKind::Gxl);
    assert_eq!(kind_or_default(Some(SysKind::DockerCompose)), SysKind::DockerCompose);
    assert_eq!(kind_or_default(Some(SysKind::Gxl)), SysKind::Gxl);
}

#[test]
fn test_save_plan_minimal_for_compose() {
    let fresh = SaveFilesPresent {
        conf: false,
        define: false,
        setting_vars: false,
        setting_list: false,
        mod_list: false,
        workflows: false,
        version: false,
        compose_file: false,
        gitignore: false,
    };
    let p = save_plan(true, &fresh);
    assert!(p.conf && p.define && p.setting_vars && p.version);
    assert!(p.compose_file && p.gitignore);
    assert!(!p.setting_list && !p.mod_list && !p.workflows && !p.values_dir);
    let existing = SaveFilesPresent {
        conf: true,
        define: true,
        setting_vars: true,
        setting_list: true,
        mod_list: true,
        workflows: true,
        version: true,
        compose_file: true,
        gitignore: true,
    };
    let p = save_plan(true, &existing);
    assert!(!p.conf && !p.define && !p.setting_vars && !p.version);
    assert!(!p.compose_file && !p.gitignore);
    let p = save_plan(false, &fresh);
    assert!(p.conf && p.define && p.setting_vars && p.setting_list && p.mod_list && p.workflows);
    assert!(p.values_dir && !p.version && p.compose_file && p.gitignore);
}

#[test]
fn test_save_plan_gxl_keeps_existing_files() {
    let existing = SaveFilesPresent {
        conf: true,
        define: true,
        setting_vars: true,
        setting_list: true,
        mod_list: true,
        workflows: true,
        version: true,
        compose_file: true,
        gitignore: true,
    };
    let p = save_plan(false, &existing);
    assert!(!p.conf && !p.define && !p.setting_vars && !p.setting_list);
    assert!(!p.mod_list && !p.workflows && !p.compose_file && !p.gitignore);
    assert!(p.values_dir && !p.version);
}

#[test]
fn test_process_system_vars_no_existing_file() {
    let vars: VarCollection = serde_yaml::from_str(
        "system:\n  - name: \"test_var\"\n    value: \"default_value\"\n    mutable: true\n  - name: \"immutable_var\"\n    value: \"immutable_value\"\n    mutable: false\n",
    )
    .unwrap();
    let filled = system_values(&vars, &ValueDict::default(), &vec![]).unwrap();
    assert_eq!(
        filled.get_case_insensitive("test_var").unwrap().to_string(),
        "default_value"
    );
    assert_eq!(
        filled.get_case_insensitive("immutable_var").unwrap().to_string(),
        "immutable_value"
    );
}

#[test]
fn test_system_values_keep_existing_and_skip_immutable() {
    let vars = VarCollection::define(vec![
        VarDefinition::from(("PORT", 80u64)).with_mut_system(),
        VarDefinition::from(("FLAG", false)).with_mut_system(),
        VarDefinition::from(("LOCKED", "fixed")).with_mut_immutable(),
    ]);
    let mut existing = ValueDict::new();
    existing.insert("PORT", ValueType::from("9090"));
    let kept = system_values(&vars, &existing, &vec![]).unwrap();
    assert_eq!(kept.get("PORT"), Some(&ValueType::Number(9090)));
    assert_eq!(kept.get("FLAG"), Some(&ValueType::Bool(false)));
    assert!(kept.get("LOCKED").is_none());
    let set = system_values(&vars, &existing, &vec![None, Some("true".to_string())]).unwrap();
    assert_eq!(set.get("FLAG"), Some(&ValueType::Bool(true)));
    assert!(system_values(&vars, &existing, &vec![None, Some("yes".to_string())]).is_err());
}

#[test]
fn test_system_value_reference_lists_defaults() {
    let vars: VarCollection = serde_yaml::from_str(
        "system:\n  - name: SERVICE_IMAGE\n    value: \"nginx:alpine\"\n",
    )
    .unwrap();
    let text = match system_value_reference("/srv/s/sys/merged_vars.yml", &sys_values_of(&vars)) {
        Ok(t) => t,
        Err(_) => panic!("the defaults did not serialize"),
    };
    assert!(text.contains("# SERVICE_IMAGE: nginx:alpine"));
    assert!(!value_text_has_content(&text));
}

const PROCESS_VARS: &str = "\nsystem:\n  - name: \"test_var\"\n    value: \"default_value\"\n    mutable: true\n    desp: \"A test variable\"\n  - name: \"immutable_var\"\n    value: \"immutable_value\"\n    mutable: false\n    desp: \"An immutable variable\"\n";

#[test]
fn test_process_system_vars_existing_value_file() {
    let vars: VarCollection = serde_yaml::from_str(PROCESS_VARS).unwrap();
    let existing: ValueDict = serde_yaml::from_str(
        "\ntest_var: \"existing_value\"\nimmutable_var: \"existing_immutable\"\n",
    )
    .unwrap();
    let updated = system_values(&vars, &existing, &vec![]).unwrap();
    assert_eq!(updated.get("test_var").unwrap().to_string(), "existing_value");
    assert_eq!(updated.get("immutable_var").unwrap().to_string(), "existing_immutable");
}

#[test]
fn test_process_system_vars_all_immutable_vars() {
    let vars: VarCollection = serde_yaml::from_str(
        "\nsystem:\n  - name: \"immutable_var1\"\n    value: \"immutable_value1\"\n    mutable: false\n  - name: \"immutable_var2\"\n    value: \"immutable_value2\"\n    mutable: false\n",
    )
    .unwrap();
    assert!(system_values(&vars, &ValueDict::default(), &vec![]).is_ok());
}
