use galaxy_ops::cmd::{
    compose_subcommand, kind_from_index, model_from_index, package_out_path, parse_kind,
    read_version, resolve_sys_value_path, sec_env_pairs_for, DebugLogArgs, SysCmd,
    SysCommandHandler, SysLocalizeArgs, SysNewArgs, SysOpsArgs, SysPackageArgs, SysSettingArgs,
    SysUpdateArgs,
};
use galaxy_ops::addr::{Address, DependencySet};
use galaxy_ops::conf::SysKind;
use galaxy_ops::define::{CpuArch, ModelSTD, OsCPE, RunSPC, SysDefine};
use galaxy_ops::gflow::GflowVersionError;
use galaxy_ops::ops_prj::{OpsProjectConf, OpsSystem};
use orion_variate::vars::{ValueDict, ValueType};
use std::path::Path;

#[test]
fn test_sys_new_args_getter() {
    let args = SysNewArgs {
        name: "test_system".to_string(),
        kind: Some("docker-compose".to_string()),
    };

    assert_eq!(args.debug_level(), 0);
    assert_eq!(args.log_setting(), None);
    assert_eq!(args.name(), "test_system");
    assert_eq!(args.kind(), &Some("docker-compose".to_string()));
}

#[test]
fn test_sys_update_args_getter() {
    let args = SysUpdateArgs {
        debug_log: DebugLogArgs {
            debug: 2,
            log: Some("info".to_string()),
        },
        force: false,
    };

    assert_eq!(args.debug_level(), 2);
    assert_eq!(args.log_setting(), Some("info".to_string()));
    assert!(!args.force);
}

#[test]
fn test_sys_package_args_getter() {
    let args = SysPackageArgs {
        debug_log: DebugLogArgs {
            debug: 1,
            log: None,
        },
        force: false,
        output: None,
    };

    assert_eq!(args.debug_level(), 1);
    assert_eq!(args.log_setting(), None);
    assert!(!args.force);
    assert!(args.output.is_none());
}

#[test]
fn test_sys_localize_args_getter() {
    let args = SysLocalizeArgs {
        debug_log: DebugLogArgs {
            debug: 1,
            log: Some("debug".to_string()),
        },
        module: None,
        only: false,
    };

    assert_eq!(args.debug_level(), 1);
    assert_eq!(args.log_setting(), Some("debug".to_string()));
    assert!(!args.only);
}

#[test]
fn test_sys_ops_and_setting_args_getters() {
    let args = SysOpsArgs {
        debug_log: DebugLogArgs {
            debug: 3,
            log: None,
        },
        module: Some("nginx".to_string()),
        env: "default".to_string(),
    };
    assert_eq!(args.debug_level(), 3);
    assert_eq!(args.log_setting(), None);
    assert_eq!(args.module(), &Some("nginx".to_string()));
    assert_eq!(args.env(), "default");
    let setting = SysSettingArgs { init: true };
    assert!(setting.init());
}

#[test]
fn test_parse_kind() {
    assert_eq!(parse_kind("gxl"), SysKind::Gxl);
    assert_eq!(parse_kind("docker-compose"), SysKind::DockerCompose);
    assert_eq!(parse_kind("compose"), SysKind::DockerCompose);
    assert_eq!(parse_kind("unknown"), SysKind::Gxl);
    assert_eq!(parse_kind(""), SysKind::Gxl);
}

#[test]
fn test_compose_subcommand() {
    let check = |cmd: &str, sub: &str, extra: &[&str]| {
        let (s, e) = compose_subcommand(cmd);
        assert_eq!(s, sub);
        assert_eq!(e, extra);
    };
    check("download", "pull", &[]);
    check("install", "create", &[]);
    check("start", "up", &["-d"]);
    check("stop", "stop", &[]);
    check("uninstall", "down", &[]);
    check("status", "ps", &[]);
    check("diagnose", "config", &[]);
    // 未知命令透传
    check("whatever", "whatever", &[]);
}

#[test]
fn test_sec_env_pairs_for_diagnose_masks() {
    let mut dict = ValueDict::new();
    dict.insert("SEC_DB_PASSWORD", ValueType::from("pw"));
    dict.insert("SEC_API_KEY", ValueType::from("tok-123"));
    // diagnose 注入掩码值，不泄露明文
    let pairs = sec_env_pairs_for("diagnose", &dict);
    assert!(pairs.contains(&("SEC_DB_PASSWORD".to_string(), "********".to_string())));
    assert!(pairs.contains(&("SEC_API_KEY".to_string(), "********".to_string())));
}

#[test]
fn test_sec_env_pairs_for_start_plaintext() {
    let mut dict = ValueDict::new();
    dict.insert("SEC_DB_PASSWORD", ValueType::from("pw"));
    dict.insert("SEC_API_KEY", ValueType::from("tok-123"));
    // 非 diagnose 注入明文
    let pairs = sec_env_pairs_for("start", &dict);
    assert!(pairs.contains(&("SEC_DB_PASSWORD".to_string(), "pw".to_string())));
    assert!(pairs.contains(&("SEC_API_KEY".to_string(), "tok-123".to_string())));
}

#[test]
fn test_sec_env_pairs_keep_dictionary_order() {
    let mut dict = ValueDict::new();
    dict.insert("sec_b", ValueType::from("2"));
    dict.insert("sec_a", ValueType::from(1u64));
    let pairs = sec_env_pairs_for("status", &dict);
    assert_eq!(
        pairs,
        vec![
            ("SEC_B".to_string(), "2".to_string()),
            ("SEC_A".to_string(), "1".to_string())
        ]
    );
    assert!(sec_env_pairs_for("diagnose", &ValueDict::new()).is_empty());
}

#[test]
fn test_gflow_version_accepts_minimum_and_above() {
    assert!(SysCommandHandler::check_gflow_version("gflow 0.11.2\n").is_ok());
    assert!(SysCommandHandler::check_gflow_version("gflow 0.12.0").is_ok());
    assert!(SysCommandHandler::check_gflow_version("  gflow\t1.0.0-beta extra").is_err());
    assert!(SysCommandHandler::check_gflow_version("gflow 1.0.0").is_ok());
    assert!(SysCommandHandler::check_gflow_version("gflow +0.11.3").is_ok());
    assert!(SysCommandHandler::check_gflow_version("gflow 0.11.2.7").is_ok());
}

#[test]
fn test_gflow_version_refusals() {
    assert!(matches!(
        SysCommandHandler::check_gflow_version("gflow 0.11.1"),
        Err(GflowVersionError::TooOld(v)) if v == "0.11.1"
    ));
    assert!(matches!(
        SysCommandHandler::check_gflow_version("gflow"),
        Err(GflowVersionError::Unparsable(o)) if o == "gflow"
    ));
    assert!(matches!(
        SysCommandHandler::check_gflow_version("gflow 1.2"),
        Err(GflowVersionError::BadFormat(v)) if v == "1.2"
    ));
    assert!(matches!(
        SysCommandHandler::check_gflow_version("gflow x.1.2"),
        Err(GflowVersionError::BadMajor(p)) if p == "x"
    ));
    assert!(matches!(
        SysCommandHandler::check_gflow_version("gflow 0.-1.2"),
        Err(GflowVersionError::BadMinor(p)) if p == "-1"
    ));
    assert!(matches!(
        SysCommandHandler::check_gflow_version("gflow 0.11."),
        Err(GflowVersionError::BadPatch(p)) if p.is_empty()
    ));
    assert!(matches!(
        SysCommandHandler::check_gflow_version("gflow 4294967296.0.0"),
        Err(GflowVersionError::BadMajor(p)) if p == "4294967296"
    ));
    assert!(matches!(
        SysCommandHandler::check_gflow_version("gflow 1.0.0-beta"),
        Err(GflowVersionError::BadPatch(p)) if p == "0-beta"
    ));
}

#[test]
fn test_read_version_trims_and_defaults() {
    assert_eq!(read_version(Some("  1.2.3\n")), "1.2.3");
    assert_eq!(read_version(Some(" \n\t")), "0.1.0");
    assert_eq!(read_version(Some("")), "0.1.0");
    assert_eq!(read_version(None), "0.1.0");
}

#[test]
fn test_package_out_path() {
    assert_eq!(
        package_out_path(Some("/tmp/out.tar.gz"), "/work/web", "web", "1.0"),
        "/tmp/out.tar.gz"
    );
    let expected = Path::new("/work").join("web-1.0.tar.gz");
    assert_eq!(
        package_out_path(None, "/work/web", "web", "1.0"),
        expected.to_string_lossy()
    );
    assert_eq!(package_out_path(None, "/", "web", "0.1.0"), "web-0.1.0.tar.gz");
}

#[test]
fn test_kind_and_model_menus() {
    assert_eq!(kind_from_index(0), SysKind::Gxl);
    assert_eq!(kind_from_index(1), SysKind::DockerCompose);
    let arm = ModelSTD::new(CpuArch::Arm, OsCPE::MAC14, RunSPC::Host);
    let x86 = ModelSTD::x86_ubt22_host();
    let models = vec![arm, x86];
    assert_eq!(model_from_index(&models, 1, arm), x86);
    assert_eq!(model_from_index(&models, 0, x86), arm);
    assert_eq!(model_from_index(&models, 5, x86), x86);
}

#[test]
fn test_ops_names_of_commands() {
    let ops = || SysOpsArgs {
        debug_log: DebugLogArgs {
            debug: 0,
            log: None,
        },
        module: None,
        env: "default".to_string(),
    };
    assert_eq!(SysCmd::Download(ops()).ops_name(), Some("download"));
    assert_eq!(SysCmd::Install(ops()).ops_name(), Some("install"));
    assert_eq!(SysCmd::Uninstall(ops()).ops_name(), Some("uninstall"));
    assert_eq!(SysCmd::Start(ops()).ops_name(), Some("start"));
    assert_eq!(SysCmd::Stop(ops()).ops_name(), Some("stop"));
    assert_eq!(SysCmd::Status(ops()).ops_name(), Some("status"));
    assert_eq!(SysCmd::Diagnose(ops()).ops_name(), Some("diagnose"));
    assert_eq!(SysCmd::Setting(SysSettingArgs { init: false }).ops_name(), None);
}

#[test]
fn test_resolve_sys_value_path_prefers_project_values() {
    let mut conf = OpsProjectConf::new("proj", DependencySet::empty_set());
    conf.import_sys(OpsSystem::new(
        SysDefine::new_without_model("my-sys").with_kind(SysKind::DockerCompose),
        Address::http("http://example.com/my-sys.tar.gz"),
    ));
    let listed = resolve_sys_value_path("/data/proj/my-sys", Some(&conf));
    assert_eq!(
        listed.root().as_str(),
        Path::new("/data/proj").join("values").join("my-sys").to_string_lossy()
    );
    let other = resolve_sys_value_path("/data/proj/other", Some(&conf));
    assert_eq!(
        other.root().as_str(),
        Path::new("/data/proj/other").join("values").to_string_lossy()
    );
    let plain = resolve_sys_value_path("/data/plain-sys", None);
    assert_eq!(
        plain.root().as_str(),
        Path::new("/data/plain-sys").join("values").to_string_lossy()
    );
}

#[test]
fn test_gx_and_compose_arguments() {
    assert_eq!(galaxy_ops::cmd::gx_args("start"), vec!["run", "start"]);
    assert_eq!(galaxy_ops::cmd::gx_args("diagnose"), vec!["run", "diagnose"]);
    assert_eq!(galaxy_ops::cmd::compose_args("start"), vec!["compose", "up", "-d"]);
    assert_eq!(galaxy_ops::cmd::compose_args("diagnose"), vec!["compose", "config"]);
    assert_eq!(galaxy_ops::cmd::compose_args("logs"), vec!["compose", "logs"]);
}

#[test]
fn test_sec_env_pairs_display_texts() {
    let mut dict = ValueDict::new();
    dict.insert("SEC_PORT", ValueType::from(5432u64));
    dict.insert("SEC_FLAG", ValueType::from(true));
    dict.insert("SEC_TOKEN", ValueType::from("t o k"));
    let pairs = sec_env_pairs_for("start", &dict);
    assert_eq!(
        pairs,
        vec![
            ("SEC_PORT".to_string(), "5432".to_string()),
            ("SEC_FLAG".to_string(), "true".to_string()),
            ("SEC_TOKEN".to_string(), "t o k".to_string())
        ]
    );
    let masked = sec_env_pairs_for("diagnose", &dict);
    assert!(masked.iter().all(|(_, v)| v == "********"));
}
