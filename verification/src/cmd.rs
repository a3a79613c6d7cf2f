//! The decisions behind the `gops sys` commands: their arguments, how a
//! system kind is named, how the operations map onto docker compose, which
//! secrets reach a child process, the package name and the value directory.

use vstd::prelude::*;
use orion_variate::vars::{OriginDict, ValueDict};
use crate::conf::SysKind;
use crate::define::ModelSTD;
use crate::dict::{
    merge_spec, origin_dict_clone, origin_entries, origin_merge, origin_set_source, tagged,
    display_text, value_dict_entries, value_dict_entry_at, value_dict_keys, value_dict_len,
};
use crate::gflow::{check_gflow_output, gflow_check, GflowFault, GflowVersionError};
use crate::ops_prj::{owner_project_value_dir, system_value_dir, OpsProjectConf, OpsSystemView};
use crate::path::{join, joined, parent, path_file_name, path_parent, SysValuePaths, VALUE_DIR};
use crate::text::{append_chars, chars_of, string_of, trim, trim_chars};

verus! {

/// Two texts are equal.
fn same_text(a: &str, b: &str) -> (r: bool)
    ensures
        r == (a@ == b@),
{
    let x = a.to_owned();
    let y = b.to_owned();
    x == y
}

/// The debug and log options shared by the commands.
pub struct DebugLogArgs {
    pub debug: usize,
    pub log: Option<String>,
}

impl DebugLogArgs {
    /// The debug level.
    pub fn debug_level(&self) -> (r: usize)
        ensures
            r == self.debug,
    {
        self.debug
    }

    /// The log setting, if one was given.
    pub fn log_setting(&self) -> (r: Option<String>)
        ensures
            r == self.log,
    {
        self.log.clone()
    }
}

/// `gops sys new`: the system's name and, optionally, its kind.
pub struct SysNewArgs {
    pub name: String,
    pub kind: Option<String>,
}

impl SysNewArgs {
    pub fn name(&self) -> (r: &String)
        ensures
            r == &self.name,
    {
        &self.name
    }

    pub fn kind(&self) -> (r: &Option<String>)
        ensures
            r == &self.kind,
    {
        &self.kind
    }

    /// `new` takes no debug option: level 0.
    pub fn debug_level(&self) -> (r: usize)
        ensures
            r == 0,
    {
        0
    }

    /// `new` takes no log option.
    pub fn log_setting(&self) -> (r: Option<String>)
        ensures
            r is None,
    {
        None
    }
}

/// `gops sys update`.
pub struct SysUpdateArgs {
    pub debug_log: DebugLogArgs,
    pub force: bool,
}

impl SysUpdateArgs {
    pub fn debug_log(&self) -> (r: &DebugLogArgs)
        ensures
            r == &self.debug_log,
    {
        &self.debug_log
    }

    pub fn force(&self) -> (r: bool)
        ensures
            r == self.force,
    {
        self.force
    }

    pub fn debug_level(&self) -> (r: usize)
        ensures
            r == self.debug_log.debug,
    {
        self.debug_log.debug_level()
    }

    pub fn log_setting(&self) -> (r: Option<String>)
        ensures
            r == self.debug_log.log,
    {
        self.debug_log.log_setting()
    }
}

/// `gops sys package`.
pub struct SysPackageArgs {
    pub debug_log: DebugLogArgs,
    pub force: bool,
    pub output: Option<String>,
}

impl SysPackageArgs {
    pub fn debug_log(&self) -> (r: &DebugLogArgs)
        ensures
            r == &self.debug_log,
    {
        &self.debug_log
    }

    pub fn force(&self) -> (r: bool)
        ensures
            r == self.force,
    {
        self.force
    }

    pub fn output(&self) -> (r: &Option<String>)
        ensures
            r == &self.output,
    {
        &self.output
    }

    pub fn debug_level(&self) -> (r: usize)
        ensures
            r == self.debug_log.debug,
    {
        self.debug_log.debug_level()
    }

    pub fn log_setting(&self) -> (r: Option<String>)
        ensures
            r == self.debug_log.log,
    {
        self.debug_log.log_setting()
    }
}

/// `gops sys localize`.
pub struct SysLocalizeArgs {
    pub debug_log: DebugLogArgs,
    pub module: Option<String>,
    pub only: bool,
}

impl SysLocalizeArgs {
    pub fn debug_log(&self) -> (r: &DebugLogArgs)
        ensures
            r == &self.debug_log,
    {
        &self.debug_log
    }

    pub fn module(&self) -> (r: &Option<String>)
        ensures
            r == &self.module,
    {
        &self.module
    }

    pub fn only(&self) -> (r: bool)
        ensures
            r == self.only,
    {
        self.only
    }

    pub fn debug_level(&self) -> (r: usize)
        ensures
            r == self.debug_log.debug,
    {
        self.debug_log.debug_level()
    }

    pub fn log_setting(&self) -> (r: Option<String>)
        ensures
            r == self.debug_log.log,
    {
        self.debug_log.log_setting()
    }
}

/// `gops sys setting`.
pub struct SysSettingArgs {
    pub init: bool,
}

impl SysSettingArgs {
    pub fn init(&self) -> (r: bool)
        ensures
            r == self.init,
    {
        self.init
    }
}

/// The operation commands (`download`, `install`, ...).
pub struct SysOpsArgs {
    pub debug_log: DebugLogArgs,
    pub module: Option<String>,
    pub env: String,
}

impl SysOpsArgs {
    pub fn debug_log(&self) -> (r: &DebugLogArgs)
        ensures
            r == &self.debug_log,
    {
        &self.debug_log
    }

    pub fn module(&self) -> (r: &Option<String>)
        ensures
            r == &self.module,
    {
        &self.module
    }

    pub fn env(&self) -> (r: &String)
        ensures
            r == &self.env,
    {
        &self.env
    }

    pub fn debug_level(&self) -> (r: usize)
        ensures
            r == self.debug_log.debug,
    {
        self.debug_log.debug_level()
    }

    pub fn log_setting(&self) -> (r: Option<String>)
        ensures
            r == self.debug_log.log,
    {
        self.debug_log.log_setting()
    }
}

/// The `gops sys` commands.
pub enum SysCmd {
    New(SysNewArgs),
    Update(SysUpdateArgs),
    Package(SysPackageArgs),
    Localize(SysLocalizeArgs),
    Setting(SysSettingArgs),
    Download(SysOpsArgs),
    Install(SysOpsArgs),
    Uninstall(SysOpsArgs),
    Start(SysOpsArgs),
    Stop(SysOpsArgs),
    Status(SysOpsArgs),
    Diagnose(SysOpsArgs),
}

/// The operation name of a command, for those run through gflow or docker
/// compose.
pub open spec fn ops_name_of(cmd: SysCmd) -> Option<Seq<char>> {
    match cmd {
        SysCmd::Download(_) => Some("download"@),
        SysCmd::Install(_) => Some("install"@),
        SysCmd::Uninstall(_) => Some("uninstall"@),
        SysCmd::Start(_) => Some("start"@),
        SysCmd::Stop(_) => Some("stop"@),
        SysCmd::Status(_) => Some("status"@),
        SysCmd::Diagnose(_) => Some("diagnose"@),
        _ => None,
    }
}

impl SysCmd {
    /// The operation name the command is run under, for the operation
    /// commands; `None` for the others.
    pub fn ops_name(&self) -> (r: Option<&'static str>)
        ensures
            match r {
                Some(n) => ops_name_of(*self) == Some(n@),
                None => ops_name_of(*self) is None,
            },
    {
        match self {
            SysCmd::Download(_) => Some("download"),
            SysCmd::Install(_) => Some("install"),
            SysCmd::Uninstall(_) => Some("uninstall"),
            SysCmd::Start(_) => Some("start"),
            SysCmd::Stop(_) => Some("stop"),
            SysCmd::Status(_) => Some("status"),
            SysCmd::Diagnose(_) => Some("diagnose"),
            _ => None,
        }
    }
}

/// The kind a `--kind` text names: docker compose for `docker-compose` or
/// `compose`, GXL for anything else.
pub open spec fn kind_named(s: Seq<char>) -> SysKind {
    if s == "docker-compose"@ || s == "compose"@ {
        SysKind::DockerCompose
    } else {
        SysKind::Gxl
    }
}

/// The kind a `--kind` text names; unknown texts name GXL.
pub fn parse_kind(s: &str) -> (r: SysKind)
    ensures
        r == kind_named(s@),
{
    if same_text(s, "docker-compose") || same_text(s, "compose") {
        SysKind::DockerCompose
    } else {
        SysKind::Gxl
    }
}

/// The docker compose subcommand and extra arguments an operation maps to:
/// download pulls, install creates, start brings up detached, stop stops,
/// uninstall takes down, status lists, diagnose checks the configuration;
/// any other name is passed through.
pub open spec fn compose_of(cmd: Seq<char>) -> (Seq<char>, Seq<Seq<char>>) {
    if cmd == "download"@ {
        ("pull"@, seq![])
    } else if cmd == "install"@ {
        ("create"@, seq![])
    } else if cmd == "start"@ {
        ("up"@, seq!["-d"@])
    } else if cmd == "stop"@ {
        ("stop"@, seq![])
    } else if cmd == "uninstall"@ {
        ("down"@, seq![])
    } else if cmd == "status"@ {
        ("ps"@, seq![])
    } else if cmd == "diagnose"@ {
        ("config"@, seq![])
    } else {
        (cmd, seq![])
    }
}

/// The docker compose subcommand and extra arguments for the operation
/// `cmd_name`.
pub fn compose_subcommand(cmd_name: &str) -> (r: (&str, &'static [&'static str]))
    ensures
        r.0@ == compose_of(cmd_name@).0,
        r.1@.map_values(|s: &str| s@) == compose_of(cmd_name@).1,
{
    let none: &'static [&'static str] = &[];
    let r: (&str, &'static [&'static str]) = if same_text(cmd_name, "download") {
        ("pull", none)
    } else if same_text(cmd_name, "install") {
        ("create", none)
    } else if same_text(cmd_name, "start") {
        ("up", &["-d"])
    } else if same_text(cmd_name, "stop") {
        ("stop", none)
    } else if same_text(cmd_name, "uninstall") {
        ("down", none)
    } else if same_text(cmd_name, "status") {
        ("ps", none)
    } else if same_text(cmd_name, "diagnose") {
        ("config", none)
    } else {
        (cmd_name, none)
    };
    assert(r.1@.map_values(|s: &str| s@) =~= compose_of(cmd_name@).1);
    r
}

/// The text injected in place of a secret.
pub const SECRET_MASK: &'static str = "********";

/// The secrets of `dict` as environment pairs for the child process of the
/// operation `cmd_name`, one per key in the dictionary's order: under
/// `diagnose` (a read-only check) each value is the mask, so no secret is
/// shown; under any other operation it is the value's display text.
pub fn sec_env_pairs_for(cmd_name: &str, dict: &ValueDict) -> (r: Vec<(String, String)>)
    ensures
        r@.len() == value_dict_entries(*dict).len(),
        forall|j: int|
            0 <= j < r@.len() ==> (#[trigger] r@[j]).0@ == value_dict_entries(*dict)[j].0 && r@[j].1@
                == (if cmd_name@ == "diagnose"@ {
                SECRET_MASK@
            } else {
                display_text(value_dict_entries(*dict)[j].1)
            }),
{
    let mask = same_text(cmd_name, "diagnose");
    let n = value_dict_len(dict);
    let mut r: Vec<(String, String)> = Vec::new();
    let mut i: usize = 0;
    while i < n
        invariant
            n == value_dict_entries(*dict).len(),
            i <= n,
            r@.len() == i,
            mask == (cmd_name@ == "diagnose"@),
            forall|j: int|
                0 <= j < i ==> (#[trigger] r@[j]).0@ == value_dict_entries(*dict)[j].0 && r@[j].1@
                    == (if mask {
                    SECRET_MASK@
                } else {
                    display_text(value_dict_entries(*dict)[j].1)
                }),
        decreases n - i,
    {
        match value_dict_entry_at(dict, i) {
            Some((k, v)) => {
                let value = if mask {
                    SECRET_MASK.to_owned()
                } else {
                    v.display_text()
                };
                r.push((k, value));
            },
            None => {},
        }
        i = i + 1;
    }
    r
}

/// The version a `version.txt` gives: its text trimmed, or `0.1.0` when it
/// could not be read or is blank.
pub open spec fn version_of(read: Option<Seq<char>>) -> Seq<char> {
    match read {
        Some(t) => if trim(t).len() == 0 {
            "0.1.0"@
        } else {
            trim(t)
        },
        None => "0.1.0"@,
    }
}

/// The system's version from the text of its `version.txt` (`None` when it
/// could not be read): the text trimmed, or `0.1.0`.
pub fn read_version(read: Option<&str>) -> (r: String)
    ensures
        r@ == version_of(match read {
            Some(t) => Some(t@),
            None => None,
        }),
{
    match read {
        Some(t) => {
            let cs = chars_of(t);
            let tr = trim_chars(&cs);
            if tr.len() == 0 {
                "0.1.0".to_owned()
            } else {
                string_of(&tr)
            }
        },
        None => "0.1.0".to_owned(),
    }
}

/// The file name of a system package: `<name>-<version>.tar.gz`.
pub open spec fn package_name(name: Seq<char>, version: Seq<char>) -> Seq<char> {
    name + seq!['-'] + version + ".tar.gz"@
}

/// Where a package goes: the `--output` path when given, else
/// `<name>-<version>.tar.gz` next to the system directory (or as it is, when
/// the directory has no parent).
pub open spec fn package_path(output: Option<Seq<char>>, dir: Seq<char>, name: Seq<char>, version: Seq<char>) -> Seq<char> {
    match output {
        Some(o) => o,
        None => match path_parent(dir) {
            Some(p) => joined(p, package_name(name, version)),
            None => package_name(name, version),
        },
    }
}

/// A package is named after the system, not after its directory: with no
/// `--output`, two directories with the same parent give the same package
/// path for the same system name and version.
pub proof fn lemma_package_ignores_dir_name(d1: Seq<char>, d2: Seq<char>, name: Seq<char>, version: Seq<char>)
    requires
        path_parent(d1) == path_parent(d2),
    ensures
        package_path(None, d1, name, version) == package_path(None, d2, name, version),
{
}

/// With no `--output`, the package of the system `name` at version
/// `version` is the file `<name>-<version>.tar.gz` inside the parent `p` of
/// the system directory: `p`, a `/` when `p` does not end with one, then
/// that file name (a system name is relative).
pub proof fn lemma_package_in_parent(dir: Seq<char>, p: Seq<char>, name: Seq<char>, version: Seq<char>)
    requires
        path_parent(dir) == Some(p),
        name.len() > 0,
        name[0] != '/',
    ensures
        ({
            let file = name + seq!['-'] + version + seq!['.', 't', 'a', 'r', '.', 'g', 'z'];
            package_path(None, dir, name, version) == (if p.len() > 0 && p.last() != '/' {
                p + seq!['/'] + file
            } else {
                p + file
            })
        }),
{
    reveal_strlit(".tar.gz");
    let file = name + seq!['-'] + version + seq!['.', 't', 'a', 'r', '.', 'g', 'z'];
    assert(package_name(name, version) =~= file);
    assert(file[0] == name[0]);
}

/// Where the package of the system at `current_dir` goes.
pub fn package_out_path(output: Option<&str>, current_dir: &str, name: &str, version: &str) -> (r: String)
    ensures
        r@ == package_path(
            match output {
                Some(o) => Some(o@),
                None => None,
            },
            current_dir@,
            name@,
            version@,
        ),
{
    match output {
        Some(o) => o.to_owned(),
        None => {
            let mut file = chars_of(name);
            file.push('-');
            let v = chars_of(version);
            append_chars(&mut file, &v);
            let ext = chars_of(".tar.gz");
            append_chars(&mut file, &ext);
            assert(file@ =~= package_name(name@, version@));
            let file_name = string_of(&file);
            match parent(current_dir) {
                Some(p) => join(p.as_str(), file_name.as_str()),
                None => file_name,
            }
        },
    }
}

/// The kind picked from the kind menu (`gxl`, `docker-compose`): the first
/// entry is GXL, any other docker compose.
pub fn kind_from_index(index: usize) -> (r: SysKind)
    ensures
        r == (if index == 0 {
            SysKind::Gxl
        } else {
            SysKind::DockerCompose
        }),
{
    if index == 0 {
        SysKind::Gxl
    } else {
        SysKind::DockerCompose
    }
}

/// The model picked from the model menu: the entry at `index`, or `fallback`
/// when there is no such entry.
pub fn model_from_index(models: &Vec<ModelSTD>, index: usize, fallback: ModelSTD) -> (r: ModelSTD)
    ensures
        r == (if index < models@.len() {
            models@[index as int]
        } else {
            fallback
        }),
{
    if index < models.len() {
        models[index]
    } else {
        fallback
    }
}

/// The texts of a list of strings.
pub open spec fn texts(v: Seq<String>) -> Seq<Seq<char>> {
    v.map_values(|s: String| s@)
}

/// The arguments `gx` is run with for the operation `cmd_name` of a GXL
/// system: `run` and the operation.
pub open spec fn gx_args_of(cmd_name: Seq<char>) -> Seq<Seq<char>> {
    seq!["run"@, cmd_name]
}

/// The arguments `gx` is run with for the operation `cmd_name`: `gx run
/// <cmd>`.
pub fn gx_args(cmd_name: &str) -> (r: Vec<String>)
    ensures
        texts(r@) == gx_args_of(cmd_name@),
{
    let mut r: Vec<String> = Vec::new();
    r.push("run".to_owned());
    r.push(cmd_name.to_owned());
    assert(texts(r@) =~= gx_args_of(cmd_name@));
    r
}

/// The arguments docker is run with for the operation `cmd_name`: `compose`,
/// the subcommand, then its extra arguments.
pub fn compose_args(cmd_name: &str) -> (r: Vec<String>)
    ensures
        texts(r@) == seq!["compose"@, compose_of(cmd_name@).0] + compose_of(cmd_name@).1,
{
    let (sub, extra) = compose_subcommand(cmd_name);
    let mut r: Vec<String> = Vec::new();
    r.push("compose".to_owned());
    r.push(sub.to_owned());
    let mut i: usize = 0;
    while i < extra.len()
        invariant
            i <= extra@.len(),
            extra@.map_values(|s: &str| s@) == compose_of(cmd_name@).1,
            sub@ == compose_of(cmd_name@).0,
            texts(r@) == seq!["compose"@, sub@] + extra@.map_values(|s: &str| s@).subrange(0, i as int),
        decreases extra.len() - i,
    {
        r.push(extra[i].to_owned());
        i = i + 1;
        assert(texts(r@) =~= seq!["compose"@, sub@] + extra@.map_values(|s: &str| s@).subrange(0, i as int));
    }
    assert(extra@.map_values(|s: &str| s@).subrange(0, extra.len() as int) =~= extra@.map_values(|s: &str| s@));
    r
}

/// The command handler of `gops sys`.
pub struct SysCommandHandler;

impl SysCommandHandler {
    /// The verdict on what `gflow -V` printed: the version, its second word,
    /// must read `major.minor.patch` and be at least 0.11.2.
    pub fn check_gflow_version(output: &str) -> (r: Result<(), GflowVersionError>)
        ensures
            match r {
                Ok(()) => gflow_check(output@) == Ok::<(), GflowFault>(()),
                Err(e) => gflow_check(output@) == Err::<(), GflowFault>(e@),
            },
    {
        check_gflow_output(output)
    }

    /// The values a system is localized with: its resolved defaults (the
    /// `system:` variables of `sys/merged_vars.yml`) tagged `sys-default` as
    /// the baseline, overridden by the system value file tagged
    /// `sys-setting`, then by the customer's values (when there are any)
    /// tagged `customer`. The value files need only list what they change.
    pub fn localize_values(
        defaults: &OriginDict,
        sys_values: &OriginDict,
        user_values: Option<&OriginDict>,
    ) -> (r: OriginDict)
        ensures
            origin_entries(r) == {
                let base = merge_spec(
                    tagged(origin_entries(*defaults), "sys-default"@),
                    tagged(origin_entries(*sys_values), "sys-setting"@),
                );
                match user_values {
                    Some(u) => merge_spec(base, tagged(origin_entries(*u), "customer"@)),
                    None => base,
                }
            },
    {
        let mut dict = origin_dict_clone(defaults);
        origin_set_source(&mut dict, "sys-default");
        let mut sys = origin_dict_clone(sys_values);
        origin_set_source(&mut sys, "sys-setting");
        origin_merge(&mut dict, &sys);
        match user_values {
            Some(u) => {
                let mut user = origin_dict_clone(u);
                origin_set_source(&mut user, "customer");
                origin_merge(&mut dict, &user);
            },
            None => {},
        }
        dict
    }
}

/// The value directory of the system at `sys_dir`: the one its operations
/// project keeps for it (see `owner_project_value_dir`; `conf` is the
/// manifest next to it, if any), else the system's own `values/`.
pub fn resolve_sys_value_path(sys_dir: &str, conf: Option<&OpsProjectConf>) -> (r: SysValuePaths)
    ensures
        (path_file_name(sys_dir@) is Some && path_parent(sys_dir@) is Some && conf is Some
            && exists|j: int|
            0 <= j < conf.unwrap().systems().len() && (#[trigger] conf.unwrap().systems()[j]).0.name
                == path_file_name(sys_dir@).unwrap()) ==> r.root@ == system_value_dir(
            path_parent(sys_dir@).unwrap(),
            path_file_name(sys_dir@).unwrap(),
        ),
        !(path_file_name(sys_dir@) is Some && path_parent(sys_dir@) is Some && conf is Some
            && exists|j: int|
            0 <= j < conf.unwrap().systems().len() && (#[trigger] conf.unwrap().systems()[j]).0.name
                == path_file_name(sys_dir@).unwrap()) ==> r.root@ == joined(sys_dir@, VALUE_DIR@),
{
    match owner_project_value_dir(sys_dir, conf) {
        Some(dir) => SysValuePaths::from_root(dir),
        None => SysValuePaths::from_root(sys_dir.to_owned()).join(VALUE_DIR),
    }
}

} // verus!
