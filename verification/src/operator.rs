//! Decisions of the system operator: the kind read back from a definition,
//! the value-file template built from the resolved defaults, and which value
//! files the initialization writes.

use vstd::prelude::*;
use orion_variate::vars::ValueDict;
use crate::conf::SysKind;
use crate::dict::{
    merge_spec, origin_dict_clone, origin_entries, origin_merge, origin_set_source, tagged,
    value_dict_entries, value_dict_keys, value_dict_len, PlainView,
};
use orion_variate::vars::OriginDict;
use crate::text::no_nl;
use crate::value_file::{has_content, reference_text, value_reference};

verus! {

/// The kind of a system from its definition as read (`None` when the
/// definition is missing or does not parse): the kind written there, else
/// the default GXL, so that older systems keep working.
pub fn kind_or_default(parsed: Option<SysKind>) -> (r: SysKind)
    ensures
        r == match parsed {
            Some(k) => k,
            None => SysKind::Gxl,
        },
{
    match parsed {
        Some(k) => k,
        None => SysKind::default_kind(),
    }
}

/// What `serde_yaml::to_string` gives for a value dictionary with the
/// entries `entries`: its YAML text, or `None` when it cannot be written.
pub uninterp spec fn dict_yaml(entries: Seq<(Seq<char>, PlainView)>) -> Option<Seq<char>>;

/// `serde_yaml::to_string` of a value dictionary, its error given as text.
#[verifier::external_body]
fn dict_yaml_text(d: &ValueDict) -> (r: Result<String, String>)
    ensures
        match r {
            Ok(t) => dict_yaml(value_dict_entries(*d)) == Some(t@),
            Err(_) => dict_yaml(value_dict_entries(*d)) is None,
        },
{
    serde_yaml::to_string(d).map_err(|e| e.to_string())
}

/// The template could not be written.
pub enum ReferenceError {
    /// The defaults could not be written as YAML; the reason is given.
    Serialize(String),
}

/// The value-file template of a system whose resolved defaults are
/// `defaults`, read from `vars_file`: the header alone when there are no
/// defaults, else the header and each default's YAML line commented out.
/// The template is inert: as a value file it overrides nothing.
pub fn system_value_reference(vars_file: &str, defaults: &ValueDict) -> (r: Result<String, ReferenceError>)
    ensures
        value_dict_keys(*defaults).len() == 0 ==> (r matches Ok(t) && t@ == reference_text(
            vars_file@,
            None,
        )),
        value_dict_keys(*defaults).len() > 0 ==> match dict_yaml(value_dict_entries(*defaults)) {
            Some(y) => r matches Ok(t) && t@ == reference_text(vars_file@, Some(y)),
            None => r is Err,
        },
        r matches Ok(t) ==> (no_nl(vars_file@) ==> !has_content(t@)),
{
    if value_dict_len(defaults) == 0 {
        return Ok(value_reference(vars_file, None));
    }
    match dict_yaml_text(defaults) {
        Ok(body) => Ok(value_reference(vars_file, Some(body.as_str()))),
        Err(e) => Err(ReferenceError::Serialize(e)),
    }
}

/// Which value files already exist: one flag per module of the system, the
/// settings' values, and the system value file.
pub struct ValueFilesPresent {
    pub modules: Vec<bool>,
    pub setting: bool,
    pub sys_value: bool,
}

/// Which value files the initialization writes.
pub struct ValueFilesToWrite {
    pub modules: Vec<bool>,
    pub setting: bool,
    pub sys_value: bool,
}

/// The initialization needs the resolved variables (`sys/merged_vars.yml`).
pub struct VarsNotResolved;

/// What initializing the value files of a system does: nothing but an error
/// when its variables are not resolved; else it writes exactly the value
/// files that do not exist yet, so a file the user has written is never
/// replaced.
pub fn init_value_files(resolved: bool, present: &ValueFilesPresent) -> (r: Result<ValueFilesToWrite, VarsNotResolved>)
    ensures
        r is Err <==> !resolved,
        r matches Ok(w) ==> {
            &&& w.modules@.len() == present.modules@.len()
            &&& forall|i: int| 0 <= i < w.modules@.len() ==> w.modules@[i] == !present.modules@[i]
            &&& w.setting == !present.setting
            &&& w.sys_value == !present.sys_value
        },
{
    if !resolved {
        return Err(VarsNotResolved);
    }
    let mut modules: Vec<bool> = Vec::new();
    let mut i: usize = 0;
    while i < present.modules.len()
        invariant
            i <= present.modules.len(),
            modules@.len() == i,
            forall|j: int| 0 <= j < i ==> modules@[j] == !present.modules@[j],
        decreases present.modules.len() - i,
    {
        modules.push(!present.modules[i]);
        i = i + 1;
    }
    Ok(ValueFilesToWrite { modules, setting: !present.setting, sys_value: !present.sys_value })
}

/// The operation values of a module: the system values tagged
/// `sys-setting`, overridden by the module values tagged `mod-setting`.
pub fn mod_opr_values(sys_values: &OriginDict, mod_values: &OriginDict) -> (r: OriginDict)
    ensures
        origin_entries(r) == merge_spec(
            tagged(origin_entries(*sys_values), "sys-setting"@),
            tagged(origin_entries(*mod_values), "mod-setting"@),
        ),
{
    let mut sys_dict = origin_dict_clone(sys_values);
    origin_set_source(&mut sys_dict, "sys-setting");
    let mut mod_dict = origin_dict_clone(mod_values);
    origin_set_source(&mut mod_dict, "mod-setting");
    origin_merge(&mut sys_dict, &mod_dict);
    sys_dict
}

/// The operation values of a system: its values tagged `sys-setting`.
pub fn sys_opr_values(sys_values: &OriginDict) -> (r: OriginDict)
    ensures
        origin_entries(r) == tagged(origin_entries(*sys_values), "sys-setting"@),
{
    let mut sys_dict = origin_dict_clone(sys_values);
    origin_set_source(&mut sys_dict, "sys-setting");
    sys_dict
}

/// The variables file a system value file is built from: the resolved
/// `merged_vars.yml` when it exists, else the former `sys_vars.yml` when that
/// exists; with neither, the variables are not resolved and the missing
/// `merged_vars.yml` is named.
pub fn opr_vars_file(merged: String, legacy: String, merged_exists: bool, legacy_exists: bool) -> (r: Result<String, String>)
    ensures
        merged_exists ==> (r matches Ok(f) && f@ == merged@),
        !merged_exists && legacy_exists ==> (r matches Ok(f) && f@ == legacy@),
        !merged_exists && !legacy_exists ==> (r matches Err(f) && f@ == merged@),
{
    if merged_exists {
        Ok(merged)
    } else if legacy_exists {
        Ok(legacy)
    } else {
        Err(merged)
    }
}

/// Which of a system's files exist when it is saved.
pub struct SaveFilesPresent {
    /// `sys-prj.yml`.
    pub conf: bool,
    /// `sys/sys_model.yml`.
    pub define: bool,
    /// `sys/setting/vars.yml`.
    pub setting_vars: bool,
    /// `sys/setting/list.yml`.
    pub setting_list: bool,
    /// `sys/mod_list.yml`.
    pub mod_list: bool,
    /// `sys/workflows`.
    pub workflows: bool,
    /// `version.txt`.
    pub version: bool,
    /// `docker-compose.yml`.
    pub compose_file: bool,
    /// `.gitignore`.
    pub gitignore: bool,
}

/// What saving a system writes.
pub struct SavePlan {
    /// `sys-prj.yml`.
    pub conf: bool,
    /// `sys/sys_model.yml`.
    pub define: bool,
    /// `sys/setting/vars.yml`.
    pub setting_vars: bool,
    /// `sys/setting/list.yml`.
    pub setting_list: bool,
    /// `sys/mod_list.yml`.
    pub mod_list: bool,
    /// `sys/workflows` and the `_gal` project files.
    pub workflows: bool,
    /// The `values/` directory.
    pub values_dir: bool,
    /// `version.txt` (written with `0.1.0`).
    pub version: bool,
    /// `docker-compose.yml` (the minimal compose template).
    pub compose_file: bool,
    /// `.gitignore`.
    pub gitignore: bool,
}

/// What saving a system writes: only what is missing, so that saving into
/// an existing directory completes its layout and replaces no file. A
/// docker compose system gets the minimal layout: its definition, its
/// variables and `version.txt`; no module list, workflows, settings list or
/// value directory. A GXL system gets its definition, variables, settings
/// list, module list and workflows (with the project files, which hold its
/// version) and the value directory. Either kind gets its configuration,
/// `.gitignore` and the minimal `docker-compose.yml`.
pub fn save_plan(docker_compose: bool, present: &SaveFilesPresent) -> (r: SavePlan)
    ensures
        r.conf == !present.conf,
        r.define == !present.define,
        r.setting_vars == !present.setting_vars,
        r.compose_file == !present.compose_file,
        r.gitignore == !present.gitignore,
        docker_compose ==> {
            &&& r.version == !present.version
            &&& !r.setting_list && !r.mod_list && !r.workflows && !r.values_dir
        },
        !docker_compose ==> {
            &&& r.setting_list == !present.setting_list
            &&& r.mod_list == !present.mod_list
            &&& r.workflows == !present.workflows
            &&& r.values_dir
            &&& !r.version
        },
{
    if docker_compose {
        SavePlan {
            conf: !present.conf,
            define: !present.define,
            setting_vars: !present.setting_vars,
            setting_list: false,
            mod_list: false,
            workflows: false,
            values_dir: false,
            version: !present.version,
            compose_file: !present.compose_file,
            gitignore: !present.gitignore,
        }
    } else {
        SavePlan {
            conf: !present.conf,
            define: !present.define,
            setting_vars: !present.setting_vars,
            setting_list: !present.setting_list,
            mod_list: !present.mod_list,
            workflows: !present.workflows,
            values_dir: true,
            version: false,
            compose_file: !present.compose_file,
            gitignore: !present.gitignore,
        }
    }
}

} // verus!
