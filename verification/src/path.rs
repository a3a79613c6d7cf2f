//! File-system layout of a system: where its configuration, definitions,
//! variables and value files live.

use vstd::prelude::*;

verus! {

/// Name of the version-1 system configuration file.
pub const SYS_PRJ_V1_FILE: &'static str = "sys_prj.yml";
/// Name of the system configuration file.
pub const SYS_PRJ_FILE: &'static str = "sys-prj.yml";
/// Directory of the system definition inside a system.
pub const SYS_DIR: &'static str = "sys";
/// File of the system definition.
pub const SYS_MODEL_DEF_YML: &'static str = "sys_model.yml";
/// File of the module list.
pub const MOD_LIST_YML: &'static str = "mod_list.yml";
/// File of variable definitions.
pub const VARS_YML: &'static str = "vars.yml";
/// Directory of the system settings.
pub const SETTING_DIR: &'static str = "setting";
/// File of the resolved variables (module variables merged with system ones).
pub const MERGED_VARS_YML: &'static str = "merged_vars.yml";
/// File of the effective variables.
pub const EFFECTIVE_VARS_YML: &'static str = "effective_vars.yml";
/// Former name of the resolved variables file.
pub const SYS_VARS_YML: &'static str = "sys_vars.yml";
/// Directory of the value files.
pub const VALUE_DIR: &'static str = "values";
/// File of the system values.
pub const SYS_VALUE_FILE: &'static str = "sys_value.yml";
/// File of a module's values.
pub const MOD_VALUE_FILE: &'static str = "mod_value.yml";
/// File of the customer's overriding values.
pub const USER_VALUE_FILE: &'static str = "value.yml";
/// File of the used values together with their origins.
pub const USED_READABLE_FILE: &'static str = "used_readable.yml";

/// What `Path::join` gives for `base` and `seg` (Unix paths): `seg` alone
/// when it is absolute; else `base`, then a `/` when `base` is not empty and
/// does not end with one, then `seg`.
pub open spec fn joined(base: Seq<char>, seg: Seq<char>) -> Seq<char> {
    if seg.len() > 0 && seg[0] == '/' {
        seg
    } else if base.len() > 0 && base.last() != '/' {
        base + seq!['/'] + seg
    } else {
        base + seg
    }
}

/// What `Path::file_name` gives for `p`, as text.
pub uninterp spec fn path_file_name(p: Seq<char>) -> Option<Seq<char>>;

/// What `Path::parent` gives for `p`, as text.
pub uninterp spec fn path_parent(p: Seq<char>) -> Option<Seq<char>>;

/// `Path::join`: `seg` adjoined to `base` (it replaces `base` when it is
/// absolute, else a separator is put between them when needed).
#[verifier::external_body]
pub(crate) fn join(base: &str, seg: &str) -> (r: String)
    ensures
        r@ == joined(base@, seg@),
{
    std::path::Path::new(base).join(seg).to_string_lossy().into_owned()
}

/// `Path::file_name`: the last component of `p`, if it has one.
#[verifier::external_body]
pub(crate) fn file_name(p: &str) -> (r: Option<String>)
    ensures
        r matches Some(n) ==> path_file_name(p@) == Some(n@),
        r is None ==> path_file_name(p@) is None,
{
    std::path::Path::new(p).file_name().map(|n| n.to_string_lossy().into_owned())
}

/// `Path::parent`: `p` without its last component, if it has one.
#[verifier::external_body]
pub(crate) fn parent(p: &str) -> (r: Option<String>)
    ensures
        r matches Some(n) ==> path_parent(p@) == Some(n@),
        r is None ==> path_parent(p@) is None,
{
    std::path::Path::new(p).parent().map(|n| n.to_string_lossy().into_owned())
}

/// Picks the variables file to read: the current name when it exists, else
/// the former name when that exists, else the current name (which then names
/// the missing file in messages).
pub fn choose_vars_file(current: String, former: String, current_exists: bool, former_exists: bool) -> (r: String)
    ensures
        r@ == (if current_exists || !former_exists { current@ } else { former@ }),
{
    if current_exists {
        current
    } else if former_exists {
        former
    } else {
        current
    }
}

/// The path of `sys_dir/name`.
pub open spec fn sys_file(root: Seq<char>, name: Seq<char>) -> Seq<char> {
    joined(joined(root, SYS_DIR@), name)
}

/// The paths of the parts of a system definition under `target_root`.
pub struct SysTargetPaths {
    pub target_root: String,
    pub define_path: String,
    pub spec_path: String,
    pub sys_vars_path: String,
    pub modlist_path: String,
    pub workflow_path: String,
    pub setting_path: String,
}

impl SysTargetPaths {
    /// The layout under `target_root`: the definition file, the variables
    /// file, the module list and the settings directory inside it.
    pub fn from_root(target_root: &str) -> (r: Self)
        ensures
            r.target_root@ == target_root@,
            r.define_path@ == joined(target_root@, SYS_MODEL_DEF_YML@),
            r.spec_path@ == target_root@,
            r.sys_vars_path@ == joined(target_root@, VARS_YML@),
            r.modlist_path@ == joined(target_root@, MOD_LIST_YML@),
            r.workflow_path@ == target_root@,
            r.setting_path@ == joined(target_root@, SETTING_DIR@),
    {
        SysTargetPaths {
            target_root: target_root.to_owned(),
            define_path: join(target_root, SYS_MODEL_DEF_YML),
            spec_path: target_root.to_owned(),
            sys_vars_path: join(target_root, VARS_YML),
            modlist_path: join(target_root, MOD_LIST_YML),
            workflow_path: target_root.to_owned(),
            setting_path: join(target_root, SETTING_DIR),
        }
    }

    pub fn define_path(&self) -> (r: &String)
        ensures
            r == &self.define_path,
    {
        &self.define_path
    }

    pub fn spec_path(&self) -> (r: &String)
        ensures
            r == &self.spec_path,
    {
        &self.spec_path
    }

    pub fn modlist_path(&self) -> (r: &String)
        ensures
            r == &self.modlist_path,
    {
        &self.modlist_path
    }

    pub fn workflow_path(&self) -> (r: &String)
        ensures
            r == &self.workflow_path,
    {
        &self.workflow_path
    }

    pub fn setting_path(&self) -> (r: &String)
        ensures
            r == &self.setting_path,
    {
        &self.setting_path
    }
}

/// A directory of value files.
pub struct ValuePath {
    pub root: String,
}

impl ValuePath {
    pub fn from_root(root: String) -> (r: Self)
        ensures
            r.root == root,
    {
        ValuePath { root }
    }
}

/// The paths of a system rooted at `root`.
pub struct SysOperatorPath {
    pub root: String,
}

impl SysOperatorPath {
    /// A system rooted at `root`.
    pub fn new(root: &str) -> (r: Self)
        ensures
            r.root@ == root@,
    {
        SysOperatorPath { root: root.to_owned() }
    }

    pub fn root(&self) -> (r: &String)
        ensures
            r == &self.root,
    {
        &self.root
    }

    /// The version-1 configuration file (`sys_prj.yml`).
    pub fn conf_file_v1(&self) -> (r: String)
        ensures
            r@ == joined(self.root@, SYS_PRJ_V1_FILE@),
    {
        join(self.root.as_str(), SYS_PRJ_V1_FILE)
    }

    /// The configuration file (`sys-prj.yml`).
    pub fn conf_file_v2(&self) -> (r: String)
        ensures
            r@ == joined(self.root@, SYS_PRJ_FILE@),
    {
        join(self.root.as_str(), SYS_PRJ_FILE)
    }

    /// The definition directory (`sys/`).
    pub fn sys_dir(&self) -> (r: String)
        ensures
            r@ == joined(self.root@, SYS_DIR@),
    {
        join(self.root.as_str(), SYS_DIR)
    }

    /// `sys/effective_vars.yml`.
    pub fn effective_vars_file(&self) -> (r: String)
        ensures
            r@ == sys_file(self.root@, EFFECTIVE_VARS_YML@),
    {
        let d = self.sys_dir();
        join(d.as_str(), EFFECTIVE_VARS_YML)
    }

    /// `sys/sys_vars.yml`, the former name of the variables file.
    pub fn legacy_vars_file(&self) -> (r: String)
        ensures
            r@ == sys_file(self.root@, SYS_VARS_YML@),
    {
        let d = self.sys_dir();
        join(d.as_str(), SYS_VARS_YML)
    }

    /// `sys/merged_vars.yml`, the resolved variables.
    pub fn merged_vars_file(&self) -> (r: String)
        ensures
            r@ == sys_file(self.root@, MERGED_VARS_YML@),
    {
        let d = self.sys_dir();
        join(d.as_str(), MERGED_VARS_YML)
    }

    /// The effective variables file: `effective_vars.yml` when it exists, else
    /// `sys_vars.yml` when that exists, else `effective_vars.yml`. Whether
    /// each exists is given: `current_exists` for `effective_vars.yml`,
    /// `former_exists` for `sys_vars.yml`.
    pub fn resolve_effective_vars_file(&self, current_exists: bool, former_exists: bool) -> (r: String)
        ensures
            r@ == (if current_exists || !former_exists {
                sys_file(self.root@, EFFECTIVE_VARS_YML@)
            } else {
                sys_file(self.root@, SYS_VARS_YML@)
            }),
    {
        let current = self.effective_vars_file();
        let former = self.legacy_vars_file();
        choose_vars_file(current, former, current_exists, former_exists)
    }

    /// The resolved variables file: `merged_vars.yml` when it exists, else
    /// `sys_vars.yml` when that exists, else `merged_vars.yml`. Whether each
    /// exists is given: `current_exists` for `merged_vars.yml`,
    /// `former_exists` for `sys_vars.yml`.
    pub fn resolve_merged_vars_file(&self, current_exists: bool, former_exists: bool) -> (r: String)
        ensures
            r@ == (if current_exists || !former_exists {
                sys_file(self.root@, MERGED_VARS_YML@)
            } else {
                sys_file(self.root@, SYS_VARS_YML@)
            }),
    {
        let current = self.merged_vars_file();
        let former = self.legacy_vars_file();
        choose_vars_file(current, former, current_exists, former_exists)
    }

    /// The value directory (`values/`).
    pub fn value_dir(&self) -> (r: String)
        ensures
            r@ == joined(self.root@, VALUE_DIR@),
    {
        join(self.root.as_str(), VALUE_DIR)
    }

    /// The system value file (`values/sys_value.yml`).
    pub fn sys_value_file(&self) -> (r: String)
        ensures
            r@ == joined(joined(self.root@, VALUE_DIR@), SYS_VALUE_FILE@),
    {
        let d = self.value_dir();
        join(d.as_str(), SYS_VALUE_FILE)
    }

    /// Whether the configuration has to move from `sys_prj.yml` to
    /// `sys-prj.yml`: `v1_exists` tells whether the first exists,
    /// `v2_exists` whether the second does.
    pub fn needs_conf_migration(&self, v1_exists: bool, v2_exists: bool) -> (r: bool)
        ensures
            r == (v1_exists && !v2_exists),
    {
        conf_migration_needed(v1_exists, v2_exists)
    }

    /// The value directory as a `ValuePath`.
    pub fn to_value_path(&self) -> (r: ValuePath)
        ensures
            r.root@ == joined(self.root@, VALUE_DIR@),
    {
        ValuePath::from_root(self.value_dir())
    }
}

/// The configuration moves to its current name exactly when only the
/// version-1 file is present.
pub fn conf_migration_needed(v1_exists: bool, v2_exists: bool) -> (r: bool)
    ensures
        r == (v1_exists && !v2_exists),
{
    v1_exists && !v2_exists
}

/// A directory of system value files.
pub struct SysValuePaths {
    pub root: String,
}

impl SysValuePaths {
    /// The value directory `root`.
    pub fn from_root(root: String) -> (r: Self)
        ensures
            r.root == root,
    {
        SysValuePaths { root }
    }

    pub fn root(&self) -> (r: &String)
        ensures
            r == &self.root,
    {
        &self.root
    }

    /// `root/sys_value.yml`.
    pub fn sys_value_file(&self) -> (r: String)
        ensures
            r@ == joined(self.root@, SYS_VALUE_FILE@),
    {
        join(self.root.as_str(), SYS_VALUE_FILE)
    }

    /// `root/mod_value.yml`.
    pub fn mod_value_file(&self) -> (r: String)
        ensures
            r@ == joined(self.root@, MOD_VALUE_FILE@),
    {
        join(self.root.as_str(), MOD_VALUE_FILE)
    }

    /// `root/used_readable.yml`: the used values with their origins.
    pub fn used_with_origon(&self) -> (r: String)
        ensures
            r@ == joined(self.root@, USED_READABLE_FILE@),
    {
        join(self.root.as_str(), USED_READABLE_FILE)
    }

    /// The value directory `root/path`.
    pub fn join(self, path: &str) -> (r: Self)
        ensures
            r.root@ == joined(self.root@, path@),
    {
        SysValuePaths { root: join(self.root.as_str(), path) }
    }
}

} // verus!
