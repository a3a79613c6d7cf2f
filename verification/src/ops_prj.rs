//! Operations projects: a customer's project that imports delivered systems,
//! records them in its manifest (`ops-prj.yml`) and keeps the customer's
//! values for each of them under `values/<system>`.

use vstd::prelude::*;
use crate::addr::{addr_path_text, addr_to_path_string, Address, AddressView, DependencySet};
use crate::define::{SysDefine, SysDefineView};
use crate::path::{
    file_name, join, joined, parent, path_file_name, path_parent,
    ValuePath, MERGED_VARS_YML, SYS_DIR, SYS_VARS_YML, VALUE_DIR,
};

verus! {

/// The manifest of an operations project.
pub const OPS_PRJ_FILE: &'static str = "ops-prj.yml";

/// The former list of imported systems, merged into the manifest.
pub const OPS_SYSTEMS_FILE: &'static str = "ops-systems.yml";

/// A system imported into an operations project: its definition and the
/// address it was imported from.
pub struct OpsSystem {
    sys: SysDefine,
    addr: Address,
}

/// An imported system as values.
pub type OpsSystemView = (SysDefineView, AddressView);

impl View for OpsSystem {
    type V = OpsSystemView;

    closed spec fn view(&self) -> OpsSystemView {
        (self.sys@, self.addr@)
    }
}

impl OpsSystem {
    /// The system `sys` imported from `addr`.
    pub fn new(sys: SysDefine, addr: Address) -> (r: Self)
        ensures
            r@ == (sys@, addr@),
    {
        OpsSystem { sys, addr }
    }

    pub fn sys(&self) -> (r: &SysDefine)
        ensures
            r@ == self@.0,
    {
        &self.sys
    }

    pub fn addr(&self) -> (r: &Address)
        ensures
            r@ == self@.1,
    {
        &self.addr
    }

    /// Same definition and same address.
    pub fn same_as(&self, other: &OpsSystem) -> (r: bool)
        ensures
            r == (self@ == other@),
    {
        let a = self.sys.same_as(&other.sys);
        let b = self.addr.same_as(&other.addr);
        a && b
    }

    /// A copy of the system.
    pub fn duplicate(&self) -> (r: Self)
        ensures
            r@ == self@,
    {
        OpsSystem { sys: self.sys.duplicate(), addr: self.addr.duplicate() }
    }
}

/// The views of a list of systems.
pub open spec fn systems_view(s: Seq<OpsSystem>) -> Seq<OpsSystemView> {
    s.map_values(|x: OpsSystem| x@)
}

/// The list after importing `x`: unchanged when `x` is already listed, else
/// `x` added last.
pub open spec fn imported(s: Seq<OpsSystemView>, x: OpsSystemView) -> Seq<OpsSystemView> {
    if s.contains(x) {
        s
    } else {
        s.push(x)
    }
}

/// The list after importing each of `xs` in order.
pub open spec fn imported_all(s: Seq<OpsSystemView>, xs: Seq<OpsSystemView>) -> Seq<OpsSystemView>
    decreases xs.len(),
{
    if xs.len() == 0 {
        s
    } else {
        imported(imported_all(s, xs.drop_last()), xs.last())
    }
}

/// No system is listed twice.
pub open spec fn no_repeats(s: Seq<OpsSystemView>) -> bool {
    forall|i: int, j: int| 0 <= i < s.len() && 0 <= j < s.len() && i != j ==> s[i] != s[j]
}

/// The import law: importing a system lists it, keeps every earlier system in
/// its place, adds nothing when it is already listed, keeps the list free of
/// repeats, and importing it a second time changes nothing.
pub proof fn lemma_import(s: Seq<OpsSystemView>, x: OpsSystemView)
    requires
        no_repeats(s),
    ensures
        imported(s, x).contains(x),
        imported(s, x).subrange(0, s.len() as int) == s,
        s.contains(x) ==> imported(s, x) == s,
        no_repeats(imported(s, x)),
        imported(imported(s, x), x) == imported(s, x),
{
    let t = imported(s, x);
    if s.contains(x) {
        assert(t.subrange(0, s.len() as int) =~= s);
    } else {
        assert(t[s.len() as int] == x);
        assert(t.subrange(0, s.len() as int) =~= s);
        assert forall|i: int, j: int| 0 <= i < t.len() && 0 <= j < t.len() && i != j implies t[i]
            != t[j] by {
            if i == s.len() {
                assert(t[j] == s[j]);
            } else if j == s.len() {
                assert(t[i] == s[i]);
            } else {
                assert(t[i] == s[i] && t[j] == s[j]);
            }
        }
    }
    assert(t.contains(x)) by {
        if s.contains(x) {
            let i = choose|i: int| 0 <= i < s.len() && s[i] == x;
            assert(t[i] == x);
        } else {
            assert(t[s.len() as int] == x);
        }
    }
}

/// The manifest of an operations project: its name, its working environment
/// and the systems imported into it.
pub struct OpsProjectConf {
    name: String,
    work_envs: DependencySet,
    sys_models: Vec<OpsSystem>,
}

impl OpsProjectConf {
    pub closed spec fn spec_name(&self) -> Seq<char> {
        self.name@
    }

    pub closed spec fn spec_work_envs(&self) -> DependencySet {
        self.work_envs
    }

    /// The imported systems, in import order.
    pub closed spec fn systems(&self) -> Seq<OpsSystemView> {
        systems_view(self.sys_models@)
    }

    /// A project named `name` with the working environment `local_res` and no
    /// system.
    pub fn new(name: &str, local_res: DependencySet) -> (r: Self)
        ensures
            r.spec_name() == name@,
            r.spec_work_envs() == local_res,
            r.systems() == Seq::<OpsSystemView>::empty(),
    {
        let r = OpsProjectConf { name: name.to_owned(), work_envs: local_res, sys_models: Vec::new() };
        assert(r.systems() =~= Seq::<OpsSystemView>::empty());
        r
    }

    /// The project of the tests: `example_sys`, with no system.
    pub fn for_test() -> (r: Self)
        ensures
            r.spec_name() == seq!['e', 'x', 'a', 'm', 'p', 'l', 'e', '_', 's', 'y', 's'],
            r.systems() == Seq::<OpsSystemView>::empty(),
    {
        proof {
            reveal_strlit("example_sys");
        }
        OpsProjectConf::new("example_sys", DependencySet::empty_set())
    }

    /// A manifest read back from its stored fields.
    pub fn from_parts(name: String, work_envs: DependencySet, sys_models: Vec<OpsSystem>) -> (r: Self)
        ensures
            r.spec_name() == name@,
            r.spec_work_envs() == work_envs,
            r.systems() == systems_view(sys_models@),
    {
        OpsProjectConf { name, work_envs, sys_models }
    }

    pub fn name(&self) -> (r: &String)
        ensures
            r@ == self.spec_name(),
    {
        &self.name
    }

    pub fn work_envs(&self) -> (r: &DependencySet)
        ensures
            *r == self.spec_work_envs(),
    {
        &self.work_envs
    }

    /// The imported systems, in import order.
    pub fn sys_models(&self) -> (r: &Vec<OpsSystem>)
        ensures
            systems_view(r@) == self.systems(),
    {
        &self.sys_models
    }

    /// Whether `sys` is listed.
    pub fn contains(&self, sys: &OpsSystem) -> (r: bool)
        ensures
            r == self.systems().contains(sys@),
    {
        let mut i: usize = 0;
        while i < self.sys_models.len()
            invariant
                i <= self.sys_models.len(),
                forall|j: int| 0 <= j < i ==> self.systems()[j] != sys@,
            decreases self.sys_models.len() - i,
        {
            if self.sys_models[i].same_as(sys) {
                assert(self.systems()[i as int] == sys@);
                return true;
            }
            i = i + 1;
        }
        false
    }

    /// Whether a system named `name` is listed.
    pub fn lists_name(&self, name: &str) -> (r: bool)
        ensures
            r == (exists|j: int| 0 <= j < self.systems().len() && (#[trigger] self.systems()[j]).0.name == name@),
    {
        let wanted = name.to_owned();
        let mut i: usize = 0;
        while i < self.sys_models.len()
            invariant
                i <= self.sys_models.len(),
                wanted@ == name@,
                forall|j: int| 0 <= j < i ==> (#[trigger] self.systems()[j]).0.name != name@,
            decreases self.sys_models.len() - i,
        {
            if *self.sys_models[i].sys().name() == wanted {
                assert(self.systems()[i as int].0.name == name@);
                return true;
            }
            i = i + 1;
        }
        false
    }

    /// Imports `sys`: it is added last unless it is already listed.
    pub fn import_sys(&mut self, sys: OpsSystem)
        ensures
            final(self).systems() == imported(old(self).systems(), sys@),
            final(self).spec_name() == old(self).spec_name(),
            final(self).spec_work_envs() == old(self).spec_work_envs(),
    {
        if !self.contains(&sys) {
            let ghost before = self.sys_models@;
            self.sys_models.push(sys);
            assert(systems_view(self.sys_models@) =~= systems_view(before).push(sys@));
        }
    }

    /// Imports each of `systems` in order (the systems of a former
    /// `ops-systems.yml` merged into the manifest).
    pub fn import_all(&mut self, systems: Vec<OpsSystem>)
        ensures
            final(self).systems() == imported_all(old(self).systems(), systems_view(systems@)),
            final(self).spec_name() == old(self).spec_name(),
            final(self).spec_work_envs() == old(self).spec_work_envs(),
    {
        let ghost s0 = self.systems();
        let mut i: usize = 0;
        while i < systems.len()
            invariant
                i <= systems.len(),
                self.systems() == imported_all(s0, systems_view(systems@.subrange(0, i as int))),
                self.spec_name() == old(self).spec_name(),
                self.spec_work_envs() == old(self).spec_work_envs(),
                s0 == old(self).systems(),
            decreases systems.len() - i,
        {
            let x = systems[i].duplicate();
            proof {
                let p = systems_view(systems@.subrange(0, i + 1 as int));
                assert(p.drop_last() =~= systems_view(systems@.subrange(0, i as int)));
                assert(p.last() == x@);
            }
            self.import_sys(x);
            i = i + 1;
        }
        assert(systems@.subrange(0, systems.len() as int) =~= systems@);
    }
}

/// The paths of an operations project rooted at `root`.
pub struct ProjectPath {
    root: String,
}

impl ProjectPath {
    pub closed spec fn spec_root(&self) -> Seq<char> {
        self.root@
    }

    /// A project rooted at `root`.
    pub fn new(root: &str) -> (r: Self)
        ensures
            r.spec_root() == root@,
    {
        ProjectPath { root: root.to_owned() }
    }

    pub fn root(&self) -> (r: &String)
        ensures
            r@ == self.spec_root(),
    {
        &self.root
    }

    /// The manifest, `ops-prj.yml`.
    pub fn conf_file(&self) -> (r: String)
        ensures
            r@ == joined(self.spec_root(), OPS_PRJ_FILE@),
    {
        join(self.root.as_str(), OPS_PRJ_FILE)
    }

    /// The former list of systems, `ops-systems.yml`.
    pub fn target_file(&self) -> (r: String)
        ensures
            r@ == joined(self.spec_root(), OPS_SYSTEMS_FILE@),
    {
        join(self.root.as_str(), OPS_SYSTEMS_FILE)
    }

    /// The value directory, `values/`.
    pub fn to_value_path(&self) -> (r: ValuePath)
        ensures
            r.root@ == joined(self.spec_root(), VALUE_DIR@),
    {
        ValuePath::from_root(join(self.root.as_str(), VALUE_DIR))
    }

    /// A copy of the paths.
    pub fn duplicate(&self) -> (r: Self)
        ensures
            r.spec_root() == self.spec_root(),
    {
        ProjectPath { root: self.root.clone() }
    }
}

/// Where the variables of one imported system are set: its resolved
/// variables file, the former name of that file (read when only it exists,
/// see `choose_vars_file`), and its value directory in the project.
pub struct SettingTarget {
    pub system_name: String,
    pub vars_path: String,
    pub legacy_vars_path: String,
    pub value_path: String,
}

/// `root/<name>/sys/<file>`.
pub open spec fn system_file(root: Seq<char>, name: Seq<char>, file: Seq<char>) -> Seq<char> {
    joined(joined(joined(root, name), SYS_DIR@), file)
}

/// `root/values/<name>`.
pub open spec fn system_value_dir(root: Seq<char>, name: Seq<char>) -> Seq<char> {
    joined(joined(root, VALUE_DIR@), name)
}

/// An operations project: its manifest and its paths.
pub struct OpsProject {
    conf: OpsProjectConf,
    paths: ProjectPath,
}

impl OpsProject {
    pub closed spec fn spec_conf(&self) -> OpsProjectConf {
        self.conf
    }

    pub closed spec fn spec_root(&self) -> Seq<char> {
        self.paths.spec_root()
    }

    /// The project with manifest `conf` rooted at `root_local`.
    pub fn new(conf: OpsProjectConf, root_local: &str) -> (r: Self)
        ensures
            r.spec_conf() == conf,
            r.spec_root() == root_local@,
    {
        OpsProject { conf, paths: ProjectPath::new(root_local) }
    }

    /// A new project named `name` at `prj_path`, with no dependencies and no
    /// system.
    pub fn make_new(prj_path: &str, name: &str) -> (r: Self)
        ensures
            r.spec_conf().spec_name() == name@,
            r.spec_conf().systems() == Seq::<OpsSystemView>::empty(),
            r.spec_conf().spec_work_envs().dep_root@ == Seq::<char>::empty(),
            r.spec_conf().spec_work_envs().deps@.len() == 0,
            r.spec_root() == prj_path@,
    {
        let conf = OpsProjectConf::new(name, DependencySet::empty_set());
        OpsProject::new(conf, prj_path)
    }

    pub fn conf(&self) -> (r: &OpsProjectConf)
        ensures
            *r == self.spec_conf(),
    {
        &self.conf
    }

    pub fn paths(&self) -> (r: &ProjectPath)
        ensures
            r.spec_root() == self.spec_root(),
    {
        &self.paths
    }

    /// Records the imported system `ops_sys` in the manifest.
    pub fn import_ops_sys(&mut self, ops_sys: OpsSystem)
        ensures
            final(self).spec_conf().systems() == imported(old(self).spec_conf().systems(), ops_sys@),
            final(self).spec_conf().spec_name() == old(self).spec_conf().spec_name(),
            final(self).spec_conf().spec_work_envs() == old(self).spec_conf().spec_work_envs(),
            final(self).spec_root() == old(self).spec_root(),
    {
        self.conf.import_sys(ops_sys);
    }

    /// The project's value directory, `values/`.
    pub fn value_path(&self) -> (r: ValuePath)
        ensures
            r.root@ == joined(self.spec_root(), VALUE_DIR@),
    {
        self.paths.to_value_path()
    }

    /// The project's root directory.
    pub fn root_local(&self) -> (r: &String)
        ensures
            r@ == self.spec_root(),
    {
        self.paths.root()
    }

    /// Where the variables of each imported system are set, in import order:
    /// the system's `sys/merged_vars.yml`, the former `sys/sys_vars.yml`
    /// (read when only it exists) and the project's `values/<system>`.
    pub fn ia_setting(&self) -> (r: Vec<SettingTarget>)
        ensures
            r@.len() == self.spec_conf().systems().len(),
            forall|j: int|
                0 <= j < r@.len() ==> {
                    let name = self.spec_conf().systems()[j].0.name;
                    &&& (#[trigger] r@[j]).system_name@ == name
                    &&& r@[j].value_path@ == system_value_dir(self.spec_root(), name)
                    &&& r@[j].vars_path@ == system_file(self.spec_root(), name, MERGED_VARS_YML@)
                    &&& r@[j].legacy_vars_path@ == system_file(self.spec_root(), name, SYS_VARS_YML@)
                },
    {
        let root = self.paths.root();
        let systems = self.conf.sys_models();
        let mut r: Vec<SettingTarget> = Vec::new();
        let mut i: usize = 0;
        while i < systems.len()
            invariant
                i <= systems.len(),
                systems_view(systems@) == self.spec_conf().systems(),
                root@ == self.spec_root(),
                r@.len() == i,
                forall|j: int|
                    0 <= j < i ==> {
                        let name = self.spec_conf().systems()[j].0.name;
                        &&& (#[trigger] r@[j]).system_name@ == name
                        &&& r@[j].value_path@ == system_value_dir(self.spec_root(), name)
                        &&& r@[j].vars_path@ == system_file(self.spec_root(), name, MERGED_VARS_YML@)
                        &&& r@[j].legacy_vars_path@ == system_file(self.spec_root(), name, SYS_VARS_YML@)
                    },
            decreases systems.len() - i,
        {
            let name = systems[i].sys().name();
            assert(name@ == self.spec_conf().systems()[i as int].0.name);
            let sys_root = join(root.as_str(), name.as_str());
            let sys_dir = join(sys_root.as_str(), SYS_DIR);
            let vars_path = join(sys_dir.as_str(), MERGED_VARS_YML);
            let legacy_vars_path = join(sys_dir.as_str(), SYS_VARS_YML);
            let values = join(root.as_str(), VALUE_DIR);
            let value_path = join(values.as_str(), name.as_str());
            r.push(SettingTarget { system_name: name.clone(), vars_path, legacy_vars_path, value_path });
            i = i + 1;
        }
        r
    }
}

impl OpsProject {
    /// The directory of the imported system `name`, `root/<name>`: what a
    /// re-import removes before importing the system again.
    pub fn system_dir(&self, name: &str) -> (r: String)
        ensures
            r@ == joined(self.spec_root(), name@),
    {
        join(self.paths.root().as_str(), name)
    }

    /// What a re-import imports again, in import order: each system's name
    /// with the path string of the address it was imported from (its value
    /// directory under `values/` is kept).
    pub fn reimport_targets(&self) -> (r: Vec<(String, String)>)
        ensures
            r@.len() == self.spec_conf().systems().len(),
            forall|j: int|
                0 <= j < r@.len() ==> (#[trigger] r@[j]).0@ == self.spec_conf().systems()[j].0.name
                    && r@[j].1@ == addr_path_text(self.spec_conf().systems()[j].1),
    {
        let systems = self.conf.sys_models();
        let mut r: Vec<(String, String)> = Vec::new();
        let mut i: usize = 0;
        while i < systems.len()
            invariant
                i <= systems.len(),
                systems_view(systems@) == self.spec_conf().systems(),
                r@.len() == i,
                forall|j: int|
                    0 <= j < i ==> (#[trigger] r@[j]).0@ == self.spec_conf().systems()[j].0.name
                        && r@[j].1@ == addr_path_text(self.spec_conf().systems()[j].1),
            decreases systems.len() - i,
        {
            let s = &systems[i];
            assert(s@ == self.spec_conf().systems()[i as int]);
            r.push((s.sys().name().clone(), addr_to_path_string(s.addr())));
            i = i + 1;
        }
        r
    }
}

/// `p` is the directory `dir` or lies under it.
pub open spec fn under(p: Seq<char>, dir: Seq<char>) -> bool {
    p == dir || (p.len() > dir.len() && p.subrange(0, dir.len() as int) == dir && p[dir.len() as int] == '/')
}

/// A name of one path component: not empty, without `/`.
pub open spec fn plain_name(n: Seq<char>) -> bool {
    n.len() > 0 && forall|i: int| 0 <= i < n.len() ==> n[i] != '/'
}

/// `joined(base, seg)` for a relative `seg` is `base` with its separator,
/// then `seg`.
proof fn lemma_joined_relative(base: Seq<char>, seg: Seq<char>)
    requires
        !(seg.len() > 0 && seg[0] == '/'),
    ensures
        joined(base, seg) == (if base.len() > 0 && base.last() != '/' {
            base + seq!['/']
        } else {
            base
        }) + seg,
{
    if base.len() > 0 && base.last() != '/' {
        assert(base + seq!['/'] + seg =~= (base + seq!['/']) + seg);
    }
}

/// Re-importing keeps the customer's values: the directory a re-import
/// removes for a system (`root/<name>`) never is nor holds the value
/// directory of a system (`root/values/<other>`), whatever the root, when
/// the name is one path component other than `values` and the other name
/// is relative.
pub proof fn lemma_reimport_keeps_values(root: Seq<char>, name: Seq<char>, other: Seq<char>)
    requires
        plain_name(name),
        name != VALUE_DIR@,
        !(other.len() > 0 && other[0] == '/'),
    ensures
        !under(system_value_dir(root, other), joined(root, name)),
{
    reveal_strlit("values");
    let vals: Seq<char> = VALUE_DIR@;
    assert(vals =~= seq!['v', 'a', 'l', 'u', 'e', 's']);
    let rb = if root.len() > 0 && root.last() != '/' {
        root + seq!['/']
    } else {
        root
    };
    lemma_joined_relative(root, name);
    lemma_joined_relative(root, vals);
    let vdir = rb + vals;
    assert(vdir.len() > 0 && vdir.last() == 's');
    lemma_joined_relative(vdir, other);
    let tail = vals + seq!['/'] + other;
    let vpath = system_value_dir(root, other);
    assert(vpath =~= rb + tail);
    let removed = rb + name;
    assert(joined(root, name) == removed);
    if under(vpath, removed) {
        if vpath == removed {
            assert(tail =~= name) by {
                assert forall|i: int| 0 <= i < tail.len() implies tail[i] == name[i] by {
                    assert(vpath[rb.len() + i] == tail[i]);
                    assert(removed[rb.len() + i] == name[i]);
                }
            }
            assert(tail[6] == '/');
        } else {
            let k: int = name.len() as int;
            assert(vpath[rb.len() + k] == tail[k]);
            assert(tail[k] == '/');
            assert forall|i: int| 0 <= i < k implies tail[i] == name[i] by {
                assert(vpath.subrange(0, removed.len() as int)[rb.len() + i] == removed[rb.len() + i]);
            }
            if k < 6 {
                assert(tail[k] == vals[k]);
            } else if k == 6 {
                assert(name =~= vals);
            } else {
                assert(name[6] == tail[6]);
            }
        }
    }
}

/// A system variable as the value setting sees it: its name, whether the
/// customer may set it, its default's text, and the text of the value already
/// in the value file, if any.
pub struct SystemVar {
    pub name: String,
    pub mutable: bool,
    pub default_text: String,
    pub existing_text: Option<String>,
}

/// The positions of the variables the customer may set (the others are
/// neither asked for nor written), in order.
pub open spec fn settable_positions(vars: Seq<SystemVar>) -> Seq<int>
    decreases vars.len(),
{
    if vars.len() == 0 {
        seq![]
    } else if vars.last().mutable {
        settable_positions(vars.drop_last()).push(vars.len() - 1)
    } else {
        settable_positions(vars.drop_last())
    }
}

impl SystemVar {
    /// The value written without asking: the value already in the value file
    /// when there is one, else the default.
    pub fn kept_value(&self) -> (r: String)
        ensures
            r@ == match self.existing_text {
                Some(t) => t@,
                None => self.default_text@,
            },
    {
        match &self.existing_text {
            Some(t) => t.clone(),
            None => self.default_text.clone(),
        }
    }
}

/// The positions of the variables the customer may set, in order.
pub fn settable_vars(vars: &Vec<SystemVar>) -> (r: Vec<usize>)
    ensures
        r@.map_values(|i: usize| i as int) == settable_positions(vars@),
{
    let mut r: Vec<usize> = Vec::new();
    let mut i: usize = 0;
    while i < vars.len()
        invariant
            i <= vars.len(),
            r@.map_values(|i: usize| i as int) == settable_positions(vars@.subrange(0, i as int)),
        decreases vars.len() - i,
    {
        let ghost pre = vars@.subrange(0, i as int);
        let ghost cur = vars@.subrange(0, i + 1 as int);
        assert(cur.drop_last() =~= pre);
        if vars[i].mutable {
            r.push(i);
        }
        assert(r@.map_values(|i: usize| i as int) =~= settable_positions(cur));
        i = i + 1;
    }
    assert(vars@.subrange(0, vars.len() as int) =~= vars@);
    r
}

/// The value directory an operations project keeps for the system at
/// `sys_dir`, given the manifest found next to it (`None` when there is no
/// readable `ops-prj.yml` there): `<project>/values/<system>` when the
/// manifest lists a system of that name, else `None`.
pub fn owner_project_value_dir(sys_dir: &str, conf: Option<&OpsProjectConf>) -> (r: Option<String>)
    ensures
        r is Some <==> (path_file_name(sys_dir@) is Some && path_parent(sys_dir@) is Some
            && conf is Some && exists|j: int|
            0 <= j < conf.unwrap().systems().len() && (#[trigger] conf.unwrap().systems()[j]).0.name
                == path_file_name(sys_dir@).unwrap()),
        r matches Some(d) ==> d@ == system_value_dir(
            path_parent(sys_dir@).unwrap(),
            path_file_name(sys_dir@).unwrap(),
        ),
{
    let name = match file_name(sys_dir) {
        Some(n) => n,
        None => return None,
    };
    let prj_root = match parent(sys_dir) {
        Some(p) => p,
        None => return None,
    };
    match conf {
        Some(c) => {
            if c.lists_name(name.as_str()) {
                let values = join(prj_root.as_str(), VALUE_DIR);
                Some(join(values.as_str(), name.as_str()))
            } else {
                None
            }
        },
        None => None,
    }
}

} // verus!
