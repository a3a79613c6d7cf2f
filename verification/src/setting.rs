//! System settings: for each module, whether it is localized and where its
//! localization variables live, kept in insertion order by module name.

use vstd::prelude::*;
use indexmap::IndexMap;
use orion_variate::vars::VarCollection;
use crate::define::{model_label, CpuArch, ModelSTD, OsCPE, RunSPC};
use crate::sys_vars::{
    define_seeds, seeds_in, var_group, vars_dict, vars_origin_dict, Scope, SeedValue, VarSeed, VarView,
};
use crate::dict::{
    layered, localized_as, mix_used_value, opt_entries, origin_entries, PlainView,
};
use orion_variate::vars::OriginDict;

verus! {

#[verifier::external_type_specification]
#[verifier::external_body]
#[verifier::reject_recursive_types(K)]
#[verifier::reject_recursive_types(V)]
#[verifier::reject_recursive_types(S)]
pub struct ExIndexMap<K, V, S>(IndexMap<K, V, S>);

/// A module setting as values: enabled, module, model.
pub type SettingView = (bool, Seq<char>, Seq<char>);

/// One entry of the settings: module name and setting.
pub type SettingEntry = (Seq<char>, SettingView);

/// What a settings map holds, in its order.
pub uninterp spec fn setting_entries(m: IndexMap<String, ModSetting>) -> Seq<SettingEntry>;

/// The module names of the entries, in order.
pub open spec fn setting_names(s: Seq<SettingEntry>) -> Seq<Seq<char>> {
    s.map_values(|e: SettingEntry| e.0)
}

/// No module name occurs twice.
pub open spec fn unique_names(s: Seq<SettingEntry>) -> bool {
    forall|i: int, j: int|
        0 <= i < s.len() && 0 <= j < s.len() && i != j ==> (#[trigger] s[i]).0 != (
        #[trigger] s[j]).0
}

/// `name` has an entry.
pub open spec fn has_name(s: Seq<SettingEntry>, name: Seq<char>) -> bool {
    exists|i: int| 0 <= i < s.len() && (#[trigger] s[i]).0 == name
}

/// The position of the entry of `name`.
pub open spec fn name_index(s: Seq<SettingEntry>, name: Seq<char>) -> int {
    choose|i: int| 0 <= i < s.len() && (#[trigger] s[i]).0 == name
}

/// The setting of `name`, if it has one.
pub open spec fn setting_of(s: Seq<SettingEntry>, name: Seq<char>) -> Option<SettingView> {
    if has_name(s, name) {
        Some(s[name_index(s, name)].1)
    } else {
        None
    }
}

/// `IndexMap::insert`: an existing name keeps its place and takes the new
/// setting; a new name goes to the end.
pub open spec fn put_setting(s: Seq<SettingEntry>, e: SettingEntry) -> Seq<SettingEntry> {
    if has_name(s, e.0) {
        s.update(name_index(s, e.0), e)
    } else {
        s.push(e)
    }
}

/// The entries whose module is localized, in order.
pub open spec fn enabled_entries(s: Seq<SettingEntry>) -> Seq<SettingEntry> {
    s.filter(localized())
}

/// An entry whose module is localized.
pub open spec fn localized() -> spec_fn(SettingEntry) -> bool {
    |e: SettingEntry| e.1.0
}

/// `IndexMap::new`: a map with no entries.
#[verifier::external_body]
fn settings_new() -> (m: IndexMap<String, ModSetting>)
    ensures
        setting_entries(m) == Seq::<SettingEntry>::empty(),
{
    IndexMap::new()
}

/// `IndexMap::insert`: the key keeps its place when present (its value is
/// replaced), and is added last otherwise; keys stay distinct.
#[verifier::external_body]
fn settings_insert(m: &mut IndexMap<String, ModSetting>, k: String, v: ModSetting)
    ensures
        unique_names(setting_entries(*final(m))),
        setting_entries(*final(m)) == put_setting(setting_entries(*old(m)), (k@, v@)),
{
    m.insert(k, v);
}

/// `IndexMap::len`: the number of entries.
#[verifier::external_body]
fn settings_len(m: &IndexMap<String, ModSetting>) -> (n: usize)
    ensures
        n == setting_entries(*m).len(),
{
    m.len()
}

/// `IndexMap::get_index`: the entry at position `i`, if there is one.
#[verifier::external_body]
fn settings_get_index(m: &IndexMap<String, ModSetting>, i: usize) -> (entry: Option<
    (&String, &ModSetting),
>)
    ensures
        i < setting_entries(*m).len() ==> entry is Some,
        i < setting_entries(*m).len() ==> entry.unwrap().0@ == setting_entries(*m)[i as int].0,
        i < setting_entries(*m).len() ==> entry.unwrap().1@ == setting_entries(*m)[i as int].1,
        i >= setting_entries(*m).len() ==> entry is None,
{
    m.get_index(i)
}

/// Where a module's localization variables live: the module and its model.
pub struct LocalizeVarPath {
    pub module: String,
    pub model: String,
}

impl LocalizeVarPath {
    /// The localization variables of `module` built for `model`.
    pub fn of_module(module: &str, model: &str) -> (r: Self)
        ensures
            r.module@ == module@,
            r.model@ == model@,
    {
        LocalizeVarPath { module: module.to_owned(), model: model.to_owned() }
    }

    /// A copy of the path.
    pub fn duplicate(&self) -> (r: Self)
        ensures
            r.module@ == self.module@,
            r.model@ == self.model@,
    {
        LocalizeVarPath { module: self.module.clone(), model: self.model.clone() }
    }
}

/// The setting of one module: whether it is localized, and where its
/// localization variables live.
pub struct ModSetting {
    enable: bool,
    localize: LocalizeVarPath,
}

impl View for ModSetting {
    type V = SettingView;

    closed spec fn view(&self) -> SettingView {
        (self.enable, self.localize.module@, self.localize.model@)
    }
}

impl ModSetting {
    /// A module that is not localized.
    pub fn disaple_new(module: &str, model: &str) -> (r: Self)
        ensures
            r@ == (false, module@, model@),
    {
        ModSetting { enable: false, localize: LocalizeVarPath::of_module(module, model) }
    }

    /// A module that is localized.
    pub fn enable_new(module: &str, model: &str) -> (r: Self)
        ensures
            r@ == (true, module@, model@),
    {
        ModSetting { enable: true, localize: LocalizeVarPath::of_module(module, model) }
    }

    /// Whether the module is localized.
    pub fn enable(&self) -> (r: bool)
        ensures
            r == self@.0,
    {
        self.enable
    }

    /// Where the module's localization variables live.
    pub fn localize(&self) -> (r: &LocalizeVarPath)
        ensures
            r.module@ == self@.1,
            r.model@ == self@.2,
    {
        &self.localize
    }

    /// A copy of the setting.
    pub fn duplicate(&self) -> (r: Self)
        ensures
            r@ == self@,
    {
        ModSetting { enable: self.enable, localize: self.localize.duplicate() }
    }
}

/// Module settings by module name, in insertion order.
pub struct LocalizeDict {
    dicts: IndexMap<String, ModSetting>,
}

impl View for LocalizeDict {
    type V = Seq<SettingEntry>;

    closed spec fn view(&self) -> Seq<SettingEntry> {
        setting_entries(self.dicts)
    }
}

/// `setting_names` of a pushed sequence.
proof fn lemma_names_push(s: Seq<SettingEntry>, e: SettingEntry)
    ensures
        setting_names(s.push(e)) == setting_names(s).push(e.0),
{
    assert(setting_names(s.push(e)) =~= setting_names(s).push(e.0));
}

/// Setting `name` to `v` leaves the other names' settings as they were, gives
/// `name` the setting `v`, keeps the names distinct, and keeps every earlier
/// name in its place: a new name goes last.
pub proof fn lemma_put_setting(s: Seq<SettingEntry>, name: Seq<char>, v: SettingView, other: Seq<char>)
    requires
        unique_names(s),
    ensures
        unique_names(put_setting(s, (name, v))),
        setting_of(put_setting(s, (name, v)), name) == Some(v),
        other != name ==> setting_of(put_setting(s, (name, v)), other) == setting_of(s, other),
        has_name(s, name) ==> setting_names(put_setting(s, (name, v))) == setting_names(s),
        !has_name(s, name) ==> setting_names(put_setting(s, (name, v))) == setting_names(s).push(
            name,
        ),
{
    let t = put_setting(s, (name, v));
    if has_name(s, name) {
        let k = name_index(s, name);
        assert(t =~= s.update(k, (name, v)));
        assert(t[k].0 == name);
        assert(setting_names(t) =~= setting_names(s));
        assert forall|i: int, j: int|
            0 <= i < t.len() && 0 <= j < t.len() && i != j implies (#[trigger] t[i]).0 != (
            #[trigger] t[j]).0 by {
            assert(t[i].0 == s[i].0);
            assert(t[j].0 == s[j].0);
        }
        assert(has_name(t, name));
        let k2 = name_index(t, name);
        assert(k2 == k);
        if other != name {
            if has_name(s, other) {
                let o = name_index(s, other);
                assert(t[o].0 == other);
                assert(has_name(t, other));
                let o2 = name_index(t, other);
                assert(t[o2].0 == s[o2].0);
                assert(o2 == o);
            } else {
                if has_name(t, other) {
                    let o2 = name_index(t, other);
                    assert(t[o2].0 == s[o2].0);
                    assert(false);
                }
            }
        }
    } else {
        assert(t =~= s.push((name, v)));
        lemma_names_push(s, (name, v));
        let k = s.len() as int;
        assert(t[k].0 == name);
        assert forall|i: int, j: int|
            0 <= i < t.len() && 0 <= j < t.len() && i != j implies (#[trigger] t[i]).0 != (
            #[trigger] t[j]).0 by {
            if i == k {
                assert(t[j] == s[j]);
            } else if j == k {
                assert(t[i] == s[i]);
            } else {
                assert(t[i] == s[i]);
                assert(t[j] == s[j]);
            }
        }
        assert(has_name(t, name));
        let k2 = name_index(t, name);
        if k2 != k {
            assert(t[k2] == s[k2]);
            assert(false);
        }
        if other != name {
            if has_name(s, other) {
                let o = name_index(s, other);
                assert(t[o] == s[o]);
                assert(has_name(t, other));
                let o2 = name_index(t, other);
                assert(o2 != k);
                assert(t[o2] == s[o2]);
                assert(o2 == o);
            } else {
                if has_name(t, other) {
                    let o2 = name_index(t, other);
                    assert(o2 != k);
                    assert(t[o2] == s[o2]);
                    assert(false);
                }
            }
        }
    }
}

impl LocalizeDict {
    /// The names are distinct (always so for a dictionary built by these
    /// functions).
    pub closed spec fn wf(&self) -> bool {
        unique_names(self@)
    }

    /// No settings.
    pub fn new() -> (r: Self)
        ensures
            r.wf(),
            r@ == Seq::<SettingEntry>::empty(),
    {
        LocalizeDict { dicts: settings_new() }
    }

    /// The entries of the example setting.
    pub open spec fn example_entries() -> Seq<SettingEntry> {
        seq![
            (seq!['e', 'x', 'a', 'm', 'p', 'l', 'e'], (false, seq!['e', 'x', 'a', 'm', 'p', 'l', 'e'],
            model_label(ModelSTD { arch: CpuArch::X86, os: OsCPE::UBT22, spc: RunSPC::Host }))),
        ]
    }

    /// The example setting: module `example`, not localized, built for the
    /// x86 / Ubuntu 22 / host model.
    pub fn example() -> (r: Self)
        ensures
            r.wf(),
            r@ == LocalizeDict::example_entries(),
    {
        let mut d = LocalizeDict::new();
        let model = ModelSTD::x86_ubt22_host().label();
        let s = ModSetting::disaple_new("example", model.as_str());
        let name = "example".to_owned();
        proof {
            reveal_strlit("example");
        }
        assert(name@ =~= seq!['e', 'x', 'a', 'm', 'p', 'l', 'e']);
        assert(!has_name(d@, name@));
        d.insert(name, s);
        proof {
            let e: SettingEntry = (seq!['e', 'x', 'a', 'm', 'p', 'l', 'e'], (false, seq!['e', 'x', 'a', 'm', 'p', 'l', 'e'], model@));
            assert(d@ =~= seq![e]);
        }
        d
    }

    /// Sets the setting of `name`: an existing name keeps its place and takes
    /// the new setting; a new name goes to the end.
    pub fn insert(&mut self, name: String, setting: ModSetting)
        requires
            old(self).wf(),
        ensures
            final(self).wf(),
            final(self)@ == put_setting(old(self)@, (name@, setting@)),
    {
        settings_insert(&mut self.dicts, name, setting);
    }

    /// The number of modules.
    pub fn len(&self) -> (n: usize)
        ensures
            n == self@.len(),
    {
        settings_len(&self.dicts)
    }

    /// No module has a setting.
    pub fn is_empty(&self) -> (b: bool)
        ensures
            b == (self@.len() == 0),
    {
        settings_len(&self.dicts) == 0
    }

    /// The setting of `name`, if it has one.
    pub fn get(&self, name: &str) -> (r: Option<ModSetting>)
        requires
            self.wf(),
        ensures
            r matches Some(s) ==> setting_of(self@, name@) == Some(s@),
            r is None ==> setting_of(self@, name@) is None,
    {
        let n = settings_len(&self.dicts);
        let wanted = name.to_owned();
        let mut i: usize = 0;
        while i < n
            invariant
                n == self@.len(),
                i <= n,
                wanted@ == name@,
                self.wf(),
                forall|j: int| 0 <= j < i ==> (#[trigger] self@[j]).0 != name@,
            decreases n - i,
        {
            match settings_get_index(&self.dicts, i) {
                Some((k, v)) => {
                    if *k == wanted {
                        proof {
                            assert(self@[i as int].0 == name@);
                            assert(has_name(self@, name@));
                            let k2 = name_index(self@, name@);
                            assert(self@[k2].0 == name@);
                            assert(k2 == i);
                        }
                        return Some(v.duplicate());
                    }
                },
                None => {},
            }
            i = i + 1;
        }
        None
    }

    /// The settings, in order.
    pub fn entries(&self) -> (r: Vec<(String, ModSetting)>)
        ensures
            r@.len() == self@.len(),
            forall|j: int|
                0 <= j < r@.len() ==> (#[trigger] r@[j]).0@ == self@[j].0 && r@[j].1@ == self@[j].1,
    {
        let n = settings_len(&self.dicts);
        let mut r: Vec<(String, ModSetting)> = Vec::new();
        let mut i: usize = 0;
        while i < n
            invariant
                n == self@.len(),
                i <= n,
                r@.len() == i,
                forall|j: int|
                    0 <= j < i ==> (#[trigger] r@[j]).0@ == self@[j].0 && r@[j].1@ == self@[j].1,
            decreases n - i,
        {
            match settings_get_index(&self.dicts, i) {
                Some((k, v)) => {
                    r.push((k.clone(), v.duplicate()));
                },
                None => {},
            }
            i = i + 1;
        }
        r
    }

    /// The settings of the localized modules, in order: the modules that a
    /// system localization processes.
    pub fn enabled(&self) -> (r: Vec<(String, ModSetting)>)
        ensures
            r@.len() == enabled_entries(self@).len(),
            forall|j: int|
                0 <= j < r@.len() ==> (#[trigger] r@[j]).0@ == enabled_entries(self@)[j].0 && r@[j].1@
                    == enabled_entries(self@)[j].1,
    {
        let n = settings_len(&self.dicts);
        let mut r: Vec<(String, ModSetting)> = Vec::new();
        let mut i: usize = 0;
        while i < n
            invariant
                n == self@.len(),
                i <= n,
                r@.len() == enabled_entries(self@.subrange(0, i as int)).len(),
                forall|j: int|
                    0 <= j < r@.len() ==> (#[trigger] r@[j]).0@ == enabled_entries(
                        self@.subrange(0, i as int),
                    )[j].0 && r@[j].1@ == enabled_entries(self@.subrange(0, i as int))[j].1,
            decreases n - i,
        {
            let ghost pre = self@.subrange(0, i as int);
            let ghost cur = self@.subrange(0, i + 1 as int);
            assert(cur =~= pre.push(self@[i as int]));
            proof {
                pre.lemma_filter_push(self@[i as int], localized());
            }
            assert(enabled_entries(cur) == if self@[i as int].1.0 {
                enabled_entries(pre).push(self@[i as int])
            } else {
                enabled_entries(pre)
            });
            match settings_get_index(&self.dicts, i) {
                Some((k, v)) => {
                    if v.enable() {
                        r.push((k.clone(), v.duplicate()));
                    }
                },
                None => {},
            }
            i = i + 1;
        }
        assert(self@.subrange(0, n as int) =~= self@);
        r
    }
}

#[verifier::external_type_specification]
#[verifier::external_body]
pub struct ExVarCollection(VarCollection);

/// `VarCollection::mark_vars_scope`: each variable takes the mutability of
/// the group it is listed in (immutable, system, module); names, defaults
/// and order stay.
#[verifier::external_body]
fn mark_vars_scope(vars: &mut VarCollection)
    ensures
        var_group(*final(vars), Scope::Immutable) == scoped(var_group(*old(vars), Scope::Immutable), Scope::Immutable),
        var_group(*final(vars), Scope::System) == scoped(var_group(*old(vars), Scope::System), Scope::System),
        var_group(*final(vars), Scope::Module) == scoped(var_group(*old(vars), Scope::Module), Scope::Module),
{
    vars.mark_vars_scope()
}

/// The variables `vs`, each with the mutability `m`.
pub open spec fn scoped(vs: Seq<VarView>, m: Scope) -> Seq<VarView> {
    vs.map_values(|v: VarView| (v.0, m, v.2))
}

/// The settings of a system: its variables, the localization setting of
/// each module, and the directory they were read from.
pub struct SysSetting {
    vars: VarCollection,
    list: LocalizeDict,
    root: Option<String>,
}

impl SysSetting {
    pub closed spec fn spec_list(&self) -> LocalizeDict {
        self.list
    }

    pub closed spec fn spec_vars(&self) -> VarCollection {
        self.vars
    }

    pub closed spec fn spec_root(&self) -> Option<Seq<char>> {
        match self.root {
            Some(r) => Some(r@),
            None => None,
        }
    }

    /// The settings of a new system: the variables `vars` and the example
    /// module setting.
    pub fn new(vars: VarCollection) -> (r: Self)
        ensures
            r.spec_vars() == vars,
            r.spec_list().wf(),
            r.spec_list()@ == LocalizeDict::example_entries(),
            r.spec_root() is None,
    {
        SysSetting { vars, list: LocalizeDict::example(), root: None }
    }

    /// The settings read back from the directory `root`: the variables of
    /// `vars.yml` (each taking the mutability of its group) and the module
    /// settings of `list.yml`, none when that file is missing.
    pub fn from_loaded(vars: VarCollection, list: Option<LocalizeDict>, root: String) -> (r: Self)
        requires
            list matches Some(l) ==> l.wf(),
        ensures
            r.spec_list().wf(),
            list matches Some(l) ==> r.spec_list()@ == l@,
            list is None ==> r.spec_list()@ == Seq::<SettingEntry>::empty(),
            r.spec_root() == Some(root@),
            var_group(r.spec_vars(), Scope::Immutable) == scoped(var_group(vars, Scope::Immutable), Scope::Immutable),
            var_group(r.spec_vars(), Scope::System) == scoped(var_group(vars, Scope::System), Scope::System),
            var_group(r.spec_vars(), Scope::Module) == scoped(var_group(vars, Scope::Module), Scope::Module),
    {
        let mut vars = vars;
        mark_vars_scope(&mut vars);
        let list = match list {
            Some(l) => l,
            None => LocalizeDict::new(),
        };
        SysSetting { vars, list, root: Some(root) }
    }

    /// The settings of a new system: its default system variables
    /// (`SERVICE_IMAGE` `nginx:alpine`, `SERVICE_PORT` 8080, `REPLICAS` 1,
    /// which the generated compose file uses) and the example module setting.
    pub fn new_system() -> (r: Self)
        ensures
            r.spec_list().wf(),
            r.spec_list()@ == LocalizeDict::example_entries(),
            var_group(r.spec_vars(), Scope::System) == seq![
                ("SERVICE_IMAGE"@, Scope::System, PlainView::Str("nginx:alpine"@)),
                ("SERVICE_PORT"@, Scope::System, PlainView::Number(8080)),
                ("REPLICAS"@, Scope::System, PlainView::Number(1)),
            ],
            var_group(r.spec_vars(), Scope::Immutable).len() == 0,
            var_group(r.spec_vars(), Scope::Module).len() == 0,
            r.spec_root() is None,
    {
        let mut seeds: Vec<VarSeed> = Vec::new();
        seeds.push(VarSeed { name: "SERVICE_IMAGE".to_owned(), scope: Scope::System, value: SeedValue::Str("nginx:alpine".to_owned()) });
        seeds.push(VarSeed { name: "SERVICE_PORT".to_owned(), scope: Scope::System, value: SeedValue::Number(8080) });
        seeds.push(VarSeed { name: "REPLICAS".to_owned(), scope: Scope::System, value: SeedValue::Number(1) });
        proof {
            let s = seeds@;
            assert(s.drop_last().drop_last().drop_last() =~= Seq::<VarSeed>::empty());
            reveal_with_fuel(seeds_in, 4);
            assert(seeds_in(s, Scope::System) =~= seq![
                ("SERVICE_IMAGE"@, Scope::System, PlainView::Str("nginx:alpine"@)),
                ("SERVICE_PORT"@, Scope::System, PlainView::Number(8080)),
                ("REPLICAS"@, Scope::System, PlainView::Number(1)),
            ]);
            assert(seeds_in(s, Scope::Immutable).len() == 0);
            assert(seeds_in(s, Scope::Module).len() == 0);
        }
        let vars = define_seeds(seeds);
        SysSetting::new(vars)
    }

    /// The example settings: `HOME` (`${HOME}`, immutable), `SYS_KEY1`
    /// (`sys_value1`, module), `SYS_KEY2` (`sys_value2`, system), and the
    /// example module setting.
    pub fn example() -> (r: Self)
        ensures
            r.spec_list().wf(),
            r.spec_list()@ == LocalizeDict::example_entries(),
            var_group(r.spec_vars(), Scope::Immutable) == seq![
                ("HOME"@, Scope::Immutable, PlainView::Str("${HOME}"@)),
            ],
            var_group(r.spec_vars(), Scope::Module) == seq![
                ("SYS_KEY1"@, Scope::Module, PlainView::Str("sys_value1"@)),
            ],
            var_group(r.spec_vars(), Scope::System) == seq![
                ("SYS_KEY2"@, Scope::System, PlainView::Str("sys_value2"@)),
            ],
            r.spec_root() is None,
    {
        let mut seeds: Vec<VarSeed> = Vec::new();
        seeds.push(VarSeed { name: "HOME".to_owned(), scope: Scope::Immutable, value: SeedValue::Str("${HOME}".to_owned()) });
        seeds.push(VarSeed { name: "SYS_KEY1".to_owned(), scope: Scope::Module, value: SeedValue::Str("sys_value1".to_owned()) });
        seeds.push(VarSeed { name: "SYS_KEY2".to_owned(), scope: Scope::System, value: SeedValue::Str("sys_value2".to_owned()) });
        proof {
            let s = seeds@;
            assert(s.drop_last().drop_last().drop_last() =~= Seq::<VarSeed>::empty());
            reveal_with_fuel(seeds_in, 4);
            assert(seeds_in(s, Scope::Immutable) =~= seq![("HOME"@, Scope::Immutable, PlainView::Str("${HOME}"@))]);
            assert(seeds_in(s, Scope::Module) =~= seq![("SYS_KEY1"@, Scope::Module, PlainView::Str("sys_value1"@))]);
            assert(seeds_in(s, Scope::System) =~= seq![("SYS_KEY2"@, Scope::System, PlainView::Str("sys_value2"@))]);
        }
        let vars = define_seeds(seeds);
        SysSetting::new(vars)
    }

    /// What localizing the settings uses for each localized module, in
    /// order: the module's name and its values, which are the settings'
    /// variables overridden by the customer's values (`cust`, when given),
    /// then by the module values `mod_values`, then by the global values,
    /// with `${NAME}` references expanded (see `mix_used_value`).
    pub fn localize_plan(&self, global: &OriginDict, cust: Option<&OriginDict>, mod_values: &OriginDict) -> (r: Vec<(String, OriginDict)>)
        requires
            self.spec_list().wf(),
        ensures
            r@.len() == enabled_entries(self.spec_list()@).len(),
            forall|j: int|
                0 <= j < r@.len() ==> (#[trigger] r@[j]).0@ == enabled_entries(self.spec_list()@)[j].0
                    && localized_as(
                    origin_entries(r@[j].1),
                    layered(
                        vars_dict(self.spec_vars()),
                        opt_entries(cust),
                        origin_entries(*mod_values),
                        origin_entries(*global),
                    ),
                ),
    {
        let modules = self.list.enabled();
        let defaults = vars_origin_dict(&self.vars);
        let mut r: Vec<(String, OriginDict)> = Vec::new();
        let mut i: usize = 0;
        while i < modules.len()
            invariant
                i <= modules.len(),
                modules@.len() == enabled_entries(self.spec_list()@).len(),
                forall|j: int|
                    0 <= j < modules@.len() ==> (#[trigger] modules@[j]).0@ == enabled_entries(
                        self.spec_list()@,
                    )[j].0,
                origin_entries(defaults) == vars_dict(self.spec_vars()),
                r@.len() == i,
                forall|j: int|
                    0 <= j < i ==> (#[trigger] r@[j]).0@ == enabled_entries(self.spec_list()@)[j].0
                        && localized_as(
                        origin_entries(r@[j].1),
                        layered(
                            vars_dict(self.spec_vars()),
                            opt_entries(cust),
                            origin_entries(*mod_values),
                            origin_entries(*global),
                        ),
                    ),
            decreases modules.len() - i,
        {
            let used = mix_used_value(global, &defaults, cust, mod_values);
            r.push((modules[i].0.clone(), used));
            i = i + 1;
        }
        r
    }

    /// Sets the setting of the module `mod_name`.
    pub fn add_mod_setting(&mut self, mod_name: String, mod_setting: ModSetting)
        requires
            old(self).spec_list().wf(),
        ensures
            final(self).spec_list().wf(),
            final(self).spec_list()@ == put_setting(
                old(self).spec_list()@,
                (mod_name@, mod_setting@),
            ),
            final(self).spec_vars() == old(self).spec_vars(),
            final(self).spec_root() == old(self).spec_root(),
    {
        self.list.insert(mod_name, mod_setting);
    }

    pub fn vars(&self) -> (r: &VarCollection)
        ensures
            *r == self.spec_vars(),
    {
        &self.vars
    }

    pub fn list(&self) -> (r: &LocalizeDict)
        ensures
            *r == self.spec_list(),
    {
        &self.list
    }

    pub fn root(&self) -> (r: &Option<String>)
        ensures
            match *r {
                Some(x) => self.spec_root() == Some(x@),
                None => self.spec_root() is None,
            },
    {
        &self.root
    }
}

} // verus!
