//! System variables and their values: the variables a collection lists, the
//! values they stand for, the resolved variables, and the values set for a
//! system's variables in its value file.

use vstd::prelude::*;
use orion_variate::vars::{Mutability, OriginDict, ValueDict, ValueType, VarCollection, VarDefinition};
use crate::dict::{
    display_text, put, value_dict_entries, EntryView, PlainView,
};
use crate::gflow::{digits_value, is_digit, lemma_decimal_digits, unsigned_digits};
use crate::text::decimal;

verus! {

/// The scope of a variable: the group it is listed in, which is also its
/// mutability once loaded (immutable ones may not be set).
pub enum Scope {
    Immutable,
    System,
    Module,
}

/// A variable as text: its name, its scope (`Mutability`), and its default.
pub type VarView = (Seq<char>, Scope, PlainView);

/// The variable may be set (it is not immutable).
pub open spec fn settable(v: VarView) -> bool {
    !(v.1 is Immutable)
}

/// The variables a `VarCollection` lists in group `g`, in order.
pub uninterp spec fn var_group(v: VarCollection, g: Scope) -> Seq<VarView>;

/// What `str::to_uppercase` gives for `s` (the key a name is stored under).
pub uninterp spec fn upper(s: Seq<char>) -> Seq<char>;

/// What `ValueType::update_from_str` makes of the text `s` for a float, IP
/// address, object or list value like `v`: a value of the same type read
/// from `s`, or `None` when `s` does not read as that type.
pub uninterp spec fn read_value(v: PlainView, s: Seq<char>) -> Option<PlainView>;

/// What `str::parse::<u64>` gives: an optional `+`, then at least one ASCII
/// digit and nothing else, denoting at most `u64::MAX`.
pub open spec fn parse_u64(s: Seq<char>) -> Option<u64> {
    let d = unsigned_digits(s);
    if d.len() > 0 && (forall|i: int| 0 <= i < d.len() ==> is_digit(#[trigger] d[i]))
        && digits_value(d) <= u64::MAX {
        Some(digits_value(d) as u64)
    } else {
        None
    }
}

/// The text `s` read as a value of the type of `v`
/// (`ValueType::update_from_str`): a string takes the text as it is, a
/// boolean reads `true` or `false`, a number reads an unsigned decimal; the
/// other types read as `read_value` says. `None` when the text does not read.
pub open spec fn read_as(v: PlainView, s: Seq<char>) -> Option<PlainView> {
    match v {
        PlainView::Str(_) => Some(PlainView::Str(s)),
        PlainView::Bool(_) => if s == "true"@ {
            Some(PlainView::Bool(true))
        } else if s == "false"@ {
            Some(PlainView::Bool(false))
        } else {
            None
        },
        PlainView::Number(_) => match parse_u64(s) {
            Some(n) => Some(PlainView::Number(n)),
            None => None,
        },
        _ => read_value(v, s),
    }
}

/// The value stored under `k`, if any.
pub open spec fn find_entry(d: Seq<(Seq<char>, PlainView)>, k: Seq<char>) -> Option<PlainView> {
    if exists|i: int| 0 <= i < d.len() && (#[trigger] d[i]).0 == k {
        Some(d[choose|i: int| 0 <= i < d.len() && (#[trigger] d[i]).0 == k].1)
    } else {
        None
    }
}

/// The entries after storing `e`: in place when its key is there, else last.
pub open spec fn put_entry(d: Seq<(Seq<char>, PlainView)>, e: (Seq<char>, PlainView)) -> Seq<
    (Seq<char>, PlainView),
> {
    if exists|i: int| 0 <= i < d.len() && (#[trigger] d[i]).0 == e.0 {
        d.update(choose|i: int| 0 <= i < d.len() && (#[trigger] d[i]).0 == e.0, e)
    } else {
        d.push(e)
    }
}

/// The values of variables `vs` (`VarToValue::to_val`): each default stored
/// under the upper-cased name, in order.
pub open spec fn value_entries(vs: Seq<VarView>) -> Seq<(Seq<char>, PlainView)>
    decreases vs.len(),
{
    if vs.len() == 0 {
        seq![]
    } else {
        put_entry(value_entries(vs.drop_last()), (upper(vs.last().0), vs.last().2))
    }
}

/// The keys of the values of variables `vs`.
pub open spec fn value_keys(vs: Seq<VarView>) -> Seq<Seq<char>> {
    value_entries(vs).map_values(|e: (Seq<char>, PlainView)| e.0)
}

/// The entries of `d` with each of `vs` put as an untagged entry under its
/// upper-cased name (`OriginDict::from(VarCollection)`).
pub open spec fn put_vars(d: Seq<EntryView>, vs: Seq<VarView>) -> Seq<EntryView>
    decreases vs.len(),
{
    if vs.len() == 0 {
        d
    } else {
        put(put_vars(d, vs.drop_last()), (upper(vs.last().0), None, settable(vs.last()), vs.last().2))
    }
}

/// The dictionary of a collection's variables: the immutable ones, then the
/// system ones, then the module ones.
pub open spec fn vars_dict(v: VarCollection) -> Seq<EntryView> {
    put_vars(
        put_vars(
            put_vars(Seq::empty(), var_group(v, Scope::Immutable)),
            var_group(v, Scope::System),
        ),
        var_group(v, Scope::Module),
    )
}

/// A variable of a variables file as the value setting reads it: its name,
/// its scope and its default's display text.
pub struct VarItem {
    pub name: String,
    pub scope: Scope,
    pub default_text: String,
}

/// `VarCollection::system_vars`: the system variables, each with its name,
/// its mutability and its default's `Display` text.
#[verifier::external_body]
fn system_var_items(v: &VarCollection) -> (r: Vec<VarItem>)
    ensures
        r@.len() == var_group(*v, Scope::System).len(),
        forall|j: int|
            0 <= j < r@.len() ==> (#[trigger] r@[j]).name@ == var_group(*v, Scope::System)[j].0
                && r@[j].scope == var_group(*v, Scope::System)[j].1 && r@[j].default_text@
                == display_text(var_group(*v, Scope::System)[j].2),
{
    v.system_vars().iter().map(|d| VarItem {
        name: d.name().clone(),
        scope: match d.mutability() {
            Mutability::Immutable => Scope::Immutable,
            Mutability::System => Scope::System,
            Mutability::Module => Scope::Module,
        },
        default_text: d.value().to_string(),
    }).collect()
}

/// `system_vars().to_val()`: each system variable's default stored under its
/// upper-cased name, in order.
#[verifier::external_body]
fn system_vars_values(v: &VarCollection) -> (r: ValueDict)
    ensures
        value_dict_entries(r) == value_entries(var_group(*v, Scope::System)),
{
    orion_variate::vars::VarToValue::to_val(v.system_vars())
}

/// `module_vars().to_val()`: each module variable's default stored under its
/// upper-cased name, in order.
#[verifier::external_body]
fn module_vars_values(v: &VarCollection) -> (r: ValueDict)
    ensures
        value_dict_entries(r) == value_entries(var_group(*v, Scope::Module)),
{
    orion_variate::vars::VarToValue::to_val(v.module_vars())
}

/// `OriginDict::from(VarCollection)`: each variable, untagged, with its
/// mutability, under its upper-cased name.
#[verifier::external_body]
fn origin_from_vars(v: &VarCollection) -> (r: OriginDict)
    ensures
        crate::dict::origin_entries(r) == vars_dict(*v),
{
    OriginDict::from(v.clone())
}

/// `ValueDict::clone` (derived): the same entries in the same order.
#[verifier::external_body]
fn value_dict_clone(d: &ValueDict) -> (r: ValueDict)
    ensures
        value_dict_entries(r) == value_dict_entries(*d),
{
    d.clone()
}

/// `IndexMap::get` with the key as given: the display text of the value
/// stored under exactly `k`, if any.
#[verifier::external_body]
fn value_dict_get_text(d: &ValueDict, k: &str) -> (r: Option<String>)
    ensures
        match find_entry(value_dict_entries(*d), k@) {
            Some(p) => r is Some && r.unwrap()@ == display_text(p),
            None => r is None,
        },
{
    d.get(k).map(|v| v.to_string())
}

/// `ValueType::update_from_str` on a copy of the default of the `i`-th
/// system variable, then `ValueDict::insert` of the value read under the
/// variable's name (upper-cased). The value read is not a plain value, so
/// it is stated where it is stored; nothing changes when the text does not
/// read as the default's type.
#[verifier::external_body]
fn store_system_var(d: &mut ValueDict, v: &VarCollection, i: usize, s: &str) -> (r: Result<(), String>)
    requires
        i < var_group(*v, Scope::System).len(),
    ensures
        r is Ok <==> read_as(var_group(*v, Scope::System)[i as int].2, s@) is Some,
        r is Ok ==> value_dict_entries(*final(d)) == put_entry(
            value_dict_entries(*old(d)),
            (
                upper(var_group(*v, Scope::System)[i as int].0),
                read_as(var_group(*v, Scope::System)[i as int].2, s@).unwrap(),
            ),
        ),
        r is Err ==> value_dict_entries(*final(d)) == value_dict_entries(*old(d)),
        ({
            let dv = var_group(*v, Scope::System)[i as int].2;
            !(dv is Str || dv is Bool || dv is Number) ==> (r is Ok <==> read_value(dv, s@) is Some)
        }),
{
    let var = &v.system_vars()[i];
    let mut x = var.value().clone();
    x.update_from_str(s).map_err(|e| e.to_string())?;
    d.insert(var.name().to_string(), x);
    Ok(())
}

/// A value given to a new variable.
pub enum SeedValue {
    Str(String),
    Number(u64),
    Bool(bool),
}

/// A new variable: its name, scope and default.
pub struct VarSeed {
    pub name: String,
    pub scope: Scope,
    pub value: SeedValue,
}

/// The variable a seed stands for.
pub open spec fn seed_view(s: VarSeed) -> VarView {
    (s.name@, s.scope, match s.value {
        SeedValue::Str(t) => PlainView::Str(t@),
        SeedValue::Number(n) => PlainView::Number(n),
        SeedValue::Bool(b) => PlainView::Bool(b),
    })
}

/// The seeds of scope `g`, as variables, in order.
pub open spec fn seeds_in(seeds: Seq<VarSeed>, g: Scope) -> Seq<VarView>
    decreases seeds.len(),
{
    if seeds.len() == 0 {
        seq![]
    } else if seeds.last().scope == g {
        seeds_in(seeds.drop_last(), g).push(seed_view(seeds.last()))
    } else {
        seeds_in(seeds.drop_last(), g)
    }
}

/// `VarCollection::define` of `VarDefinition::from((name, value))` with each
/// seed's mutability: the variables grouped by scope, in order.
#[verifier::external_body]
fn define_vars(seeds: Vec<VarSeed>) -> (r: VarCollection)
    ensures
        var_group(r, Scope::Immutable) == seeds_in(seeds@, Scope::Immutable),
        var_group(r, Scope::System) == seeds_in(seeds@, Scope::System),
        var_group(r, Scope::Module) == seeds_in(seeds@, Scope::Module),
{
    VarCollection::define(seeds.into_iter().map(|s| {
        let value = match s.value {
            SeedValue::Str(t) => ValueType::String(t),
            SeedValue::Number(n) => ValueType::Number(n),
            SeedValue::Bool(b) => ValueType::Bool(b),
        };
        let m = match s.scope { Scope::Immutable => Mutability::Immutable, Scope::System => Mutability::System, Scope::Module => Mutability::Module };
        VarDefinition::from((s.name.as_str(), value)).with_mutability(m)
    }).collect())
}

/// The variables `seeds` stand for, grouped by scope.
pub fn define_seeds(seeds: Vec<VarSeed>) -> (r: VarCollection)
    ensures
        var_group(r, Scope::Immutable) == seeds_in(seeds@, Scope::Immutable),
        var_group(r, Scope::System) == seeds_in(seeds@, Scope::System),
        var_group(r, Scope::Module) == seeds_in(seeds@, Scope::Module),
{
    define_vars(seeds)
}

/// The dictionary of a collection's variables, each untagged, with its
/// mutability, under its upper-cased name (immutable, then system, then
/// module variables).
pub fn vars_origin_dict(vars: &VarCollection) -> (r: OriginDict)
    ensures
        crate::dict::origin_entries(r) == vars_dict(*vars),
{
    origin_from_vars(vars)
}

/// The values of a system's system variables (what a missing
/// `values/sys_value.yml` is built from): each default under its
/// upper-cased name.
pub fn sys_values_of(vars: &VarCollection) -> (r: ValueDict)
    ensures
        value_dict_entries(r) == value_entries(var_group(*vars, Scope::System)),
{
    system_vars_values(vars)
}

/// The values of a module's module variables (what a missing
/// `mod_value.yml` is built from): each default under its upper-cased name.
pub fn mod_values_of(vars: &VarCollection) -> (r: ValueDict)
    ensures
        value_dict_entries(r) == value_entries(var_group(*vars, Scope::Module)),
{
    module_vars_values(vars)
}

/// The answer given at position `i`, if any.
pub open spec fn answer_at(answers: Seq<Option<String>>, i: int) -> Option<Seq<char>> {
    if 0 <= i < answers.len() {
        match answers[i] {
            Some(a) => Some(a@),
            None => None,
        }
    } else {
        None
    }
}

/// The text a settable variable is set from: the answer when there is one,
/// else the display text of the value already stored under its name, else
/// its default's display text.
pub open spec fn chosen_text(d: Seq<(Seq<char>, PlainView)>, v: VarView, ans: Option<Seq<char>>) -> Seq<char> {
    match ans {
        Some(a) => a,
        None => match find_entry(d, v.0) {
            Some(p) => display_text(p),
            None => display_text(v.2),
        },
    }
}

/// The values after setting the variables `vs` in order, starting from `d`:
/// each settable variable's chosen text read as its default's type and
/// stored under its upper-cased name; `None` once a text does not read.
pub open spec fn values_after(
    d: Seq<(Seq<char>, PlainView)>,
    vs: Seq<VarView>,
    answers: Seq<Option<String>>,
) -> Option<Seq<(Seq<char>, PlainView)>>
    decreases vs.len(),
{
    if vs.len() == 0 {
        Some(d)
    } else {
        match values_after(d, vs.drop_last(), answers) {
            None => None,
            Some(d2) => {
                let v = vs.last();
                if !settable(v) {
                    Some(d2)
                } else {
                    match read_as(v.2, chosen_text(d2, v, answer_at(answers, vs.len() - 1))) {
                        Some(p) => Some(put_entry(d2, (upper(v.0), p))),
                        None => None,
                    }
                }
            }
        }
    }
}

/// Once setting fails, setting more variables still fails.
proof fn lemma_values_after_fails(
    d: Seq<(Seq<char>, PlainView)>,
    vs: Seq<VarView>,
    answers: Seq<Option<String>>,
    k: int,
)
    requires
        0 <= k <= vs.len(),
        values_after(d, vs.subrange(0, k), answers) is None,
    ensures
        values_after(d, vs, answers) is None,
    decreases vs.len() - k,
{
    if k < vs.len() {
        let next = vs.subrange(0, k + 1);
        assert(next.drop_last() =~= vs.subrange(0, k));
        lemma_values_after_fails(d, vs, answers, k + 1);
    } else {
        assert(vs.subrange(0, k) =~= vs);
    }
}

/// No two entries share a key.
pub open spec fn distinct_keys(d: Seq<(Seq<char>, PlainView)>) -> bool {
    forall|a: int, b: int|
        0 <= a < d.len() && 0 <= b < d.len() && a != b ==> (#[trigger] d[a]).0 != (#[trigger] d[b]).0
}

/// The entries hold `e`.
pub open spec fn holds_entry(d: Seq<(Seq<char>, PlainView)>, e: (Seq<char>, PlainView)) -> bool {
    exists|m: int| 0 <= m < d.len() && d[m] == e
}

proof fn lemma_put_entry_distinct(d: Seq<(Seq<char>, PlainView)>, e: (Seq<char>, PlainView))
    requires
        distinct_keys(d),
    ensures
        distinct_keys(put_entry(d, e)),
{
    let r = put_entry(d, e);
    if !exists|i: int| 0 <= i < d.len() && (#[trigger] d[i]).0 == e.0 {
        assert forall|a: int, b: int|
            0 <= a < r.len() && 0 <= b < r.len() && a != b implies (#[trigger] r[a]).0 != (#[trigger] r[b]).0 by {
            if a == d.len() {
                assert(r[b] == d[b]);
            } else if b == d.len() {
                assert(r[a] == d[a]);
            } else {
                assert(r[a] == d[a] && r[b] == d[b]);
            }
        }
    }
}

proof fn lemma_put_entry_other(d: Seq<(Seq<char>, PlainView)>, e: (Seq<char>, PlainView), k: Seq<char>)
    requires
        distinct_keys(d),
        e.0 != k,
    ensures
        find_entry(put_entry(d, e), k) == find_entry(d, k),
{
    let r = put_entry(d, e);
    lemma_put_entry_distinct(d, e);
    assert forall|i: int| 0 <= i < r.len() && (#[trigger] r[i]).0 == k implies i < d.len() && r[i] == d[i] by {
        if exists|c: int| 0 <= c < d.len() && (#[trigger] d[c]).0 == e.0 {
            let c = choose|c: int| 0 <= c < d.len() && (#[trigger] d[c]).0 == e.0;
            assert(i != c);
        }
    }
    if exists|w: int| 0 <= w < d.len() && (#[trigger] d[w]).0 == k {
        let w = choose|w: int| 0 <= w < d.len() && (#[trigger] d[w]).0 == k;
        lemma_find_distinct(d, w);
        if exists|c: int| 0 <= c < d.len() && (#[trigger] d[c]).0 == e.0 {
            let c = choose|c: int| 0 <= c < d.len() && (#[trigger] d[c]).0 == e.0;
            assert(w != c);
        }
        assert(r[w] == d[w]);
        lemma_find_distinct(r, w);
    } else {
        assert(!exists|i: int| 0 <= i < r.len() && (#[trigger] r[i]).0 == k);
    }
}

proof fn lemma_find_distinct(d: Seq<(Seq<char>, PlainView)>, m: int)
    requires
        distinct_keys(d),
        0 <= m < d.len(),
    ensures
        find_entry(d, d[m].0) == Some(d[m].1),
{
    let k = d[m].0;
    assert(d[m].0 == k);
    let c = choose|i: int| 0 <= i < d.len() && (#[trigger] d[i]).0 == k;
    assert(c == m);
}

proof fn lemma_put_entry_holds(d: Seq<(Seq<char>, PlainView)>, e: (Seq<char>, PlainView))
    ensures
        holds_entry(put_entry(d, e), e),
{
    let r = put_entry(d, e);
    if exists|i: int| 0 <= i < d.len() && (#[trigger] d[i]).0 == e.0 {
        let c = choose|i: int| 0 <= i < d.len() && (#[trigger] d[i]).0 == e.0;
        assert(r[c] == e);
    } else {
        assert(r[d.len() as int] == e);
    }
}

proof fn lemma_put_entry_keeps(d: Seq<(Seq<char>, PlainView)>, e: (Seq<char>, PlainView), f: (Seq<char>, PlainView))
    requires
        holds_entry(d, f),
        f.0 != e.0,
    ensures
        holds_entry(put_entry(d, e), f),
{
    let m = choose|m: int| 0 <= m < d.len() && d[m] == f;
    let r = put_entry(d, e);
    assert(r[m] == f);
}

/// Setting the first `n + 1` variables is setting the first `n`, then the
/// `n`-th one.
proof fn lemma_values_after_step(
    d: Seq<(Seq<char>, PlainView)>,
    vs: Seq<VarView>,
    answers: Seq<Option<String>>,
    n: int,
)
    requires
        0 <= n < vs.len(),
    ensures
        values_after(d, vs.subrange(0, n + 1), answers) == match values_after(d, vs.subrange(0, n), answers) {
            None => None,
            Some(d2) => if !settable(vs[n]) {
                Some(d2)
            } else {
                match read_as(vs[n].2, chosen_text(d2, vs[n], answer_at(answers, n))) {
                    Some(p) => Some(put_entry(d2, (upper(vs[n].0), p))),
                    None => None,
                }
            },
        },
{
    let cur = vs.subrange(0, n + 1);
    assert(cur.drop_last() =~= vs.subrange(0, n));
    assert(cur.last() == vs[n]);
}

/// Setting more variables keeps an entry stored under a name no later
/// variable is stored under.
proof fn lemma_later_keep(
    d: Seq<(Seq<char>, PlainView)>,
    vs: Seq<VarView>,
    answers: Seq<Option<String>>,
    n: int,
    e: (Seq<char>, PlainView),
)
    requires
        0 <= n <= vs.len(),
        values_after(d, vs.subrange(0, n), answers) matches Some(dn) && holds_entry(dn, e),
        values_after(d, vs, answers) is Some,
        forall|j: int| n <= j < vs.len() ==> upper(#[trigger] vs[j].0) != e.0,
    ensures
        holds_entry(values_after(d, vs, answers).unwrap(), e),
    decreases vs.len() - n,
{
    if n == vs.len() {
        assert(vs.subrange(0, n) =~= vs);
    } else {
        lemma_values_after_step(d, vs, answers, n);
        if values_after(d, vs.subrange(0, n + 1), answers) is None {
            lemma_values_after_fails(d, vs, answers, n + 1);
        }
        let dn = values_after(d, vs.subrange(0, n), answers).unwrap();
        if settable(vs[n]) {
            let p = read_as(vs[n].2, chosen_text(dn, vs[n], answer_at(answers, n))).unwrap();
            lemma_put_entry_keeps(dn, (upper(vs[n].0), p), e);
        }
        lemma_later_keep(d, vs, answers, n + 1, e);
    }
}

/// Setting variables none of which is stored under `k` keeps what is
/// stored under `k`, and keeps the keys distinct.
proof fn lemma_earlier_keep(
    d: Seq<(Seq<char>, PlainView)>,
    vs: Seq<VarView>,
    answers: Seq<Option<String>>,
    n: int,
    k: Seq<char>,
)
    requires
        0 <= n <= vs.len(),
        distinct_keys(d),
        values_after(d, vs.subrange(0, n), answers) is Some,
        forall|j: int| 0 <= j < n ==> upper(#[trigger] vs[j].0) != k,
    ensures
        distinct_keys(values_after(d, vs.subrange(0, n), answers).unwrap()),
        find_entry(values_after(d, vs.subrange(0, n), answers).unwrap(), k) == find_entry(d, k),
    decreases n,
{
    if n == 0 {
        assert(vs.subrange(0, 0) =~= Seq::<VarView>::empty());
    } else {
        lemma_values_after_step(d, vs, answers, n - 1);
        lemma_earlier_keep(d, vs, answers, n - 1, k);
        let dn = values_after(d, vs.subrange(0, n - 1), answers).unwrap();
        if settable(vs[n - 1]) {
            let p = read_as(vs[n - 1].2, chosen_text(dn, vs[n - 1], answer_at(answers, n - 1))).unwrap();
            lemma_put_entry_distinct(dn, (upper(vs[n - 1].0), p));
            lemma_put_entry_other(dn, (upper(vs[n - 1].0), p), k);
        }
    }
}

/// The value stored for the settable `i`-th variable when setting it from
/// the text `t` succeeds: the reading of `t`, held at the end when no later
/// variable is stored under the same name.
proof fn lemma_stored_from(
    d: Seq<(Seq<char>, PlainView)>,
    vs: Seq<VarView>,
    answers: Seq<Option<String>>,
    i: int,
    t: Seq<char>,
)
    requires
        0 <= i < vs.len(),
        settable(vs[i]),
        values_after(d, vs, answers) is Some,
        values_after(d, vs.subrange(0, i), answers) matches Some(di) && chosen_text(di, vs[i], answer_at(answers, i)) == t,
        read_as(vs[i].2, t) is Some,
        forall|j: int| i < j < vs.len() ==> upper(#[trigger] vs[j].0) != upper(vs[i].0),
    ensures
        holds_entry(values_after(d, vs, answers).unwrap(), (upper(vs[i].0), read_as(vs[i].2, t).unwrap())),
{
    let e = (upper(vs[i].0), read_as(vs[i].2, t).unwrap());
    lemma_values_after_step(d, vs, answers, i);
    let di = values_after(d, vs.subrange(0, i), answers).unwrap();
    lemma_put_entry_holds(di, e);
    lemma_later_keep(d, vs, answers, i + 1, e);
}

/// Setting the first `i` variables succeeded when setting them all did.
proof fn lemma_prefix_some(d: Seq<(Seq<char>, PlainView)>, vs: Seq<VarView>, answers: Seq<Option<String>>, i: int)
    requires
        0 <= i <= vs.len(),
        values_after(d, vs, answers) is Some,
    ensures
        values_after(d, vs.subrange(0, i), answers) is Some,
{
    if values_after(d, vs.subrange(0, i), answers) is None {
        lemma_values_after_fails(d, vs, answers, i);
    }
}

/// An answer is what gets stored: when the customer answers `a` for a
/// variable that may be set, and `a` reads as its default's type, the
/// values hold that reading under the variable's upper-cased name, whatever
/// value was stored before, as long as no later variable is stored under
/// the same name.
pub proof fn lemma_answer_stored(
    d: Seq<(Seq<char>, PlainView)>,
    vs: Seq<VarView>,
    answers: Seq<Option<String>>,
    i: int,
    a: Seq<char>,
)
    requires
        0 <= i < vs.len(),
        settable(vs[i]),
        i < answers.len(),
        answers[i] matches Some(x) && x@ == a,
        read_as(vs[i].2, a) is Some,
        values_after(d, vs, answers) is Some,
        forall|j: int| i < j < vs.len() ==> upper(#[trigger] vs[j].0) != upper(vs[i].0),
    ensures
        holds_entry(values_after(d, vs, answers).unwrap(), (upper(vs[i].0), read_as(vs[i].2, a).unwrap())),
{
    lemma_prefix_some(d, vs, answers, i);
    assert(answer_at(answers, i) == Some(a));
    lemma_stored_from(d, vs, answers, i, a);
}

/// With no answer, the value already stored is kept: when the value file
/// holds `p` under exactly the name of a variable that may be set, no answer
/// is given for it and no earlier variable is stored under that name, the
/// values hold `p` read again as the default's type under the upper-cased
/// name (when it reads), as long as no later variable is stored there too.
pub proof fn lemma_existing_kept(
    d: Seq<(Seq<char>, PlainView)>,
    vs: Seq<VarView>,
    answers: Seq<Option<String>>,
    i: int,
    m: int,
)
    requires
        0 <= i < vs.len(),
        settable(vs[i]),
        i >= answers.len() || answers[i] is None,
        distinct_keys(d),
        0 <= m < d.len(),
        d[m].0 == vs[i].0,
        read_as(vs[i].2, display_text(d[m].1)) is Some,
        values_after(d, vs, answers) is Some,
        forall|j: int| 0 <= j < i ==> upper(#[trigger] vs[j].0) != vs[i].0,
        forall|j: int| i < j < vs.len() ==> upper(#[trigger] vs[j].0) != upper(vs[i].0),
    ensures
        holds_entry(
            values_after(d, vs, answers).unwrap(),
            (upper(vs[i].0), read_as(vs[i].2, display_text(d[m].1)).unwrap()),
        ),
{
    lemma_prefix_some(d, vs, answers, i);
    lemma_earlier_keep(d, vs, answers, i, vs[i].0);
    lemma_find_distinct(d, m);
    assert(answer_at(answers, i) is None);
    lemma_stored_from(d, vs, answers, i, display_text(d[m].1));
}

/// With no answer and nothing stored under its name, a variable that may
/// be set gets its default: a string, boolean or number default is stored
/// as it is under the upper-cased name, as long as no earlier variable is
/// stored under its name and no later one under the same upper-cased name.
pub proof fn lemma_default_used(
    d: Seq<(Seq<char>, PlainView)>,
    vs: Seq<VarView>,
    answers: Seq<Option<String>>,
    i: int,
)
    requires
        0 <= i < vs.len(),
        settable(vs[i]),
        plain_default(vs[i].2),
        i >= answers.len() || answers[i] is None,
        distinct_keys(d),
        forall|m: int| 0 <= m < d.len() ==> (#[trigger] d[m]).0 != vs[i].0,
        values_after(d, vs, answers) is Some,
        forall|j: int| 0 <= j < i ==> upper(#[trigger] vs[j].0) != vs[i].0,
        forall|j: int| i < j < vs.len() ==> upper(#[trigger] vs[j].0) != upper(vs[i].0),
    ensures
        holds_entry(values_after(d, vs, answers).unwrap(), (upper(vs[i].0), vs[i].2)),
{
    lemma_prefix_some(d, vs, answers, i);
    lemma_earlier_keep(d, vs, answers, i, vs[i].0);
    assert(find_entry(d, vs[i].0) is None);
    assert(answer_at(answers, i) is None);
    lemma_reads_back(vs[i].2);
    lemma_stored_from(d, vs, answers, i, display_text(vs[i].2));
}

/// The values set for the system variables of `vars`, starting from the
/// value file's values `existing`: each variable that may be set gets the
/// text `answers` gives at its position when there is one, else the display
/// text of the value already stored under its name, else its default's; the
/// text is read as a value of the default's type and stored under the
/// upper-cased name. An error is the reason a text could not be read.
pub fn system_values(vars: &VarCollection, existing: &ValueDict, answers: &Vec<Option<String>>) -> (r: Result<ValueDict, String>)
    ensures
        match r {
            Ok(d) => values_after(
                value_dict_entries(*existing),
                var_group(*vars, Scope::System),
                answers@,
            ) == Some(value_dict_entries(d)),
            Err(_) => values_after(
                value_dict_entries(*existing),
                var_group(*vars, Scope::System),
                answers@,
            ) is None,
        },
{
    let items = system_var_items(vars);
    let ghost vg = var_group(*vars, Scope::System);
    let ghost ee = value_dict_entries(*existing);
    let mut d = value_dict_clone(existing);
    let mut i: usize = 0;
    assert(vg.subrange(0, 0) =~= Seq::<VarView>::empty());
    while i < items.len()
        invariant
            i <= items.len() == vg.len(),
            vg == var_group(*vars, Scope::System),
            ee == value_dict_entries(*existing),
            forall|j: int|
                0 <= j < items@.len() ==> (#[trigger] items@[j]).name@ == vg[j].0 && items@[j].scope
                    == vg[j].1 && items@[j].default_text@ == display_text(vg[j].2),
            values_after(ee, vg.subrange(0, i as int), answers@) == Some(value_dict_entries(d)),
        decreases items.len() - i,
    {
        let item = &items[i];
        let ghost pre = vg.subrange(0, i as int);
        let ghost cur = vg.subrange(0, i + 1 as int);
        assert(cur.drop_last() =~= pre);
        assert(cur.last() == vg[i as int]);
        let settable_here = match item.scope {
            Scope::Immutable => false,
            _ => true,
        };
        if settable_here {
            let answer = if i < answers.len() {
                match &answers[i] {
                    Some(a) => Some(a.clone()),
                    None => None,
                }
            } else {
                None
            };
            let text = match answer {
                Some(a) => a,
                None => match value_dict_get_text(&d, item.name.as_str()) {
                    Some(t) => t,
                    None => item.default_text.clone(),
                },
            };
            assert(text@ == chosen_text(value_dict_entries(d), vg[i as int], answer_at(answers@, i as int)));
            match store_system_var(&mut d, vars, i, text.as_str()) {
                Ok(()) => {},
                Err(e) => {
                    proof {
                        lemma_values_after_fails(ee, vg, answers@, i + 1);
                    }
                    return Err(e);
                },
            }
        }
        i = i + 1;
    }
    assert(vg.subrange(0, vg.len() as int) =~= vg);
    Ok(d)
}

/// The entries holding each settable variable's default under its
/// upper-cased name, in order.
pub open spec fn default_entries(vs: Seq<VarView>) -> Seq<(Seq<char>, PlainView)>
    decreases vs.len(),
{
    if vs.len() == 0 {
        seq![]
    } else if settable(vs.last()) {
        put_entry(default_entries(vs.drop_last()), (upper(vs.last().0), vs.last().2))
    } else {
        default_entries(vs.drop_last())
    }
}

/// A default that reads back from its own display text: a string, a
/// boolean or a number.
pub open spec fn plain_default(v: PlainView) -> bool {
    v is Str || v is Bool || v is Number
}

proof fn lemma_reads_back(v: PlainView)
    requires
        plain_default(v),
    ensures
        read_as(v, display_text(v)) == Some(v),
{
    if let PlainView::Number(n) = v {
        lemma_decimal_digits(n as nat);
        assert(unsigned_digits(decimal(n as nat)) == decimal(n as nat));
    }
    if let PlainView::Bool(b) = v {
        reveal_strlit("true");
        reveal_strlit("false");
        assert("true"@ != "false"@);
    }
}

proof fn lemma_default_entries_keys(vs: Seq<VarView>, k: Seq<char>)
    requires
        find_entry(default_entries(vs), k) is Some,
    ensures
        exists|j: int| 0 <= j < vs.len() && upper(#[trigger] vs[j].0) == k,
    decreases vs.len(),
{
    if vs.len() > 0 {
        let pre = vs.drop_last();
        let d = default_entries(pre);
        if settable(vs.last()) && upper(vs.last().0) == k {
            assert(upper(vs[vs.len() - 1].0) == k);
        } else {
            if settable(vs.last()) {
                let e = (upper(vs.last().0), vs.last().2);
                let d2 = put_entry(d, e);
                let i = choose|i: int| 0 <= i < d2.len() && (#[trigger] d2[i]).0 == k;
                if exists|m: int| 0 <= m < d.len() && (#[trigger] d[m]).0 == e.0 {
                    assert(d2.len() == d.len());
                    assert(d[i].0 == k);
                } else {
                    assert(i < d.len());
                    assert(d[i].0 == k);
                }
            }
            lemma_default_entries_keys(pre, k);
            let j = choose|j: int| 0 <= j < pre.len() && upper(#[trigger] pre[j].0) == k;
            assert(vs[j] == pre[j]);
        }
    }
}

/// A missing value file is filled with the defaults: setting variables
/// whose defaults are strings, booleans or numbers, with no answers and no
/// values stored yet, stores each settable variable's default under its
/// upper-cased name. No name may equal the upper-cased name of an earlier
/// variable: such a variable reads that one's stored value instead.
pub proof fn lemma_fill_defaults(vs: Seq<VarView>)
    requires
        forall|i: int| 0 <= i < vs.len() ==> plain_default(#[trigger] vs[i].2),
        forall|i: int, j: int| 0 <= j < i < vs.len() ==> upper(#[trigger] vs[j].0) != (#[trigger] vs[i]).0,
    ensures
        values_after(Seq::empty(), vs, Seq::empty()) == Some(default_entries(vs)),
    decreases vs.len(),
{
    if vs.len() > 0 {
        let pre = vs.drop_last();
        assert forall|i: int, j: int| 0 <= j < i < pre.len() implies upper(#[trigger] pre[j].0) != (#[trigger] pre[i]).0 by {
            assert(pre[j] == vs[j] && pre[i] == vs[i]);
        }
        assert forall|i: int| 0 <= i < pre.len() implies plain_default(#[trigger] pre[i].2) by {
            assert(pre[i] == vs[i]);
        }
        lemma_fill_defaults(pre);
        let v = vs.last();
        let d = default_entries(pre);
        if settable(v) {
            if find_entry(d, v.0) is Some {
                lemma_default_entries_keys(pre, v.0);
                let j = choose|j: int| 0 <= j < pre.len() && upper(#[trigger] pre[j].0) == v.0;
                assert(pre[j] == vs[j]);
                assert(upper(vs[j].0) != vs[vs.len() - 1].0);
            }
            assert(answer_at(Seq::<Option<String>>::empty(), vs.len() - 1) is None);
            assert(plain_default(vs[vs.len() - 1].2));
            lemma_reads_back(v.2);
        }
    }
}

/// The variables after putting `v` by name: a variable of that name is
/// replaced in its place, a new name goes last.
pub open spec fn put_var(s: Seq<VarView>, v: VarView) -> Seq<VarView> {
    if exists|i: int| 0 <= i < s.len() && (#[trigger] s[i]).0 == v.0 {
        s.update(choose|i: int| 0 <= i < s.len() && (#[trigger] s[i]).0 == v.0, v)
    } else {
        s.push(v)
    }
}

/// The variables of `base` with each of `other` put by name, in order
/// (from no variables, this keeps the last of each name in the place of the
/// first).
pub open spec fn merge_vars(base: Seq<VarView>, other: Seq<VarView>) -> Seq<VarView>
    decreases other.len(),
{
    if other.len() == 0 {
        base
    } else {
        put_var(merge_vars(base, other.drop_last()), other.last())
    }
}

/// `VarCollection::merge_system`: only system variables remain, those of
/// `base` with those of `other` put over them by name.
#[verifier::external_body]
fn merge_system_vars(base: VarCollection, other: &VarCollection) -> (r: VarCollection)
    ensures
        var_group(r, Scope::Immutable) == Seq::<VarView>::empty(),
        var_group(r, Scope::Module) == Seq::<VarView>::empty(),
        var_group(r, Scope::System) == merge_vars(
            merge_vars(Seq::<VarView>::empty(), var_group(base, Scope::System)),
            var_group(*other, Scope::System),
        ),
{
    base.merge_system(other.clone())
}

/// The resolved variables of a system (`sys/merged_vars.yml`): the system
/// variables its modules resolved (`module_vars`), with the system variables
/// of its settings (`setting_vars`) put over them by name; nothing else.
pub fn resolved_vars(module_vars: VarCollection, setting_vars: &VarCollection) -> (r: VarCollection)
    ensures
        var_group(r, Scope::Immutable) == Seq::<VarView>::empty(),
        var_group(r, Scope::Module) == Seq::<VarView>::empty(),
        var_group(r, Scope::System) == merge_vars(
            merge_vars(Seq::<VarView>::empty(), var_group(module_vars, Scope::System)),
            var_group(*setting_vars, Scope::System),
        ),
{
    merge_system_vars(module_vars, setting_vars)
}

} // verus!
