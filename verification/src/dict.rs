//! Layered value dictionaries: values keyed by upper-cased names, each tagged
//! with the layer it came from and with whether later layers may replace it.
//! Localization merges the layers (defaults, customer values, module settings,
//! global values) and then expands `${VAR}` references.

use vstd::prelude::*;
use crate::text::{decimal, decimal_chars, string_of};
use orion_variate::vars::{
    OriginDict, OriginValue, UpperKey, ValueDict, ValueType,
};

verus! {

#[verifier::external_type_specification]
#[verifier::external_body]
pub struct ExValueType(ValueType);

#[verifier::external_type_specification]
#[verifier::external_body]
pub struct ExValueDict(ValueDict);

#[verifier::external_type_specification]
#[verifier::external_body]
pub struct ExUpperKey(UpperKey);

#[verifier::external_type_specification]
#[verifier::external_body]
pub struct ExOriginValue(OriginValue);

#[verifier::external_type_specification]
#[verifier::external_body]
pub struct ExOriginDict(OriginDict);

/// A value as plain data: a string as it is, a boolean or a number as
/// it is, a float or an IP address as its display text, an object or a list
/// as its JSON text and its YAML text (`serde_json::to_string`,
/// `serde_yaml::to_string`; empty when that fails).
pub enum PlainValue {
    Str(String),
    Bool(bool),
    Number(u64),
    Float(String),
    Ip(String),
    Obj(String, String),
    List(String, String),
}

/// A plain value as text and numbers.
pub enum PlainView {
    Str(Seq<char>),
    Bool(bool),
    Number(u64),
    Float(Seq<char>),
    Ip(Seq<char>),
    Obj(Seq<char>, Seq<char>),
    List(Seq<char>, Seq<char>),
}

impl View for PlainValue {
    type V = PlainView;

    open spec fn view(&self) -> PlainView {
        match self {
            PlainValue::Str(s) => PlainView::Str(s@),
            PlainValue::Bool(b) => PlainView::Bool(*b),
            PlainValue::Number(n) => PlainView::Number(*n),
            PlainValue::Float(t) => PlainView::Float(t@),
            PlainValue::Ip(t) => PlainView::Ip(t@),
            PlainValue::Obj(j, y) => PlainView::Obj(j@, y@),
            PlainValue::List(j, y) => PlainView::List(j@, y@),
        }
    }
}

/// An entry of a value dictionary: the upper-cased key, the layer it came
/// from, whether later layers may replace it, and its value.
pub type EntryView = (Seq<char>, Option<Seq<char>>, bool, PlainView);

/// What an `OriginDict` holds, in its order.
pub uninterp spec fn origin_entries(d: OriginDict) -> Seq<EntryView>;

/// What a `ValueDict` holds, in its order: each key's text and value.
pub uninterp spec fn value_dict_entries(d: ValueDict) -> Seq<(Seq<char>, PlainView)>;

/// The keys a `ValueDict` holds, in its order.
pub open spec fn value_dict_keys(d: ValueDict) -> Seq<Seq<char>> {
    value_dict_entries(d).map_values(|e: (Seq<char>, PlainView)| e.0)
}

/// An entry without its value: key, layer, mutability.
pub open spec fn entry_shape(e: EntryView) -> (Seq<char>, Option<Seq<char>>, bool) {
    (e.0, e.1, e.2)
}

/// The keys, layers and mutabilities of `s`, in order.
pub open spec fn shape(s: Seq<EntryView>) -> Seq<(Seq<char>, Option<Seq<char>>, bool)> {
    s.map_values(|e: EntryView| entry_shape(e))
}

/// `OriginDict::new`: no entries.
#[verifier::external_body]
pub(crate) fn origin_dict_new() -> (r: OriginDict)
    ensures
        origin_entries(r) == Seq::<EntryView>::empty(),
{
    OriginDict::new()
}

/// `OriginDict::clone` (derived): the same entries in the same order.
#[verifier::external_body]
pub(crate) fn origin_dict_clone(d: &OriginDict) -> (r: OriginDict)
    ensures
        origin_entries(r) == origin_entries(*d),
{
    d.clone()
}

/// `OriginDict::set_source`: every entry without a layer gets `label`; keys
/// stay distinct.
#[verifier::external_body]
pub(crate) fn origin_set_source(d: &mut OriginDict, label: &str)
    ensures
        unique_keys(origin_entries(*final(d))),
        origin_entries(*final(d)) == tagged(origin_entries(*old(d)), label@),
{
    d.set_source(label)
}

/// `OriginDict::merge`: the entries of `other`, in order, each replacing the
/// entry under its key unless that one is immutable, and added last when the
/// key is new; keys stay distinct.
#[verifier::external_body]
pub(crate) fn origin_merge(d: &mut OriginDict, other: &OriginDict)
    ensures
        unique_keys(origin_entries(*final(d))),
        origin_entries(*final(d)) == merge_spec(origin_entries(*old(d)), origin_entries(*other)),
{
    d.merge(other)
}

/// The text holds a `${` reference opening.
pub open spec fn holds_ref(t: Seq<char>) -> bool {
    exists|i: int| 0 <= i < t.len() - 1 && t[i] == '$' && #[trigger] t[i + 1] == '{'
}

/// A value that `${NAME}` expansion can change: a string, object or list
/// whose text holds `${`.
pub open spec fn has_ref(v: PlainView) -> bool {
    match v {
        PlainView::Str(s) => holds_ref(s),
        PlainView::Obj(j, _) => holds_ref(j),
        PlainView::List(j, _) => holds_ref(j),
        _ => false,
    }
}

/// The position of the first `${` in `s`, or -1 when there is none.
pub open spec fn first_ref(s: Seq<char>) -> int
    decreases s.len(),
{
    if s.len() < 2 {
        -1
    } else if s[0] == '$' && s[1] == '{' {
        0
    } else {
        let r = first_ref(s.drop_first());
        if r < 0 {
            -1
        } else {
            r + 1
        }
    }
}

/// The position of the first `c` in `s`, or -1 when there is none.
pub open spec fn first_of(s: Seq<char>, c: char) -> int
    decreases s.len(),
{
    if s.len() == 0 {
        -1
    } else if s[0] == c {
        0
    } else {
        let r = first_of(s.drop_first(), c);
        if r < 0 {
            -1
        } else {
            r + 1
        }
    }
}

/// The first `${` of `s`, when there is one, lies within `s`.
pub proof fn lemma_first_ref_range(s: Seq<char>)
    ensures
        first_ref(s) >= -1,
        first_ref(s) >= 0 ==> first_ref(s) + 2 <= s.len(),
    decreases s.len(),
{
    if s.len() >= 2 && !(s[0] == '$' && s[1] == '{') {
        lemma_first_ref_range(s.drop_first());
    }
}

/// The first `c` of `s`, when there is one, lies within `s`.
pub proof fn lemma_first_of_range(s: Seq<char>, c: char)
    ensures
        first_of(s, c) >= -1,
        first_of(s, c) < s.len(),
    decreases s.len(),
{
    if s.len() > 0 && s[0] != c {
        lemma_first_of_range(s.drop_first(), c);
    }
}

/// The text `s` with its `${NAME}` and `${NAME:default}` references
/// replaced, left to right, by the text `look` gives for `NAME`; an opening
/// `${` without a closing `}` stays as it is. `None` when `look` gives
/// nothing for a referenced name: what such a reference expands to comes
/// from the process environment or the default.
pub open spec fn expand(s: Seq<char>, look: spec_fn(Seq<char>) -> Option<Seq<char>>) -> Option<Seq<char>>
    decreases s.len(),
{
    let p = first_ref(s);
    if p < 0 {
        Some(s)
    } else {
        let rest = s.subrange(p + 2, s.len() as int);
        let q = first_of(rest, '}');
        if q < 0 {
            Some(s)
        } else {
            let content = rest.subrange(0, q);
            let c = first_of(content, ':');
            let name = if c < 0 {
                content
            } else {
                content.subrange(0, c)
            };
            match look(name) {
                None => None,
                Some(v) => {
                    proof {
                        lemma_first_ref_range(s);
                        lemma_first_of_range(rest, '}');
                    }
                    match expand(rest.subrange(q + 1, rest.len() as int), look) {
                        Some(t) => Some(s.subrange(0, p) + v + t),
                        None => None,
                    }
                },
            }
        }
    }
}

/// The text a reference to `n` in the `j`-th value of `r` expands to: the
/// display text of what `env` holds under `n`, else of the value of an
/// earlier entry of `r` under `n`; nothing when neither holds `n`.
pub open spec fn seen_text(env: Seq<(Seq<char>, PlainView)>, r: Seq<EntryView>, j: int, n: Seq<char>) -> Option<
    Seq<char>,
> {
    if exists|m: int| 0 <= m < env.len() && (#[trigger] env[m]).0 == n {
        Some(display_text(env[choose|m: int| 0 <= m < env.len() && (#[trigger] env[m]).0 == n].1))
    } else if exists|m: int| 0 <= m < j && (#[trigger] r[m]).0 == n {
        Some(display_text(r[choose|m: int| 0 <= m < j && (#[trigger] r[m]).0 == n].3))
    } else {
        None
    }
}

/// The string values of `d`, expanded into `r` as `OriginDict::env_eval`
/// does with the values `env`, wherever every referenced name is known.
pub open spec fn strings_expanded(r: Seq<EntryView>, d: Seq<EntryView>, env: Seq<(Seq<char>, PlainView)>) -> bool {
    forall|j: int|
        0 <= j < d.len() ==> match (#[trigger] d[j]).3 {
            PlainView::Str(s) => match expand(s, |n: Seq<char>| seen_text(env, r, j, n)) {
                Some(t) => r[j].3 == PlainView::Str(t),
                None => true,
            },
            _ => true,
        }
}

/// `OriginDict::env_eval`: each value has its `${NAME}` references expanded
/// in order, a name being looked up in `env`, then among the entries
/// already expanded; keys, layers, mutabilities and order stay as they
/// were, and a value that holds no `${` stays as it is. A string whose
/// referenced names are all found so is expanded as `expand` says; what a
/// name found in neither expands to comes from the process environment and
/// is not stated.
#[verifier::external_body]
pub(crate) fn origin_env_eval(d: OriginDict, env: &ValueDict) -> (r: OriginDict)
    ensures
        shape(origin_entries(r)) == shape(origin_entries(d)),
        forall|j: int|
            0 <= j < origin_entries(d).len() && !has_ref(origin_entries(d)[j].3) ==> (
            #[trigger] origin_entries(r)[j]).3 == origin_entries(d)[j].3,
        strings_expanded(origin_entries(r), origin_entries(d), value_dict_entries(*env)),
{
    orion_variate::vars::EnvEvaluable::env_eval(d, env)
}

/// `IndexMap::len` of an `OriginDict`.
#[verifier::external_body]
pub(crate) fn origin_len(d: &OriginDict) -> (n: usize)
    ensures
        n == origin_entries(*d).len(),
{
    d.len()
}

/// `IndexMap::get_index` of an `OriginDict`: the key's text and the value,
/// as plain data, at position `i`.
#[verifier::external_body]
pub(crate) fn origin_entry_at(d: &OriginDict, i: usize) -> (entry: Option<(String, PlainValue)>)
    ensures
        i < origin_entries(*d).len() ==> entry is Some,
        i < origin_entries(*d).len() ==> entry.unwrap().0@ == origin_entries(*d)[i as int].0,
        i < origin_entries(*d).len() ==> entry.unwrap().1@ == origin_entries(*d)[i as int].3,
        i >= origin_entries(*d).len() ==> entry is None,
{
    let (k, v) = d.get_index(i)?;
    Some((k.as_str().to_string(), match v.value() {
        ValueType::String(s) => PlainValue::Str(s.clone()),
        ValueType::Bool(b) => PlainValue::Bool(*b),
        ValueType::Number(n) => PlainValue::Number(*n),
        ValueType::Float(x) => PlainValue::Float(x.to_string()),
        ValueType::Ip(a) => PlainValue::Ip(a.to_string()),
        ValueType::Obj(o) => PlainValue::Obj(serde_json::to_string(o).unwrap_or_default(), serde_yaml::to_string(o).unwrap_or_default()),
        ValueType::List(l) => PlainValue::List(serde_json::to_string(l).unwrap_or_default(), serde_yaml::to_string(l).unwrap_or_default()),
    }))
}

/// `ValueDict::default`: no keys.
#[verifier::external_body]
pub(crate) fn value_dict_empty() -> (r: ValueDict)
    ensures
        value_dict_entries(r) == Seq::<(Seq<char>, PlainView)>::empty(),
{
    ValueDict::default()
}

/// `IndexMap::len` of a `ValueDict`.
#[verifier::external_body]
pub(crate) fn value_dict_len(d: &ValueDict) -> (n: usize)
    ensures
        n == value_dict_entries(*d).len(),
{
    d.len()
}

/// `IndexMap::get_index` of a `ValueDict`: the key's text and the value, as
/// plain data, at position `i`.
#[verifier::external_body]
pub(crate) fn value_dict_entry_at(d: &ValueDict, i: usize) -> (entry: Option<(String, PlainValue)>)
    ensures
        i < value_dict_entries(*d).len() ==> entry is Some,
        i < value_dict_entries(*d).len() ==> entry.unwrap().0@ == value_dict_entries(*d)[i as int].0,
        i < value_dict_entries(*d).len() ==> entry.unwrap().1@ == value_dict_entries(*d)[i as int].1,
        i >= value_dict_entries(*d).len() ==> entry is None,
{
    let (k, v) = d.get_index(i)?;
    Some((k.as_str().to_string(), match v {
        ValueType::String(s) => PlainValue::Str(s.clone()),
        ValueType::Bool(b) => PlainValue::Bool(*b),
        ValueType::Number(n) => PlainValue::Number(*n),
        ValueType::Float(x) => PlainValue::Float(x.to_string()),
        ValueType::Ip(a) => PlainValue::Ip(a.to_string()),
        ValueType::Obj(o) => PlainValue::Obj(serde_json::to_string(o).unwrap_or_default(), serde_yaml::to_string(o).unwrap_or_default()),
        ValueType::List(l) => PlainValue::List(serde_json::to_string(l).unwrap_or_default(), serde_yaml::to_string(l).unwrap_or_default()),
    }))
}

/// The text `ValueType`'s `Display` writes for a value: a string as it is,
/// `true`/`false`, the decimal number, the float's or address's text, and
/// `obj...` / `list...` for objects and lists.
pub open spec fn display_text(v: PlainView) -> Seq<char> {
    match v {
        PlainView::Str(s) => s,
        PlainView::Bool(b) => if b {
            "true"@
        } else {
            "false"@
        },
        PlainView::Number(n) => decimal(n as nat),
        PlainView::Float(t) => t,
        PlainView::Ip(t) => t,
        PlainView::Obj(..) => "obj..."@,
        PlainView::List(..) => "list..."@,
    }
}

impl PlainValue {
    /// The value's display text.
    pub fn display_text(&self) -> (r: String)
        ensures
            r@ == display_text(self@),
    {
        match self {
            PlainValue::Str(s) => s.clone(),
            PlainValue::Bool(b) => if *b {
                "true".to_owned()
            } else {
                "false".to_owned()
            },
            PlainValue::Number(n) => {
                let d = decimal_chars(*n);
                string_of(&d)
            },
            PlainValue::Float(t) => t.clone(),
            PlainValue::Ip(t) => t.clone(),
            PlainValue::Obj(..) => "obj...".to_owned(),
            PlainValue::List(..) => "list...".to_owned(),
        }
    }
}

/// No key occurs twice.
pub open spec fn unique_keys(s: Seq<EntryView>) -> bool {
    forall|i: int, j: int|
        0 <= i < s.len() && 0 <= j < s.len() && i != j ==> (#[trigger] s[i]).0 != (
        #[trigger] s[j]).0
}

/// The entry may be replaced by a later layer.
pub open spec fn replaceable(e: EntryView) -> bool {
    e.2
}

/// `k` is a key of `s`.
pub open spec fn has_key(s: Seq<EntryView>, k: Seq<char>) -> bool {
    exists|i: int| 0 <= i < s.len() && (#[trigger] s[i]).0 == k
}

/// The position of key `k` in `s`.
pub open spec fn key_index(s: Seq<EntryView>, k: Seq<char>) -> int {
    choose|i: int| 0 <= i < s.len() && (#[trigger] s[i]).0 == k
}

/// The entry under `k`, if any.
pub open spec fn lookup(s: Seq<EntryView>, k: Seq<char>) -> Option<EntryView> {
    if has_key(s, k) {
        Some(s[key_index(s, k)])
    } else {
        None
    }
}

/// `IndexMap::insert`: an existing key keeps its place and takes the new
/// entry; a new key goes to the end.
pub open spec fn put(s: Seq<EntryView>, e: EntryView) -> Seq<EntryView> {
    if has_key(s, e.0) {
        s.update(key_index(s, e.0), e)
    } else {
        s.push(e)
    }
}

/// One step of `OriginDict::merge`: the entry replaces the one under its key
/// unless that one is immutable; a new key is added at the end.
pub open spec fn merge_one(s: Seq<EntryView>, e: EntryView) -> Seq<EntryView> {
    if has_key(s, e.0) && !replaceable(s[key_index(s, e.0)]) {
        s
    } else {
        put(s, e)
    }
}

/// `OriginDict::merge`: the entries of `b` merged into `a` in order.
pub open spec fn merge_spec(a: Seq<EntryView>, b: Seq<EntryView>) -> Seq<EntryView>
    decreases b.len(),
{
    if b.len() == 0 {
        a
    } else {
        merge_spec(merge_one(a, b[0]), b.drop_first())
    }
}

/// The entry tagged with layer `label` when it has no layer yet.
pub open spec fn tag_entry(e: EntryView, label: Seq<char>) -> EntryView {
    if e.1 is None {
        (e.0, Some(label), e.2, e.3)
    } else {
        e
    }
}

/// `OriginDict::set_source`: every untagged entry tagged with `label`.
pub open spec fn tagged(s: Seq<EntryView>, label: Seq<char>) -> Seq<EntryView> {
    s.map_values(|e: EntryView| tag_entry(e, label))
}

/// The entry a later layer gives, over the entry an earlier one gave: the
/// earlier one stays when it is immutable or the later has none.
pub open spec fn over(earlier: Option<EntryView>, later: Option<EntryView>) -> Option<EntryView> {
    match earlier {
        Some(x) => if !replaceable(x) {
            earlier
        } else {
            match later {
                Some(_) => later,
                None => earlier,
            }
        },
        None => later,
    }
}

/// The key lookup law of one merge step.
pub proof fn lemma_lookup_merge_one(s: Seq<EntryView>, e: EntryView, k: Seq<char>)
    requires
        unique_keys(s),
    ensures
        unique_keys(merge_one(s, e)),
        lookup(merge_one(s, e), k) == if e.0 != k {
            lookup(s, k)
        } else {
            over(lookup(s, k), Some(e))
        },
{
    let m = merge_one(s, e);
    if has_key(s, e.0) {
        let i = key_index(s, e.0);
        if replaceable(s[i]) {
            assert(m == s.update(i, e));
            assert(unique_keys(m)) by {
                assert forall|p: int, q: int|
                    0 <= p < m.len() && 0 <= q < m.len() && p != q implies (#[trigger] m[p]).0
                    != (#[trigger] m[q]).0 by {
                    if p == i {
                        assert(s[q].0 != s[i].0);
                    } else if q == i {
                        assert(s[p].0 != s[i].0);
                    } else {
                        assert(s[p].0 != s[q].0);
                    }
                }
            }
            if has_key(s, k) {
                let j = key_index(s, k);
                assert(m[j].0 == k);
                assert(has_key(m, k));
                let j2 = key_index(m, k);
                assert(j2 == j) by {
                    if j2 != j {
                        if j2 == i {
                            assert(m[j2].0 == s[i].0);
                        } else {
                            assert(m[j2].0 == s[j2].0);
                        }
                    }
                }
            } else {
                assert(!has_key(m, k)) by {
                    if has_key(m, k) {
                        let j2 = key_index(m, k);
                        if j2 == i {
                            assert(m[j2].0 == s[i].0);
                        } else {
                            assert(m[j2].0 == s[j2].0);
                        }
                    }
                }
            }
        } else {
            assert(m == s);
            if e.0 == k {
                assert(has_key(s, k));
            }
        }
    } else {
        assert(m == s.push(e));
        assert(unique_keys(m)) by {
            assert forall|p: int, q: int|
                0 <= p < m.len() && 0 <= q < m.len() && p != q implies (#[trigger] m[p]).0 != (
                #[trigger] m[q]).0 by {
                if p == s.len() {
                    assert(m[q] == s[q]);
                } else if q == s.len() {
                    assert(m[p] == s[p]);
                } else {
                    assert(m[p] == s[p] && m[q] == s[q]);
                }
            }
        }
        if e.0 == k {
            assert(m[s.len() as int].0 == k);
            assert(has_key(m, k));
            assert(key_index(m, k) == s.len());
        } else if has_key(s, k) {
            let j = key_index(s, k);
            assert(m[j] == s[j]);
            assert(has_key(m, k));
            assert(key_index(m, k) == j);
        } else {
            assert(!has_key(m, k)) by {
                if has_key(m, k) {
                    let j2 = key_index(m, k);
                    if j2 < s.len() {
                        assert(m[j2] == s[j2]);
                    }
                }
            }
        }
    }
}

/// After `b[0]`, the rest of a duplicate-free `b` no longer holds its key.
proof fn lemma_lookup_first(b: Seq<EntryView>, k: Seq<char>)
    requires
        b.len() > 0,
        unique_keys(b),
    ensures
        unique_keys(b.drop_first()),
        b[0].0 == k ==> lookup(b, k) == Some(b[0]) && lookup(b.drop_first(), k) is None,
        b[0].0 != k ==> lookup(b, k) == lookup(b.drop_first(), k),
{
    let r = b.drop_first();
    assert(unique_keys(r)) by {
        assert forall|p: int, q: int|
            0 <= p < r.len() && 0 <= q < r.len() && p != q implies (#[trigger] r[p]).0 != (
            #[trigger] r[q]).0 by {
            assert(r[p] == b[p + 1] && r[q] == b[q + 1]);
        }
    }
    if b[0].0 == k {
        assert(has_key(b, k));
        assert(key_index(b, k) == 0);
        assert(!has_key(r, k)) by {
            if has_key(r, k) {
                let j = key_index(r, k);
                assert(r[j] == b[j + 1]);
            }
        }
    } else {
        if has_key(b, k) {
            let i = key_index(b, k);
            assert(i > 0);
            assert(r[i - 1] == b[i]);
            assert(has_key(r, k));
            let j = key_index(r, k);
            assert(r[j] == b[j + 1]);
            assert(j == i - 1);
        } else {
            assert(!has_key(r, k)) by {
                if has_key(r, k) {
                    let j = key_index(r, k);
                    assert(r[j] == b[j + 1]);
                }
            }
        }
    }
}

/// The merge law: under each key, the merged dictionary holds what `b` holds,
/// unless `a` holds an immutable entry there, or `b` has no such key; keys
/// stay unique.
pub proof fn lemma_lookup_merge(a: Seq<EntryView>, b: Seq<EntryView>, k: Seq<char>)
    requires
        unique_keys(a),
        unique_keys(b),
    ensures
        unique_keys(merge_spec(a, b)),
        lookup(merge_spec(a, b), k) == over(lookup(a, k), lookup(b, k)),
    decreases b.len(),
{
    if b.len() == 0 {
        assert(!has_key(b, k));
    } else {
        lemma_lookup_merge_one(a, b[0], k);
        lemma_lookup_first(b, k);
        lemma_lookup_merge(merge_one(a, b[0]), b.drop_first(), k);
    }
}

/// Tagging keeps keys and tags the entry under each key.
pub proof fn lemma_lookup_tagged(s: Seq<EntryView>, label: Seq<char>, k: Seq<char>)
    requires
        unique_keys(s),
    ensures
        unique_keys(tagged(s, label)),
        lookup(tagged(s, label), k) == match lookup(s, k) {
            Some(e) => Some(tag_entry(e, label)),
            None => None,
        },
{
    let t = tagged(s, label);
    assert(unique_keys(t)) by {
        assert forall|p: int, q: int|
            0 <= p < t.len() && 0 <= q < t.len() && p != q implies (#[trigger] t[p]).0 != (
            #[trigger] t[q]).0 by {
            assert(t[p].0 == s[p].0 && t[q].0 == s[q].0);
        }
    }
    if has_key(s, k) {
        let i = key_index(s, k);
        assert(t[i].0 == k);
        assert(has_key(t, k));
        let j = key_index(t, k);
        assert(t[j].0 == s[j].0);
        assert(j == i);
    } else {
        assert(!has_key(t, k)) by {
            if has_key(t, k) {
                let j = key_index(t, k);
                assert(t[j].0 == s[j].0);
            }
        }
    }
}

/// The layers of a localization merged in order: module defaults, the
/// customer's values when there are any, the module's settings, then the
/// global values; each layer's untagged entries are tagged with its name.
pub open spec fn layered(
    defaults: Seq<EntryView>,
    cust: Option<Seq<EntryView>>,
    mod_setting: Seq<EntryView>,
    global: Seq<EntryView>,
) -> Seq<EntryView> {
    let u0 = merge_spec(Seq::empty(), tagged(defaults, "mod-default"@));
    let u1 = match cust {
        Some(c) => merge_spec(u0, tagged(c, "mod-cust"@)),
        None => u0,
    };
    let u2 = merge_spec(u1, tagged(mod_setting, "mod-setting"@));
    merge_spec(u2, tagged(global, "global"@))
}

/// `d` is `expected` with its `${NAME}` references expanded: the same keys,
/// layers and mutabilities in the same order, the same value wherever the
/// expected one holds no `${`, and each string whose references all name
/// earlier entries expanded with their values.
pub open spec fn localized_as(d: Seq<EntryView>, expected: Seq<EntryView>) -> bool {
    &&& shape(d) == shape(expected)
    &&& forall|j: int|
        0 <= j < expected.len() && !has_ref(expected[j].3) ==> (#[trigger] d[j]).3 == expected[j].3
    &&& strings_expanded(d, expected, Seq::empty())
}

/// The entries of an optional dictionary.
pub open spec fn opt_entries(d: Option<&OriginDict>) -> Option<Seq<EntryView>> {
    match d {
        Some(x) => Some(origin_entries(*x)),
        None => None,
    }
}

/// The values a module is localized with: its defaults, overridden by the
/// customer's values (when given), then by the module's settings, then by the
/// global values, with immutable entries never overridden; then `${NAME}`
/// references expanded. Keys, layers and mutabilities are exactly those of
/// `layered`, and so is every value that holds no `${`; a reference to an
/// earlier entry takes that entry's expanded value, and what any other
/// reference expands to depends on the process environment.
pub fn mix_used_value(
    global: &OriginDict,
    defaults: &OriginDict,
    cust: Option<&OriginDict>,
    mod_setting: &OriginDict,
) -> (r: OriginDict)
    ensures
        localized_as(
            origin_entries(r),
            layered(
                origin_entries(*defaults),
                opt_entries(cust),
                origin_entries(*mod_setting),
                origin_entries(*global),
            ),
        ),
{
    let mut used = origin_dict_new();
    let mut default = origin_dict_clone(defaults);
    origin_set_source(&mut default, "mod-default");
    origin_merge(&mut used, &default);
    match cust {
        Some(c) => {
            let mut user = origin_dict_clone(c);
            origin_set_source(&mut user, "mod-cust");
            origin_merge(&mut used, &user);
        },
        None => {},
    }
    let mut module = origin_dict_clone(mod_setting);
    origin_set_source(&mut module, "mod-setting");
    let mut glob = origin_dict_clone(global);
    origin_set_source(&mut glob, "global");
    origin_merge(&mut used, &module);
    origin_merge(&mut used, &glob);
    let env = value_dict_empty();
    let ghost before = origin_entries(used);
    let r = origin_env_eval(used, &env);
    assert(shape(origin_entries(r)).len() == shape(before).len());
    r
}

/// The precedence law of localization values: under each key the merged
/// layers hold the entry of the last layer that has the key (global over
/// module settings over customer values over defaults), except that once an
/// earlier layer holds the key immutably, that entry stays.
pub proof fn lemma_layer_precedence(
    defaults: Seq<EntryView>,
    cust: Option<Seq<EntryView>>,
    mod_setting: Seq<EntryView>,
    global: Seq<EntryView>,
    k: Seq<char>,
)
    requires
        unique_keys(defaults),
        unique_keys(mod_setting),
        unique_keys(global),
        cust matches Some(c) ==> unique_keys(c),
    ensures
        unique_keys(layered(defaults, cust, mod_setting, global)),
        lookup(layered(defaults, cust, mod_setting, global), k) == over(
            over(
                match cust {
                    Some(c) => over(
                        lookup(tagged(defaults, "mod-default"@), k),
                        lookup(tagged(c, "mod-cust"@), k),
                    ),
                    None => lookup(tagged(defaults, "mod-default"@), k),
                },
                lookup(tagged(mod_setting, "mod-setting"@), k),
            ),
            lookup(tagged(global, "global"@), k),
        ),
{
    let e = Seq::<EntryView>::empty();
    assert(unique_keys(e));
    assert(!has_key(e, k));
    let td = tagged(defaults, "mod-default"@);
    let tm = tagged(mod_setting, "mod-setting"@);
    let tg = tagged(global, "global"@);
    lemma_lookup_tagged(defaults, "mod-default"@, k);
    lemma_lookup_tagged(mod_setting, "mod-setting"@, k);
    lemma_lookup_tagged(global, "global"@, k);
    lemma_lookup_merge(e, td, k);
    let u0 = merge_spec(e, td);
    let u1 = match cust {
        Some(c) => merge_spec(u0, tagged(c, "mod-cust"@)),
        None => u0,
    };
    match cust {
        Some(c) => {
            lemma_lookup_tagged(c, "mod-cust"@, k);
            lemma_lookup_merge(u0, tagged(c, "mod-cust"@), k);
        },
        None => {},
    }
    lemma_lookup_merge(u1, tm, k);
    lemma_lookup_merge(merge_spec(u1, tm), tg, k);
}

} // verus!
