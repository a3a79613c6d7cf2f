//! Export of localized values as a dotenv file (`KEY=VALUE` lines) for tools
//! that read `${VAR}`, such as docker compose.

use vstd::prelude::*;
use crate::text::{append_chars, chars_of, string_of};
use crate::dict::{display_text, origin_entries, origin_entry_at, origin_len, EntryView, PlainValue, PlainView};
use orion_variate::vars::OriginDict;

verus! {

/// A value as the dotenv export sees it.
pub enum EnvValue {
    /// A string value.
    Text(String),
    /// An object or a list, given as its JSON text.
    Structured(String),
    /// Any other value, given as its display text.
    Scalar(String),
}

/// Characters a dotenv value may hold without quotes.
pub open spec fn safe_char(c: char) -> bool {
    ('a' <= c && c <= 'z') || ('A' <= c && c <= 'Z') || ('0' <= c && c <= '9') || c == '_'
        || c == '.' || c == ':' || c == '/' || c == '@' || c == '+' || c == '-'
}

/// A string value must be quoted: it is empty or holds another character.
pub open spec fn needs_quote(s: Seq<char>) -> bool {
    s.len() == 0 || exists|i: int| 0 <= i < s.len() && !safe_char(#[trigger] s[i])
}

/// The escape of one character inside double quotes.
pub open spec fn escape_char(c: char) -> Seq<char> {
    if c == '\\' {
        seq!['\\', '\\']
    } else if c == '"' {
        seq!['\\', '"']
    } else if c == '\n' {
        seq!['\\', 'n']
    } else {
        seq![c]
    }
}

/// Backslashes, double quotes and line feeds escaped with a backslash.
pub open spec fn escape(s: Seq<char>) -> Seq<char>
    decreases s.len(),
{
    if s.len() == 0 {
        seq![]
    } else {
        escape(s.drop_last()) + escape_char(s.last())
    }
}

/// A value in double quotes, escaped.
pub open spec fn quoted(s: Seq<char>) -> Seq<char> {
    seq!['"'] + escape(s) + seq!['"']
}

/// The text a value takes after `=`.
pub open spec fn env_value_text(v: EnvValue) -> Seq<char> {
    match v {
        EnvValue::Text(s) => if needs_quote(s@) {
            quoted(s@)
        } else {
            s@
        },
        EnvValue::Structured(j) => quoted(j@),
        EnvValue::Scalar(t) => t@,
    }
}

/// One `KEY=VALUE` line.
pub open spec fn env_line(key: Seq<char>, v: EnvValue) -> Seq<char> {
    key + seq!['='] + env_value_text(v) + seq!['\n']
}

/// The dotenv text of the entries, one line each, in order.
pub open spec fn env_text(entries: Seq<(String, EnvValue)>) -> Seq<char>
    decreases entries.len(),
{
    if entries.len() == 0 {
        seq![]
    } else {
        env_text(entries.drop_last()) + env_line(entries.last().0@, entries.last().1)
    }
}

/// The unescaping a dotenv reader applies inside double quotes.
pub open spec fn unescape(s: Seq<char>) -> Seq<char>
    decreases s.len(),
{
    if s.len() == 0 {
        seq![]
    } else if s[0] == '\\' && s.len() >= 2 {
        (if s[1] == 'n' {
            seq!['\n']
        } else {
            seq![s[1]]
        }) + unescape(s.subrange(2, s.len() as int))
    } else {
        seq![s[0]] + unescape(s.drop_first())
    }
}

proof fn lemma_unescape_concat(a: Seq<char>, c: char)
    ensures
        unescape(escape(a) + escape_char(c)) == unescape(escape(a)) + seq![c],
    decreases a.len(),
{
    if a.len() == 0 {
        assert(escape(a) =~= Seq::<char>::empty());
        assert(escape(a) + escape_char(c) =~= escape_char(c));
        let e = escape_char(c);
        if e.len() == 2 {
            assert(e.subrange(2, 2) =~= Seq::<char>::empty());
        } else {
            assert(e.drop_first() =~= Seq::<char>::empty());
        }
    } else {
        lemma_escape_split(a);
        let h = escape_char(a[0]);
        let t = a.drop_first();
        lemma_unescape_concat(t, c);
        assert(escape(a) + escape_char(c) =~= h + (escape(t) + escape_char(c)));
        lemma_unescape_head(a[0], escape(t) + escape_char(c));
        lemma_unescape_head(a[0], escape(t));
        assert(unescape(escape(a)) =~= seq![a[0]] + unescape(escape(t)));
        assert(escape(a) =~= h + escape(t));
    }
}

proof fn lemma_unescape_head(c: char, rest: Seq<char>)
    ensures
        unescape(escape_char(c) + rest) == seq![c] + unescape(rest),
{
    let e = escape_char(c) + rest;
    if c == '\\' || c == '"' || c == '\n' {
        assert(e.subrange(2, e.len() as int) =~= rest);
    } else {
        assert(e.drop_first() =~= rest);
    }
}

proof fn lemma_escape_split(a: Seq<char>)
    requires
        a.len() > 0,
    ensures
        escape(a) == escape_char(a[0]) + escape(a.drop_first()),
    decreases a.len(),
{
    if a.len() == 1 {
        assert(a.drop_last() =~= Seq::<char>::empty());
        assert(a.drop_first() =~= Seq::<char>::empty());
        assert(escape(a.drop_first()) =~= Seq::<char>::empty());
        assert(escape(a) =~= escape_char(a[0]));
    } else {
        lemma_escape_split(a.drop_last());
        assert(a.drop_last().drop_first() =~= a.drop_first().drop_last());
        assert(a.drop_first().last() == a.last());
        assert(escape(a) =~= escape_char(a[0]) + escape(a.drop_first()));
    }
}

/// Escaping loses nothing: unescaping the escaped text gives the value back.
pub proof fn lemma_unescape_escape(s: Seq<char>)
    ensures
        unescape(escape(s)) == s,
    decreases s.len(),
{
    if s.len() > 0 {
        lemma_unescape_escape(s.drop_last());
        lemma_unescape_concat(s.drop_last(), s.last());
        assert(s.drop_last().push(s.last()) =~= s);
    } else {
        assert(escape(s) =~= Seq::<char>::empty());
    }
}

/// Whether a string value has to be quoted in a dotenv file.
pub fn needs_env_quote(s: &str) -> (r: bool)
    ensures
        r == needs_quote(s@),
{
    let cs = chars_of(s);
    if cs.len() == 0 {
        return true;
    }
    let mut i: usize = 0;
    while i < cs.len()
        invariant
            i <= cs.len(),
            cs@ == s@,
            forall|j: int| 0 <= j < i ==> safe_char(#[trigger] cs@[j]),
        decreases cs.len() - i,
    {
        let c = cs[i];
        let safe = ('a' <= c && c <= 'z') || ('A' <= c && c <= 'Z') || ('0' <= c && c <= '9')
            || c == '_' || c == '.' || c == ':' || c == '/' || c == '@' || c == '+' || c == '-';
        if !safe {
            assert(!safe_char(cs@[i as int]));
            return true;
        }
        i = i + 1;
    }
    false
}

/// The value in double quotes with backslashes, double quotes and line
/// feeds escaped.
pub fn quote_env(s: &str) -> (r: String)
    ensures
        r@ == quoted(s@),
{
    let cs = chars_of(s);
    let mut out: Vec<char> = Vec::new();
    out.push('"');
    let mut i: usize = 0;
    while i < cs.len()
        invariant
            i <= cs.len(),
            cs@ == s@,
            out@ == seq!['"'] + escape(cs@.subrange(0, i as int)),
        decreases cs.len() - i,
    {
        let c = cs[i];
        if c == '\\' {
            out.push('\\');
            out.push('\\');
        } else if c == '"' {
            out.push('\\');
            out.push('"');
        } else if c == '\n' {
            out.push('\\');
            out.push('n');
        } else {
            out.push(c);
        }
        proof {
            let p = cs@.subrange(0, i + 1 as int);
            assert(p.drop_last() =~= cs@.subrange(0, i as int));
            assert(p.last() == c);
        }
        i = i + 1;
        assert(out@ =~= seq!['"'] + escape(cs@.subrange(0, i as int)));
    }
    out.push('"');
    assert(cs@.subrange(0, cs.len() as int) =~= cs@);
    assert(out@ =~= quoted(s@));
    string_of(&out)
}

/// The text of a value after `=`: a string as it is when every character is
/// safe, else quoted; an object or list quoted; anything else as displayed.
pub fn format_env_value(v: &EnvValue) -> (r: String)
    ensures
        r@ == env_value_text(*v),
{
    match v {
        EnvValue::Text(s) => if needs_env_quote(s.as_str()) {
            quote_env(s.as_str())
        } else {
            s.clone()
        },
        EnvValue::Structured(j) => quote_env(j.as_str()),
        EnvValue::Scalar(t) => t.clone(),
    }
}

/// The dotenv text of the entries: one `KEY=VALUE` line each, in order.
pub fn env_file_content(entries: &Vec<(String, EnvValue)>) -> (r: String)
    ensures
        r@ == env_text(entries@),
{
    let mut out: Vec<char> = Vec::new();
    let mut i: usize = 0;
    while i < entries.len()
        invariant
            i <= entries.len(),
            out@ == env_text(entries@.subrange(0, i as int)),
        decreases entries.len() - i,
    {
        let k = chars_of(entries[i].0.as_str());
        let v = format_env_value(&entries[i].1);
        let vc = chars_of(v.as_str());
        append_chars(&mut out, &k);
        out.push('=');
        append_chars(&mut out, &vc);
        out.push('\n');
        proof {
            let p = entries@.subrange(0, i + 1 as int);
            assert(p.drop_last() =~= entries@.subrange(0, i as int));
            assert(p.last() == entries@[i as int]);
        }
        i = i + 1;
        assert(out@ =~= env_text(entries@.subrange(0, i as int)));
    }
    assert(entries@.subrange(0, entries.len() as int) =~= entries@);
    string_of(&out)
}

/// The text a dictionary value takes after `=`: a string as it is when every
/// character is safe, else quoted; an object or a list as its JSON text,
/// quoted; anything else as displayed.
pub open spec fn plain_env_text(v: PlainView) -> Seq<char> {
    match v {
        PlainView::Str(s) => if needs_quote(s) {
            quoted(s)
        } else {
            s
        },
        PlainView::Obj(j, _) => quoted(j),
        PlainView::List(j, _) => quoted(j),
        _ => display_text(v),
    }
}

/// What a dotenv reader takes a value text for: the unescaped inside of a
/// double-quoted text, any other text as it is.
pub open spec fn dotenv_read(t: Seq<char>) -> Seq<char> {
    if t.len() >= 2 && t[0] == '"' && t.last() == '"' {
        unescape(t.subrange(1, t.len() - 1))
    } else {
        t
    }
}

/// The export reads back: a string value reads back as itself, and an
/// object or a list as its JSON text (`serde_json`), whatever its YAML text.
pub proof fn lemma_export_reads_back(v: PlainView)
    requires
        v is Str || v is Obj || v is List,
    ensures
        dotenv_read(plain_env_text(v)) == match v {
            PlainView::Str(s) => s,
            PlainView::Obj(j, _) => j,
            PlainView::List(j, _) => j,
            _ => Seq::<char>::empty(),
        },
{
    let inner = match v {
        PlainView::Str(s) => s,
        PlainView::Obj(j, _) => j,
        PlainView::List(j, _) => j,
        _ => Seq::<char>::empty(),
    };
    let t = plain_env_text(v);
    if t == quoted(inner) {
        lemma_unescape_escape(inner);
        assert(t.subrange(1, t.len() - 1) =~= escape(inner));
    } else {
        assert(v is Str && !needs_quote(inner));
        if t.len() >= 2 && t[0] == '"' {
            assert(!safe_char(inner[0]));
        }
    }
}

/// A simple string (not empty, only letters, digits and `_.:/@+-`) is
/// written bare; any other string is written in double quotes, so that a
/// space, `#`, `$`, a quote or a line feed never reaches the file bare.
pub proof fn lemma_string_quoting(s: Seq<char>)
    ensures
        (s.len() > 0 && forall|i: int| 0 <= i < s.len() ==> safe_char(#[trigger] s[i])) ==> plain_env_text(
            PlainView::Str(s),
        ) == s,
        !(s.len() > 0 && forall|i: int| 0 <= i < s.len() ==> safe_char(#[trigger] s[i])) ==> {
            let t = plain_env_text(PlainView::Str(s));
            t.len() >= 2 && t[0] == '"' && t.last() == '"'
        },
{
}

/// The dotenv text of dictionary entries: one `KEY=VALUE` line each, in order.
pub open spec fn dict_env_text(s: Seq<EntryView>) -> Seq<char>
    decreases s.len(),
{
    if s.len() == 0 {
        seq![]
    } else {
        dict_env_text(s.drop_last()) + s.last().0 + seq!['='] + plain_env_text(s.last().3) + seq![
            '\n',
        ]
    }
}

/// A dictionary value as the dotenv export sees it: a string as text, an
/// object or a list as its JSON text, anything else as its display text.
pub fn env_value_of(v: &PlainValue) -> (r: EnvValue)
    ensures
        env_value_text(r) == plain_env_text(v@),
{
    match v {
        PlainValue::Str(s) => EnvValue::Text(s.clone()),
        PlainValue::Obj(j, _) => EnvValue::Structured(j.clone()),
        PlainValue::List(j, _) => EnvValue::Structured(j.clone()),
        _ => EnvValue::Scalar(v.display_text()),
    }
}

/// The entries of a value dictionary as the dotenv export sees them: the
/// upper-cased keys in the dictionary's order, each with its value.
pub fn env_entries(dict: &OriginDict) -> (r: Vec<(String, EnvValue)>)
    ensures
        r@.len() == origin_entries(*dict).len(),
        forall|j: int|
            0 <= j < r@.len() ==> (#[trigger] r@[j]).0@ == origin_entries(*dict)[j].0
                && env_value_text(r@[j].1) == plain_env_text(origin_entries(*dict)[j].3),
{
    let n = origin_len(dict);
    let mut r: Vec<(String, EnvValue)> = Vec::new();
    let mut i: usize = 0;
    while i < n
        invariant
            n == origin_entries(*dict).len(),
            i <= n,
            r@.len() == i,
            forall|j: int|
                0 <= j < i ==> (#[trigger] r@[j]).0@ == origin_entries(*dict)[j].0
                    && env_value_text(r@[j].1) == plain_env_text(origin_entries(*dict)[j].3),
        decreases n - i,
    {
        match origin_entry_at(dict, i) {
            Some((k, v)) => {
                let e = env_value_of(&v);
                r.push((k, e));
            },
            None => {},
        }
        i = i + 1;
    }
    r
}

/// The dotenv text of entries equals that of dictionary entries with the
/// same keys and value texts.
proof fn lemma_env_text_of_entries(es: Seq<(String, EnvValue)>, s: Seq<EntryView>)
    requires
        es.len() == s.len(),
        forall|j: int|
            0 <= j < es.len() ==> (#[trigger] es[j]).0@ == s[j].0 && env_value_text(es[j].1)
                == plain_env_text(s[j].3),
    ensures
        env_text(es) == dict_env_text(s),
    decreases es.len(),
{
    if es.len() > 0 {
        let a = es.drop_last();
        let b = s.drop_last();
        assert forall|j: int| 0 <= j < a.len() implies (#[trigger] a[j]).0@ == b[j].0
            && env_value_text(a[j].1) == plain_env_text(b[j].3) by {
            assert(a[j] == es[j]);
            assert(b[j] == s[j]);
        }
        lemma_env_text_of_entries(a, b);
        assert(es.last() == es[es.len() - 1]);
    }
}

/// The dotenv text of a value dictionary: one `KEY=VALUE` line per key, in the
/// dictionary's order, each value formatted as `format_env_value` does.
pub fn env_file_text(dict: &OriginDict) -> (r: String)
    ensures
        r@ == dict_env_text(origin_entries(*dict)),
{
    let es = env_entries(dict);
    proof {
        lemma_env_text_of_entries(es@, origin_entries(*dict));
    }
    env_file_content(&es)
}

} // verus!
