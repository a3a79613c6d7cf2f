//! Value files: telling an override file that holds values from one that holds
//! only comments, and writing the commented reference template for a system.

use vstd::prelude::*;
use crate::text::{
    first_nl, lemma_first_nl_bounds, lemma_first_nl_concat,
    append_chars, char_rows, chars_of, commented, lemma_lines_commented, lemma_lines_no_nl,
    lemma_trim_hash, lines, no_nl, split_lines, string_of, strip_cr, trim, trim_chars,
};

verus! {

/// A line carries a value: after trimming it is not empty, not a comment,
/// and not a YAML document marker (`---` or `...`).
pub open spec fn line_has_content(l: Seq<char>) -> bool {
    let t = trim(l);
    t.len() > 0 && t[0] != '#' && t != seq!['-', '-', '-'] && t != seq!['.', '.', '.']
}

/// Some line of the text carries a value.
pub open spec fn has_content(text: Seq<char>) -> bool {
    exists|k: int| 0 <= k < lines(text).len() && line_has_content(#[trigger] lines(text)[k])
}

/// A value file has to be parsed exactly when one of its lines holds a
/// value: a line that, trimmed, is not empty, does not start with `#` and is
/// neither `---` nor `...`. Any such line counts, wherever it stands.
pub proof fn lemma_content_line(text: Seq<char>, k: int)
    requires
        0 <= k < lines(text).len(),
        trim(lines(text)[k]).len() > 0,
        trim(lines(text)[k])[0] != '#',
        trim(lines(text)[k]) != seq!['-', '-', '-'],
        trim(lines(text)[k]) != seq!['.', '.', '.'],
    ensures
        has_content(text),
{
    assert(line_has_content(lines(text)[k]));
}

/// A file whose every line, trimmed, is empty, a `#` comment, `---` or `...`
/// has nothing to parse: it is an empty override.
pub proof fn lemma_no_content_lines(text: Seq<char>)
    requires
        forall|k: int|
            0 <= k < lines(text).len() ==> {
                let t = #[trigger] trim(lines(text)[k]);
                t.len() == 0 || t[0] == '#' || t == seq!['-', '-', '-'] || t == seq!['.', '.', '.']
            },
    ensures
        !has_content(text),
{
    assert forall|k: int| 0 <= k < lines(text).len() implies !line_has_content(#[trigger] lines(text)[k]) by {
        let t = trim(lines(text)[k]);
        assert(t.len() == 0 || t[0] == '#' || t == seq!['-', '-', '-'] || t == seq!['.', '.', '.']);
    }
}

/// An empty file has no content, and a file of one line without a line
/// feed has content exactly when that line holds a value (trimmed, not
/// empty, not a `#` comment, neither `---` nor `...`).
pub proof fn lemma_content_one_line(x: Seq<char>)
    requires
        no_nl(x),
    ensures
        x.len() == 0 ==> !has_content(x),
        x.len() > 0 ==> has_content(x) == ({
            let l = trim(x);
            l.len() > 0 && l[0] != '#' && l != seq!['-', '-', '-'] && l != seq!['.', '.', '.']
        }),
{
    if x.len() > 0 {
        lemma_first_nl_bounds(x);
        if first_nl(x) < x.len() {
            assert(x[first_nl(x)] != '\n');
        }
        assert(lines(x) =~= seq![x]);
        if has_content(x) {
            let k = choose|k: int| 0 <= k < lines(x).len() && line_has_content(#[trigger] lines(x)[k]);
            assert(k == 0);
        }
        if line_has_content(x) {
            assert(lines(x)[0] == x);
        }
    }
}

/// A line written before a value file's text: the file then has content
/// exactly when that line holds a value (trimmed, not empty, not a `#`
/// comment, neither `---` nor `...`; a carriage return before the line feed
/// does not count) or the rest of the file has content.
pub proof fn lemma_content_after_line(x: Seq<char>, t: Seq<char>)
    requires
        no_nl(x),
    ensures
        has_content(x + seq!['\n'] + t) == ({
            let l = trim(strip_cr(x));
            l.len() > 0 && l[0] != '#' && l != seq!['-', '-', '-'] && l != seq!['.', '.', '.']
        } || has_content(t)),
{
    let s = x + seq!['\n'] + t;
    assert(s =~= x + (seq!['\n'] + t));
    lemma_first_nl_concat(x, seq!['\n'] + t);
    assert(first_nl(s) == x.len());
    assert(s.subrange(0, x.len() as int) =~= x);
    assert(s.subrange(x.len() + 1 as int, s.len() as int) =~= t);
    assert(lines(s) =~= seq![strip_cr(x)] + lines(t));
    if has_content(t) {
        let k = choose|k: int| 0 <= k < lines(t).len() && line_has_content(#[trigger] lines(t)[k]);
        assert(lines(s)[k + 1] == lines(t)[k]);
    }
    if line_has_content(strip_cr(x)) {
        assert(lines(s)[0] == strip_cr(x));
    }
    if has_content(s) {
        let k = choose|k: int| 0 <= k < lines(s).len() && line_has_content(#[trigger] lines(s)[k]);
        if k > 0 {
            assert(lines(s)[k] == lines(t)[k - 1]);
        }
    }
}

/// Whether a value file's text has to be parsed: a file made only of comments,
/// blank lines and document markers stands for an empty override.
pub fn value_text_has_content(text: &str) -> (b: bool)
    ensures
        b == has_content(text@),
{
    let chars = chars_of(text);
    let rows = split_lines(&chars);
    let mut k: usize = 0;
    while k < rows.len()
        invariant
            k <= rows.len(),
            char_rows(rows@) == lines(text@),
            forall|j: int| 0 <= j < k ==> !line_has_content(#[trigger] lines(text@)[j]),
        decreases rows.len() - k,
    {
        let t = trim_chars(&rows[k]);
        assert(t@ == trim(lines(text@)[k as int]));
        let dashes = t.len() == 3 && t[0] == '-' && t[1] == '-' && t[2] == '-';
        let dots = t.len() == 3 && t[0] == '.' && t[1] == '.' && t[2] == '.';
        assert(dashes == (t@ == seq!['-', '-', '-'])) by {
            if t@.len() == 3 && t@[0] == '-' && t@[1] == '-' && t@[2] == '-' {
                assert(t@ =~= seq!['-', '-', '-']);
            }
        }
        assert(dots == (t@ == seq!['.', '.', '.'])) by {
            if t@.len() == 3 && t@[0] == '.' && t@[1] == '.' && t@[2] == '.' {
                assert(t@ =~= seq!['.', '.', '.']);
            }
        }
        if t.len() > 0 && t[0] != '#' && !dashes && !dots {
            assert(line_has_content(lines(text@)[k as int]));
            return true;
        }
        k = k + 1;
    }
    false
}

/// First part of the template's first line, before the variables file.
pub open spec fn header_lead() -> Seq<char> {
    seq![' ', '系', '统', '变', '量', '参', '考', '（', '默', '认', '值', '来', '自', ' ']
}

/// End of the template's first line, after the variables file.
pub open spec fn header_tail() -> Seq<char> {
    seq!['）', '。']
}

/// The template's second line, after its `'#'`.
pub open spec fn header_hint() -> Seq<char> {
    seq![
        ' ', '只', '取', '消', '注', '释', '需', '要', '覆', '盖', '的', '项', '并', '修', '改',
        '数', '值', '，', '其', '余', '取', '默', '认', '值', '。',
    ]
}

/// The non-blank lines of the defaults, each behind a space.
pub open spec fn body_rests(ls: Seq<Seq<char>>) -> Seq<Seq<char>>
    decreases ls.len(),
{
    if ls.len() == 0 {
        seq![]
    } else if trim(ls[0]).len() == 0 {
        body_rests(ls.drop_first())
    } else {
        seq![seq![' '] + ls[0]] + body_rests(ls.drop_first())
    }
}

/// The lines of the reference template, each without its leading `'#'`.
pub open spec fn reference_rests(vars_file: Seq<char>, defaults_yaml: Option<Seq<char>>) -> Seq<
    Seq<char>,
> {
    let head = seq![header_lead() + vars_file + header_tail(), header_hint()];
    match defaults_yaml {
        None => head,
        Some(body) => head + body_rests(lines(body)),
    }
}

/// The reference template: every line a comment.
pub open spec fn reference_text(vars_file: Seq<char>, defaults_yaml: Option<Seq<char>>) -> Seq<
    char,
> {
    commented(reference_rests(vars_file, defaults_yaml))
}

proof fn lemma_commented_push(ls: Seq<Seq<char>>, x: Seq<char>)
    ensures
        commented(ls.push(x)) == commented(ls) + (seq!['#'] + x + seq!['\n']),
    decreases ls.len(),
{
    if ls.len() == 0 {
        assert(ls.push(x).drop_first() =~= Seq::<Seq<char>>::empty());
        assert(commented(Seq::<Seq<char>>::empty()) == Seq::<char>::empty());
        assert(commented(ls) == Seq::<char>::empty());
        assert(commented(ls.push(x)) =~= seq!['#'] + x + seq!['\n']);
    } else {
        assert(ls.push(x).drop_first() =~= ls.drop_first().push(x));
        lemma_commented_push(ls.drop_first(), x);
        assert(commented(ls.push(x)) =~= commented(ls) + (seq!['#'] + x + seq!['\n']));
    }
}

proof fn lemma_body_rests_step(ls: Seq<Seq<char>>, k: int)
    requires
        0 <= k < ls.len(),
    ensures
        body_rests(ls.subrange(k, ls.len() as int)) == if trim(ls[k]).len() == 0 {
            body_rests(ls.subrange(k + 1, ls.len() as int))
        } else {
            seq![seq![' '] + ls[k]] + body_rests(ls.subrange(k + 1, ls.len() as int))
        },
{
    let t = ls.subrange(k, ls.len() as int);
    assert(t.drop_first() =~= ls.subrange(k + 1, ls.len() as int));
    assert(t[0] == ls[k]);
    assert(t.len() > 0);
    if trim(t[0]).len() == 0 {
        assert(body_rests(t) == body_rests(t.drop_first()));
    } else {
        assert(body_rests(t) == seq![seq![' '] + t[0]] + body_rests(t.drop_first()));
    }
}

/// Every element of `body_rests` is free of line feeds when the lines are.
proof fn lemma_body_rests_no_nl(ls: Seq<Seq<char>>)
    requires
        forall|k: int| 0 <= k < ls.len() ==> no_nl(#[trigger] ls[k]),
    ensures
        forall|k: int| 0 <= k < body_rests(ls).len() ==> no_nl(#[trigger] body_rests(ls)[k]),
    decreases ls.len(),
{
    if ls.len() > 0 {
        assert forall|k: int| 0 <= k < ls.drop_first().len() implies no_nl(
            #[trigger] ls.drop_first()[k],
        ) by {
            assert(ls.drop_first()[k] == ls[k + 1]);
        }
        lemma_body_rests_no_nl(ls.drop_first());
        if trim(ls[0]).len() != 0 {
            let h = seq![' '] + ls[0];
            assert(no_nl(h)) by {
                assert forall|j: int| 0 <= j < h.len() implies h[j] != '\n' by {
                    if j > 0 {
                        assert(h[j] == ls[0][j - 1]);
                    }
                }
            }
            assert forall|k: int| 0 <= k < body_rests(ls).len() implies no_nl(
                #[trigger] body_rests(ls)[k],
            ) by {
                if k > 0 {
                    assert(body_rests(ls)[k] == body_rests(ls.drop_first())[k - 1]);
                }
            }
        } else {
            assert(body_rests(ls) == body_rests(ls.drop_first()));
        }
    }
}

/// A comment block is inert: when no element holds a line feed, no line of
/// the block carries a value.
pub proof fn lemma_commented_inert(ls: Seq<Seq<char>>)
    requires
        forall|k: int| 0 <= k < ls.len() ==> no_nl(#[trigger] ls[k]),
    ensures
        !has_content(commented(ls)),
{
    lemma_lines_commented(ls);
    let text = commented(ls);
    assert forall|k: int| 0 <= k < lines(text).len() implies !line_has_content(
        #[trigger] lines(text)[k],
    ) by {
        let l = seq!['#'] + ls[k];
        assert(l[0] == '#');
        let sl = strip_cr(l);
        assert(sl.len() > 0 && sl[0] == '#');
        lemma_trim_hash(sl);
    }
}

/// The reference template is inert: loaded as a value file it holds no value,
/// whatever the defaults, as long as the variables file's name holds no line
/// feed.
pub proof fn lemma_reference_inert(vars_file: Seq<char>, defaults_yaml: Option<Seq<char>>)
    requires
        no_nl(vars_file),
    ensures
        !has_content(reference_text(vars_file, defaults_yaml)),
{
    let head0 = header_lead() + vars_file + header_tail();
    assert(no_nl(head0)) by {
        assert forall|j: int| 0 <= j < head0.len() implies head0[j] != '\n' by {
            if j < header_lead().len() {
            } else if j < header_lead().len() + vars_file.len() {
                assert(head0[j] == vars_file[j - header_lead().len()]);
            } else {
            }
        }
    }
    assert(no_nl(header_hint()));
    let rs = reference_rests(vars_file, defaults_yaml);
    match defaults_yaml {
        None => {},
        Some(body) => {
            lemma_lines_no_nl(body);
            lemma_body_rests_no_nl(lines(body));
            let b = body_rests(lines(body));
            assert forall|k: int| 2 <= k < rs.len() implies no_nl(#[trigger] rs[k]) by {
                assert(rs[k] == b[k - 2]);
            }
        },
    }
    assert forall|k: int| 0 <= k < rs.len() implies no_nl(#[trigger] rs[k]) by {
        if k == 0 {
            assert(rs[k] == head0);
        } else if k == 1 {
            assert(rs[k] == header_hint());
        }
    }
    lemma_commented_inert(rs);
}

fn push_comment_line(out: &mut Vec<char>, rest: &Vec<char>, Ghost(done): Ghost<Seq<Seq<char>>>)
    requires
        old(out)@ == commented(done),
    ensures
        final(out)@ == commented(done.push(rest@)),
{
    out.push('#');
    append_chars(out, rest);
    out.push('\n');
    proof {
        lemma_commented_push(done, rest@);
        assert(final(out)@ =~= commented(done) + (seq!['#'] + rest@ + seq!['\n']));
    }
}

/// The value-file template of a system: a header naming the variables file
/// the defaults come from, then each default (`defaults_yaml` is their YAML
/// text, `None` when there are none) as a commented line. Uncommenting a line
/// overrides that value; left as it is, the file overrides nothing.
pub fn value_reference(vars_file: &str, defaults_yaml: Option<&str>) -> (r: String)
    ensures
        r@ == reference_text(vars_file@, match defaults_yaml {
            Some(b) => Some(b@),
            None => None,
        }),
        no_nl(vars_file@) ==> !has_content(r@),
{
    let ghost dy = match defaults_yaml {
        Some(b) => Some(b@),
        None => None::<Seq<char>>,
    };
    let mut out: Vec<char> = Vec::new();
    let lead = chars_of(" 系统变量参考（默认值来自 ");
    let tail = chars_of("）。");
    let hint = chars_of(" 只取消注释需要覆盖的项并修改数值，其余取默认值。");
    proof {
        reveal_strlit(" 系统变量参考（默认值来自 ");
        reveal_strlit("）。");
        reveal_strlit(" 只取消注释需要覆盖的项并修改数值，其余取默认值。");
        assert(lead@ =~= header_lead());
        assert(tail@ =~= header_tail());
        assert(hint@ =~= header_hint());
    }
    let mut first = lead;
    let vf = chars_of(vars_file);
    append_chars(&mut first, &vf);
    append_chars(&mut first, &tail);
    assert(out@ =~= commented(Seq::<Seq<char>>::empty()));
    push_comment_line(&mut out, &first, Ghost(Seq::<Seq<char>>::empty()));
    let ghost done1 = Seq::<Seq<char>>::empty().push(first@);
    push_comment_line(&mut out, &hint, Ghost(done1));
    let ghost done = done1.push(hint@);
    assert(done =~= seq![header_lead() + vars_file@ + header_tail(), header_hint()]);
    match defaults_yaml {
        None => {},
        Some(body) => {
            let bchars = chars_of(body);
            let rows = split_lines(&bchars);
            let ghost ls = lines(body@);
            assert(char_rows(rows@) == ls);
            let mut k: usize = 0;
            let ghost mut acc = done;
            assert(ls.subrange(0, ls.len() as int) =~= ls);
            while k < rows.len()
                invariant
                    k <= rows.len() == ls.len(),
                    char_rows(rows@) == ls,
                    out@ == commented(acc),
                    acc + body_rests(ls.subrange(k as int, ls.len() as int)) == done
                        + body_rests(ls),
                decreases rows.len() - k,
            {
                proof {
                    lemma_body_rests_step(ls, k as int);
                }
                let t = trim_chars(&rows[k]);
                assert(rows@[k as int]@ == ls[k as int]);
                if t.len() != 0 {
                    let mut rest: Vec<char> = Vec::new();
                    rest.push(' ');
                    append_chars(&mut rest, &rows[k]);
                    assert(rest@ =~= seq![' '] + ls[k as int]);
                    push_comment_line(&mut out, &rest, Ghost(acc));
                    proof {
                        let tl = body_rests(ls.subrange(k + 1, ls.len() as int));
                        assert(acc + (seq![rest@] + tl) =~= acc.push(rest@) + tl);
                        acc = acc.push(rest@);
                    }
                }
                k = k + 1;
            }
            assert(ls.subrange(ls.len() as int, ls.len() as int) =~= Seq::<Seq<char>>::empty());
            assert(acc + Seq::<Seq<char>>::empty() =~= acc);
        },
    }
    proof {
        lemma_reference_inert_if(vars_file@, dy);
    }
    string_of(&out)
}

proof fn lemma_reference_inert_if(vars_file: Seq<char>, dy: Option<Seq<char>>)
    ensures
        no_nl(vars_file) ==> !has_content(reference_text(vars_file, dy)),
{
    if no_nl(vars_file) {
        lemma_reference_inert(vars_file, dy);
    }
}

} // verus!
