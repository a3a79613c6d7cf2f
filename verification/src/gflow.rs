//! The check of the installed `gflow` version: `gflow -V` prints a name and a
//! `major.minor.patch` version, and systems run through gflow need at least
//! 0.11.2.

use vstd::prelude::*;
use crate::text::{char_rows, chars_of, decimal, digit_char, is_whitespace, is_ws, string_of};

verus! {

/// The words of `s`, as `str::split_whitespace` yields them: the maximal runs
/// of non-whitespace characters, in order.
pub open spec fn words(s: Seq<char>) -> Seq<Seq<char>>
    decreases s.len(),
{
    if s.len() == 0 {
        seq![]
    } else if is_ws(s.last()) {
        words(s.drop_last())
    } else if s.len() == 1 || is_ws(s[s.len() - 2]) {
        words(s.drop_last()).push(seq![s.last()])
    } else {
        let w = words(s.drop_last());
        w.update(w.len() - 1, w.last().push(s.last()))
    }
}

/// The pieces of `s` between dots, as `str::split('.')` yields them: empty
/// pieces kept, and one (empty) piece for the empty text.
pub open spec fn pieces(s: Seq<char>) -> Seq<Seq<char>>
    decreases s.len(),
{
    if s.len() == 0 {
        seq![seq![]]
    } else if s.last() == '.' {
        pieces(s.drop_last()).push(seq![])
    } else {
        let p = pieces(s.drop_last());
        p.update(p.len() - 1, p.last().push(s.last()))
    }
}

/// An ASCII decimal digit.
pub open spec fn is_digit(c: char) -> bool {
    '0' <= c && c <= '9'
}

/// The number an all-digit text denotes.
pub open spec fn digits_value(s: Seq<char>) -> nat
    decreases s.len(),
{
    if s.len() == 0 {
        0
    } else {
        digits_value(s.drop_last()) * 10 + (s.last() as nat - '0' as nat) as nat
    }
}

/// The digits of an unsigned number's text: one leading `+` dropped.
pub open spec fn unsigned_digits(s: Seq<char>) -> Seq<char> {
    if s.len() > 0 && s[0] == '+' {
        s.drop_first()
    } else {
        s
    }
}

/// What `str::parse::<u32>` gives: an optional `+`, then at least one ASCII
/// digit and nothing else, denoting at most `u32::MAX`.
pub open spec fn parse_u32(s: Seq<char>) -> Option<u32> {
    let d = unsigned_digits(s);
    if d.len() > 0 && (forall|i: int| 0 <= i < d.len() ==> is_digit(#[trigger] d[i]))
        && digits_value(d) <= u32::MAX {
        Some(digits_value(d) as u32)
    } else {
        None
    }
}

/// The decimal text of `n` is a non-empty run of digits denoting `n`.
pub proof fn lemma_decimal_digits(n: nat)
    ensures
        decimal(n).len() > 0,
        forall|i: int| 0 <= i < decimal(n).len() ==> is_digit(#[trigger] decimal(n)[i]),
        digits_value(decimal(n)) == n,
    decreases n,
{
    if n >= 10 {
        lemma_decimal_digits(n / 10);
        lemma_digit_char(n % 10);
        let s = decimal(n / 10).push(digit_char(n % 10));
        assert(decimal(n) == s);
        assert(s.drop_last() =~= decimal(n / 10));
        assert(s.last() == digit_char(n % 10));
        assert(digits_value(s) == digits_value(decimal(n / 10)) * 10 + (n % 10));
        assert(n == (n / 10) * 10 + n % 10) by (nonlinear_arith);
    } else {
        lemma_digit_char(n);
        let s = decimal(n);
        assert(s == seq![digit_char(n)]);
        assert(s.drop_last() =~= Seq::<char>::empty());
        assert(digits_value(s.drop_last()) == 0);
        assert(digits_value(s) == n);
    }
}

/// The digit character of `d` is a digit denoting `d`.
pub proof fn lemma_digit_char(d: nat)
    requires
        d < 10,
    ensures
        is_digit(digit_char(d)),
        digit_char(d) as nat - '0' as nat == d,
{
}

/// The version is at least 0.11.2.
pub open spec fn version_ok(major: u32, minor: u32, patch: u32) -> bool {
    major > 0 || (major == 0 && minor > 11) || (major == 0 && minor == 11 && patch >= 2)
}

/// Why a gflow version is refused, as text.
pub enum GflowFault {
    /// The output has fewer than two words; it is given whole.
    Unparsable(Seq<char>),
    /// The version has fewer than three dot-separated parts.
    BadFormat(Seq<char>),
    /// The major part is not a number.
    BadMajor(Seq<char>),
    /// The minor part is not a number.
    BadMinor(Seq<char>),
    /// The patch part is not a number.
    BadPatch(Seq<char>),
    /// The version is below 0.11.2.
    TooOld(Seq<char>),
}

/// The verdict on the output of `gflow -V`: its second word is the version,
/// split at dots into major, minor and patch numbers, which must be at least
/// 0.11.2.
pub open spec fn gflow_check(out: Seq<char>) -> Result<(), GflowFault> {
    let ws = words(out);
    if ws.len() < 2 {
        Err(GflowFault::Unparsable(out))
    } else {
        let v = ws[1];
        let ps = pieces(v);
        if ps.len() < 3 {
            Err(GflowFault::BadFormat(v))
        } else if parse_u32(ps[0]) is None {
            Err(GflowFault::BadMajor(ps[0]))
        } else if parse_u32(ps[1]) is None {
            Err(GflowFault::BadMinor(ps[1]))
        } else if parse_u32(ps[2]) is None {
            Err(GflowFault::BadPatch(ps[2]))
        } else if version_ok(
            parse_u32(ps[0]).unwrap(),
            parse_u32(ps[1]).unwrap(),
            parse_u32(ps[2]).unwrap(),
        ) {
            Ok(())
        } else {
            Err(GflowFault::TooOld(v))
        }
    }
}

/// Version order: `a` is at least `b`, comparing the major numbers, then
/// the minor numbers, then the patch numbers.
pub open spec fn version_at_least(a: (u32, u32, u32), b: (u32, u32, u32)) -> bool {
    a.0 > b.0 || (a.0 == b.0 && (a.1 > b.1 || (a.1 == b.1 && a.2 >= b.2)))
}

/// The version `gflow -V` reports in `out`, when its second word splits at
/// dots into at least three numbers: (major, minor, patch).
pub open spec fn reported_version(out: Seq<char>) -> Option<(u32, u32, u32)> {
    let ws = words(out);
    if ws.len() >= 2 && pieces(ws[1]).len() >= 3 && parse_u32(pieces(ws[1])[0]) is Some
        && parse_u32(pieces(ws[1])[1]) is Some && parse_u32(pieces(ws[1])[2]) is Some {
        Some(
            (
                parse_u32(pieces(ws[1])[0]).unwrap(),
                parse_u32(pieces(ws[1])[1]).unwrap(),
                parse_u32(pieces(ws[1])[2]).unwrap(),
            ),
        )
    } else {
        None
    }
}

/// The minimum gflow version: a reported version is accepted exactly when it
/// is at least 0.11.2 in version order; an older one is refused as too old,
/// with the version word given.
pub proof fn lemma_gflow_minimum(out: Seq<char>)
    requires
        reported_version(out) is Some,
    ensures
        gflow_check(out) is Ok <==> version_at_least(reported_version(out).unwrap(), (0, 11, 2)),
        !version_at_least(reported_version(out).unwrap(), (0, 11, 2)) ==> gflow_check(out)
            == Err::<(), GflowFault>(GflowFault::TooOld(words(out)[1])),
{
}

/// Acceptance follows version order: whatever is at least an accepted
/// version is accepted too, and whatever is at most a refused one is refused.
pub proof fn lemma_gflow_monotone(older: Seq<char>, newer: Seq<char>)
    requires
        reported_version(older) is Some,
        reported_version(newer) is Some,
        version_at_least(reported_version(newer).unwrap(), reported_version(older).unwrap()),
    ensures
        gflow_check(older) is Ok ==> gflow_check(newer) is Ok,
{
}

/// `s` holds no whitespace.
pub open spec fn no_ws(s: Seq<char>) -> bool {
    forall|i: int| 0 <= i < s.len() ==> !is_ws(#[trigger] s[i])
}

proof fn lemma_words_one(s: Seq<char>)
    requires
        s.len() > 0,
        no_ws(s),
    ensures
        words(s) == seq![s],
    decreases s.len(),
{
    assert(!is_ws(s.last())) by {
        assert(!is_ws(s[s.len() - 1]));
    }
    if s.len() == 1 {
        assert(s.drop_last() =~= Seq::<char>::empty());
        assert(words(s.drop_last()) =~= Seq::<Seq<char>>::empty());
        assert(seq![s.last()] =~= s);
        assert(words(s) == words(s.drop_last()).push(seq![s.last()]));
        assert(words(s) =~= seq![s]);
    } else {
        lemma_words_one(s.drop_last());
        assert(!is_ws(s[s.len() - 2]));
        assert(s.drop_last().push(s.last()) =~= s);
        assert(words(s) =~= seq![s]);
    }
}

proof fn lemma_words_two(x: Seq<char>, y: Seq<char>)
    requires
        x.len() > 0,
        no_ws(x),
        y.len() > 0,
        no_ws(y),
    ensures
        words(x + seq![' '] + y) == seq![x, y],
    decreases y.len(),
{
    let s = x + seq![' '] + y;
    assert(is_ws(' '));
    assert(s.last() == y.last());
    if y.len() == 1 {
        assert(s.drop_last() =~= x + seq![' ']);
        let xs = x + seq![' '];
        assert(xs.drop_last() =~= x);
        assert(xs.last() == ' ');
        lemma_words_one(x);
        assert(words(xs) == words(x));
        assert(s[s.len() - 2] == ' ');
        assert(!is_ws(s.last())) by {
            assert(s.last() == y[0]);
        }
        assert(seq![s.last()] =~= y);
        assert(words(s) == words(s.drop_last()).push(seq![s.last()]));
        assert(words(s) =~= seq![x, y]);
    } else {
        assert(s.drop_last() =~= x + seq![' '] + y.drop_last());
        lemma_words_two(x, y.drop_last());
        assert(s[s.len() - 2] == y[y.len() - 2]);
        assert(y.drop_last().push(y.last()) =~= y);
        assert(words(s) =~= seq![x, y]);
    }
}

/// `s` holds no dot.
pub open spec fn no_dot(s: Seq<char>) -> bool {
    forall|i: int| 0 <= i < s.len() ==> #[trigger] s[i] != '.'
}

proof fn lemma_pieces_one(s: Seq<char>)
    requires
        no_dot(s),
    ensures
        pieces(s) == seq![s],
    decreases s.len(),
{
    if s.len() > 0 {
        assert(s.last() != '.') by {
            assert(s[s.len() - 1] != '.');
        }
        lemma_pieces_one(s.drop_last());
        assert(s.drop_last().push(s.last()) =~= s);
        assert(pieces(s) =~= seq![s]);
    } else {
        assert(s =~= Seq::<char>::empty());
    }
}

proof fn lemma_pieces_after_dot(a: Seq<char>, b: Seq<char>)
    requires
        no_dot(b),
    ensures
        pieces(a + seq!['.'] + b) == pieces(a).push(b),
    decreases b.len(),
{
    let s = a + seq!['.'] + b;
    if b.len() == 0 {
        assert(s.drop_last() =~= a);
        assert(s =~= a + seq!['.']);
        assert(s.last() == '.');
        assert(b =~= Seq::<char>::empty());
    } else {
        assert(s.last() == b[b.len() - 1]);
        assert(s.drop_last() =~= a + seq!['.'] + b.drop_last());
        lemma_pieces_after_dot(a, b.drop_last());
        assert(b.drop_last().push(b.last()) =~= b);
        assert(pieces(s) =~= pieces(a).push(b));
    }
}

proof fn lemma_parse_decimal(n: u32)
    ensures
        parse_u32(decimal(n as nat)) == Some(n),
        no_ws(decimal(n as nat)),
        no_dot(decimal(n as nat)),
{
    lemma_decimal_digits(n as nat);
    let d = decimal(n as nat);
    assert(unsigned_digits(d) == d);
    assert forall|i: int| 0 <= i < d.len() implies !is_ws(#[trigger] d[i]) by {
        assert(is_digit(d[i]));
    }
    assert forall|i: int| 0 <= i < d.len() implies #[trigger] d[i] != '.' by {
        assert(is_digit(d[i]));
    }
}

/// The text `gflow -V` prints: a name, a space, then the version numbers
/// in decimal joined by dots.
pub open spec fn version_output(name: Seq<char>, major: u32, minor: u32, patch: u32) -> Seq<char> {
    name + seq![' '] + decimal(major as nat) + seq!['.'] + decimal(minor as nat) + seq!['.'] + decimal(
        patch as nat,
    )
}

/// The gflow check on what `gflow -V` prints: any program name and any
/// version numbers; it accepts exactly when the version is at least 0.11.2
/// in version order, and refuses an older one as too old, naming it.
pub proof fn lemma_gflow_output_minimum(name: Seq<char>, major: u32, minor: u32, patch: u32)
    requires
        name.len() > 0,
        no_ws(name),
    ensures
        gflow_check(version_output(name, major, minor, patch)) is Ok <==> version_at_least(
            (major, minor, patch),
            (0, 11, 2),
        ),
        !version_at_least((major, minor, patch), (0, 11, 2)) ==> gflow_check(
            version_output(name, major, minor, patch),
        ) == Err::<(), GflowFault>(
            GflowFault::TooOld(
                decimal(major as nat) + seq!['.'] + decimal(minor as nat) + seq!['.'] + decimal(
                    patch as nat,
                ),
            ),
        ),
{
    let a = decimal(major as nat);
    let b = decimal(minor as nat);
    let c = decimal(patch as nat);
    lemma_parse_decimal(major);
    lemma_parse_decimal(minor);
    lemma_parse_decimal(patch);
    let v = a + seq!['.'] + b + seq!['.'] + c;
    assert forall|i: int| 0 <= i < v.len() implies !is_ws(#[trigger] v[i]) by {
        if i < a.len() {
            assert(v[i] == a[i]);
        } else if i == a.len() {
        } else if i < a.len() + 1 + b.len() {
            assert(v[i] == b[i - a.len() - 1]);
        } else if i == a.len() + 1 + b.len() {
        } else {
            assert(v[i] == c[i - a.len() - 2 - b.len()]);
        }
    }
    lemma_decimal_digits(major as nat);
    let out = version_output(name, major, minor, patch);
    assert(out =~= name + seq![' '] + v);
    lemma_words_two(name, v);
    lemma_pieces_one(a);
    lemma_pieces_after_dot(a, b);
    lemma_pieces_after_dot(a + seq!['.'] + b, c);
    assert(pieces(v) =~= seq![a, b, c]);
}

/// Why a gflow version is refused.
pub enum GflowVersionError {
    /// The output has fewer than two words; it is given whole.
    Unparsable(String),
    /// The version has fewer than three dot-separated parts.
    BadFormat(String),
    /// The major part is not a number.
    BadMajor(String),
    /// The minor part is not a number.
    BadMinor(String),
    /// The patch part is not a number.
    BadPatch(String),
    /// The version is below 0.11.2.
    TooOld(String),
}

impl View for GflowVersionError {
    type V = GflowFault;

    open spec fn view(&self) -> GflowFault {
        match self {
            GflowVersionError::Unparsable(s) => GflowFault::Unparsable(s@),
            GflowVersionError::BadFormat(s) => GflowFault::BadFormat(s@),
            GflowVersionError::BadMajor(s) => GflowFault::BadMajor(s@),
            GflowVersionError::BadMinor(s) => GflowFault::BadMinor(s@),
            GflowVersionError::BadPatch(s) => GflowFault::BadPatch(s@),
            GflowVersionError::TooOld(s) => GflowFault::TooOld(s@),
        }
    }
}

/// `str::split_whitespace` on a character vector.
fn split_words(s: &Vec<char>) -> (r: Vec<Vec<char>>)
    ensures
        char_rows(r@) == words(s@),
{
    let mut r: Vec<Vec<char>> = Vec::new();
    let mut i: usize = 0;
    assert(s@.subrange(0, 0) =~= Seq::<char>::empty());
    while i < s.len()
        invariant
            i <= s.len(),
            char_rows(r@) == words(s@.subrange(0, i as int)),
            i > 0 && !is_ws(s@[i - 1]) ==> r@.len() > 0,
        decreases s.len() - i,
    {
        let c = s[i];
        let ghost pre = s@.subrange(0, i as int);
        let ghost cur = s@.subrange(0, i + 1 as int);
        assert(cur.drop_last() =~= pre);
        assert(cur.last() == c);
        let ghost before = char_rows(r@);
        if is_whitespace(c) {
        } else if i == 0 || is_whitespace(s[i - 1]) {
            assert(i > 0 ==> cur[cur.len() - 2] == s@[i - 1]);
            let mut w: Vec<char> = Vec::new();
            w.push(c);
            r.push(w);
            assert(char_rows(r@) =~= before.push(seq![c]));
        } else {
            assert(cur[cur.len() - 2] == s@[i - 1]);
            let k = r.len() - 1;
            let mut w = r.remove(k);
            w.push(c);
            r.push(w);
            assert(char_rows(r@) =~= before.update(before.len() - 1, before.last().push(c)));
        }
        i = i + 1;
    }
    assert(s@.subrange(0, s.len() as int) =~= s@);
    r
}

/// `str::split('.')` on a character vector.
fn split_dots(s: &Vec<char>) -> (r: Vec<Vec<char>>)
    ensures
        char_rows(r@) == pieces(s@),
{
    let mut r: Vec<Vec<char>> = Vec::new();
    r.push(Vec::new());
    let mut i: usize = 0;
    assert(s@.subrange(0, 0) =~= Seq::<char>::empty());
    assert(char_rows(r@) =~= seq![Seq::<char>::empty()]);
    while i < s.len()
        invariant
            i <= s.len(),
            char_rows(r@) == pieces(s@.subrange(0, i as int)),
            r@.len() > 0,
        decreases s.len() - i,
    {
        let c = s[i];
        let ghost pre = s@.subrange(0, i as int);
        let ghost cur = s@.subrange(0, i + 1 as int);
        assert(cur.drop_last() =~= pre);
        assert(cur.last() == c);
        let ghost before = char_rows(r@);
        if c == '.' {
            r.push(Vec::new());
            assert(char_rows(r@) =~= before.push(Seq::<char>::empty()));
        } else {
            let k = r.len() - 1;
            let mut w = r.remove(k);
            w.push(c);
            r.push(w);
            assert(char_rows(r@) =~= before.update(before.len() - 1, before.last().push(c)));
        }
        i = i + 1;
    }
    assert(s@.subrange(0, s.len() as int) =~= s@);
    r
}

/// `str::parse::<u32>` on a character vector.
pub fn parse_decimal_u32(s: &Vec<char>) -> (r: Option<u32>)
    ensures
        r == parse_u32(s@),
{
    let start: usize = if s.len() > 0 && s[0] == '+' {
        1
    } else {
        0
    };
    let ghost d = unsigned_digits(s@);
    assert(d =~= s@.subrange(start as int, s.len() as int));
    if start == s.len() {
        return None;
    }
    let mut acc: u64 = 0;
    let mut big = false;
    let mut i = start;
    assert(d.subrange(0, 0) =~= Seq::<char>::empty());
    while i < s.len()
        invariant
            start <= i <= s.len(),
            d == s@.subrange(start as int, s.len() as int),
            d == unsigned_digits(s@),
            forall|j: int| 0 <= j < i - start ==> is_digit(#[trigger] d[j]),
            !big ==> acc == digits_value(d.subrange(0, i - start)) && acc <= u32::MAX,
            big ==> digits_value(d.subrange(0, i - start)) > u32::MAX,
        decreases s.len() - i,
    {
        let c = s[i];
        assert(c == d[i - start]);
        if !('0' <= c && c <= '9') {
            proof {
                let k: int = i - start;
                assert(0 <= k < d.len());
                assert(!is_digit(d[k]));
                assert(!(forall|j: int| 0 <= j < d.len() ==> is_digit(#[trigger] d[j])));
            }
            return None;
        }
        let ghost pre = d.subrange(0, i - start);
        let ghost cur = d.subrange(0, i - start + 1);
        assert(cur.drop_last() =~= pre);
        assert(cur.last() == c);
        let dv = (c as u32 - '0' as u32) as u64;
        assert(dv == (c as nat - '0' as nat));
        if !big {
            acc = acc * 10 + dv;
            if acc > 4294967295 {
                big = true;
            }
        }
        i = i + 1;
    }
    assert(d.subrange(0, d.len() as int) =~= d);
    if big {
        None
    } else {
        Some(acc as u32)
    }
}

/// The verdict on the output of `gflow -V`.
pub fn check_gflow_output(out: &str) -> (r: Result<(), GflowVersionError>)
    ensures
        match r {
            Ok(()) => gflow_check(out@) == Ok::<(), GflowFault>(()),
            Err(e) => gflow_check(out@) == Err::<(), GflowFault>(e@),
        },
{
    let cs = chars_of(out);
    let ws = split_words(&cs);
    assert(char_rows(ws@) == words(out@));
    if ws.len() < 2 {
        return Err(GflowVersionError::Unparsable(out.to_owned()));
    }
    let v = &ws[1];
    assert(v@ == words(out@)[1]);
    let ps = split_dots(v);
    assert(char_rows(ps@) == pieces(v@));
    if ps.len() < 3 {
        return Err(GflowVersionError::BadFormat(string_of(v)));
    }
    assert(ps@[0]@ == pieces(v@)[0]);
    assert(ps@[1]@ == pieces(v@)[1]);
    assert(ps@[2]@ == pieces(v@)[2]);
    let major = match parse_decimal_u32(&ps[0]) {
        Some(x) => x,
        None => return Err(GflowVersionError::BadMajor(string_of(&ps[0]))),
    };
    let minor = match parse_decimal_u32(&ps[1]) {
        Some(x) => x,
        None => return Err(GflowVersionError::BadMinor(string_of(&ps[1]))),
    };
    let patch = match parse_decimal_u32(&ps[2]) {
        Some(x) => x,
        None => return Err(GflowVersionError::BadPatch(string_of(&ps[2]))),
    };
    if major > 0 || (major == 0 && minor > 11) || (major == 0 && minor == 11 && patch >= 2) {
        Ok(())
    } else {
        Err(GflowVersionError::TooOld(string_of(v)))
    }
}

} // verus!
