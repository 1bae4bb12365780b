//! FFmpeg's syntax for time durations, as accepted for the start and the end
//! of a cut: `[-][HH:]MM:SS[.m...]`, where minutes and seconds have at most
//! two digits, or `[-][+]S+[.m...][s|ms|us]`.

use vstd::prelude::*;
use crate::text::{
    chars_of, decimal, lemma_decimal_value, lemma_split_around, lemma_split_single,
    lemma_two_digit_value, split_on, split_text, string_of, two_digit, views,
};

verus! {

pub open spec fn is_digit(c: char) -> bool {
    '0' <= c && c <= '9'
}

pub open spec fn all_digits(s: Seq<char>) -> bool {
    forall|i: int| 0 <= i < s.len() ==> is_digit(#[trigger] s[i])
}

/// One or more digits.
pub open spec fn number_text(s: Seq<char>) -> bool {
    s.len() > 0 && all_digits(s)
}

/// Minutes or seconds of a clock time: one or two digits, below 60.
pub open spec fn sexagesimal_field(s: Seq<char>) -> bool {
    ||| (s.len() == 1 && is_digit(s[0]))
    ||| (s.len() == 2 && '0' <= s[0] && s[0] <= '5' && is_digit(s[1]))
}

/// The text without a leading `-`.
pub open spec fn unsigned_part(s: Seq<char>) -> Seq<char> {
    if s.len() > 0 && s[0] == '-' {
        s.drop_first()
    } else {
        s
    }
}

/// The text up to its first `.` (all of it when there is none).
pub open spec fn whole_part(s: Seq<char>) -> Seq<char>
    decreases s.len(),
{
    if s.len() == 0 || s[0] == '.' {
        Seq::empty()
    } else {
        seq![s[0]] + whole_part(s.drop_first())
    }
}

/// Nothing, or a `.` followed by digits.
pub open spec fn fraction_ok(f: Seq<char>) -> bool {
    f.len() == 0 || (f[0] == '.' && all_digits(f.drop_first()))
}

/// `[HH:]MM:SS[.m...]`.
pub open spec fn clock_form(b: Seq<char>) -> bool {
    let w = whole_part(b);
    let p = split_on(w, ':');
    &&& fraction_ok(b.skip(w.len() as int))
    &&& ((p.len() == 2 && sexagesimal_field(p[0]) && sexagesimal_field(p[1])) || (p.len() == 3
        && number_text(p[0]) && sexagesimal_field(p[1]) && sexagesimal_field(p[2])))
}

/// The text without a trailing unit `ms`, `us` or `s`.
pub open spec fn without_unit(b: Seq<char>) -> Seq<char> {
    if b.len() >= 2 && (b[b.len() - 2] == 'm' || b[b.len() - 2] == 'u') && b[b.len() - 1] == 's' {
        b.take(b.len() - 2)
    } else if b.len() >= 1 && b[b.len() - 1] == 's' {
        b.take(b.len() - 1)
    } else {
        b
    }
}

/// `S+[.m...][s|ms|us]`.
pub open spec fn seconds_body(b: Seq<char>) -> bool {
    let c = without_unit(b);
    let w = whole_part(c);
    number_text(w) && fraction_ok(c.skip(w.len() as int))
}

/// `[+]S+[.m...][s|ms|us]`: the count of seconds may carry a `+`.
pub open spec fn seconds_form(b: Seq<char>) -> bool {
    ||| seconds_body(b)
    ||| (b.len() > 0 && b[0] == '+' && seconds_body(b.drop_first()))
}

/// FFmpeg's duration syntax: `[-][HH:]MM:SS[.m...]` or
/// `[-][+]S+[.m...][s|ms|us]`.
pub open spec fn is_time_text(s: Seq<char>) -> bool {
    clock_form(unsigned_part(s)) || seconds_form(unsigned_part(s))
}

proof fn lemma_whole_part(s: Seq<char>, k: int)
    requires
        0 <= k <= s.len(),
        forall|j: int| 0 <= j < k ==> s[j] != '.',
        k == s.len() || s[k] == '.',
    ensures
        whole_part(s) == s.take(k),
    decreases k,
{
    if k == 0 {
        assert(s.take(0) =~= Seq::<char>::empty());
    } else {
        lemma_whole_part(s.drop_first(), k - 1);
        assert(seq![s[0]] + s.drop_first().take(k - 1) =~= s.take(k));
    }
}

fn copy_range(v: &Vec<char>, lo: usize, hi: usize) -> (r: Vec<char>)
    requires
        lo <= hi <= v.len(),
    ensures
        r@ == v@.subrange(lo as int, hi as int),
{
    let mut r: Vec<char> = Vec::new();
    let mut i: usize = lo;
    while i < hi
        invariant
            lo <= i <= hi <= v.len(),
            r@ == v@.subrange(lo as int, i as int),
        decreases hi - i,
    {
        r.push(v[i]);
        i += 1;
        assert(r@ =~= v@.subrange(lo as int, i as int));
    }
    r
}

fn digits_only(v: &Vec<char>, lo: usize, hi: usize) -> (b: bool)
    requires
        lo <= hi <= v.len(),
    ensures
        b == all_digits(v@.subrange(lo as int, hi as int)),
{
    let mut i: usize = lo;
    while i < hi
        invariant
            lo <= i <= hi <= v.len(),
            forall|j: int| lo <= j < i ==> is_digit(v@[j]),
        decreases hi - i,
    {
        if !('0' <= v[i] && v[i] <= '9') {
            assert(!is_digit(v@.subrange(lo as int, hi as int)[i - lo]));
            return false;
        }
        i += 1;
    }
    assert forall|j: int| 0 <= j < (hi - lo) implies is_digit(#[trigger] v@.subrange(lo as int, hi as int)[j]) by {
        assert(v@.subrange(lo as int, hi as int)[j] == v@[lo + j]);
    }
    true
}

/// The length of the text before its first `.`.
fn whole_len(v: &Vec<char>) -> (k: usize)
    ensures
        k <= v.len(),
        whole_part(v@) == v@.take(k as int),
{
    let mut k: usize = 0;
    while k < v.len() && v[k] != '.'
        invariant
            k <= v.len(),
            forall|j: int| 0 <= j < k ==> v@[j] != '.',
        decreases v.len() - k,
    {
        k += 1;
    }
    proof { lemma_whole_part(v@, k as int); }
    k
}

/// Whether `v` past its whole part is nothing or a `.` and digits.
fn fraction_follows(v: &Vec<char>, k: usize) -> (b: bool)
    requires
        k <= v.len(),
    ensures
        b == fraction_ok(v@.skip(k as int)),
{
    let ghost f = v@.skip(k as int);
    if k == v.len() {
        assert(f.len() == 0);
        true
    } else if v[k] != '.' {
        false
    } else {
        assert(f.drop_first() =~= v@.subrange(k + 1, v.len() as int));
        digits_only(v, k + 1, v.len())
    }
}

fn sexagesimal(v: &Vec<char>) -> (b: bool)
    ensures
        b == sexagesimal_field(v@),
{
    (v.len() == 1 && '0' <= v[0] && v[0] <= '9') || (v.len() == 2 && '0' <= v[0] && v[0] <= '5'
        && '0' <= v[1] && v[1] <= '9')
}

fn number(v: &Vec<char>) -> (b: bool)
    ensures
        b == number_text(v@),
{
    if v.len() == 0 {
        return false;
    }
    let d = digits_only(v, 0, v.len());
    assert(v@.subrange(0, v.len() as int) =~= v@);
    d
}

fn is_clock_form(b: &Vec<char>) -> (r: bool)
    ensures
        r == clock_form(b@),
{
    let k = whole_len(b);
    if !fraction_follows(b, k) {
        return false;
    }
    let w = copy_range(b, 0, k);
    assert(w@ =~= b@.take(k as int));
    let ws = string_of(&w);
    let parts = split_text(ws.as_str(), ':');
    assert(parts@.len() == views(parts@).len());
    if parts.len() == 2 {
        let p0 = chars_of(parts[0].as_str());
        let p1 = chars_of(parts[1].as_str());
        assert(views(parts@)[0] == parts@[0]@);
        assert(views(parts@)[1] == parts@[1]@);
        sexagesimal(&p0) && sexagesimal(&p1)
    } else if parts.len() == 3 {
        let p0 = chars_of(parts[0].as_str());
        let p1 = chars_of(parts[1].as_str());
        let p2 = chars_of(parts[2].as_str());
        assert(views(parts@)[0] == parts@[0]@);
        assert(views(parts@)[1] == parts@[1]@);
        assert(views(parts@)[2] == parts@[2]@);
        number(&p0) && sexagesimal(&p1) && sexagesimal(&p2)
    } else {
        false
    }
}

fn is_seconds_body(b: &Vec<char>) -> (r: bool)
    ensures
        r == seconds_body(b@),
{
    let n = b.len();
    let end: usize = if n >= 2 && (b[n - 2] == 'm' || b[n - 2] == 'u') && b[n - 1] == 's' {
        n - 2
    } else if n >= 1 && b[n - 1] == 's' {
        n - 1
    } else {
        n
    };
    let c = copy_range(b, 0, end);
    assert(c@ =~= without_unit(b@));
    let k = whole_len(&c);
    let w = copy_range(&c, 0, k);
    assert(w@ =~= c@.take(k as int));
    number(&w) && fraction_follows(&c, k)
}

fn is_seconds_form(b: &Vec<char>) -> (r: bool)
    ensures
        r == seconds_form(b@),
{
    if is_seconds_body(b) {
        return true;
    }
    if b.len() > 0 && b[0] == '+' {
        let rest = copy_range(b, 1, b.len());
        assert(rest@ =~= b@.drop_first());
        is_seconds_body(&rest)
    } else {
        false
    }
}

/// Whether a time text follows FFmpeg's duration syntax.
pub fn valid_time_text(s: &str) -> (r: bool)
    ensures
        r == is_time_text(s@),
{
    let v = chars_of(s);
    let b = if v.len() > 0 && v[0] == '-' {
        copy_range(&v, 1, v.len())
    } else {
        copy_range(&v, 0, v.len())
    };
    assert(b@ =~= unsigned_part(s@));
    is_clock_form(&b) || is_seconds_form(&b)
}

proof fn lemma_digits_no_marks(t: Seq<char>)
    requires
        all_digits(t),
    ensures
        !t.contains(':'),
        !t.contains('.'),
        forall|i: int| 0 <= i < t.len() ==> t[i] != '.',
{
    if t.contains(':') {
        let k = choose|k: int| 0 <= k < t.len() && t[k] == ':';
        assert(is_digit(t[k]));
    }
    if t.contains('.') {
        let k = choose|k: int| 0 <= k < t.len() && t[k] == '.';
        assert(is_digit(t[k]));
    }
    assert forall|i: int| 0 <= i < t.len() implies t[i] != '.' by {
        assert(is_digit(t[i]));
    }
}

proof fn lemma_decimal_digits_text(n: nat)
    ensures
        all_digits(decimal(n)),
        number_text(decimal(n)),
        sexagesimal_field(decimal(n)) <==> n < 60,
{
    lemma_decimal_value(n);
    assert(all_digits(decimal(n))) by {
        assert forall|i: int| 0 <= i < decimal(n).len() implies is_digit(#[trigger] decimal(n)[i]) by {
            assert('0' <= decimal(n)[i] <= '9');
        }
    }
    if 10 <= n < 100 {
        lemma_decimal_value(n / 10);
        assert(decimal(n)[0] == decimal(n / 10)[0]);
        assert(decimal(n / 10) == seq![crate::text::digit_char(n / 10)]);
        assert(decimal(n)[0] as int == n / 10 + 48);
    }
}

proof fn lemma_two_digit_text(n: nat)
    ensures
        all_digits(two_digit(n)),
        number_text(two_digit(n)),
        n < 60 ==> sexagesimal_field(two_digit(n)),
{
    lemma_two_digit_value(n);
    assert(all_digits(two_digit(n))) by {
        assert forall|i: int| 0 <= i < two_digit(n).len() implies is_digit(#[trigger] two_digit(n)[i]) by {
            assert('0' <= two_digit(n)[i] <= '9');
        }
    }
    if n < 60 {
        if n < 10 {
            assert(two_digit(n)[0] == '0');
        } else {
            lemma_decimal_digits_text(n);
        }
    }
}

proof fn lemma_whole_before_dot(a: Seq<char>, rest: Seq<char>)
    requires
        forall|i: int| 0 <= i < a.len() ==> a[i] != '.',
        rest.len() == 0 || rest[0] == '.',
    ensures
        whole_part(a + rest) == a,
        (a + rest).skip(a.len() as int) == rest,
{
    let t = a + rest;
    assert forall|j: int| 0 <= j < a.len() implies t[j] != '.' by {
        assert(t[j] == a[j]);
    }
    lemma_whole_part(t, a.len() as int);
    assert(t.take(a.len() as int) =~= a);
    assert(t.skip(a.len() as int) =~= rest);
}

proof fn lemma_all_digits_concat(a: Seq<char>, b: Seq<char>)
    requires
        all_digits(a),
        all_digits(b),
    ensures
        all_digits(a + b),
{
    assert forall|i: int| 0 <= i < (a + b).len() implies is_digit(#[trigger] (a + b)[i]) by {
        if i < a.len() {
            assert((a + b)[i] == a[i]);
        } else {
            assert((a + b)[i] == b[i - a.len()]);
        }
    }
}

/// The clock form of three digit fields `x:y:z` followed by `frac`.
proof fn lemma_three_fields(x: Seq<char>, y: Seq<char>, z: Seq<char>, frac: Seq<char>)
    requires
        all_digits(x),
        all_digits(y),
        all_digits(z),
        frac.len() == 0 || frac[0] == '.',
    ensures
        clock_form(x + seq![':'] + y + seq![':'] + z + frac) == (fraction_ok(frac) && number_text(x)
            && sexagesimal_field(y) && sexagesimal_field(z)),
{
    lemma_digits_no_marks(x);
    lemma_digits_no_marks(y);
    lemma_digits_no_marks(z);
    let w = x + seq![':'] + y + seq![':'] + z;
    assert forall|i: int| 0 <= i < w.len() implies w[i] != '.' by {
        if i < x.len() {
            assert(w[i] == x[i]);
        } else if i == x.len() {
        } else if i < x.len() + 1 + y.len() {
            assert(w[i] == y[i - x.len() - 1]);
        } else if i == x.len() + 1 + y.len() {
        } else {
            assert(w[i] == z[i - x.len() - 2 - y.len()]);
        }
    }
    lemma_whole_before_dot(w, frac);
    assert(w + frac == x + seq![':'] + y + seq![':'] + z + frac);
    assert(w =~= x + seq![':'] + (y + seq![':'] + z));
    lemma_split_around(x, y + seq![':'] + z, ':');
    lemma_split_around(y, z, ':');
    lemma_split_single(x, ':');
    lemma_split_single(y, ':');
    lemma_split_single(z, ':');
    assert(split_on(w, ':') =~= seq![x, y, z]);
}

/// The clock form of two digit fields `y:z` followed by `frac`.
proof fn lemma_two_fields(y: Seq<char>, z: Seq<char>, frac: Seq<char>)
    requires
        all_digits(y),
        all_digits(z),
        frac.len() == 0 || frac[0] == '.',
    ensures
        clock_form(y + seq![':'] + z + frac) == (fraction_ok(frac) && sexagesimal_field(y)
            && sexagesimal_field(z)),
{
    lemma_digits_no_marks(y);
    lemma_digits_no_marks(z);
    let w = y + seq![':'] + z;
    assert forall|i: int| 0 <= i < w.len() implies w[i] != '.' by {
        if i < y.len() {
            assert(w[i] == y[i]);
        } else if i == y.len() {
        } else {
            assert(w[i] == z[i - y.len() - 1]);
        }
    }
    lemma_whole_before_dot(w, frac);
    lemma_split_around(y, z, ':');
    lemma_split_single(y, ':');
    lemma_split_single(z, ':');
    assert(split_on(w, ':') =~= seq![y, z]);
}

/// A text without `.` that starts and ends with a digit and holds a `:` is
/// no count of seconds.
proof fn lemma_colon_not_seconds(t: Seq<char>, k: int)
    requires
        0 <= k < t.len(),
        t[k] == ':',
        forall|i: int| 0 <= i < t.len() ==> t[i] != '.',
        is_digit(t[0]),
        is_digit(t.last()),
    ensures
        !seconds_form(t),
{
    assert(without_unit(t) == t);
    lemma_whole_part(t, t.len() as int);
    assert(t.take(t.len() as int) =~= t);
    assert(!is_digit(t[k]));
}

/// `d` followed by a fraction `frac`, with no unit, is a count of seconds.
proof fn lemma_count_body(d: Seq<char>, frac: Seq<char>)
    requires
        number_text(d),
        frac.len() == 0 || (frac[0] == '.' && all_digits(frac.drop_first()) && frac.len() >= 2),
    ensures
        without_unit(d + frac) == d + frac,
        seconds_body(d + frac),
{
    lemma_digits_no_marks(d);
    let t = d + frac;
    assert(is_digit(t.last())) by {
        if frac.len() == 0 {
            assert(t.last() == d.last());
            assert(is_digit(d[d.len() - 1]));
        } else {
            assert(t.last() == frac.drop_first()[frac.len() - 2]);
        }
    }
    assert(without_unit(t) == t);
    lemma_whole_before_dot(d, frac);
}

/// Counts with a unit: `d` then `unit` loses the unit.
proof fn lemma_count_unit(d: Seq<char>, unit: Seq<char>)
    requires
        number_text(d),
        unit == seq!['s'] || unit == seq!['m', 's'] || unit == seq!['u', 's'],
    ensures
        seconds_form(d + unit),
{
    let t = d + unit;
    assert(is_digit(d[d.len() - 1]));
    if unit == seq!['s'] {
        assert(t[t.len() - 2] == d[d.len() - 1]);
    }
    assert(without_unit(t) =~= d);
    lemma_count_body(d, Seq::empty());
    assert(d + Seq::<char>::empty() =~= d);
}

/// Clock times: hours, then minutes and seconds below 60, with one or two
/// digits each, are times, and no other minutes or seconds are; so are the
/// same with two-digit fields, a sign and a fraction; minutes and seconds
/// alone are times exactly when both are below 60.
pub proof fn lemma_clock_times(h: nat, m: nat, s: nat, f: nat)
    ensures
        is_time_text(decimal(h) + ":"@ + decimal(m) + ":"@ + decimal(s)) <==> (m < 60 && s < 60),
        is_time_text(decimal(m) + ":"@ + decimal(s)) <==> (m < 60 && s < 60),
        m < 60 && s < 60 ==> is_time_text(two_digit(h) + ":"@ + two_digit(m) + ":"@ + two_digit(s)),
        m < 60 && s < 60 ==> is_time_text(two_digit(m) + ":"@ + two_digit(s)),
        m < 60 && s < 60 ==> is_time_text(
            "-"@ + decimal(h) + ":"@ + decimal(m) + ":"@ + decimal(s) + "."@ + decimal(f),
        ),
{
    reveal_strlit(":");
    reveal_strlit("-");
    reveal_strlit(".");
    let c: Seq<char> = seq![':'];
    assert(":"@ =~= c);
    assert("-"@ =~= seq!['-']);
    assert("."@ =~= seq!['.']);
    let dh = decimal(h);
    let dm = decimal(m);
    let ds = decimal(s);
    let df = decimal(f);
    lemma_decimal_digits_text(h);
    lemma_decimal_digits_text(m);
    lemma_decimal_digits_text(s);
    lemma_decimal_digits_text(f);
    lemma_digits_no_marks(dh);
    lemma_digits_no_marks(dm);
    lemma_digits_no_marks(ds);
    let e: Seq<char> = Seq::empty();

    // hours, minutes, seconds
    let t3 = dh + c + dm + c + ds;
    assert(t3 + e =~= t3);
    lemma_three_fields(dh, dm, ds, e);
    assert(unsigned_part(t3) == t3) by {
        assert(t3[0] == dh[0]);
        assert(is_digit(dh[0]));
    }
    assert forall|i: int| 0 <= i < t3.len() implies t3[i] != '.' by {
        if i < dh.len() {
            assert(t3[i] == dh[i]);
        } else if i == dh.len() {
        } else if i < dh.len() + 1 + dm.len() {
            assert(t3[i] == dm[i - dh.len() - 1]);
        } else if i == dh.len() + 1 + dm.len() {
        } else {
            assert(t3[i] == ds[i - dh.len() - 2 - dm.len()]);
        }
    }
    assert(t3[dh.len() as int] == ':');
    assert(is_digit(t3.last())) by {
        assert(t3.last() == ds[ds.len() - 1]);
        assert(is_digit(ds[ds.len() - 1]));
    }
    assert(is_digit(t3[0])) by {
        assert(t3[0] == dh[0]);
        assert(is_digit(dh[0]));
    }
    lemma_colon_not_seconds(t3, dh.len() as int);

    // minutes, seconds
    let t2 = dm + c + ds;
    assert(t2 + e =~= t2);
    lemma_two_fields(dm, ds, e);
    assert(unsigned_part(t2) == t2) by {
        assert(t2[0] == dm[0]);
        assert(is_digit(dm[0]));
    }
    assert forall|i: int| 0 <= i < t2.len() implies t2[i] != '.' by {
        if i < dm.len() {
            assert(t2[i] == dm[i]);
        } else if i == dm.len() {
        } else {
            assert(t2[i] == ds[i - dm.len() - 1]);
        }
    }
    assert(t2[dm.len() as int] == ':');
    assert(is_digit(t2.last())) by {
        assert(t2.last() == ds[ds.len() - 1]);
        assert(is_digit(ds[ds.len() - 1]));
    }
    assert(is_digit(t2[0])) by {
        assert(t2[0] == dm[0]);
        assert(is_digit(dm[0]));
    }
    lemma_colon_not_seconds(t2, dm.len() as int);

    if m < 60 && s < 60 {
        // two-digit fields
        lemma_two_digit_text(h);
        lemma_two_digit_text(m);
        lemma_two_digit_text(s);
        let th = two_digit(h);
        let tm = two_digit(m);
        let ts = two_digit(s);
        let u3 = th + c + tm + c + ts;
        assert(u3 + e =~= u3);
        lemma_three_fields(th, tm, ts, e);
        assert(unsigned_part(u3) == u3) by {
            assert(u3[0] == th[0]);
            assert(is_digit(th[0]));
        }
        let u2 = tm + c + ts;
        assert(u2 + e =~= u2);
        lemma_two_fields(tm, ts, e);
        assert(unsigned_part(u2) == u2) by {
            assert(u2[0] == tm[0]);
            assert(is_digit(tm[0]));
        }
        // sign and fraction
        let frac = seq!['.'] + df;
        assert(frac.drop_first() =~= df);
        lemma_three_fields(dh, dm, ds, frac);
        let x = seq!['-'] + dh + c + dm + c + ds + seq!['.'] + df;
        assert(unsigned_part(x) =~= dh + c + dm + c + ds + frac);
    }
}

/// Counts of seconds are times: plain, negative, with a `+`, with a
/// fraction, and with each unit.
pub proof fn lemma_second_counts(n: nat, f: nat)
    ensures
        is_time_text(decimal(n)),
        is_time_text("-"@ + decimal(n)),
        is_time_text("+"@ + decimal(n)),
        is_time_text(decimal(n) + "."@ + decimal(f)),
        is_time_text(decimal(n) + "s"@),
        is_time_text(decimal(n) + "ms"@),
        is_time_text(decimal(n) + "us"@),
{
    reveal_strlit("-");
    reveal_strlit("+");
    reveal_strlit(".");
    reveal_strlit("s");
    reveal_strlit("ms");
    reveal_strlit("us");
    assert("-"@ =~= seq!['-']);
    assert("+"@ =~= seq!['+']);
    assert("."@ =~= seq!['.']);
    assert("s"@ =~= seq!['s']);
    assert("ms"@ =~= seq!['m', 's']);
    assert("us"@ =~= seq!['u', 's']);
    let d = decimal(n);
    let df = decimal(f);
    lemma_decimal_digits_text(n);
    lemma_decimal_digits_text(f);
    let e: Seq<char> = Seq::empty();
    assert(d + e =~= d);
    lemma_count_body(d, e);
    assert(is_digit(d[0]));
    assert(unsigned_part(d) == d);
    assert(unsigned_part(seq!['-'] + d) =~= d);
    let p = seq!['+'] + d;
    assert(unsigned_part(p) == p);
    assert(p.drop_first() =~= d);
    let frac = seq!['.'] + df;
    assert(frac.drop_first() =~= df);
    lemma_count_body(d, frac);
    assert(unsigned_part(d + frac) == d + frac) by {
        assert((d + frac)[0] == d[0]);
    }
    assert(d + seq!['.'] + df =~= d + frac);
    lemma_count_unit(d, seq!['s']);
    lemma_count_unit(d, seq!['m', 's']);
    lemma_count_unit(d, seq!['u', 's']);
    assert(unsigned_part(d + seq!['s']) == d + seq!['s']) by {
        assert((d + seq!['s'])[0] == d[0]);
    }
    assert(unsigned_part(d + seq!['m', 's']) == d + seq!['m', 's']) by {
        assert((d + seq!['m', 's'])[0] == d[0]);
    }
    assert(unsigned_part(d + seq!['u', 's']) == d + seq!['u', 's']) by {
        assert((d + seq!['u', 's'])[0] == d[0]);
    }
}

} // verus!
