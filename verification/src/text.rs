//! Text helpers shared by the other modules: decimal rendering of integers,
//! splitting on a separator, Unicode whitespace trimming.

use vstd::prelude::*;

verus! {

/// The character of a decimal digit.
pub open spec fn digit_char(d: nat) -> char {
    (d + 48) as char
}

/// Decimal rendering of a natural number, without leading zeros.
pub open spec fn decimal(n: nat) -> Seq<char>
    decreases n,
{
    if n < 10 {
        seq![digit_char(n)]
    } else {
        decimal(n / 10).push(digit_char(n % 10))
    }
}

/// Appends one character to a string (std's `String::push`).
#[verifier::external_body]
pub(crate) fn push_char(s: &mut String, c: char)
    ensures
        final(s)@ == old(s)@.push(c),
{
    s.push(c)
}

fn digit(d: u64) -> (c: char)
    requires
        d < 10,
    ensures
        c == digit_char(d as nat),
{
    ((d as u8) + 48u8) as char
}

/// Appends the decimal rendering of `n` to `s`.
pub fn append_decimal(s: &mut String, n: u64)
    ensures
        final(s)@ == old(s)@ + decimal(n as nat),
    decreases n,
{
    if n >= 10 {
        append_decimal(s, n / 10);
    }
    let c = digit(n % 10);
    push_char(s, c);
    if n >= 10 {
        assert(s@ =~= old(s)@ + decimal((n / 10) as nat).push(c));
    } else {
        assert(s@ =~= old(s)@ + seq![c]);
    }
}

/// Decimal rendering of an integer, with a leading `-` when negative.
pub open spec fn signed_decimal(i: int) -> Seq<char> {
    if i < 0 {
        seq!['-'] + decimal((-i) as nat)
    } else {
        decimal(i as nat)
    }
}

/// Decimal rendering padded with zeros to at least two digits (`{:02}`).
pub open spec fn two_digit(n: nat) -> Seq<char> {
    if n < 10 {
        seq!['0'] + decimal(n)
    } else {
        decimal(n)
    }
}

/// Appends the decimal rendering of a signed integer to `s`.
pub fn append_signed_decimal(s: &mut String, i: i64)
    ensures
        final(s)@ == old(s)@ + signed_decimal(i as int),
{
    if i < 0 {
        push_char(s, '-');
        let m: u64 = ((-(i + 1)) as u64) + 1;
        append_decimal(s, m);
        assert(s@ =~= old(s)@ + signed_decimal(i as int));
    } else {
        append_decimal(s, i as u64);
    }
}

/// Appends `n` padded with zeros to at least two digits.
pub fn append_two_digit(s: &mut String, n: u64)
    ensures
        final(s)@ == old(s)@ + two_digit(n as nat),
{
    if n < 10 {
        push_char(s, '0');
        append_decimal(s, n);
        assert(s@ =~= old(s)@ + two_digit(n as nat));
    } else {
        append_decimal(s, n);
    }
}

/// The characters that std's `char::is_whitespace` accepts: those with the
/// Unicode `White_Space` property.
pub open spec fn is_white(c: char) -> bool {
    ||| c == ' '
    ||| c == '\t'
    ||| c == '\n'
    ||| c == '\u{0B}'
    ||| c == '\u{0C}'
    ||| c == '\r'
    ||| c == '\u{85}'
    ||| c == '\u{A0}'
    ||| c == '\u{1680}'
    ||| ('\u{2000}' <= c && c <= '\u{200A}')
    ||| c == '\u{2028}'
    ||| c == '\u{2029}'
    ||| c == '\u{202F}'
    ||| c == '\u{205F}'
    ||| c == '\u{3000}'
}

/// `s` without its trailing whitespace.
pub open spec fn trim_end(s: Seq<char>) -> Seq<char>
    decreases s.len(),
{
    if s.len() > 0 && is_white(s.last()) {
        trim_end(s.drop_last())
    } else {
        s
    }
}

/// `s` without its leading whitespace.
pub open spec fn trim_start(s: Seq<char>) -> Seq<char>
    decreases s.len(),
{
    if s.len() > 0 && is_white(s[0]) {
        trim_start(s.drop_first())
    } else {
        s
    }
}

/// `s` without leading and trailing whitespace (std's `str::trim`).
pub open spec fn trim(s: Seq<char>) -> Seq<char> {
    trim_start(trim_end(s))
}

fn is_white_char(c: char) -> (b: bool)
    ensures
        b == is_white(c),
{
    c == ' ' || c == '\t' || c == '\n' || c == '\u{0B}' || c == '\u{0C}' || c == '\r'
        || c == '\u{85}' || c == '\u{A0}' || c == '\u{1680}' || ('\u{2000}' <= c && c
        <= '\u{200A}') || c == '\u{2028}' || c == '\u{2029}' || c == '\u{202F}' || c
        == '\u{205F}' || c == '\u{3000}'
}

/// The characters of `s`, one by one.
pub fn chars_of(s: &str) -> (v: Vec<char>)
    ensures
        v@ == s@,
{
    let n: usize = s.unicode_len();
    let mut v: Vec<char> = Vec::new();
    let mut i: usize = 0;
    while i < n
        invariant
            n == s@.len(),
            i <= n,
            v@ == s@.take(i as int),
        decreases n - i,
    {
        let c = s.get_char(i);
        v.push(c);
        i += 1;
        assert(v@ =~= s@.take(i as int));
    }
    assert(s@.take(n as int) =~= s@);
    v
}

/// A string holding exactly the characters of `v`.
pub fn string_of(v: &Vec<char>) -> (s: String)
    ensures
        s@ == v@,
{
    let mut s = String::new();
    let mut i: usize = 0;
    while i < v.len()
        invariant
            i <= v.len(),
            s@ == v@.take(i as int),
        decreases v.len() - i,
    {
        push_char(&mut s, v[i]);
        i += 1;
        assert(s@ =~= v@.take(i as int));
    }
    assert(v@.take(v.len() as int) =~= v@);
    s
}

/// Character-wise equality of two strings.
pub fn text_eq(a: &str, b: &str) -> (r: bool)
    ensures
        r == (a@ == b@),
{
    let x = chars_of(a);
    let y = chars_of(b);
    if x.len() != y.len() {
        return false;
    }
    let mut i: usize = 0;
    while i < x.len()
        invariant
            x@ == a@,
            y@ == b@,
            x.len() == y.len(),
            i <= x.len(),
            forall|j: int| 0 <= j < i ==> x@[j] == y@[j],
        decreases x.len() - i,
    {
        if x[i] != y[i] {
            return false;
        }
        i += 1;
    }
    assert(x@ =~= y@);
    true
}

proof fn lemma_trim_end_take(s: Seq<char>, e: int)
    requires
        0 < e <= s.len(),
        is_white(s[e - 1]),
    ensures
        trim_end(s.take(e)) == trim_end(s.take(e - 1)),
{
    assert(s.take(e).drop_last() =~= s.take(e - 1));
}

proof fn lemma_trim_start_skip(s: Seq<char>, b: int)
    requires
        0 <= b < s.len(),
        is_white(s[b]),
    ensures
        trim_start(s.skip(b)) == trim_start(s.skip(b + 1)),
{
    assert(s.skip(b).drop_first() =~= s.skip(b + 1));
}

/// std's `str::trim`: the text without leading and trailing whitespace.
pub fn trim_text(s: &str) -> (r: String)
    ensures
        r@ == trim(s@),
{
    let v = chars_of(s);
    let mut e: usize = v.len();
    assert(v@.take(v.len() as int) =~= v@);
    while e > 0 && is_white_char(v[e - 1])
        invariant
            e <= v.len(),
            trim_end(v@) == trim_end(v@.take(e as int)),
        decreases e,
    {
        proof { lemma_trim_end_take(v@, e as int); }
        e -= 1;
    }
    let ghost t = v@.take(e as int);
    assert(trim_end(v@) == t);
    let mut b: usize = 0;
    assert(t.skip(0) =~= t);
    while b < e && is_white_char(v[b])
        invariant
            b <= e <= v.len(),
            t == v@.take(e as int),
            trim_start(t) == trim_start(t.skip(b as int)),
        decreases e - b,
    {
        proof { lemma_trim_start_skip(t, b as int); }
        b += 1;
    }
    let mut out: Vec<char> = Vec::new();
    let mut k: usize = b;
    while k < e
        invariant
            b <= k <= e <= v.len(),
            out@ == v@.subrange(b as int, k as int),
        decreases e - k,
    {
        out.push(v[k]);
        k += 1;
        assert(out@ =~= v@.subrange(b as int, k as int));
    }
    assert(t.skip(b as int) =~= v@.subrange(b as int, e as int));
    string_of(&out)
}

} // verus!

verus! {

/// The pieces of `s` between occurrences of `sep` (std's `str::split` with a
/// character pattern): one more piece than there are separators.
pub open spec fn split_on(s: Seq<char>, sep: char) -> Seq<Seq<char>>
    decreases s.len(),
{
    if s.len() == 0 {
        seq![Seq::empty()]
    } else {
        let init = split_on(s.drop_last(), sep);
        if s.last() == sep {
            init.push(Seq::empty())
        } else {
            init.update(init.len() - 1, init.last().push(s.last()))
        }
    }
}

/// The pieces joined back with `sep` between each two of them.
pub open spec fn join_with(parts: Seq<Seq<char>>, sep: Seq<char>) -> Seq<char>
    decreases parts.len(),
{
    if parts.len() == 0 {
        Seq::empty()
    } else if parts.len() == 1 {
        parts[0]
    } else {
        join_with(parts.drop_last(), sep) + sep + parts.last()
    }
}

/// The views of a vector of strings.
pub open spec fn views(v: Seq<String>) -> Seq<Seq<char>> {
    v.map_values(|p: String| p@)
}

proof fn lemma_split_nonempty(s: Seq<char>, sep: char)
    ensures
        split_on(s, sep).len() >= 1,
    decreases s.len(),
{
    if s.len() > 0 {
        lemma_split_nonempty(s.drop_last(), sep);
    }
}

proof fn lemma_join_extend_last(p: Seq<Seq<char>>, sep: Seq<char>, c: char)
    requires
        p.len() >= 1,
    ensures
        join_with(p.update(p.len() - 1, p.last().push(c)), sep) == join_with(p, sep).push(c),
{
    let q = p.update(p.len() - 1, p.last().push(c));
    if p.len() > 1 {
        assert(q.drop_last() =~= p.drop_last());
        assert(join_with(q, sep) =~= join_with(p, sep).push(c));
    }
}

/// Splitting on a separator and joining the pieces back with it gives the
/// text back, and no piece holds the separator.
pub proof fn lemma_split_join(s: Seq<char>, sep: char)
    ensures
        join_with(split_on(s, sep), seq![sep]) == s,
        forall|i: int| 0 <= i < split_on(s, sep).len() ==> !(#[trigger] split_on(s, sep)[i]).contains(sep),
    decreases s.len(),
{
    if s.len() > 0 {
        let init = split_on(s.drop_last(), sep);
        lemma_split_join(s.drop_last(), sep);
        lemma_split_nonempty(s.drop_last(), sep);
        if s.last() == sep {
            let e: Seq<char> = Seq::empty();
            assert(init.push(e).drop_last() =~= init);
            assert(join_with(init.push(e), seq![sep]) =~= s);
            assert forall|i: int| 0 <= i < init.push(e).len() implies !(#[trigger] init.push(e)[i]).contains(sep) by {
                if i < init.len() {
                    assert(init.push(e)[i] == init[i]);
                }
            }
        } else {
            lemma_join_extend_last(init, seq![sep], s.last());
            assert(s.drop_last().push(s.last()) =~= s);
            let q = init.update(init.len() - 1, init.last().push(s.last()));
            assert forall|i: int| 0 <= i < q.len() implies !(#[trigger] q[i]).contains(sep) by {
                if i == init.len() - 1 {
                    if q[i].contains(sep) {
                        let k = choose|k: int| 0 <= k < q[i].len() && q[i][k] == sep;
                        if k < init.last().len() {
                            assert(init[i].contains(sep));
                        }
                    }
                } else {
                    assert(q[i] == init[i]);
                }
            }
        }
    }
}

/// std's `str::split` with a character pattern, collected.
pub fn split_text(s: &str, sep: char) -> (parts: Vec<String>)
    ensures
        views(parts@) == split_on(s@, sep),
{
    let v = chars_of(s);
    let mut done: Vec<String> = Vec::new();
    let mut cur: Vec<char> = Vec::new();
    let mut i: usize = 0;
    assert(v@.take(0) =~= Seq::<char>::empty());
    assert(views(done@).push(cur@) =~= split_on(v@.take(0), sep));
    while i < v.len()
        invariant
            i <= v.len(),
            views(done@).push(cur@) == split_on(v@.take(i as int), sep),
        decreases v.len() - i,
    {
        let c = v[i];
        let ghost before = split_on(v@.take(i as int), sep);
        assert(v@.take(i + 1).drop_last() =~= v@.take(i as int));
        if c == sep {
            let piece = string_of(&cur);
            let ghost d = done@;
            done.push(piece);
            cur = Vec::new();
            assert(views(done@) =~= views(d).push(piece@));
            assert(views(done@).push(cur@) =~= before.push(Seq::empty()));
        } else {
            cur.push(c);
            assert(views(done@).push(cur@) =~= before.update(before.len() - 1, before.last().push(c)));
        }
        i += 1;
    }
    let last = string_of(&cur);
    let ghost d = done@;
    done.push(last);
    assert(views(done@) =~= views(d).push(cur@));
    assert(v@.take(v.len() as int) =~= v@);
    done
}

/// Splitting a text around one separator: the pieces before it, then the
/// pieces after it.
pub proof fn lemma_split_around(a: Seq<char>, b: Seq<char>, sep: char)
    ensures
        split_on(a + seq![sep] + b, sep) == split_on(a, sep) + split_on(b, sep),
    decreases b.len(),
{
    let s = a + seq![sep] + b;
    lemma_split_nonempty(a, sep);
    if b.len() == 0 {
        assert(s.drop_last() =~= a);
        assert(split_on(a, sep).push(Seq::empty()) =~= split_on(a, sep) + split_on(b, sep));
    } else {
        lemma_split_around(a, b.drop_last(), sep);
        lemma_split_nonempty(b.drop_last(), sep);
        assert(s.drop_last() =~= a + seq![sep] + b.drop_last());
        let x = split_on(a, sep);
        let y = split_on(b.drop_last(), sep);
        if b.last() == sep {
            assert((x + y).push(Seq::empty()) =~= x + y.push(Seq::empty()));
        } else {
            let c = b.last();
            assert((x + y).update((x + y).len() - 1, (x + y).last().push(c)) =~= x + y.update(
                y.len() - 1,
                y.last().push(c),
            ));
        }
    }
}

/// A text without the separator is a single piece.
pub proof fn lemma_split_single(a: Seq<char>, sep: char)
    requires
        !a.contains(sep),
    ensures
        split_on(a, sep) == seq![a],
    decreases a.len(),
{
    if a.len() > 0 {
        assert(!a.drop_last().contains(sep)) by {
            if a.drop_last().contains(sep) {
                let k = choose|k: int| 0 <= k < a.drop_last().len() && a.drop_last()[k] == sep;
                assert(a[k] == sep);
            }
        }
        lemma_split_single(a.drop_last(), sep);
        assert(a.last() != sep) by {
            assert(a[a.len() - 1] == a.last());
        }
        assert(a.drop_last().push(a.last()) =~= a);
        assert(seq![a.drop_last()].update(0, a) =~= seq![a]);
    } else {
        assert(a =~= Seq::<char>::empty());
    }
}

/// Decimal renderings are made of digits only.
pub proof fn lemma_decimal_digits(n: nat)
    ensures
        forall|i: int| 0 <= i < decimal(n).len() ==> '0' <= #[trigger] decimal(n)[i] <= '9',
    decreases n,
{
    if n >= 10 {
        lemma_decimal_digits(n / 10);
        assert forall|i: int| 0 <= i < decimal(n).len() implies '0' <= #[trigger] decimal(n)[i] <= '9' by {
            if i < decimal(n / 10).len() {
                assert(decimal(n)[i] == decimal(n / 10)[i]);
            }
        }
    }
}

/// Two-digit renderings hold no `:`.
pub proof fn lemma_two_digit_no_colon(n: nat)
    ensures
        !two_digit(n).contains(':'),
{
    lemma_decimal_digits(n);
    if two_digit(n).contains(':') {
        let k = choose|k: int| 0 <= k < two_digit(n).len() && two_digit(n)[k] == ':';
        if n < 10 {
            if k > 0 {
                assert(two_digit(n)[k] == decimal(n)[k - 1]);
            }
        } else {
            assert(two_digit(n)[k] == decimal(n)[k]);
        }
    }
}

/// Whether every character of `s` is a decimal digit.
pub open spec fn all_decimal_digits(s: Seq<char>) -> bool {
    forall|i: int| 0 <= i < s.len() ==> '0' <= #[trigger] s[i] <= '9'
}

/// The number that a text of decimal digits denotes.
pub open spec fn digits_value(s: Seq<char>) -> int
    decreases s.len(),
{
    if s.len() == 0 {
        0
    } else {
        digits_value(s.drop_last()) * 10 + (s.last() as int - 48)
    }
}

proof fn lemma_digit_char(d: nat)
    requires
        d < 10,
    ensures
        digit_char(d) as int == d + 48,
        '0' <= digit_char(d) <= '9',
{
}

/// A decimal rendering is a text of digits that denotes the number, with no
/// leading zero; it has one digit below 10, two below 100, more above.
pub proof fn lemma_decimal_value(n: nat)
    ensures
        all_decimal_digits(decimal(n)),
        digits_value(decimal(n)) == n,
        decimal(n).len() >= 1,
        decimal(n).len() > 1 ==> decimal(n)[0] != '0',
        n < 10 <==> decimal(n).len() == 1,
        (10 <= n < 100) <==> decimal(n).len() == 2,
    decreases n,
{
    if n < 10 {
        lemma_digit_char(n);
        assert(decimal(n).drop_last() =~= Seq::<char>::empty());
        assert(digits_value(decimal(n)) == digits_value(Seq::<char>::empty()) * 10 + (decimal(n).last() as int - 48));
    } else {
        lemma_decimal_value(n / 10);
        lemma_digit_char(n % 10);
        let d = decimal(n / 10);
        assert(decimal(n).drop_last() =~= d);
        assert(decimal(n).last() == digit_char(n % 10));
        assert(digits_value(decimal(n)) == (n / 10) * 10 + (n % 10));
        assert(decimal(n)[0] == d[0]);
        assert forall|i: int| 0 <= i < decimal(n).len() implies '0' <= #[trigger] decimal(n)[i] <= '9' by {
            if i < d.len() {
                assert(decimal(n)[i] == d[i]);
            }
        }
        if d.len() == 1 {
            assert(n / 10 < 10);
        }
        if n < 100 {
            assert(n / 10 < 10);
        }
    }
}

proof fn lemma_value_leading_zero(s: Seq<char>)
    ensures
        digits_value(seq!['0'] + s) == digits_value(s),
    decreases s.len(),
{
    if s.len() == 0 {
        assert((seq!['0'] + s).drop_last() =~= Seq::<char>::empty());
        assert(s =~= Seq::<char>::empty());
        assert(digits_value(seq!['0'] + s) == digits_value(Seq::<char>::empty()) * 10 + ('0' as int - 48));
    } else {
        lemma_value_leading_zero(s.drop_last());
        assert((seq!['0'] + s).drop_last() =~= seq!['0'] + s.drop_last());
        assert((seq!['0'] + s).last() == s.last());
    }
}

/// A two-digit field is a text of at least two digits that denotes the
/// number, with a leading zero only to reach two digits.
pub proof fn lemma_two_digit_value(n: nat)
    ensures
        two_digit(n).len() >= 2,
        all_decimal_digits(two_digit(n)),
        digits_value(two_digit(n)) == n,
        two_digit(n).len() > 2 ==> two_digit(n)[0] != '0',
        n < 100 ==> two_digit(n).len() == 2,
{
    lemma_decimal_value(n);
    if n < 10 {
        lemma_value_leading_zero(decimal(n));
        let t = two_digit(n);
        assert forall|i: int| 0 <= i < t.len() implies '0' <= #[trigger] t[i] <= '9' by {
            if i > 0 {
                assert(t[i] == decimal(n)[i - 1]);
            }
        }
    }
}

} // verus!
