//! Character-level text operations with their specifications.
//!
//! Strings are viewed as sequences of `char`; the spec functions below state
//! what the corresponding `str` operations of the standard library compute
//! (`trim`, `lines`, `split_once`, `starts_with`, `replace`, `join`, and the
//! decimal rendering of integers), and the executable functions are proved
//! against them.

use vstd::prelude::*;

verus! {

// ---------------------------------------------------------------------------
// Specifications
// ---------------------------------------------------------------------------

/// The Unicode `White_Space` property, which is what `char::is_whitespace`
/// tests.
pub open spec fn is_ws(c: char) -> bool {
    ||| c == ' '
    ||| ('\t' <= c && c <= '\r')
    ||| c == '\u{85}'
    ||| c == '\u{A0}'
    ||| c == '\u{1680}'
    ||| ('\u{2000}' <= c && c <= '\u{200A}')
    ||| c == '\u{2028}'
    ||| c == '\u{2029}'
    ||| c == '\u{202F}'
    ||| c == '\u{205F}'
    ||| c == '\u{3000}'
}

/// `s` without its leading whitespace.
pub open spec fn trim_start(s: Seq<char>) -> Seq<char>
    decreases s.len(),
{
    if s.len() > 0 && is_ws(s[0]) {
        trim_start(s.drop_first())
    } else {
        s
    }
}

/// `s` without its trailing whitespace.
pub open spec fn trim_end(s: Seq<char>) -> Seq<char>
    decreases s.len(),
{
    if s.len() > 0 && is_ws(s.last()) {
        trim_end(s.drop_last())
    } else {
        s
    }
}

/// `s` without leading and trailing whitespace (`str::trim`).
pub open spec fn trim(s: Seq<char>) -> Seq<char> {
    trim_end(trim_start(s))
}

/// `s` begins with `p` (`str::starts_with`).
pub open spec fn starts_with(s: Seq<char>, p: Seq<char>) -> bool {
    p.len() <= s.len() && s.subrange(0, p.len() as int) == p
}

/// The position of the first `c` in `s`, if any.
pub open spec fn find_char(s: Seq<char>, c: char) -> Option<nat>
    decreases s.len(),
{
    if s.len() == 0 {
        None
    } else if s[0] == c {
        Some(0)
    } else {
        match find_char(s.drop_first(), c) {
            Some(k) => Some(k + 1),
            None => None,
        }
    }
}

/// `c` occurs in `s`.
pub open spec fn has_char(s: Seq<char>, c: char) -> bool {
    exists|i: int| 0 <= i < s.len() && s[i] == c
}

/// The parts of `s` before and after its first `c` (`str::split_once`).
pub open spec fn split_once(s: Seq<char>, c: char) -> Option<(Seq<char>, Seq<char>)> {
    match find_char(s, c) {
        Some(k) => Some((s.subrange(0, k as int), s.subrange(k as int + 1, s.len() as int))),
        None => None,
    }
}

/// `t` without one trailing carriage return.
pub open spec fn strip_cr(t: Seq<char>) -> Seq<char> {
    if t.len() > 0 && t.last() == '\r' {
        t.drop_last()
    } else {
        t
    }
}

/// The lines of `s` (`str::lines`): split at each `'\n'`, a `"\r\n"` ending
/// counts as one line end, and a final line end yields no empty last line.
pub open spec fn lines(s: Seq<char>) -> Seq<Seq<char>>
    decreases s.len(),
{
    if s.len() == 0 {
        Seq::empty()
    } else {
        match find_char(s, '\n') {
            Some(k) => {
                proof {
                    lemma_find_char_props(s, '\n');
                }
                seq![strip_cr(s.subrange(0, k as int))] + lines(
                    s.subrange(k as int + 1, s.len() as int),
                )
            },
            None => seq![s],
        }
    }
}

/// The parts joined with `sep` between neighbours (`[T]::join`).
pub open spec fn join(parts: Seq<Seq<char>>, sep: Seq<char>) -> Seq<char>
    decreases parts.len(),
{
    if parts.len() == 0 {
        Seq::empty()
    } else if parts.len() == 1 {
        parts[0]
    } else {
        parts[0] + sep + join(parts.drop_first(), sep)
    }
}

/// `s` with every non-overlapping occurrence of `p`, leftmost first,
/// replaced by `r` (`str::replace`, for a non-empty `p`).
pub open spec fn replace_all(s: Seq<char>, p: Seq<char>, r: Seq<char>) -> Seq<char>
    decreases s.len(),
{
    if p.len() == 0 || s.len() < p.len() {
        s
    } else if s.subrange(0, p.len() as int) == p {
        r + replace_all(s.subrange(p.len() as int, s.len() as int), p, r)
    } else {
        seq![s[0]] + replace_all(s.drop_first(), p, r)
    }
}

/// `s` cut at each `c` into at most `n` parts, the last holding the rest
/// (`str::splitn` with a character pattern, for `n >= 1`).
pub open spec fn splitn(s: Seq<char>, n: nat, c: char) -> Seq<Seq<char>>
    decreases n,
{
    if n <= 1 {
        seq![s]
    } else {
        match find_char(s, c) {
            Some(k) => {
                proof {
                    lemma_find_char_props(s, c);
                }
                seq![s.subrange(0, k as int)] + splitn(
                    s.subrange(k as int + 1, s.len() as int),
                    (n - 1) as nat,
                    c,
                )
            },
            None => seq![s],
        }
    }
}

/// An ASCII decimal digit.
pub open spec fn is_digit(c: char) -> bool {
    '0' <= c && c <= '9'
}

/// The value of an ASCII decimal digit.
pub open spec fn digit_value(c: char) -> int {
    c as int - '0' as int
}

/// The number that the digits of `t` spell.
pub open spec fn digits_value(t: Seq<char>) -> int
    decreases t.len(),
{
    if t.len() == 0 {
        0
    } else {
        digits_value(t.drop_last()) * 10 + digit_value(t.last())
    }
}

/// What `FromStr` gives for an unsigned integer type whose largest value is
/// `max`: an optional `+`, then one or more ASCII digits whose value is at
/// most `max`; anything else is an error.
pub open spec fn unsigned_from_str(s: Seq<char>, max: int) -> Option<int> {
    let t = unsigned_digits(s);
    if t.len() > 0 && all_digits(t) && digits_value(t) <= max {
        Some(digits_value(t))
    } else {
        None
    }
}

/// What `FromStr` gives for `i32`: an optional sign, then one or more
/// ASCII digits whose signed value fits; anything else is an error.
pub open spec fn i32_from_str(s: Seq<char>) -> Option<int> {
    if s.len() > 0 && s[0] == '-' {
        let t = s.drop_first();
        if t.len() > 0 && all_digits(t) && digits_value(t) <= 0x8000_0000 {
            Some(-digits_value(t))
        } else {
            None
        }
    } else {
        unsigned_from_str(s, 0x7fff_ffff)
    }
}

/// `s` without one leading `+`.
pub open spec fn unsigned_digits(s: Seq<char>) -> Seq<char> {
    if s.len() > 0 && s[0] == '+' {
        s.drop_first()
    } else {
        s
    }
}

/// Every character of `t` is an ASCII digit.
pub open spec fn all_digits(t: Seq<char>) -> bool {
    forall|i: int| 0 <= i < t.len() ==> is_digit(#[trigger] t[i])
}

/// The ASCII digit for `d`.
pub open spec fn digit(d: nat) -> char {
    if d == 0 {
        '0'
    } else if d == 1 {
        '1'
    } else if d == 2 {
        '2'
    } else if d == 3 {
        '3'
    } else if d == 4 {
        '4'
    } else if d == 5 {
        '5'
    } else if d == 6 {
        '6'
    } else if d == 7 {
        '7'
    } else if d == 8 {
        '8'
    } else {
        '9'
    }
}

/// The decimal digits of `n`, without leading zeros.
pub open spec fn nat_decimal(n: nat) -> Seq<char>
    decreases n,
{
    if n < 10 {
        seq![digit(n)]
    } else {
        nat_decimal(n / 10).push(digit(n % 10))
    }
}

/// The decimal rendering of `i` (`Display` for integers).
pub open spec fn int_decimal(i: int) -> Seq<char> {
    if i < 0 {
        seq!['-'] + nat_decimal((-i) as nat)
    } else {
        nat_decimal(i as nat)
    }
}

/// The rendering of `i` with the format `{:02}`: zero-padded to two
/// characters, the sign counting towards the width.
pub open spec fn int_decimal_pad2(i: int) -> Seq<char> {
    if 0 <= i < 10 {
        seq!['0', digit(i as nat)]
    } else {
        int_decimal(i)
    }
}

/// `p` occurs in `s` at position `i`.
pub open spec fn occurs_at(s: Seq<char>, p: Seq<char>, i: int) -> bool {
    0 <= i && i + p.len() <= s.len() && s.subrange(i, i + p.len()) == p
}

/// `p` occurs somewhere in `s` (`str::contains`).
pub open spec fn contains(s: Seq<char>, p: Seq<char>) -> bool {
    exists|i: int| occurs_at(s, p, i)
}

/// The character views of a sequence of character vectors.
pub open spec fn views(ls: Seq<Vec<char>>) -> Seq<Seq<char>> {
    ls.map_values(|l: Vec<char>| l@)
}

/// Integer division rounding towards zero, as Rust's `/` does.
pub open spec fn trunc_div(a: int, b: int) -> int {
    if a >= 0 {
        a / b
    } else {
        -((-a) / b)
    }
}

/// The remainder of [`trunc_div`], as Rust's `%` computes it.
pub open spec fn trunc_rem(a: int, b: int) -> int {
    a - b * trunc_div(a, b)
}

/// A duration in seconds as `M:SS` (`format!("{}:{:02}", s / 60, s % 60)`).
pub open spec fn duration_text(seconds: int) -> Seq<char> {
    int_decimal(trunc_div(seconds, 60)) + seq![':'] + int_decimal_pad2(trunc_rem(seconds, 60))
}

// ---------------------------------------------------------------------------
// Lemmas
// ---------------------------------------------------------------------------

/// The first `c` of `s` is at `k`.
pub proof fn lemma_find_char_at(s: Seq<char>, c: char, k: int)
    requires
        0 <= k < s.len(),
        s[k] == c,
        forall|j: int| 0 <= j < k ==> s[j] != c,
    ensures
        find_char(s, c) == Some(k as nat),
    decreases k,
{
    if k > 0 {
        lemma_find_char_at(s.drop_first(), c, k - 1);
    }
}

/// `s` has no `c`.
pub proof fn lemma_find_char_none(s: Seq<char>, c: char)
    requires
        forall|j: int| 0 <= j < s.len() ==> s[j] != c,
    ensures
        find_char(s, c) is None,
    decreases s.len(),
{
    if s.len() > 0 {
        lemma_find_char_none(s.drop_first(), c);
    }
}

/// What `find_char` reports is the first `c`.
pub proof fn lemma_find_char_props(s: Seq<char>, c: char)
    ensures
        find_char(s, c) matches Some(k) ==> k < s.len() && s[k as int] == c && forall|j: int|
            0 <= j < k ==> s[j] != c,
        find_char(s, c) is None ==> forall|j: int| 0 <= j < s.len() ==> s[j] != c,
    decreases s.len(),
{
    if s.len() > 0 {
        lemma_find_char_props(s.drop_first(), c);
        if s[0] != c {
            assert forall|j: int| 1 <= j < s.len() implies s[j] == s.drop_first()[j - 1] by {}
        }
    }
}

/// A decimal rendering has at least one digit, and two or more from 10 on.
pub proof fn lemma_nat_decimal_len(n: nat)
    ensures
        nat_decimal(n).len() >= 1,
        n >= 10 ==> nat_decimal(n).len() >= 2,
    decreases n,
{
    if n >= 10 {
        lemma_nat_decimal_len(n / 10);
    }
}

/// Different numbers have different decimal renderings.
pub proof fn lemma_nat_decimal_injective(a: nat, b: nat)
    requires
        nat_decimal(a) == nat_decimal(b),
    ensures
        a == b,
    decreases a,
{
    lemma_nat_decimal_len(a);
    lemma_nat_decimal_len(b);
    if a < 10 && b < 10 {
        assert(nat_decimal(a) == seq![digit(a)]);
        assert(nat_decimal(b) == seq![digit(b)]);
        assert(digit(a) == seq![digit(a)][0]);
        assert(digit(a) == digit(b));
    } else if a < 10 {
        assert(nat_decimal(a).len() == 1);
    } else if b < 10 {
        assert(nat_decimal(b).len() == 1);
    } else {
        let da = nat_decimal(a);
        let db = nat_decimal(b);
        assert(da.last() == db.last());
        assert(digit(a % 10) == digit(b % 10));
        assert(a % 10 == b % 10);
        assert(da.drop_last() =~= nat_decimal(a / 10));
        assert(db.drop_last() =~= nat_decimal(b / 10));
        lemma_nat_decimal_injective(a / 10, b / 10);
        assert(a == 10 * (a / 10) + a % 10) by (nonlinear_arith);
        assert(b == 10 * (b / 10) + b % 10) by (nonlinear_arith);
    }
}

/// The digit for `d` is a digit whose value is `d`.
pub proof fn lemma_digit_value(d: nat)
    requires
        d < 10,
    ensures
        is_digit(digit(d)),
        digit_value(digit(d)) == d,
{
    if d == 0 {
    } else if d == 1 {
    } else if d == 2 {
    } else if d == 3 {
    } else if d == 4 {
    } else if d == 5 {
    } else if d == 6 {
    } else if d == 7 {
    } else if d == 8 {
    } else {
    }
}

/// Every character of a decimal rendering is a digit, and the digits spell
/// the number.
pub proof fn lemma_nat_decimal_digits(n: nat)
    ensures
        forall|i: int| 0 <= i < nat_decimal(n).len() ==> is_digit(#[trigger] nat_decimal(n)[i]),
        digits_value(nat_decimal(n)) == n,
    decreases n,
{
    lemma_digit_value(n % 10);
    let d = nat_decimal(n);
    if n < 10 {
        assert(d == seq![digit(n)]);
        assert(d.drop_last() =~= Seq::<char>::empty());
        assert(digits_value(Seq::<char>::empty()) == 0);
        assert(n % 10 == n);
        assert(d.last() == digit(n));
        assert(digits_value(d) == digits_value(d.drop_last()) * 10 + digit_value(d.last()));
    } else {
        lemma_nat_decimal_digits(n / 10);
        let p = nat_decimal(n / 10);
        assert(d == p.push(digit(n % 10)));
        assert(d.drop_last() =~= p);
        assert(d.last() == digit(n % 10));
        assert forall|i: int| 0 <= i < d.len() implies is_digit(#[trigger] d[i]) by {
            if i < d.len() - 1 {
                assert(d[i] == p[i]);
            }
        }
        assert(digits_value(d) == digits_value(p) * 10 + digit_value(digit(n % 10)));
        assert(n == 10 * (n / 10) + n % 10) by (nonlinear_arith);
    }
}

/// Parsing the decimal rendering of `n` gives `n` back, when it fits.
pub proof fn lemma_decimal_parses_back(n: nat, max: int)
    requires
        n <= max,
    ensures
        unsigned_from_str(nat_decimal(n), max) == Some(n as int),
{
    lemma_nat_decimal_digits(n);
    lemma_nat_decimal_len(n);
    let d = nat_decimal(n);
    assert(d[0] != '+') by {
        assert(is_digit(d[0]));
    }
}

/// Cutting joined parts at the separator gives the parts back, when no part
/// but the last holds the separator.
pub proof fn lemma_splitn_join(ps: Seq<Seq<char>>, c: char)
    requires
        ps.len() >= 1,
        forall|i: int| 0 <= i < ps.len() - 1 ==> !has_char(#[trigger] ps[i], c),
    ensures
        splitn(join(ps, seq![c]), ps.len(), c) == ps,
    decreases ps.len(),
{
    if ps.len() == 1 {
        assert(splitn(join(ps, seq![c]), ps.len(), c) =~= ps);
    } else {
        let rest = ps.drop_first();
        let l = ps[0];
        let j = join(ps, seq![c]);
        assert(j == l + seq![c] + join(rest, seq![c]));
        assert(!has_char(l, c));
        assert forall|k: int| 0 <= k < l.len() implies j[k] != c by {
            assert(j[k] == l[k]);
        }
        lemma_find_char_at(j, c, l.len() as int);
        assert(j.subrange(0, l.len() as int) =~= l);
        assert(j.subrange(l.len() as int + 1, j.len() as int) =~= join(rest, seq![c]));
        assert forall|i: int| 0 <= i < rest.len() - 1 implies !has_char(#[trigger] rest[i], c) by {
            assert(rest[i] == ps[i + 1]);
        }
        lemma_splitn_join(rest, c);
        assert(splitn(j, ps.len(), c) =~= seq![l] + rest);
        assert(seq![l] + rest =~= ps);
    }
}

/// The digits of an all-digit sequence spell a non-negative number.
pub proof fn lemma_digits_value_nonneg(t: Seq<char>)
    requires
        forall|i: int| 0 <= i < t.len() ==> is_digit(#[trigger] t[i]),
    ensures
        digits_value(t) >= 0,
    decreases t.len(),
{
    if t.len() > 0 {
        let p = t.drop_last();
        assert forall|i: int| 0 <= i < p.len() implies is_digit(#[trigger] p[i]) by {
            assert(p[i] == t[i]);
        }
        lemma_digits_value_nonneg(p);
        assert(is_digit(t.last()));
    }
}

/// The value of a prefix of an all-digit sequence is at most that of the
/// whole.
pub proof fn lemma_digits_value_grows(t: Seq<char>, k: int)
    requires
        0 <= k <= t.len(),
        forall|i: int| 0 <= i < t.len() ==> is_digit(#[trigger] t[i]),
    ensures
        digits_value(t.take(k)) <= digits_value(t),
    decreases t.len() - k,
{
    if k < t.len() {
        lemma_digits_value_grows(t, k + 1);
        let p = t.take(k);
        assert(t.take(k + 1).drop_last() =~= p);
        assert(t.take(k + 1).last() == t[k]);
        assert forall|i: int| 0 <= i < p.len() implies is_digit(#[trigger] p[i]) by {
            assert(p[i] == t[i]);
        }
        lemma_digits_value_nonneg(p);
        assert(is_digit(t[k]));
    } else {
        assert(t.take(k) =~= t);
    }
}

/// A character that is in neither of two sequences is not in their
/// concatenation.
pub proof fn lemma_has_char_concat(a: Seq<char>, b: Seq<char>, c: char)
    ensures
        has_char(a + b, c) == (has_char(a, c) || has_char(b, c)),
{
    if has_char(a + b, c) {
        let i = choose|i: int| 0 <= i < (a + b).len() && (a + b)[i] == c;
        if i >= a.len() {
            assert(b[i - a.len()] == c);
        }
    }
    if has_char(a, c) {
        let i = choose|i: int| 0 <= i < a.len() && a[i] == c;
        assert((a + b)[i] == c);
    }
    if has_char(b, c) {
        let i = choose|i: int| 0 <= i < b.len() && b[i] == c;
        assert((a + b)[a.len() + i] == c);
    }
}

/// Joined parts start with the first part.
pub proof fn lemma_join_starts_with_first(ps: Seq<Seq<char>>, sep: Seq<char>)
    requires
        ps.len() >= 1,
    ensures
        starts_with(join(ps, sep), ps[0]),
{
    let j = join(ps, sep);
    if ps.len() == 1 {
        assert(j.subrange(0, ps[0].len() as int) =~= ps[0]);
    } else {
        assert(j == ps[0] + sep + join(ps.drop_first(), sep));
        assert(j.subrange(0, ps[0].len() as int) =~= ps[0]);
    }
}

/// Joining one more part appends the separator and that part.
pub proof fn lemma_join_push(ps: Seq<Seq<char>>, x: Seq<char>, sep: Seq<char>)
    requires
        ps.len() >= 1,
    ensures
        join(ps.push(x), sep) == join(ps, sep) + sep + x,
    decreases ps.len(),
{
    if ps.len() == 1 {
        assert(ps.push(x).drop_first() =~= seq![x]);
        assert(join(seq![x], sep) == x);
        assert(join(ps.push(x), sep) =~= join(ps, sep) + sep + x);
    } else {
        assert(ps.push(x).drop_first() =~= ps.drop_first().push(x));
        lemma_join_push(ps.drop_first(), x, sep);
        assert(join(ps.push(x), sep) =~= join(ps, sep) + sep + x);
    }
}

/// Trailing whitespace after a character sequence does not survive `trim`.
pub proof fn lemma_trim_start_push_ws(u: Seq<char>, c: char)
    requires
        is_ws(c),
    ensures
        trim_start(u.push(c)) == (if trim_start(u).len() == 0 {
            Seq::<char>::empty()
        } else {
            trim_start(u).push(c)
        }),
    decreases u.len(),
{
    if u.len() == 0 {
        assert(u.push(c).drop_first() =~= Seq::<char>::empty());
        assert(trim_start(Seq::<char>::empty()) == Seq::<char>::empty());
        assert(u.push(c)[0] == c);
    } else if is_ws(u[0]) {
        assert(u.push(c).drop_first() =~= u.drop_first().push(c));
        assert(u.push(c)[0] == u[0]);
        lemma_trim_start_push_ws(u.drop_first(), c);
    } else {
        assert(u.push(c)[0] == u[0]);
    }
}

/// A trailing whitespace character does not change `trim`.
pub proof fn lemma_trim_push_ws(u: Seq<char>, c: char)
    requires
        is_ws(c),
    ensures
        trim(u.push(c)) == trim(u),
{
    lemma_trim_start_push_ws(u, c);
    let w = trim_start(u);
    if w.len() > 0 {
        assert(w.push(c).drop_last() =~= w);
    }
}

/// Dropping a final carriage return does not change `trim`.
pub proof fn lemma_trim_strip_cr(t: Seq<char>)
    ensures
        trim(strip_cr(t)) == trim(t),
{
    if t.len() > 0 && t.last() == '\r' {
        assert(t.drop_last().push('\r') =~= t);
        lemma_trim_push_ws(t.drop_last(), '\r');
    }
}

/// A sequence that starts and ends with non-whitespace is its own `trim`.
pub proof fn lemma_trim_fixed(t: Seq<char>)
    requires
        t.len() > 0,
        !is_ws(t[0]),
        !is_ws(t.last()),
    ensures
        trim(t) == t,
{
}

/// No line of `s` holds a line feed.
pub proof fn lemma_lines_no_newline(s: Seq<char>)
    ensures
        forall|i: int| 0 <= i < lines(s).len() ==> !has_char(#[trigger] lines(s)[i], '\n'),
    decreases s.len(),
{
    if s.len() > 0 {
        lemma_find_char_props(s, '\n');
        match find_char(s, '\n') {
            Some(k) => {
                let rest = s.subrange(k as int + 1, s.len() as int);
                lemma_lines_no_newline(rest);
                let first = strip_cr(s.subrange(0, k as int));
                assert(!has_char(first, '\n')) by {
                    if has_char(first, '\n') {
                        let j = choose|j: int| 0 <= j < first.len() && first[j] == '\n';
                        assert(s[j] == '\n');
                    }
                }
                assert forall|i: int| 0 <= i < lines(s).len() implies !has_char(
                    #[trigger] lines(s)[i],
                    '\n',
                ) by {
                    if i > 0 {
                        assert(lines(s)[i] == lines(rest)[i - 1]);
                    }
                }
            },
            None => {
                assert(lines(s) =~= seq![s]);
            },
        }
    }
}

// ---------------------------------------------------------------------------
// Executable operations
// ---------------------------------------------------------------------------

/// Appends one character to a `String` (`String::push`).
#[verifier::external_body]
fn push_char(s: &mut String, c: char)
    ensures
        final(s)@ == old(s)@.push(c),
{
    s.push(c);
}

/// The characters of `s`, in order.
pub fn chars_of(s: &str) -> (v: Vec<char>)
    ensures
        v@ == s@,
{
    let mut v: Vec<char> = Vec::new();
    for c in it: s.chars()
        invariant
            v@ == it.seq().take(it.index()),
    {
        v.push(c);
    }
    v
}

/// A `String` holding exactly the characters of `v`.
pub fn string_of(v: &[char]) -> (s: String)
    ensures
        s@ == v@,
{
    let mut s = String::new();
    let mut i: usize = 0;
    while i < v.len()
        invariant
            i <= v.len(),
            s@ == v@.take(i as int),
        decreases v.len() - i,
    {
        push_char(&mut s, v[i]);
        assert(v@.take(i + 1) =~= v@.take(i as int).push(v@[i as int]));
        i = i + 1;
    }
    assert(v@.take(v.len() as int) =~= v@);
    s
}

/// Whether `c` is whitespace (`char::is_whitespace`).
pub fn is_whitespace(c: char) -> (b: bool)
    ensures
        b == is_ws(c),
{
    c == ' ' || ('\t' <= c && c <= '\r') || c == '\u{85}' || c == '\u{A0}' || c == '\u{1680}'
        || ('\u{2000}' <= c && c <= '\u{200A}') || c == '\u{2028}' || c == '\u{2029}' || c
        == '\u{202F}' || c == '\u{205F}' || c == '\u{3000}'
}

/// `s` without leading and trailing whitespace.
pub fn trim_chars(s: &[char]) -> (t: Vec<char>)
    ensures
        t@ == trim(s@),
{
    let n = s.len();
    let mut i: usize = 0;
    assert(s@.subrange(0, n as int) =~= s@);
    while i < n && is_whitespace(s[i])
        invariant
            i <= n,
            n == s@.len(),
            trim_start(s@) == trim_start(s@.subrange(i as int, n as int)),
        decreases n - i,
    {
        assert(s@.subrange(i as int, n as int).drop_first() =~= s@.subrange(i + 1, n as int));
        i = i + 1;
    }
    let ghost t0 = s@.subrange(i as int, n as int);
    assert(trim_start(s@) == t0);
    let mut j: usize = n;
    while j > i && is_whitespace(s[j - 1])
        invariant
            i <= j <= n,
            n == s@.len(),
            t0 == s@.subrange(i as int, n as int),
            trim_end(t0) == trim_end(s@.subrange(i as int, j as int)),
        decreases j,
    {
        assert(s@.subrange(i as int, j as int).drop_last() =~= s@.subrange(i as int, j - 1));
        j = j - 1;
    }
    let mut t: Vec<char> = Vec::new();
    let mut k: usize = i;
    while k < j
        invariant
            i <= k <= j <= n,
            n == s@.len(),
            t@ == s@.subrange(i as int, k as int),
        decreases j - k,
    {
        t.push(s[k]);
        assert(t@ =~= s@.subrange(i as int, k + 1));
        k = k + 1;
    }
    t
}

/// `s` begins with `p`.
pub fn starts_with_chars(s: &[char], p: &[char]) -> (b: bool)
    ensures
        b == starts_with(s@, p@),
{
    if p.len() > s.len() {
        return false;
    }
    let mut i: usize = 0;
    while i < p.len()
        invariant
            p.len() <= s.len(),
            i <= p.len(),
            s@.subrange(0, i as int) == p@.subrange(0, i as int),
        decreases p.len() - i,
    {
        if s[i] != p[i] {
            assert(s@.subrange(0, p.len() as int)[i as int] != p@[i as int]);
            return false;
        }
        assert(s@.subrange(0, i + 1) =~= s@.subrange(0, i as int).push(s@[i as int]));
        assert(p@.subrange(0, i + 1) =~= p@.subrange(0, i as int).push(p@[i as int]));
        i = i + 1;
    }
    assert(p@.subrange(0, p.len() as int) =~= p@);
    true
}

/// The position of the first `c` in `s`.
pub fn find_char_index(s: &[char], c: char) -> (r: Option<usize>)
    ensures
        r matches Some(k) ==> find_char(s@, c) == Some(k as nat) && k < s@.len() && s@[k as int]
            == c && forall|j: int| 0 <= j < k ==> s@[j] != c,
        r is None ==> find_char(s@, c) is None && forall|j: int| 0 <= j < s@.len() ==> s@[j] != c,
{
    let mut i: usize = 0;
    while i < s.len()
        invariant
            i <= s.len(),
            forall|j: int| 0 <= j < i ==> s@[j] != c,
        decreases s.len() - i,
    {
        if s[i] == c {
            proof {
                lemma_find_char_at(s@, c, i as int);
            }
            return Some(i);
        }
        i = i + 1;
    }
    proof {
        lemma_find_char_none(s@, c);
    }
    None
}

/// The characters of `s` from `lo` up to `hi`.
pub fn slice_chars(s: &[char], lo: usize, hi: usize) -> (t: Vec<char>)
    requires
        lo <= hi <= s.len(),
    ensures
        t@ == s@.subrange(lo as int, hi as int),
{
    let mut t: Vec<char> = Vec::new();
    let mut k: usize = lo;
    while k < hi
        invariant
            lo <= k <= hi <= s.len(),
            t@ == s@.subrange(lo as int, k as int),
        decreases hi - k,
    {
        t.push(s[k]);
        assert(t@ =~= s@.subrange(lo as int, k + 1));
        k = k + 1;
    }
    t
}

/// The parts of `s` around its first `c`.
pub fn split_once_chars(s: &[char], c: char) -> (r: Option<(Vec<char>, Vec<char>)>)
    ensures
        r matches Some((a, b)) ==> split_once(s@, c) == Some((a@, b@)),
        r is None ==> split_once(s@, c) is None,
{
    match find_char_index(s, c) {
        Some(k) => {
            assert(k < s.len());
            let a = slice_chars(s, 0, k);
            let b = slice_chars(s, k + 1, s.len());
            Some((a, b))
        },
        None => None,
    }
}

/// Appends all of `b` to `a`.
pub fn extend_chars(a: &mut Vec<char>, b: &[char])
    ensures
        final(a)@ == old(a)@ + b@,
{
    let ghost a0 = a@;
    let mut i: usize = 0;
    while i < b.len()
        invariant
            i <= b.len(),
            a@ == a0 + b@.subrange(0, i as int),
        decreases b.len() - i,
    {
        a.push(b[i]);
        assert(b@.subrange(0, i + 1) =~= b@.subrange(0, i as int).push(b@[i as int]));
        assert(a@ =~= a0 + b@.subrange(0, i + 1));
        i = i + 1;
    }
    assert(b@.subrange(0, b.len() as int) =~= b@);
}

/// `t` without one trailing carriage return.
pub fn strip_cr_chars(t: &mut Vec<char>)
    ensures
        final(t)@ == strip_cr(old(t)@),
{
    if t.len() > 0 && t[t.len() - 1] == '\r' {
        t.pop();
    }
}

/// The lines of `s`.
pub fn lines_of(s: &[char]) -> (ls: Vec<Vec<char>>)
    ensures
        views(ls@) == lines(s@),
{
    let n = s.len();
    let mut out: Vec<Vec<char>> = Vec::new();
    let mut start: usize = 0;
    let mut i: usize = 0;
    assert(s@.subrange(0, n as int) =~= s@);
    while i < n
        invariant
            n == s@.len(),
            start <= i <= n,
            forall|j: int| start <= j < i ==> s@[j] != '\n',
            lines(s@) == views(out@) + lines(s@.subrange(start as int, n as int)),
        decreases n - i,
    {
        if s[i] == '\n' {
            let ghost t = s@.subrange(start as int, n as int);
            proof {
                lemma_find_char_at(t, '\n', i - start);
                assert(t.subrange(0, i - start) =~= s@.subrange(start as int, i as int));
                assert(t.subrange(i - start + 1, t.len() as int) =~= s@.subrange(
                    i + 1,
                    n as int,
                ));
            }
            let mut line = slice_chars(s, start, i);
            strip_cr_chars(&mut line);
            let ghost old_out = out@;
            out.push(line);
            assert(views(out@) =~= views(old_out).push(line@));
            assert(views(out@) + lines(s@.subrange(i + 1, n as int)) =~= views(old_out) + lines(t));
            start = i + 1;
        }
        i = i + 1;
    }
    let ghost t = s@.subrange(start as int, n as int);
    if start < n {
        proof {
            lemma_find_char_none(t, '\n');
        }
        let line = slice_chars(s, start, n);
        let ghost old_out = out@;
        out.push(line);
        assert(views(out@) =~= views(old_out).push(line@));
        assert(views(out@) =~= views(old_out) + lines(t));
    } else {
        assert(views(out@) =~= views(out@) + lines(t));
    }
    out
}

/// The parts joined with `sep` between neighbours.
pub fn join_chars(parts: &Vec<Vec<char>>, sep: &[char]) -> (r: Vec<char>)
    ensures
        r@ == join(views(parts@), sep@),
{
    let mut acc: Vec<char> = Vec::new();
    let mut i: usize = 0;
    while i < parts.len()
        invariant
            i <= parts.len(),
            acc@ == join(views(parts@).take(i as int), sep@),
        decreases parts.len() - i,
    {
        let ghost ps = views(parts@);
        if i > 0 {
            extend_chars(&mut acc, sep);
        }
        extend_chars(&mut acc, &parts[i]);
        proof {
            let t = ps.take(i + 1);
            assert(t =~= ps.take(i as int).push(parts@[i as int]@));
            if i == 0 {
                assert(acc@ =~= t[0]);
            } else {
                lemma_join_push(ps.take(i as int), parts@[i as int]@, sep@);
            }
        }
        i = i + 1;
    }
    assert(views(parts@).take(parts.len() as int) =~= views(parts@));
    acc
}

/// Whether `p` occurs in `s` at position `i`.
pub fn occurs_at_chars(s: &[char], p: &[char], i: usize) -> (b: bool)
    ensures
        b == occurs_at(s@, p@, i as int),
{
    if i > s.len() || p.len() > s.len() - i {
        return false;
    }
    let mut k: usize = 0;
    while k < p.len()
        invariant
            i + p.len() <= s.len(),
            k <= p.len(),
            forall|j: int| 0 <= j < k ==> s@[i + j] == p@[j],
        decreases p.len() - k,
    {
        if s[i + k] != p[k] {
            assert(s@.subrange(i as int, i + p.len())[k as int] != p@[k as int]);
            return false;
        }
        k = k + 1;
    }
    assert(s@.subrange(i as int, i + p.len()) =~= p@);
    true
}

/// Whether `p` occurs in `s`.
pub fn contains_chars(s: &[char], p: &[char]) -> (b: bool)
    ensures
        b == contains(s@, p@),
{
    if p.len() > s.len() {
        return false;
    }
    let last = s.len() - p.len();
    let mut i: usize = 0;
    loop
        invariant
            p.len() <= s.len(),
            last == s.len() - p.len(),
            i <= last,
            forall|j: int| 0 <= j < i ==> !occurs_at(s@, p@, j),
        ensures
            forall|j: int| 0 <= j <= last ==> !occurs_at(s@, p@, j),
        decreases last - i,
    {
        if occurs_at_chars(s, p, i) {
            return true;
        }
        if i == last {
            break;
        }
        i = i + 1;
    }
    assert forall|j: int| !occurs_at(s@, p@, j) by {
        if 0 <= j && j + p@.len() <= s@.len() {
            assert(j <= last);
        }
    }
    false
}

/// `s` with every occurrence of `p` replaced by `r`.
pub fn replace_all_chars(s: &[char], p: &[char], r: &[char]) -> (out: Vec<char>)
    ensures
        out@ == replace_all(s@, p@, r@),
{
    let n = s.len();
    let mut out: Vec<char> = Vec::new();
    if p.len() == 0 {
        extend_chars(&mut out, s);
        assert(out@ =~= s@);
        return out;
    }
    let mut i: usize = 0;
    assert(s@.subrange(0, n as int) =~= s@);
    while i < n
        invariant
            n == s@.len(),
            i <= n,
            p@.len() > 0,
            replace_all(s@, p@, r@) == out@ + replace_all(s@.subrange(i as int, n as int), p@, r@),
        decreases n - i,
    {
        let ghost t = s@.subrange(i as int, n as int);
        if occurs_at_chars(s, p, i) {
            assert(t.subrange(0, p@.len() as int) =~= s@.subrange(i as int, i + p@.len()));
            assert(t.subrange(p@.len() as int, t.len() as int) =~= s@.subrange(
                i + p@.len(),
                n as int,
            ));
            let ghost old_out = out@;
            extend_chars(&mut out, r);
            assert(old_out + (r@ + replace_all(s@.subrange(i + p@.len(), n as int), p@, r@))
                =~= out@ + replace_all(s@.subrange(i + p@.len(), n as int), p@, r@));
            i = i + p.len();
        } else {
            proof {
                if t.len() >= p@.len() {
                    assert(t.subrange(0, p@.len() as int) =~= s@.subrange(i as int, i + p@.len()));
                }
            }
            assert(t.drop_first() =~= s@.subrange(i + 1, n as int));
            let ghost old_out = out@;
            out.push(s[i]);
            assert(old_out + (seq![s@[i as int]] + replace_all(s@.subrange(i + 1, n as int), p@, r@))
                =~= out@ + replace_all(s@.subrange(i + 1, n as int), p@, r@));
            i = i + 1;
        }
    }
    assert(out@ + replace_all(s@.subrange(n as int, n as int), p@, r@) =~= out@);
    out
}

/// The ASCII digit for `d`.
pub fn digit_char(d: u64) -> (c: char)
    requires
        d < 10,
    ensures
        c == digit(d as nat),
{
    if d == 0 {
        '0'
    } else if d == 1 {
        '1'
    } else if d == 2 {
        '2'
    } else if d == 3 {
        '3'
    } else if d == 4 {
        '4'
    } else if d == 5 {
        '5'
    } else if d == 6 {
        '6'
    } else if d == 7 {
        '7'
    } else if d == 8 {
        '8'
    } else {
        '9'
    }
}

/// The decimal digits of `n`.
pub fn u64_decimal(n: u64) -> (v: Vec<char>)
    ensures
        v@ == nat_decimal(n as nat),
    decreases n,
{
    if n < 10 {
        let mut v: Vec<char> = Vec::new();
        v.push(digit_char(n));
        assert(v@ =~= seq![digit(n as nat)]);
        v
    } else {
        let mut v = u64_decimal(n / 10);
        v.push(digit_char(n % 10));
        v
    }
}

/// The decimal rendering of `n`, with a leading `-` when negative.
pub fn i64_decimal(n: i64) -> (v: Vec<char>)
    ensures
        v@ == int_decimal(n as int),
{
    if n < 0 {
        let m: i64 = -(n + 1);
        let a: u64 = (m as u64) + 1;
        assert(a == -(n as int));
        let digits = u64_decimal(a);
        let mut v: Vec<char> = Vec::new();
        v.push('-');
        extend_chars(&mut v, &digits);
        assert(v@ =~= seq!['-'] + nat_decimal((-(n as int)) as nat));
        v
    } else {
        u64_decimal(n as u64)
    }
}

/// The rendering of `n` with the format `{:02}`.
pub fn i64_decimal_pad2(n: i64) -> (v: Vec<char>)
    ensures
        v@ == int_decimal_pad2(n as int),
{
    if 0 <= n && n < 10 {
        let mut v: Vec<char> = Vec::new();
        v.push('0');
        v.push(digit_char(n as u64));
        assert(v@ =~= seq!['0', digit(n as nat)]);
        v
    } else {
        i64_decimal(n)
    }
}

/// A duration in seconds rendered as `M:SS`.
pub fn duration_chars(seconds: i64) -> (v: Vec<char>)
    ensures
        v@ == duration_text(seconds as int),
{
    let neg = seconds < 0;
    let a: u64 = if neg {
        (-(seconds + 1)) as u64 + 1
    } else {
        seconds as u64
    };
    assert(a == if neg { -(seconds as int) } else { seconds as int });
    let q: u64 = a / 60;
    let r: u64 = a % 60;
    let mins: i64 = if neg {
        -(q as i64)
    } else {
        q as i64
    };
    let secs: i64 = if neg {
        -(r as i64)
    } else {
        r as i64
    };
    assert(mins == trunc_div(seconds as int, 60));
    assert(secs == trunc_rem(seconds as int, 60));
    let mut v = i64_decimal(mins);
    v.push(':');
    let tail = i64_decimal_pad2(secs);
    extend_chars(&mut v, &tail);
    v
}

/// Whether `a` and `b` hold the same characters.
pub fn chars_eq(a: &[char], b: &[char]) -> (r: bool)
    ensures
        r == (a@ == b@),
{
    if a.len() != b.len() {
        return false;
    }
    let mut i: usize = 0;
    while i < a.len()
        invariant
            a.len() == b.len(),
            i <= a.len(),
            forall|j: int| 0 <= j < i ==> a@[j] == b@[j],
        decreases a.len() - i,
    {
        if a[i] != b[i] {
            return false;
        }
        i = i + 1;
    }
    assert(a@ =~= b@);
    true
}


/// `s` cut at each `c` into at most `n` parts, the last holding the rest.
pub fn splitn_chars(s: &[char], n: usize, c: char) -> (parts: Vec<Vec<char>>)
    requires
        n >= 1,
    ensures
        views(parts@) == splitn(s@, n as nat, c),
{
    let len = s.len();
    let mut parts: Vec<Vec<char>> = Vec::new();
    let mut start: usize = 0;
    assert(s@.subrange(0, len as int) =~= s@);
    while parts.len() + 1 < n
        invariant_except_break
            start <= len == s@.len(),
            parts.len() < n,
            splitn(s@, n as nat, c) == views(parts@) + splitn(
                s@.subrange(start as int, len as int),
                (n - parts.len()) as nat,
                c,
            ),
        ensures
            start <= len == s@.len(),
            splitn(s@, n as nat, c) == views(parts@) + seq![s@.subrange(start as int, len as int)],
        decreases n - parts.len(),
    {
        let rest = slice_chars(s, start, len);
        match find_char_index(&rest, c) {
            Some(k) => {
                let ghost t = rest@;
                assert(t.subrange(0, k as int) =~= s@.subrange(start as int, start + k));
                assert(t.subrange(k + 1, t.len() as int) =~= s@.subrange(start + k + 1, len as int));
                let ghost before = parts@;
                parts.push(slice_chars(s, start, start + k));
                assert(views(parts@) =~= views(before).push(t.subrange(0, k as int)));
                assert(views(parts@) + splitn(
                    s@.subrange(start + k + 1, len as int),
                    (n - parts.len()) as nat,
                    c,
                ) =~= views(before) + splitn(t, (n - before.len()) as nat, c));
                start = start + k + 1;
            },
            None => {
                break;
            },
        }
    }
    let ghost before = parts@;
    parts.push(slice_chars(s, start, len));
    assert(views(parts@) =~= views(before).push(s@.subrange(start as int, len as int)));
    parts
}

/// Parses an unsigned integer whose largest value is `max`, as `FromStr`
/// does: an optional `+`, then one or more ASCII digits.
pub fn parse_unsigned(s: &[char], max: u64) -> (r: Option<u64>)
    ensures
        match r {
            Some(v) => unsigned_from_str(s@, max as int) == Some(v as int),
            None => unsigned_from_str(s@, max as int) is None,
        },
{
    let start: usize = if s.len() > 0 && s[0] == '+' { 1 } else { 0 };
    let ghost t = unsigned_digits(s@);
    assert(t =~= s@.subrange(start as int, s@.len() as int));
    if start >= s.len() {
        assert(t.len() == 0);
        return None;
    }
    let mut acc: u64 = 0;
    let mut i: usize = start;
    while i < s.len()
        invariant
            start <= i <= s@.len(),
            start < s@.len(),
            t == unsigned_digits(s@),
            t =~= s@.subrange(start as int, s@.len() as int),
            acc as int == digits_value(t.take(i - start)),
            acc <= max,
            forall|j: int| 0 <= j < i - start ==> is_digit(#[trigger] t[j]),
        decreases s@.len() - i,
    {
        let ch = s[i];
        assert(t[i - start] == ch);
        if !('0' <= ch && ch <= '9') {
            assert(!is_digit(t[i - start]));
            assert(!all_digits(t));
            return None;
        }
        let d: u64 = (ch as u32 - '0' as u32) as u64;
        assert(t.take(i - start + 1).drop_last() =~= t.take(i - start));
        assert(d as int == digit_value(ch));
        let next = match acc.checked_mul(10) {
            Some(m) => m.checked_add(d),
            None => None,
        };
        match next {
            Some(v) if v <= max => {
                assert(t.take(i - start + 1).last() == ch);
                acc = v;
            },
            _ => {
                proof {
                    assert(t.take(i - start + 1).last() == ch);
                    assert(digits_value(t.take(i - start + 1)) == acc * 10 + d);
                    if all_digits(t) {
                        lemma_digits_value_grows(t, i - start + 1);
                        assert(digits_value(t) > max);
                    }
                }
                return None;
            },
        }
        i = i + 1;
    }
    assert(t.take(t.len() as int) =~= t);
    Some(acc)
}

/// Parses an `i32` as `FromStr` does: an optional sign, then one or more
/// ASCII digits.
pub fn parse_i32(s: &[char]) -> (r: Option<i32>)
    ensures
        match r {
            Some(v) => i32_from_str(s@) == Some(v as int),
            None => i32_from_str(s@) is None,
        },
{
    if s.len() > 0 && s[0] == '-' {
        let rest = slice_chars(s, 1, s.len());
        assert(rest@ =~= s@.drop_first());
        if rest.len() > 0 && rest[0] == '+' {
            assert(!is_digit(rest@[0]));
            return None;
        }
        assert(unsigned_digits(rest@) == rest@);
        match parse_unsigned(&rest, 0x8000_0000u64) {
            Some(v) => {
                let neg: i64 = -(v as i64);
                Some(neg as i32)
            },
            None => None,
        }
    } else {
        match parse_unsigned(s, 0x7fff_ffffu64) {
            Some(v) => Some(v as i32),
            None => None,
        }
    }
}
} // verus!
