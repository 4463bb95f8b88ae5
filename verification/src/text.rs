//! Character-level string operations with exact specifications: the
//! replacement, counting, trimming and decimal formatting that the rest of
//! the library builds its texts with.

use vstd::prelude::*;

verus! {

broadcast use vstd::string::group_string_axioms;

/// An exec `Result` with a `String` error agrees with a spec result whose
/// error is the text.
pub open spec fn agrees<T>(r: Result<T, String>, s: Result<T, Seq<char>>) -> bool {
    match r {
        Ok(v) => s == Ok::<T, Seq<char>>(v),
        Err(m) => s == Err::<T, Seq<char>>(m@),
    }
}


/// Appends one character to a string (`String::push`).
#[verifier::external_body]
pub fn push_char(s: &mut String, c: char)
    ensures
        final(s)@ == old(s)@.push(c),
{
    s.push(c);
}

/// The characters of `s`, in order.
pub fn chars_of(s: &str) -> (v: Vec<char>)
    ensures
        v@ == s@,
{
    let mut v: Vec<char> = Vec::new();
    for c in it: s.chars()
        invariant
            v@ == it.seq().take(it.index() as int),
            it.seq() == s@,
    {
        v.push(c);
    }
    proof {
        assert(v@ =~= s@);
    }
    v
}

/// Appends the characters `v` to `s`.
pub fn push_chars(s: &mut String, v: &Vec<char>)
    ensures
        final(s)@ == old(s)@ + v@,
{
    let mut i: usize = 0;
    while i < v.len()
        invariant
            0 <= i <= v.len(),
            s@ == old(s)@ + v@.take(i as int),
        decreases v.len() - i,
    {
        push_char(s, v[i]);
        proof {
            assert(v@.take(i + 1) =~= v@.take(i as int).push(v@[i as int]));
        }
        i += 1;
    }
    proof {
        assert(v@.take(v.len() as int) =~= v@);
    }
}

/// Appends `t` to `s`.
pub fn push_str(s: &mut String, t: &str)
    ensures
        final(s)@ == old(s)@ + t@,
{
    let v = chars_of(t);
    push_chars(s, &v);
}

/// A string holding the characters `v`.
pub fn string_of(v: &Vec<char>) -> (s: String)
    ensures
        s@ == v@,
{
    let mut s = String::new();
    push_chars(&mut s, v);
    proof {
        assert(s@ =~= v@);
    }
    s
}

/// The character of a decimal digit.
pub open spec fn digit_char(d: nat) -> char {
    if d == 0 { '0' }
    else if d == 1 { '1' }
    else if d == 2 { '2' }
    else if d == 3 { '3' }
    else if d == 4 { '4' }
    else if d == 5 { '5' }
    else if d == 6 { '6' }
    else if d == 7 { '7' }
    else if d == 8 { '8' }
    else { '9' }
}

/// The decimal representation of `n`, without leading zeros.
pub open spec fn decimal(n: nat) -> Seq<char>
    decreases n,
{
    if n < 10 {
        seq![digit_char(n)]
    } else {
        decimal(n / 10).push(digit_char(n % 10))
    }
}

fn digit_of(d: u64) -> (c: char)
    requires
        d < 10,
    ensures
        c == digit_char(d as nat),
{
    if d == 0 { '0' }
    else if d == 1 { '1' }
    else if d == 2 { '2' }
    else if d == 3 { '3' }
    else if d == 4 { '4' }
    else if d == 5 { '5' }
    else if d == 6 { '6' }
    else if d == 7 { '7' }
    else if d == 8 { '8' }
    else { '9' }
}

/// Appends the decimal representation of `n` to `s`.
pub fn push_decimal(s: &mut String, n: u64)
    ensures
        final(s)@ == old(s)@ + decimal(n as nat),
    decreases n,
{
    if n >= 10 {
        push_decimal(s, n / 10);
    }
    push_char(s, digit_of(n % 10));
    proof {
        if n >= 10 {
            assert(decimal(n as nat) == decimal((n / 10) as nat).push(digit_char((n % 10) as nat)));
        }
    }
}

/// The decimal representation of `n` (`n.to_string()`).
pub fn decimal_string(n: u64) -> (s: String)
    ensures
        s@ == decimal(n as nat),
{
    let mut s = String::new();
    push_decimal(&mut s, n);
    proof {
        assert(s@ =~= decimal(n as nat));
    }
    s
}


/// Whether `p` occurs in `s` at position `i`.
pub open spec fn occurs_at(s: Seq<char>, p: Seq<char>, i: int) -> bool {
    0 <= i && i + p.len() <= s.len() && s.subrange(i, i + p.len()) == p
}

/// `s` with every occurrence of `p` replaced by `r`, scanning from the left
/// and never overlapping two occurrences (`str::replace`).
pub open spec fn replace_all(s: Seq<char>, p: Seq<char>, r: Seq<char>) -> Seq<char>
    decreases s.len(),
{
    if s.len() == 0 || p.len() == 0 {
        s
    } else if occurs_at(s, p, 0) {
        r + replace_all(s.skip(p.len() as int), p, r)
    } else {
        seq![s[0]] + replace_all(s.skip(1), p, r)
    }
}

/// How many occurrences of `p` a left-to-right, non-overlapping search finds
/// in `s` (`str::matches(..).count()`).
pub open spec fn count_matches(s: Seq<char>, p: Seq<char>) -> nat
    decreases s.len(),
{
    if s.len() == 0 || p.len() == 0 {
        0
    } else if occurs_at(s, p, 0) {
        1 + count_matches(s.skip(p.len() as int), p)
    } else {
        count_matches(s.skip(1), p)
    }
}

/// Whether `p` occurs in `s` at position `i`, computed.
pub fn occurs_at_exec(s: &Vec<char>, p: &Vec<char>, i: usize) -> (b: bool)
    ensures
        b == occurs_at(s@, p@, i as int),
{
    if i > s.len() || p.len() > s.len() - i {
        return false;
    }
    let mut k: usize = 0;
    while k < p.len()
        invariant
            i + p.len() <= s.len(),
            0 <= k <= p.len(),
            forall|j: int| 0 <= j < k ==> s@[i + j] == p@[j],
        decreases p.len() - k,
    {
        if s[i + k] != p[k] {
            proof {
                assert(s@.subrange(i as int, i + p.len())[k as int] != p@[k as int]);
            }
            return false;
        }
        k += 1;
    }
    proof {
        assert(s@.subrange(i as int, i + p.len()) =~= p@);
    }
    true
}

/// `replace_all` over a suffix of `s` that starts at `i`, one step unfolded.
pub proof fn lemma_replace_step(s: Seq<char>, p: Seq<char>, r: Seq<char>, i: int)
    requires
        0 <= i < s.len(),
        p.len() > 0,
    ensures
        occurs_at(s, p, i) ==> replace_all(s.skip(i), p, r) == r + replace_all(
            s.skip(i + p.len()),
            p,
            r,
        ),
        !occurs_at(s, p, i) ==> replace_all(s.skip(i), p, r) == seq![s[i]] + replace_all(
            s.skip(i + 1),
            p,
            r,
        ),
        occurs_at(s, p, i) ==> count_matches(s.skip(i), p) == 1 + count_matches(
            s.skip(i + p.len()),
            p,
        ),
        !occurs_at(s, p, i) ==> count_matches(s.skip(i), p) == count_matches(s.skip(i + 1), p),
{
    let t = s.skip(i);
    assert(occurs_at(s, p, i) == occurs_at(t, p, 0)) by {
        if i + p.len() <= s.len() {
            assert(t.subrange(0, p.len() as int) =~= s.subrange(i, i + p.len()));
        }
    }
    if occurs_at(t, p, 0) {
        assert(t.skip(p.len() as int) =~= s.skip(i + p.len()));
    } else {
        assert(t.skip(1) =~= s.skip(i + 1));
    }
}

/// `s` with every occurrence of `p` replaced by `r` (`str::replace`).
pub fn replace(s: &str, p: &str, r: &str) -> (out: String)
    requires
        p@.len() > 0,
    ensures
        out@ == replace_all(s@, p@, r@),
{
    let sv = chars_of(s);
    let pv = chars_of(p);
    let rv = chars_of(r);
    let mut out = String::new();
    let mut i: usize = 0;
    proof {
        assert(sv@.skip(0) =~= sv@);
    }
    while i < sv.len()
        invariant
            0 <= i <= sv.len(),
            pv@.len() > 0,
            sv@ == s@,
            pv@ == p@,
            rv@ == r@,
            out@ + replace_all(sv@.skip(i as int), pv@, rv@) == replace_all(s@, p@, r@),
        decreases sv.len() - i,
    {
        proof {
            lemma_replace_step(sv@, pv@, rv@, i as int);
        }
        if occurs_at_exec(&sv, &pv, i) {
            let ghost before = out@;
            push_chars(&mut out, &rv);
            proof {
                assert(out@ + replace_all(sv@.skip(i + pv@.len()), pv@, rv@) =~= before + (rv@
                    + replace_all(sv@.skip(i + pv@.len()), pv@, rv@)));
            }
            i = i + pv.len();
        } else {
            let ghost before = out@;
            push_char(&mut out, sv[i]);
            proof {
                assert(out@ + replace_all(sv@.skip(i + 1), pv@, rv@) =~= before + (seq![sv@[i as int]]
                    + replace_all(sv@.skip(i + 1), pv@, rv@)));
            }
            i = i + 1;
        }
    }
    proof {
        assert(sv@.skip(i as int).len() == 0);
        assert(out@ =~= out@ + replace_all(sv@.skip(i as int), pv@, rv@));
    }
    out
}

/// The number of non-overlapping occurrences of `p` in `s`
/// (`s.matches(p).count()`).
pub fn count_occurrences(s: &str, p: &str) -> (n: usize)
    requires
        p@.len() > 0,
    ensures
        n == count_matches(s@, p@),
{
    let sv = chars_of(s);
    let pv = chars_of(p);
    let mut n: usize = 0;
    let mut i: usize = 0;
    proof {
        assert(sv@.skip(0) =~= sv@);
    }
    while i < sv.len()
        invariant
            0 <= i <= sv.len(),
            pv@.len() > 0,
            sv@ == s@,
            pv@ == p@,
            n <= i,
            n + count_matches(sv@.skip(i as int), pv@) == count_matches(s@, p@),
        decreases sv.len() - i,
    {
        proof {
            lemma_replace_step(sv@, pv@, Seq::empty(), i as int);
        }
        if occurs_at_exec(&sv, &pv, i) {
            n = n + 1;
            i = i + pv.len();
        } else {
            i = i + 1;
        }
    }
    n
}


/// A prefix that holds no character `p[0]` passes through `replace_all`
/// unchanged.
pub proof fn lemma_replace_prefix_untouched(a: Seq<char>, b: Seq<char>, p: Seq<char>, r: Seq<char>)
    requires
        p.len() > 0,
        forall|i: int| 0 <= i < a.len() ==> a[i] != p[0],
    ensures
        replace_all(a + b, p, r) == a + replace_all(b, p, r),
    decreases a.len(),
{
    if a.len() > 0 {
        let s = a + b;
        assert(s[0] == a[0]);
        assert(!occurs_at(s, p, 0)) by {
            if occurs_at(s, p, 0) {
                assert(s.subrange(0, p.len() as int)[0] == p[0]);
            }
        }
        assert(s.skip(1) =~= a.skip(1) + b);
        lemma_replace_prefix_untouched(a.skip(1), b, p, r);
        assert(a =~= seq![a[0]] + a.skip(1));
    } else {
        assert(a + b =~= b);
    }
}

/// A text that holds no character `p[0]` is its own replacement.
pub proof fn lemma_replace_absent(s: Seq<char>, p: Seq<char>, r: Seq<char>)
    requires
        p.len() > 0,
        forall|i: int| 0 <= i < s.len() ==> s[i] != p[0],
    ensures
        replace_all(s, p, r) == s,
        count_matches(s, p) == 0,
    decreases s.len(),
{
    if s.len() > 0 {
        assert(!occurs_at(s, p, 0)) by {
            if occurs_at(s, p, 0) {
                assert(s.subrange(0, p.len() as int)[0] == p[0]);
            }
        }
        lemma_replace_absent(s.skip(1), p, r);
        assert(s =~= seq![s[0]] + s.skip(1));
    }
}

/// A text that starts with `p` has its first occurrence replaced by `r`.
pub proof fn lemma_replace_at_start(b: Seq<char>, p: Seq<char>, r: Seq<char>)
    requires
        p.len() > 0,
    ensures
        replace_all(p + b, p, r) == r + replace_all(b, p, r),
        count_matches(p + b, p) == 1 + count_matches(b, p),
{
    let s = p + b;
    assert(s.subrange(0, p.len() as int) =~= p);
    assert(s.skip(p.len() as int) =~= b);
}

/// Whether `c` is a decimal digit.
pub open spec fn is_digit(c: char) -> bool {
    '0' <= c <= '9'
}

/// A decimal representation holds digits only.
pub proof fn lemma_decimal_digits(n: nat)
    ensures
        decimal(n).len() > 0,
        forall|i: int| 0 <= i < decimal(n).len() ==> is_digit(#[trigger] decimal(n)[i]),
    decreases n,
{
    if n >= 10 {
        lemma_decimal_digits(n / 10);
    }
}


/// Whether `c` has the Unicode `White_Space` property (`char::is_whitespace`).
pub open spec fn is_whitespace(c: char) -> bool {
    ||| '\t' <= c <= '\r'
    ||| c == ' '
    ||| c == '\u{85}'
    ||| c == '\u{a0}'
    ||| c == '\u{1680}'
    ||| '\u{2000}' <= c <= '\u{200a}'
    ||| c == '\u{2028}'
    ||| c == '\u{2029}'
    ||| c == '\u{202f}'
    ||| c == '\u{205f}'
    ||| c == '\u{3000}'
}

/// `char::is_whitespace`.
pub fn is_whitespace_char(c: char) -> (b: bool)
    ensures
        b == is_whitespace(c),
{
    ('\t' <= c && c <= '\r') || c == ' ' || c == '\u{85}' || c == '\u{a0}' || c == '\u{1680}'
        || ('\u{2000}' <= c && c <= '\u{200a}') || c == '\u{2028}' || c == '\u{2029}' || c
        == '\u{202f}' || c == '\u{205f}' || c == '\u{3000}'
}

/// `s` without its leading whitespace.
pub open spec fn trim_start(s: Seq<char>) -> Seq<char>
    decreases s.len(),
{
    if s.len() > 0 && is_whitespace(s[0]) {
        trim_start(s.drop_first())
    } else {
        s
    }
}

/// `s` without its trailing whitespace.
pub open spec fn trim_end(s: Seq<char>) -> Seq<char>
    decreases s.len(),
{
    if s.len() > 0 && is_whitespace(s.last()) {
        trim_end(s.drop_last())
    } else {
        s
    }
}

/// `s` without leading and trailing whitespace (`str::trim`).
pub open spec fn trim(s: Seq<char>) -> Seq<char> {
    trim_end(trim_start(s))
}

/// The bounds of `trim(v[a..b])` within `v`.
pub fn trim_bounds(v: &Vec<char>, a: usize, b: usize) -> (r: (usize, usize))
    requires
        a <= b <= v.len(),
    ensures
        a <= r.0 <= r.1 <= b,
        v@.subrange(r.0 as int, r.1 as int) == trim(v@.subrange(a as int, b as int)),
{
    let mut i: usize = a;
    while i < b && is_whitespace_char(v[i])
        invariant
            a <= i <= b <= v.len(),
            trim_start(v@.subrange(a as int, b as int)) == trim_start(v@.subrange(i as int, b as int)),
        decreases b - i,
    {
        proof {
            assert(v@.subrange(i as int, b as int).drop_first() =~= v@.subrange(i + 1, b as int));
        }
        i += 1;
    }
    let mut j: usize = b;
    while j > i && is_whitespace_char(v[j - 1])
        invariant
            a <= i <= j <= b <= v.len(),
            trim_start(v@.subrange(a as int, b as int)) == v@.subrange(i as int, b as int),
            trim_end(v@.subrange(i as int, b as int)) == trim_end(v@.subrange(i as int, j as int)),
        decreases j - i,
    {
        proof {
            assert(v@.subrange(i as int, j as int).drop_last() =~= v@.subrange(i as int, j - 1));
        }
        j -= 1;
    }
    (i, j)
}

/// The index of the first `c` in `s`, or `s.len()` when there is none.
pub open spec fn find_char(s: Seq<char>, c: char) -> int
    decreases s.len(),
{
    if s.len() == 0 {
        0
    } else if s[0] == c {
        0
    } else {
        1 + find_char(s.drop_first(), c)
    }
}

/// `find_char` is an index of `s` or its length, and no `c` comes before it.
pub proof fn lemma_find_char(s: Seq<char>, c: char)
    ensures
        0 <= find_char(s, c) <= s.len(),
        find_char(s, c) < s.len() ==> s[find_char(s, c)] == c,
        forall|i: int| 0 <= i < find_char(s, c) ==> s[i] != c,
    decreases s.len(),
{
    if s.len() > 0 && s[0] != c {
        lemma_find_char(s.drop_first(), c);
        assert forall|i: int| 0 <= i < find_char(s, c) implies s[i] != c by {
            if i > 0 {
                assert(s[i] == s.drop_first()[i - 1]);
            }
        }
    }
}

/// The first `c` in `v[a..b]`, as an index of `v` (`b` when there is none).
pub fn find_char_in(v: &Vec<char>, a: usize, b: usize, c: char) -> (k: usize)
    requires
        a <= b <= v.len(),
    ensures
        a <= k <= b,
        k - a == find_char(v@.subrange(a as int, b as int), c),
{
    let mut i: usize = a;
    while i < b && v[i] != c
        invariant
            a <= i <= b <= v.len(),
            find_char(v@.subrange(a as int, b as int), c) == (i - a) + find_char(
                v@.subrange(i as int, b as int),
                c,
            ),
        decreases b - i,
    {
        proof {
            assert(v@.subrange(i as int, b as int).drop_first() =~= v@.subrange(i + 1, b as int));
        }
        i += 1;
    }
    i
}

} // verus!
