//! Character-level text operations with their specifications: equality,
//! trimming, ASCII lower-casing, substring search, prefix stripping and
//! decimal rendering of integers.

use vstd::prelude::*;

verus! {

/// `String::push` appends one character.
pub assume_specification[ String::push ](s: &mut String, ch: char)
    ensures
        final(s)@ == old(s)@.push(ch),
;

/// The characters of `s`, in order.
pub fn chars_of(s: &str) -> (r: Vec<char>)
    ensures
        r@ == s@,
{
    let mut out: Vec<char> = Vec::new();
    for c in it: s.chars()
        invariant
            out@ == it.seq().take(it.index() as int),
    {
        out.push(c);
    }
    out
}

/// A `String` holding the characters `cs[from..to]`.
pub fn string_from_chars(cs: &Vec<char>, from: usize, to: usize) -> (r: String)
    requires
        from <= to <= cs@.len(),
    ensures
        r@ == cs@.subrange(from as int, to as int),
{
    let mut out = String::new();
    let mut i = from;
    while i < to
        invariant
            from <= i <= to <= cs@.len(),
            out@ == cs@.subrange(from as int, i as int),
        decreases to - i,
    {
        out.push(cs[i]);
        assert(cs@.subrange(from as int, i + 1) == cs@.subrange(from as int, i as int).push(cs@[i as int]));
        i = i + 1;
    }
    out
}

/// Whether two texts hold the same characters.
pub fn text_eq(a: &str, b: &str) -> (r: bool)
    ensures
        r == (a@ == b@),
{
    let x = a.to_owned();
    let y = b.to_owned();
    x == y
}

/// The Unicode `White_Space` property, which is what `char::is_whitespace` tests.
pub open spec fn is_unicode_whitespace(c: char) -> bool {
    ||| ('\u{9}' <= c && c <= '\u{d}')
    ||| c == ' '
    ||| c == '\u{85}'
    ||| c == '\u{a0}'
    ||| c == '\u{1680}'
    ||| ('\u{2000}' <= c && c <= '\u{200a}')
    ||| c == '\u{2028}'
    ||| c == '\u{2029}'
    ||| c == '\u{202f}'
    ||| c == '\u{205f}'
    ||| c == '\u{3000}'
}

/// Characters trimmed from a stored setting: white space and the byte-order mark.
pub open spec fn is_padding(c: char) -> bool {
    is_unicode_whitespace(c) || c == '\u{feff}'
}

pub fn char_is_padding(c: char) -> (r: bool)
    ensures
        r == is_padding(c),
{
    ('\u{9}' <= c && c <= '\u{d}') || c == ' ' || c == '\u{85}' || c == '\u{a0}' || c == '\u{1680}'
        || ('\u{2000}' <= c && c <= '\u{200a}') || c == '\u{2028}' || c == '\u{2029}' || c
        == '\u{202f}' || c == '\u{205f}' || c == '\u{3000}' || c == '\u{feff}'
}

pub open spec fn strip_leading_padding(s: Seq<char>) -> Seq<char>
    decreases s.len(),
{
    if s.len() > 0 && is_padding(s[0]) {
        strip_leading_padding(s.subrange(1, s.len() as int))
    } else {
        s
    }
}

pub open spec fn strip_trailing_padding(s: Seq<char>) -> Seq<char>
    decreases s.len(),
{
    if s.len() > 0 && is_padding(s[s.len() - 1]) {
        strip_trailing_padding(s.subrange(0, s.len() - 1))
    } else {
        s
    }
}

/// `s` without the padding characters at either end.
pub open spec fn trim_padding(s: Seq<char>) -> Seq<char> {
    strip_trailing_padding(strip_leading_padding(s))
}

/// Removes padding characters from both ends of `s`.
pub fn trimmed(s: &str) -> (r: String)
    ensures
        r@ == trim_padding(s@),
{
    let cs = chars_of(s);
    let n = cs.len();
    let mut i: usize = 0;
    assert(cs@.subrange(0, n as int) =~= cs@);
    while i < n && char_is_padding(cs[i])
        invariant
            i <= n == cs@.len(),
            strip_leading_padding(cs@) == strip_leading_padding(cs@.subrange(i as int, n as int)),
        decreases n - i,
    {
        assert(cs@.subrange(i as int, n as int).subrange(1, n - i) == cs@.subrange(i + 1, n as int));
        i = i + 1;
    }
    assert(strip_leading_padding(cs@) == cs@.subrange(i as int, n as int));
    let mut j: usize = n;
    while j > i && char_is_padding(cs[j - 1])
        invariant
            i <= j <= n == cs@.len(),
            strip_trailing_padding(cs@.subrange(i as int, n as int)) == strip_trailing_padding(
                cs@.subrange(i as int, j as int),
            ),
        decreases j,
    {
        assert(cs@.subrange(i as int, j as int).subrange(0, j - i - 1) == cs@.subrange(
            i as int,
            j - 1,
        ));
        j = j - 1;
    }
    assert(strip_trailing_padding(cs@.subrange(i as int, j as int)) == cs@.subrange(
        i as int,
        j as int,
    ));
    string_from_chars(&cs, i, j)
}

/// `char::to_ascii_lowercase`: only `A`..=`Z` change.
pub open spec fn ascii_lower_char(c: char) -> char {
    if 'A' <= c && c <= 'Z' {
        ((c as u32) + 32) as char
    } else {
        c
    }
}

pub open spec fn ascii_lower(s: Seq<char>) -> Seq<char> {
    Seq::new(s.len(), |i: int| ascii_lower_char(s[i]))
}

pub fn lower_char(c: char) -> (r: char)
    ensures
        r == ascii_lower_char(c),
{
    if 'A' <= c && c <= 'Z' {
        let v: u8 = c as u8;
        (v + 32) as char
    } else {
        c
    }
}

/// The characters of `cs` with ASCII capitals turned to lower case.
pub fn lower_chars(cs: &Vec<char>) -> (r: Vec<char>)
    ensures
        r@ == ascii_lower(cs@),
{
    let mut out: Vec<char> = Vec::new();
    let mut i: usize = 0;
    while i < cs.len()
        invariant
            i <= cs@.len(),
            out@ =~= ascii_lower(cs@.subrange(0, i as int)),
        decreases cs@.len() - i,
    {
        out.push(lower_char(cs[i]));
        i = i + 1;
    }
    assert(cs@.subrange(0, cs@.len() as int) == cs@);
    out
}

/// `t` occurs in `s` starting at index `i`.
pub open spec fn occurs_at(s: Seq<char>, t: Seq<char>, i: int) -> bool {
    0 <= i && i + t.len() <= s.len() && s.subrange(i, i + t.len()) == t
}

/// `t` occurs somewhere in `s` (the empty text occurs in every text).
pub open spec fn contains_text(s: Seq<char>, t: Seq<char>) -> bool {
    exists|i: int| occurs_at(s, t, i)
}

fn occurs_at_exec(s: &Vec<char>, t: &Vec<char>, i: usize) -> (r: bool)
    requires
        i + t@.len() <= s@.len(),
    ensures
        r == occurs_at(s@, t@, i as int),
{
    let mut k: usize = 0;
    while k < t.len()
        invariant
            k <= t@.len(),
            i + t@.len() <= s@.len(),
            s@.len() == s.len(),
            forall|m: int| 0 <= m < k ==> s@[i + m] == t@[m],
        decreases t@.len() - k,
    {
        if s[i + k] != t[k] {
            assert(s@.subrange(i as int, i + t@.len())[k as int] != t@[k as int]);
            return false;
        }
        k = k + 1;
    }
    assert(s@.subrange(i as int, i + t@.len()) =~= t@);
    true
}

/// Whether `t` occurs in `s`.
pub fn contains_chars(s: &Vec<char>, t: &Vec<char>) -> (r: bool)
    ensures
        r == contains_text(s@, t@),
{
    if t.len() == 0 {
        assert(s@.subrange(0, 0) =~= t@);
        assert(occurs_at(s@, t@, 0));
        return true;
    }
    let mut i: usize = 0;
    while i < s.len()
        invariant
            i <= s@.len(),
            t@.len() > 0,
            forall|k: int| 0 <= k < i ==> !occurs_at(s@, t@, k),
        decreases s@.len() - i,
    {
        if t.len() <= s.len() - i && occurs_at_exec(s, t, i) {
            return true;
        }
        i = i + 1;
    }
    false
}

/// `p` is a prefix of `s`.
pub open spec fn has_prefix(s: Seq<char>, p: Seq<char>) -> bool {
    p.len() <= s.len() && s.subrange(0, p.len() as int) == p
}

/// Whether `p` is a prefix of `s`.
pub fn starts_with_chars(s: &Vec<char>, p: &Vec<char>) -> (r: bool)
    ensures
        r == has_prefix(s@, p@),
{
    if p.len() > s.len() {
        return false;
    }
    let r = occurs_at_exec(s, p, 0);
    r
}

/// `s` with every leading repetition of a non-empty `p` removed (what
/// `str::trim_start_matches` does with a text pattern).
pub open spec fn strip_repeated_prefix(s: Seq<char>, p: Seq<char>) -> Seq<char>
    decreases s.len(),
{
    if p.len() > 0 && has_prefix(s, p) {
        strip_repeated_prefix(s.subrange(p.len() as int, s.len() as int), p)
    } else {
        s
    }
}

/// Removes every leading repetition of `p` from `s`.
pub fn strip_prefix_repeatedly(s: &Vec<char>, p: &Vec<char>) -> (r: String)
    requires
        p@.len() > 0,
    ensures
        r@ == strip_repeated_prefix(s@, p@),
{
    let n = s.len();
    let m = p.len();
    let mut i: usize = 0;
    assert(s@.subrange(0, n as int) =~= s@);
    while m <= n - i && occurs_at_exec(s, p, i)
        invariant
            i <= n == s@.len(),
            m == p@.len() > 0,
            strip_repeated_prefix(s@, p@) == strip_repeated_prefix(
                s@.subrange(i as int, n as int),
                p@,
            ),
        decreases n - i,
    {
        proof {
            let rest = s@.subrange(i as int, n as int);
            assert(rest.subrange(0, m as int) == s@.subrange(i as int, i + m));
            assert(rest.subrange(m as int, rest.len() as int) == s@.subrange(i + m, n as int));
        }
        i = i + m;
    }
    proof {
        let rest = s@.subrange(i as int, n as int);
        if m <= rest.len() {
            assert(rest.subrange(0, m as int) == s@.subrange(i as int, i + m));
        }
    }
    string_from_chars(s, i, n)
}

/// The decimal digit character for `d < 10`.
pub open spec fn digit_char(d: nat) -> char {
    ((d + 48) as u32) as char
}

/// The shortest decimal rendering of `n`, as `u64::to_string` produces it.
pub open spec fn decimal_text(n: nat) -> Seq<char>
    decreases n,
{
    if n < 10 {
        seq![digit_char(n)]
    } else {
        decimal_text(n / 10).push(digit_char(n % 10))
    }
}

/// The number a text of decimal digits stands for (what parsing it as an
/// unsigned integer gives).
pub open spec fn decimal_value(s: Seq<char>) -> nat
    decreases s.len(),
{
    if s.len() == 0 {
        0
    } else {
        10 * decimal_value(s.subrange(0, s.len() - 1)) + ((s[s.len() - 1] as int - 48) as nat)
    }
}

/// The decimal rendering of `n` reads back as `n`, so rendering keeps
/// order: a larger number renders to a text that reads as a larger number.
pub proof fn lemma_decimal_round_trip(n: nat, m: nat)
    ensures
        decimal_value(decimal_text(n)) == n,
        n <= m ==> decimal_value(decimal_text(n)) <= decimal_value(decimal_text(m)),
{
    lemma_decimal_reads_back(n);
    lemma_decimal_reads_back(m);
}

proof fn lemma_digit_value(d: nat)
    requires
        d < 10,
    ensures
        (digit_char(d) as int - 48) == d,
{
    assert(((d + 48) as u32) as int == d + 48);
}

proof fn lemma_decimal_reads_back(n: nat)
    ensures
        decimal_value(decimal_text(n)) == n,
    decreases n,
{
    let t = decimal_text(n);
    if n >= 10 {
        lemma_decimal_reads_back(n / 10);
        lemma_digit_value(n % 10);
        assert(t.subrange(0, t.len() - 1) =~= decimal_text(n / 10));
        assert(t[t.len() - 1] == digit_char(n % 10));
        assert(10 * (n / 10) + n % 10 == n);
    } else {
        lemma_digit_value(n);
        assert(t.subrange(0, 0) =~= Seq::<char>::empty());
        assert(decimal_value(t.subrange(0, 0)) == 0);
    }
}

/// Renders `n` in decimal.
pub fn decimal_string(n: u64) -> (r: String)
    ensures
        r@ == decimal_text(n as nat),
    decreases n,
{
    let digit: u8 = (n % 10) as u8;
    let c: char = (48u8 + digit) as char;
    assert(c == digit_char((n % 10) as nat));
    if n < 10 {
        let mut s = String::new();
        s.push(c);
        assert(s@ =~= seq![c]);
        s
    } else {
        let mut s = decimal_string(n / 10);
        s.push(c);
        s
    }
}

} // verus!
