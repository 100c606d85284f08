//! Character-level helpers: decimal numerals, conversions between `str`,
//! `String` and `Vec<char>`, and comparisons.

use vstd::prelude::*;

verus! {

/// The ASCII digit for a value below ten.
pub open spec fn digit_char(d: int) -> char {
    (d + 48) as char
}

/// Whether `c` is one of the ASCII digits `0` to `9`.
pub open spec fn is_digit(c: char) -> bool {
    48 <= (c as int) && (c as int) <= 57
}

/// The value of an ASCII digit.
pub open spec fn digit_value(c: char) -> int {
    (c as int) - 48
}

/// The shortest decimal numeral of `n`, most significant digit first.
pub open spec fn decimal(n: nat) -> Seq<char>
    decreases n,
{
    if n < 10 {
        seq![digit_char(n as int)]
    } else {
        decimal(n / 10).push(digit_char((n % 10) as int))
    }
}

/// Appends one character to a string.
#[verifier::external_body]
pub(crate) fn push_char(s: &mut String, c: char)
    ensures
        final(s)@ == old(s)@.push(c),
{
    s.push(c);
}

/// Appends the decimal numeral of `n` to `out`.
pub fn push_decimal(out: &mut String, n: u16)
    ensures
        final(out)@ == old(out)@ + decimal(n as nat),
    decreases n,
{
    if n >= 10 {
        push_decimal(out, n / 10);
    }
    let d: u16 = n % 10;
    let c: char = ((d as u8) + 48u8) as char;
    proof {
        assert(c == digit_char(d as int));
    }
    push_char(out, c);
    proof {
        if n < 10 {
            assert(decimal(n as nat) =~= seq![digit_char(n as int)]);
        }
    }
    assert(final(out)@ =~= old(out)@ + decimal(n as nat));
}

/// The decimal numeral of `n`, as `n.to_string()` writes it.
pub fn u16_to_string(n: u16) -> (r: String)
    ensures
        r@ == decimal(n as nat),
{
    let mut s = String::new();
    push_decimal(&mut s, n);
    assert(s@ =~= decimal(n as nat));
    s
}

/// The characters of `s`, in order.
pub fn chars_of(s: &str) -> (v: Vec<char>)
    ensures
        v@ == s@,
{
    let n = s.unicode_len();
    let mut v: Vec<char> = Vec::new();
    let mut i: usize = 0;
    while i < n
        invariant
            n == s@.len(),
            i <= n,
            v@ == s@.take(i as int),
        decreases n - i,
    {
        let c = s.get_char(i);
        v.push(c);
        i = i + 1;
        assert(v@ =~= s@.take(i as int));
    }
    assert(s@.take(n as int) =~= s@);
    v
}

/// The string made of the characters `v[from..to]`.
pub fn string_of_range(v: &Vec<char>, from: usize, to: usize) -> (s: String)
    requires
        from <= to <= v.len(),
    ensures
        s@ == v@.subrange(from as int, to as int),
{
    let mut s = String::new();
    let mut i: usize = from;
    while i < to
        invariant
            from <= i <= to <= v.len(),
            s@ == v@.subrange(from as int, i as int),
        decreases to - i,
    {
        push_char(&mut s, v[i]);
        i = i + 1;
        assert(s@ =~= v@.subrange(from as int, i as int));
    }
    s
}

/// The string made of the characters of `v`.
pub fn string_of(v: &Vec<char>) -> (s: String)
    ensures
        s@ == v@,
{
    let s = string_of_range(v, 0, v.len());
    assert(v@.subrange(0, v@.len() as int) =~= v@);
    s
}

/// Whether two strings hold the same characters.
pub fn str_equal(a: &str, b: &str) -> (r: bool)
    ensures
        r == (a@ == b@),
{
    let n = a.unicode_len();
    let m = b.unicode_len();
    if n != m {
        return false;
    }
    let mut i: usize = 0;
    while i < n
        invariant
            n == a@.len(),
            m == b@.len(),
            n == m,
            i <= n,
            forall|k: int| 0 <= k < i ==> a@[k] == b@[k],
        decreases n - i,
    {
        if a.get_char(i) != b.get_char(i) {
            return false;
        }
        i = i + 1;
    }
    assert(a@ =~= b@);
    true
}

/// Whether `c` has the Unicode `White_Space` property, which is what
/// `char::is_whitespace` tests.
pub open spec fn is_whitespace(c: char) -> bool {
    let x = c as int;
    ||| 9 <= x <= 13
    ||| x == 0x20
    ||| x == 0x85
    ||| x == 0xA0
    ||| x == 0x1680
    ||| 0x2000 <= x <= 0x200A
    ||| x == 0x2028
    ||| x == 0x2029
    ||| x == 0x202F
    ||| x == 0x205F
    ||| x == 0x3000
}

/// `s` without its trailing whitespace, as `str::trim_end` gives it.
pub open spec fn trim_end_chars(s: Seq<char>) -> Seq<char>
    decreases s.len(),
{
    if s.len() > 0 && is_whitespace(s.last()) {
        trim_end_chars(s.drop_last())
    } else {
        s
    }
}

/// `s` without its leading whitespace, as `str::trim_start` gives it.
pub open spec fn trim_start_chars(s: Seq<char>) -> Seq<char>
    decreases s.len(),
{
    if s.len() > 0 && is_whitespace(s[0]) {
        trim_start_chars(s.drop_first())
    } else {
        s
    }
}

/// `s` without leading and trailing whitespace, as `str::trim` gives it.
pub open spec fn trim_chars(s: Seq<char>) -> Seq<char> {
    trim_end_chars(trim_start_chars(s))
}

/// `s` with `prefix` taken off its front when it starts with it, as
/// `s.strip_prefix(prefix).unwrap_or(s)` gives it.
pub open spec fn without_prefix(s: Seq<char>, prefix: Seq<char>) -> Seq<char> {
    if prefix.len() <= s.len() && s.take(prefix.len() as int) == prefix {
        s.skip(prefix.len() as int)
    } else {
        s
    }
}

/// Whether `c` is whitespace, as `char::is_whitespace` decides.
pub fn char_is_whitespace(c: char) -> (r: bool)
    ensures
        r == is_whitespace(c),
{
    ('\u{9}' <= c && c <= '\u{d}') || c == ' ' || c == '\u{85}' || c == '\u{a0}' || c == '\u{1680}'
        || ('\u{2000}' <= c && c <= '\u{200a}') || c == '\u{2028}' || c == '\u{2029}'
        || c == '\u{202f}' || c == '\u{205f}' || c == '\u{3000}'
}

/// The index where `v[from..]` stops once trailing whitespace is left out.
fn trimmed_end(v: &Vec<char>, from: usize) -> (k: usize)
    requires
        from <= v.len(),
    ensures
        from <= k <= v.len(),
        v@.subrange(from as int, k as int) == trim_end_chars(v@.skip(from as int)),
{
    let mut k: usize = v.len();
    assert(v@.subrange(from as int, k as int) =~= v@.skip(from as int));
    while k > from && char_is_whitespace(v[k - 1])
        invariant
            from <= k <= v.len(),
            trim_end_chars(v@.subrange(from as int, k as int)) == trim_end_chars(v@.skip(from as int)),
        decreases k,
    {
        let ghost cur = v@.subrange(from as int, k as int);
        assert(cur.last() == v@[k - 1]);
        assert(cur.drop_last() =~= v@.subrange(from as int, k - 1));
        k = k - 1;
    }
    k
}

/// The index of the first character of `v[from..]` that is not whitespace,
/// or the end of `v`.
fn trimmed_start(v: &Vec<char>, from: usize) -> (i: usize)
    requires
        from <= v.len(),
    ensures
        from <= i <= v.len(),
        v@.skip(i as int) == trim_start_chars(v@.skip(from as int)),
{
    let mut i: usize = from;
    while i < v.len() && char_is_whitespace(v[i])
        invariant
            from <= i <= v.len(),
            trim_start_chars(v@.skip(i as int)) == trim_start_chars(v@.skip(from as int)),
        decreases v.len() - i,
    {
        let ghost cur = v@.skip(i as int);
        assert(cur[0] == v@[i as int]);
        assert(cur.drop_first() =~= v@.skip(i + 1));
        i = i + 1;
    }
    i
}

/// `s` without trailing whitespace, as `s.trim_end().to_string()` gives it.
pub fn trim_end(s: &str) -> (r: String)
    ensures
        r@ == trim_end_chars(s@),
{
    let v = chars_of(s);
    let k = trimmed_end(&v, 0);
    assert(v@.skip(0) =~= v@);
    string_of_range(&v, 0, k)
}

/// The length of `prefix` when `v[from..]` starts with it, else zero.
fn prefix_length(v: &Vec<char>, prefix: &str) -> (n: usize)
    ensures
        v@.skip(n as int) == without_prefix(v@, prefix@),
        n <= v.len(),
{
    let p = chars_of(prefix);
    if p.len() > v.len() {
        assert(v@.skip(0) =~= v@);
        return 0;
    }
    let mut i: usize = 0;
    while i < p.len()
        invariant
            p@ == prefix@,
            p.len() <= v.len(),
            i <= p.len(),
            forall|j: int| 0 <= j < i ==> v@[j] == p@[j],
        decreases p.len() - i,
    {
        if v[i] != p[i] {
            assert(v@.take(p.len() as int)[i as int] != p@[i as int]);
            assert(v@.skip(0) =~= v@);
            return 0;
        }
        i = i + 1;
    }
    assert(v@.take(p.len() as int) =~= p@);
    p.len()
}

/// `s` with `prefix` taken off its front when it starts with it, and then
/// without leading and trailing whitespace: what
/// `s.strip_prefix(prefix).unwrap_or(s).trim()` gives.
pub fn strip_prefix_and_trim(s: &str, prefix: &str) -> (r: String)
    ensures
        r@ == trim_chars(without_prefix(s@, prefix@)),
{
    let v = chars_of(s);
    let n = prefix_length(&v, prefix);
    let i = trimmed_start(&v, n);
    let k = trimmed_end(&v, i);
    string_of_range(&v, i, k)
}

} // verus!
