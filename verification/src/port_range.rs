//! Parsing of a port range written `lo-hi`, such as `9000-9150`.

use core::ops::Range;
use vstd::prelude::*;
use crate::text::{chars_of, decimal, digit_char, digit_value, is_digit};

verus! {

/// A half-open range of ports, `start..end`.
pub type PortRange = Range<u16>;

/// Why a decimal numeral was not accepted as a `u16`.
#[derive(Debug, Clone, Copy, PartialEq, Eq, Structural)]
pub enum IntErrorKind {
    /// The text was empty.
    Empty,
    /// A character other than a digit stood where a digit was expected.
    InvalidDigit,
    /// The value does not fit in a `u16`.
    PosOverflow,
}

/// Reads the digits of `d` from the left onto `acc`, failing at the first
/// character that is not a digit or at the first digit that takes the value
/// above `u16::MAX`, whichever comes first.
pub open spec fn scan_digits(d: Seq<char>, acc: int) -> Result<int, IntErrorKind>
    decreases d.len(),
{
    if d.len() == 0 {
        Ok(acc)
    } else if !is_digit(d[0]) {
        Err(IntErrorKind::InvalidDigit)
    } else if acc * 10 + digit_value(d[0]) > 65535 {
        Err(IntErrorKind::PosOverflow)
    } else {
        scan_digits(d.drop_first(), acc * 10 + digit_value(d[0]))
    }
}

/// What `str::parse::<u16>` gives for `s`: an optional leading `+`, then
/// at least one decimal digit, with a value of at most `u16::MAX`.
pub open spec fn parse_u16_spec(s: Seq<char>) -> Result<u16, IntErrorKind> {
    if s.len() == 0 {
        Err(IntErrorKind::Empty)
    } else if s.len() == 1 && (s[0] == '+' || s[0] == '-') {
        Err(IntErrorKind::InvalidDigit)
    } else {
        let digits = if s[0] == '+' { s.drop_first() } else { s };
        match scan_digits(digits, 0) {
            Ok(v) => Ok(v as u16),
            Err(e) => Err(e),
        }
    }
}

/// The message that `ParseIntError` displays for each kind of failure.
pub open spec fn int_error_message(e: IntErrorKind) -> Seq<char> {
    match e {
        IntErrorKind::Empty => "cannot parse integer from empty string"@,
        IntErrorKind::InvalidDigit => "invalid digit found in string"@,
        IntErrorKind::PosOverflow => "number too large to fit in target type"@,
    }
}

/// The pieces of `s` between the occurrences of `sep`, as `str::split`
/// gives them: one more piece than there are separators.
pub open spec fn split_on(s: Seq<char>, sep: char) -> Seq<Seq<char>>
    decreases s.len(),
{
    if s.len() == 0 {
        seq![Seq::<char>::empty()]
    } else {
        let rest = split_on(s.drop_last(), sep);
        if s.last() == sep {
            rest.push(Seq::<char>::empty())
        } else {
            rest.update(rest.len() - 1, rest.last().push(s.last()))
        }
    }
}

/// The first failure met when every piece is parsed in order, if any.
pub open spec fn first_parse_failure(pieces: Seq<Seq<char>>) -> Option<IntErrorKind>
    decreases pieces.len(),
{
    if pieces.len() == 0 {
        None
    } else {
        match parse_u16_spec(pieces[0]) {
            Err(e) => Some(e),
            Ok(_) => first_parse_failure(pieces.drop_first()),
        }
    }
}

/// The message for a range whose two ends are in the wrong order.
pub open spec fn order_message() -> Seq<char> {
    "Port range must go from a lower port to a higher one."@
}

/// The message for text that is not made of exactly two numbers.
pub open spec fn format_message() -> Seq<char> {
    "Port range must be in the format 'xxxx-yyyy'"@
}

/// What `parse_port_range` gives for `s`: the ends of the range, or the
/// text of the error.
pub open spec fn port_range_outcome(s: Seq<char>) -> Result<(u16, u16), Seq<char>> {
    let pieces = split_on(s, '-');
    match first_parse_failure(pieces) {
        Some(e) => Err(int_error_message(e)),
        None => if pieces.len() == 2 {
            let lo = parse_u16_spec(pieces[0])->Ok_0;
            let hi = parse_u16_spec(pieces[1])->Ok_0;
            if lo < hi {
                Ok((lo, hi))
            } else {
                Err(order_message())
            }
        } else {
            Err(format_message())
        },
    }
}

/// Parses the numeral `v[from..to]` as a `u16`, as `str::parse` does.
pub fn parse_u16_range(v: &Vec<char>, from: usize, to: usize) -> (r: Result<u16, IntErrorKind>)
    requires
        from <= to <= v.len(),
    ensures
        r == parse_u16_spec(v@.subrange(from as int, to as int)),
{
    let ghost s = v@.subrange(from as int, to as int);
    if from == to {
        return Err(IntErrorKind::Empty);
    }
    let first = v[from];
    if to - from == 1 && (first == '+' || first == '-') {
        return Err(IntErrorKind::InvalidDigit);
    }
    assert(s[0] == first);
    assert(!(s.len() == 1 && (s[0] == '+' || s[0] == '-')));
    let mut i: usize = if first == '+' { from + 1 } else { from };
    let ghost digits = if s[0] == '+' { s.drop_first() } else { s };
    assert(digits =~= v@.subrange(i as int, to as int));
    let mut acc: u32 = 0;
    while i < to
        invariant
            from <= i <= to <= v.len(),
            acc <= 65535,
            s == v@.subrange(from as int, to as int),
            s.len() > 0,
            !(s.len() == 1 && (s[0] == '+' || s[0] == '-')),
            digits == (if s[0] == '+' { s.drop_first() } else { s }),
            scan_digits(digits, 0) == scan_digits(v@.subrange(i as int, to as int), acc as int),
        decreases to - i,
    {
        let c = v[i];
        let ghost rest = v@.subrange(i as int, to as int);
        assert(rest[0] == c);
        if c < '0' || c > '9' {
            assert(!is_digit(rest[0]));
            assert(scan_digits(rest, acc as int) == Err::<int, IntErrorKind>(IntErrorKind::InvalidDigit));
            assert(scan_digits(digits, 0) == Err::<int, IntErrorKind>(IntErrorKind::InvalidDigit));
            return Err(IntErrorKind::InvalidDigit);
        }
        let code: u32 = c as u32;
        assert(code as int == c as int);
        let next: u32 = acc * 10 + (code - 48);
        assert(next == acc * 10 + digit_value(rest[0]));
        if next > 65535 {
            assert(scan_digits(rest, acc as int) == Err::<int, IntErrorKind>(IntErrorKind::PosOverflow));
            assert(scan_digits(digits, 0) == Err::<int, IntErrorKind>(IntErrorKind::PosOverflow));
            return Err(IntErrorKind::PosOverflow);
        }
        acc = next;
        i = i + 1;
        assert(rest.drop_first() =~= v@.subrange(i as int, to as int));
    }
    Ok(acc as u16)
}

/// Splits `v` at every `sep`, giving the bounds `(from, to)` of each piece.
pub fn split_bounds(v: &Vec<char>, sep: char) -> (r: Vec<(usize, usize)>)
    ensures
        r@.len() == split_on(v@, sep).len(),
        forall|k: int|
            0 <= k < r@.len() ==> {
                &&& #[trigger] r@[k].0 <= r@[k].1 <= v@.len()
                &&& v@.subrange(r@[k].0 as int, r@[k].1 as int) == split_on(v@, sep)[k]
            },
{
    let n = v.len();
    let mut r: Vec<(usize, usize)> = Vec::new();
    let mut start: usize = 0;
    let mut i: usize = 0;
    while i < n
        invariant
            n == v@.len(),
            start <= i <= n,
            r@.len() + 1 == split_on(v@.take(i as int), sep).len(),
            forall|k: int|
                0 <= k < r@.len() ==> {
                    &&& #[trigger] r@[k].0 <= r@[k].1 <= i
                    &&& v@.subrange(r@[k].0 as int, r@[k].1 as int) == split_on(
                        v@.take(i as int),
                        sep,
                    )[k]
                },
            v@.subrange(start as int, i as int) == split_on(v@.take(i as int), sep).last(),
        decreases n - i,
    {
        let ghost before = v@.take(i as int);
        let ghost after = v@.take(i + 1);
        assert(after.drop_last() =~= before);
        assert(after.last() == v@[i as int]);
        if v[i] == sep {
            r.push((start, i));
            start = i + 1;
        }
        i = i + 1;
        assert(v@.subrange(start as int, i as int) =~= split_on(v@.take(i as int), sep).last());
    }
    r.push((start, n));
    assert(v@.take(n as int) =~= v@);
    r
}

/// Parses a port range written `lo-hi` with `lo < hi`. Each piece between
/// dashes is read as a `u16` in order, and the first one that fails gives
/// the error; then there must be exactly two pieces, in increasing order.
pub fn parse_port_range(s: String) -> (r: Result<PortRange, String>)
    ensures
        r matches Ok(range) ==> port_range_outcome(s@) == Ok::<(u16, u16), Seq<char>>(
            (range.start, range.end),
        ),
        r matches Err(msg) ==> port_range_outcome(s@) == Err::<(u16, u16), Seq<char>>(msg@),
{
    let v = chars_of(s.as_str());
    let bounds = split_bounds(&v, '-');
    let ghost pieces = split_on(v@, '-');
    let mut values: Vec<u16> = Vec::new();
    let mut k: usize = 0;
    assert(pieces.skip(0) =~= pieces);
    assert(forall|j: int|
        0 <= j < bounds@.len() ==> {
            &&& #[trigger] bounds@[j].0 <= bounds@[j].1 <= v@.len()
            &&& v@.subrange(bounds@[j].0 as int, bounds@[j].1 as int) == pieces[j]
        });
    while k < bounds.len()
        invariant
            v@ == s@,
            pieces == split_on(v@, '-'),
            bounds@.len() == pieces.len(),
            forall|j: int|
                0 <= j < bounds@.len() ==> {
                    &&& #[trigger] bounds@[j].0 <= bounds@[j].1 <= v@.len()
                    &&& v@.subrange(bounds@[j].0 as int, bounds@[j].1 as int) == pieces[j]
                },
            k <= bounds@.len(),
            values@.len() == k,
            forall|j: int| 0 <= j < k ==> parse_u16_spec(pieces[j]) == Ok::<u16, IntErrorKind>(#[trigger] values@[j]),
            first_parse_failure(pieces) == first_parse_failure(pieces.skip(k as int)),
        decreases bounds@.len() - k,
    {
        let (from, to) = bounds[k];
        assert(bounds@[k as int].0 <= bounds@[k as int].1 <= v@.len());
        let parsed = parse_u16_range(&v, from, to);
        assert(pieces.skip(k as int)[0] == pieces[k as int]);
        assert(pieces.skip(k as int).drop_first() =~= pieces.skip(k + 1));
        match parsed {
            Ok(x) => {
                values.push(x);
            },
            Err(e) => {
                let msg = match e {
                    IntErrorKind::Empty => String::from_str("cannot parse integer from empty string"),
                    IntErrorKind::InvalidDigit => String::from_str("invalid digit found in string"),
                    IntErrorKind::PosOverflow => String::from_str("number too large to fit in target type"),
                };
                return Err(msg);
            },
        }
        k = k + 1;
    }
    assert(pieces.skip(pieces.len() as int) =~= Seq::<Seq<char>>::empty());
    if values.len() == 2 {
        let lo = values[0];
        let hi = values[1];
        if lo < hi {
            Ok(lo..hi)
        } else {
            Err(String::from_str("Port range must go from a lower port to a higher one."))
        }
    } else {
        Err(String::from_str("Port range must be in the format 'xxxx-yyyy'"))
    }
}

/// Whether `sep` does not occur in `s`.
pub open spec fn free_of(s: Seq<char>, sep: char) -> bool {
    forall|i: int| 0 <= i < s.len() ==> s[i] != sep
}

proof fn lemma_scan_concat(a: Seq<char>, b: Seq<char>, acc: int)
    ensures
        scan_digits(a + b, acc) == (match scan_digits(a, acc) {
            Ok(v) => scan_digits(b, v),
            Err(e) => Err(e),
        }),
    decreases a.len(),
{
    if a.len() > 0 {
        assert((a + b).drop_first() =~= a.drop_first() + b);
        assert((a + b)[0] == a[0]);
        lemma_scan_concat(a.drop_first(), b, acc * 10 + digit_value(a[0]));
    } else {
        assert(a + b =~= b);
    }
}

proof fn lemma_decimal_facts(n: nat)
    ensures
        decimal(n).len() > 0,
        forall|i: int| 0 <= i < decimal(n).len() ==> is_digit(#[trigger] decimal(n)[i]),
        n <= 65535 ==> scan_digits(decimal(n), 0) == Ok::<int, IntErrorKind>(n as int),
    decreases n,
{
    reveal_with_fuel(scan_digits, 2);
    assert(digit_value(digit_char((n % 10) as int)) == n % 10);
    assert(is_digit(digit_char((n % 10) as int)));
    if n < 10 {
        let d = seq![digit_char(n as int)];
        assert(decimal(n) == d);
        assert(n % 10 == n);
        assert(d.drop_first() =~= Seq::<char>::empty());
    } else {
        lemma_decimal_facts(n / 10);
        let last = seq![digit_char((n % 10) as int)];
        assert(decimal(n) =~= decimal(n / 10) + last);
        lemma_scan_concat(decimal(n / 10), last, 0);
        assert(last.drop_first() =~= Seq::<char>::empty());
        assert((n / 10) * 10 + n % 10 == n);
    }
}

proof fn lemma_split_nonempty(a: Seq<char>, sep: char)
    ensures
        split_on(a, sep).len() > 0,
    decreases a.len(),
{
    if a.len() > 0 {
        lemma_split_nonempty(a.drop_last(), sep);
    }
}

proof fn lemma_split_free(a: Seq<char>, t: Seq<char>, sep: char)
    requires
        free_of(t, sep),
    ensures
        split_on(a + t, sep) == split_on(a, sep).update(
            split_on(a, sep).len() - 1,
            split_on(a, sep).last() + t,
        ),
        split_on(a, sep).len() > 0,
    decreases t.len(),
{
    lemma_split_nonempty(a, sep);
    if t.len() == 0 {
        assert(a + t =~= a);
        assert(split_on(a, sep).last() + t =~= split_on(a, sep).last());
        assert(split_on(a, sep).update(split_on(a, sep).len() - 1, split_on(a, sep).last())
            =~= split_on(a, sep));
    } else {
        lemma_split_free(a, t.drop_last(), sep);
        assert((a + t).drop_last() =~= a + t.drop_last());
        assert((a + t).last() == t.last());
        assert(t.last() != sep);
        let r = split_on(a, sep);
        assert((r.last() + t.drop_last()).push(t.last()) =~= r.last() + t);
        assert(split_on(a + t, sep) =~= r.update(r.len() - 1, r.last() + t));
    }
}

/// Writing a range as `lo-hi`, with both ends in decimal, and parsing it
/// back gives the same ends when `lo < hi`, and the ordering error
/// otherwise.
pub proof fn law_port_range_roundtrip(lo: u16, hi: u16)
    ensures
        port_range_outcome(decimal(lo as nat) + seq!['-'] + decimal(hi as nat)) == (if lo < hi {
            Ok::<(u16, u16), Seq<char>>((lo, hi))
        } else {
            Err::<(u16, u16), Seq<char>>(order_message())
        }),
{
    let a = decimal(lo as nat);
    let b = decimal(hi as nat);
    lemma_decimal_facts(lo as nat);
    lemma_decimal_facts(hi as nat);
    assert(free_of(a, '-')) by {
        assert forall|i: int| 0 <= i < a.len() implies a[i] != '-' by {
            assert(is_digit(a[i]));
        }
    }
    assert(free_of(b, '-')) by {
        assert forall|i: int| 0 <= i < b.len() implies b[i] != '-' by {
            assert(is_digit(b[i]));
        }
    }
    lemma_split_free(Seq::<char>::empty(), a, '-');
    assert(Seq::<char>::empty() + a =~= a);
    assert(split_on(Seq::<char>::empty(), '-') =~= seq![Seq::<char>::empty()]);
    assert(split_on(a, '-') =~= seq![a]);
    let a2 = a + seq!['-'];
    assert(a2.drop_last() =~= a);
    assert(split_on(a2, '-') =~= seq![a, Seq::<char>::empty()]);
    lemma_split_free(a2, b, '-');
    let pieces = split_on(a2 + b, '-');
    assert(pieces =~= seq![a, b]);
    assert(is_digit(a[0]));
    assert(is_digit(b[0]));
    assert(parse_u16_spec(a) == Ok::<u16, IntErrorKind>(lo));
    assert(parse_u16_spec(b) == Ok::<u16, IntErrorKind>(hi));
    assert(pieces.drop_first() =~= seq![b]);
    assert(pieces.drop_first().drop_first() =~= Seq::<Seq<char>>::empty());
    reveal_with_fuel(first_parse_failure, 3);
    assert(first_parse_failure(pieces) == None::<IntErrorKind>);
}

} // verus!
