//! Decimal text: writing an integer out and reading one in.
use vstd::prelude::*;
use vstd::string::StringExecFns;

verus! {

/// `String::push` of the standard library: the string then holds the
/// characters that it held, and `ch` after them.
pub assume_specification[ String::push ](s: &mut String, ch: char)
    ensures
        final(s)@ == old(s)@.push(ch),
;

/// The character of the decimal digit `d`.
pub open spec fn digit_char(d: int) -> char
    recommends
        0 <= d < 10,
{
    ((48 + d) as u8) as char
}

/// The decimal digits of `n`, most significant first, without leading zeros.
pub open spec fn digits(n: nat) -> Seq<char>
    decreases n,
{
    if n < 10 {
        seq![digit_char(n as int)]
    } else {
        digits(n / 10).push(digit_char((n % 10) as int))
    }
}

/// The decimal text of `i`: its digits, after a minus sign if it is negative.
pub open spec fn decimal(i: int) -> Seq<char> {
    if i < 0 {
        seq!['-'] + digits((-i) as nat)
    } else {
        digits(i as nat)
    }
}

/// The digits of `n` as a vector.
fn digits_of(n: u64) -> (out: Vec<char>)
    ensures
        out@ == digits(n as nat),
    decreases n,
{
    if n < 10 {
        let mut out: Vec<char> = Vec::new();
        out.push((48u8 + (n as u8)) as char);
        assert(out@ =~= digits(n as nat));
        out
    } else {
        let mut out = digits_of(n / 10);
        out.push((48u8 + ((n % 10) as u8)) as char);
        out
    }
}

/// The decimal text of the natural number `n`.
pub fn natural_string(n: u64) -> (text: String)
    ensures
        text@ == digits(n as nat),
{
    let mut text = String::new();
    let ds = digits_of(n);
    let mut k: usize = 0;
    assert(ds@.take(0) =~= text@);
    while k < ds.len()
        invariant
            k <= ds.len(),
            text@ == ds@.take(k as int),
        decreases ds.len() - k,
    {
        text.push(ds[k]);
        assert(ds@.take(k as int + 1) =~= ds@.take(k as int).push(ds@[k as int]));
        k += 1;
    }
    assert(ds@.take(ds.len() as int) =~= ds@);
    text
}

/// The decimal text of `i`.
pub fn decimal_string(i: i64) -> (text: String)
    ensures
        text@ == decimal(i as int),
{
    if i < 0 {
        let magnitude: u64 = if i == i64::MIN {
            0x8000_0000_0000_0000u64
        } else {
            (-i) as u64
        };
        let mut text = String::new();
        text.push('-');
        text.append(natural_string(magnitude).as_str());
        assert(text@ =~= seq!['-'] + digits(magnitude as nat));
        text
    } else {
        natural_string(i as u64)
    }
}

/// The characters of `s`.
pub fn chars_of(s: &str) -> (chars: Vec<char>)
    ensures
        chars@ == s@,
{
    let mut chars: Vec<char> = Vec::new();
    for c in it: s.chars()
        invariant
            chars@ == it.seq().take(it.index() as int),
            it.seq() == s@,
    {
        chars.push(c);
    }
    chars
}

/// Whether `c` is white space: a character with the Unicode property
/// `White_Space`.
pub open spec fn is_space(c: char) -> bool {
    let u = c as u32;
    (0x09 <= u <= 0x0d) || u == 0x20 || u == 0x85 || u == 0xa0 || u == 0x1680 || (0x2000 <= u
        <= 0x200a) || u == 0x2028 || u == 0x2029 || u == 0x202f || u == 0x205f || u == 0x3000
}

/// Whether `c` is white space.
pub fn is_whitespace(c: char) -> (space: bool)
    ensures
        space == is_space(c),
{
    let u = c as u32;
    (0x09 <= u && u <= 0x0d) || u == 0x20 || u == 0x85 || u == 0xa0 || u == 0x1680 || (0x2000
        <= u && u <= 0x200a) || u == 0x2028 || u == 0x2029 || u == 0x202f || u == 0x205f || u
        == 0x3000
}

/// `s` without the white space at its start.
pub open spec fn trim_start(s: Seq<char>) -> Seq<char>
    decreases s.len(),
{
    if s.len() > 0 && is_space(s.first()) {
        trim_start(s.drop_first())
    } else {
        s
    }
}

/// `s` without the white space at its end.
pub open spec fn trim_end(s: Seq<char>) -> Seq<char>
    decreases s.len(),
{
    if s.len() > 0 && is_space(s.last()) {
        trim_end(s.drop_last())
    } else {
        s
    }
}

/// `s` without the white space at its start and at its end.
pub open spec fn trim(s: Seq<char>) -> Seq<char> {
    trim_end(trim_start(s))
}

/// Whether `c` is a decimal digit.
pub open spec fn is_digit(c: char) -> bool {
    '0' <= c <= '9'
}

/// Whether `s` holds decimal digits only.
pub open spec fn all_digits(s: Seq<char>) -> bool {
    forall|i: int| 0 <= i < s.len() ==> is_digit(#[trigger] s[i])
}

/// The number that the decimal digits `s` write.
pub open spec fn digits_value(s: Seq<char>) -> int
    decreases s.len(),
{
    if s.len() == 0 {
        0
    } else {
        digits_value(s.drop_last()) * 10 + (s.last() as int - 48)
    }
}

/// The integer that `s` writes in base ten: decimal digits, at least one, after
/// at most one sign. Nothing else is an integer, nor is a number that does not
/// fit a cell.
pub open spec fn parse_int(s: Seq<char>) -> Option<i64> {
    let signed = s.len() > 0 && (s[0] == '-' || s[0] == '+');
    let body = if signed {
        s.drop_first()
    } else {
        s
    };
    let value = if s.len() > 0 && s[0] == '-' {
        -digits_value(body)
    } else {
        digits_value(body)
    };
    if body.len() > 0 && all_digits(body) && i64::MIN <= value <= i64::MAX {
        Some(value as i64)
    } else {
        None
    }
}

/// A number written in digits is not negative, and no smaller than the number
/// that any of its prefixes writes.
pub proof fn lemma_digits_value_grows(s: Seq<char>, k: int)
    requires
        all_digits(s),
        0 <= k <= s.len(),
    ensures
        0 <= digits_value(s.take(k)) <= digits_value(s),
    decreases s.len() - k,
{
    if k == s.len() {
        assert(s.take(k) =~= s);
        lemma_digits_value_nonnegative(s);
    } else {
        lemma_digits_value_grows(s, k + 1);
        assert(s.take(k + 1).drop_last() =~= s.take(k));
        assert(is_digit(s[k]));
        assert(s.take(k + 1).last() == s[k]);
        lemma_digits_value_nonnegative(s.take(k));
    }
}

/// A number written in digits is not negative.
pub proof fn lemma_digits_value_nonnegative(s: Seq<char>)
    requires
        all_digits(s),
    ensures
        0 <= digits_value(s),
    decreases s.len(),
{
    if s.len() > 0 {
        assert(is_digit(s.last()));
        lemma_digits_value_nonnegative(s.drop_last());
    }
}

/// The characters `from..to` of `chars`, or none where `chars` has no such
/// range.
pub open spec fn range_of(chars: Seq<char>, from: int, to: int) -> Seq<char> {
    if 0 <= from <= to <= chars.len() {
        chars.subrange(from, to)
    } else {
        Seq::empty()
    }
}

/// The integer that the characters `from..to` of `chars` write once the white
/// space around them is taken off.
pub fn parse_trimmed(chars: &Vec<char>, from: usize, to: usize) -> (parsed: Option<i64>)
    ensures
        parsed == parse_int(trim(range_of(chars@, from as int, to as int))),
{
    if !(from <= to && to <= chars.len()) {
        return None;
    }
    let mut lo = from;
    while lo < to && is_whitespace(chars[lo])
        invariant
            from <= lo <= to <= chars@.len(),
            trim_start(chars@.subrange(from as int, to as int)) == trim_start(
                chars@.subrange(lo as int, to as int),
            ),
        decreases to - lo,
    {
        assert(chars@.subrange(lo as int, to as int).drop_first() =~= chars@.subrange(
            lo as int + 1,
            to as int,
        ));
        lo += 1;
    }
    let mut hi = to;
    while lo < hi && is_whitespace(chars[hi - 1])
        invariant
            from <= lo <= hi <= to <= chars@.len(),
            trim_start(chars@.subrange(from as int, to as int)) == chars@.subrange(
                lo as int,
                to as int,
            ),
            trim_end(chars@.subrange(lo as int, to as int)) == trim_end(
                chars@.subrange(lo as int, hi as int),
            ),
        decreases hi - lo,
    {
        assert(chars@.subrange(lo as int, hi as int).drop_last() =~= chars@.subrange(
            lo as int,
            hi as int - 1,
        ));
        hi -= 1;
    }
    parse_range(chars, lo, hi)
}

/// The integer that the characters `from..to` of `chars` write.
#[verifier::loop_isolation(false)]
pub fn parse_range(chars: &Vec<char>, from: usize, to: usize) -> (parsed: Option<i64>)
    ensures
        parsed == parse_int(range_of(chars@, from as int, to as int)),
{
    if !(from < to && to <= chars.len()) {
        return None;
    }
    let ghost s = chars@.subrange(from as int, to as int);
    let negative = chars[from] == '-';
    let start = if negative || chars[from] == '+' {
        from + 1
    } else {
        from
    };
    let ghost body = chars@.subrange(start as int, to as int);
    assert(body =~= if start > from {
        s.drop_first()
    } else {
        s
    });
    if start == to {
        return None;
    }
    let mut acc: i64 = 0;
    let mut k = start;
    assert(body.take(0) =~= Seq::<char>::empty());
    while k < to
        invariant
            start <= k <= to <= chars@.len(),
            body == chars@.subrange(start as int, to as int),
            forall|j: int| 0 <= j < k - start ==> is_digit(#[trigger] body[j]),
            acc == if negative {
                -digits_value(body.take(k - start))
            } else {
                digits_value(body.take(k - start))
            },
        decreases to - k,
    {
        let c = chars[k];
        assert(body[k - start] == c);
        if !('0' <= c && c <= '9') {
            return None;
        }
        let d = (c as u32 - 48) as i64;
        let ghost prefix = body.take(k - start + 1);
        assert(prefix.drop_last() =~= body.take(k - start));
        assert(prefix.last() == c);
        let next = match acc.checked_mul(10) {
            Some(tens) => if negative {
                tens.checked_sub(d)
            } else {
                tens.checked_add(d)
            },
            None => None,
        };
        match next {
            Some(value) => {
                acc = value;
            },
            None => {
                proof {
                    if all_digits(body) {
                        lemma_digits_value_grows(body, k - start + 1);
                    }
                }
                return None;
            },
        }
        k += 1;
    }
    assert(body.take(k - start) =~= body);
    Some(acc)
}

} // verus!
