use vstd::prelude::*;

verus! {

/// Whether `c` is an ASCII decimal digit.
pub open spec fn is_digit(c: char) -> bool {
    '0' <= c && c <= '9'
}

/// The value of the ASCII decimal digit `c`.
pub open spec fn digit_value(c: char) -> int {
    c as int - '0' as int
}

/// Whether every character of `s` is an ASCII decimal digit.
pub open spec fn all_digits(s: Seq<char>) -> bool {
    forall|i: int| 0 <= i < s.len() ==> is_digit(#[trigger] s[i])
}

/// The number that the decimal digits `s` denote, most significant first.
pub open spec fn digits_value(s: Seq<char>) -> nat
    decreases s.len(),
{
    if s.len() == 0 {
        0
    } else {
        (digits_value(s.drop_last()) * 10 + digit_value(s.last())) as nat
    }
}

/// `s` without its leading `+`, if it has one.
pub open spec fn without_plus(s: Seq<char>) -> Seq<char> {
    if s.len() > 0 && s[0] == '+' {
        s.drop_first()
    } else {
        s
    }
}

/// What `str::parse` gives for an unsigned integer type whose largest
/// value is `max`: the text must be an optional `+` followed by at least one
/// ASCII digit, and denote a number no larger than `max`.
pub open spec fn parse_unsigned(s: Seq<char>, max: int) -> Option<nat> {
    let digits = without_plus(s);
    if digits.len() > 0 && all_digits(digits) && digits_value(digits) <= max {
        Some(digits_value(digits))
    } else {
        None
    }
}

/// The digits of a prefix denote at most the number of the whole.
proof fn lemma_prefix_value_le(s: Seq<char>, j: int)
    requires
        all_digits(s),
        0 <= j <= s.len(),
    ensures
        digits_value(s.take(j)) <= digits_value(s),
    decreases s.len(),
{
    if j < s.len() {
        let t = s.drop_last();
        assert(t.take(j) =~= s.take(j));
        assert(all_digits(t));
        lemma_prefix_value_le(t, j);
    } else {
        assert(s.take(j) =~= s);
    }
}

/// Parses `chars[start..end]` as `str::parse` would for an unsigned integer
/// type whose largest value is `max`.
pub fn parse_unsigned_in(chars: &Vec<char>, start: usize, end: usize, max: u64) -> (r: Option<u64>)
    requires
        start <= end <= chars@.len(),
    ensures
        match r {
            Some(v) => parse_unsigned(chars@.subrange(start as int, end as int), max as int)
                == Some(v as nat),
            None => parse_unsigned(chars@.subrange(start as int, end as int), max as int) is None,
        },
{
    let ghost s = chars@.subrange(start as int, end as int);
    let mut i = start;
    if i < end && chars[i] == '+' {
        i = i + 1;
    }
    let first = i;
    let ghost digits = chars@.subrange(first as int, end as int);
    assert(digits =~= without_plus(s));
    if first == end {
        return None;
    }
    let mut acc: u64 = 0;
    assert(digits.take(0) =~= Seq::<char>::empty());
    while i < end
        invariant
            first <= i <= end <= chars@.len(),
            s == chars@.subrange(start as int, end as int),
            digits == chars@.subrange(first as int, end as int),
            digits == without_plus(s),
            digits.len() > 0,
            acc as int == digits_value(digits.take(i - first)),
            acc <= max,
            all_digits(digits.take(i - first)),
        decreases end - i,
    {
        let c = chars[i];
        if !('0' <= c && c <= '9') {
            assert(digits[i - first] == c);
            return None;
        }
        let d = (c as u32 - '0' as u32) as u64;
        let ghost k = i - first;
        assert(digits.take(k + 1).drop_last() =~= digits.take(k));
        assert(digits.take(k + 1).last() == c);
        let next: u128 = acc as u128 * 10 + d as u128;
        if next > max as u128 {
            proof {
                assert(all_digits(digits.take(k + 1)));
                if all_digits(digits) {
                    lemma_prefix_value_le(digits, k + 1);
                }
            }
            return None;
        }
        acc = next as u64;
        i = i + 1;
        assert(all_digits(digits.take(i - first)));
    }
    assert(digits.take(end - first) =~= digits);
    Some(acc)
}

/// The decimal digits of `n`, most significant first, without leading
/// zeros.
pub open spec fn decimal_digits(n: nat) -> Seq<char>
    decreases n,
{
    if n < 10 {
        seq![(n + '0' as nat) as char]
    } else {
        decimal_digits(n / 10).push(((n % 10) + '0' as nat) as char)
    }
}

/// Reading back the decimal digits of `n` gives `n`.
pub proof fn lemma_decimal_digits_value(n: nat)
    ensures
        all_digits(decimal_digits(n)),
        decimal_digits(n).len() > 0,
        digits_value(decimal_digits(n)) == n,
    decreases n,
{
    if n < 10 {
        let s = decimal_digits(n);
        assert(((n + '0' as nat) as char) as int == n + 48);
        assert(s.drop_last() =~= Seq::<char>::empty());
        assert(digits_value(s.drop_last()) == 0);
    } else {
        lemma_decimal_digits_value(n / 10);
        let s = decimal_digits(n);
        assert((((n % 10) + '0' as nat) as char) as int == n % 10 + 48);
        assert(s.drop_last() =~= decimal_digits(n / 10));
        assert(n == (n / 10) * 10 + n % 10);
        assert forall|i: int| 0 <= i < s.len() implies is_digit(#[trigger] s[i]) by {
            if i < s.len() - 1 {
                assert(s[i] == decimal_digits(n / 10)[i]);
            }
        }
    }
}

/// Parsing the decimal form of a number that fits gives the number back.
pub proof fn lemma_parse_decimal_roundtrip(n: nat, max: int)
    requires
        n <= max,
    ensures
        parse_unsigned(decimal_digits(n), max) == Some(n),
{
    lemma_decimal_digits_value(n);
    let s = decimal_digits(n);
    assert(is_digit(s[0]));
}

} // verus!
