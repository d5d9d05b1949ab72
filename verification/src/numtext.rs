//! Decimal text for unsigned integers: formatting (`Display`) and parsing
//! (`str::parse`).

use vstd::prelude::*;

verus! {

/// The ASCII digits.
pub open spec fn digits() -> Seq<char> {
    seq!['0', '1', '2', '3', '4', '5', '6', '7', '8', '9']
}

pub open spec fn is_digit(c: char) -> bool {
    '0' <= c && c <= '9'
}

/// The value of an ASCII digit.
pub open spec fn digit_value(c: char) -> int {
    c as int - '0' as int
}

/// Decimal representation of `n`, without leading zeros.
pub open spec fn decimal(n: nat) -> Seq<char>
    decreases n,
{
    if n < 10 {
        seq![digits()[n as int]]
    } else {
        decimal(n / 10).push(digits()[(n % 10) as int])
    }
}

/// The value of a string of digits.
pub open spec fn digits_value(s: Seq<char>) -> int
    decreases s.len(),
{
    if s.len() == 0 {
        0
    } else {
        digits_value(s.drop_last()) * 10 + digit_value(s.last())
    }
}

pub open spec fn all_digits(s: Seq<char>) -> bool {
    forall|i: int| 0 <= i < s.len() ==> is_digit(s[i])
}

/// `str::parse` for an unsigned type whose largest value is `max`: an
/// optional `+`, then one or more ASCII digits, and a value of at most `max`.
/// `s` without one leading `+`.
pub open spec fn strip_plus(s: Seq<char>) -> Seq<char> {
    if s.len() > 0 && s[0] == '+' {
        s.drop_first()
    } else {
        s
    }
}

pub open spec fn parse_uint(s: Seq<char>, max: int) -> Option<int> {
    let d = strip_plus(s);
    if d.len() > 0 && all_digits(d) && digits_value(d) <= max {
        Some(digits_value(d))
    } else {
        None
    }
}

fn digit_char(d: u64) -> (c: char)
    requires
        d < 10,
    ensures
        c == digits()[d as int],
        is_digit(c),
        digit_value(c) == d,
{
    match d {
        0 => '0',
        1 => '1',
        2 => '2',
        3 => '3',
        4 => '4',
        5 => '5',
        6 => '6',
        7 => '7',
        8 => '8',
        _ => '9',
    }
}

/// Appends the decimal representation of `n` to `out`.
pub fn push_decimal(out: &mut Vec<char>, n: u64)
    ensures
        final(out)@ == old(out)@ + decimal(n as nat),
    decreases n,
{
    if n < 10 {
        out.push(digit_char(n));
        assert(decimal(n as nat) =~= seq![digits()[n as int]]);
    } else {
        push_decimal(out, n / 10);
        out.push(digit_char(n % 10));
        assert(old(out)@ + decimal(n as nat) =~= old(out)@ + decimal((n / 10) as nat) + seq![
            digits()[(n % 10) as int],
        ]);
    }
}

pub proof fn lemma_digit_table()
    ensures
        forall|k: int| 0 <= k < 10 ==> is_digit(#[trigger] digits()[k]) && digit_value(digits()[k]) == k,
{
    assert(digits()[0] == '0');
    assert(digits()[1] == '1');
    assert(digits()[2] == '2');
    assert(digits()[3] == '3');
    assert(digits()[4] == '4');
    assert(digits()[5] == '5');
    assert(digits()[6] == '6');
    assert(digits()[7] == '7');
    assert(digits()[8] == '8');
    assert(digits()[9] == '9');
}

pub proof fn lemma_decimal_digits(n: nat)
    ensures
        all_digits(decimal(n)),
        decimal(n).len() > 0,
        digits_value(decimal(n)) == n,
        decimal(n)[0] != '+',
    decreases n,
{
    lemma_digit_table();
    if n < 10 {
        assert(decimal(n).drop_last() =~= Seq::<char>::empty());
        assert(digits_value(Seq::<char>::empty()) == 0);
        assert(decimal(n).last() == digits()[n as int]);
        assert(digit_value(digits()[n as int]) == n);
    }
    if n >= 10 {
        lemma_decimal_digits(n / 10);
        let d = decimal(n);
        assert(d.drop_last() =~= decimal(n / 10));
        assert(d.last() == digits()[(n % 10) as int]);
        assert(digit_value(digits()[(n % 10) as int]) == n % 10);
        assert(n == (n / 10) * 10 + n % 10);
        assert forall|i: int| 0 <= i < d.len() implies is_digit(d[i]) by {
            if i < d.len() - 1 {
                assert(d[i] == decimal(n / 10)[i]);
            }
        }
    }
}

/// Parsing the decimal text of `n` gives `n` back.
pub proof fn lemma_parse_decimal(n: nat, max: int)
    requires
        n <= max,
    ensures
        parse_uint(decimal(n), max) == Some(n as int),
{
    lemma_decimal_digits(n);
}

pub proof fn lemma_digits_value_prefix(s: Seq<char>, j: int, k: int)
    requires
        all_digits(s),
        0 <= j <= k <= s.len(),
    ensures
        digits_value(s.take(j)) <= digits_value(s.take(k)),
    decreases k - j,
{
    if j < k {
        lemma_digits_value_prefix(s, j, k - 1);
        assert(s.take(k).drop_last() =~= s.take(k - 1));
        assert(digits_value(s.take(k - 1)) >= 0) by {
            lemma_digits_value_nonneg(s.take(k - 1));
        }
    }
}

pub proof fn lemma_digits_value_nonneg(s: Seq<char>)
    requires
        all_digits(s),
    ensures
        digits_value(s) >= 0,
    decreases s.len(),
{
    if s.len() > 0 {
        lemma_digits_value_nonneg(s.drop_last());
    }
}

/// `str::parse` into an unsigned integer no larger than `max`.
pub fn parse_uint_exec(s: &Vec<char>, max: u64) -> (r: Option<u64>)
    requires
        max <= u32::MAX,
    ensures
        match r {
            Some(v) => parse_uint(s@, max as int) == Some(v as int),
            None => parse_uint(s@, max as int) is None,
        },
{
    let start: usize = if s.len() > 0 && s[0] == '+' {
        1
    } else {
        0
    };
    let ghost d = strip_plus(s@);
    assert(d =~= s@.subrange(start as int, s@.len() as int));
    if start >= s.len() {
        assert(d.len() == 0);
        return None;
    }
    let mut v: u64 = 0;
    let mut i: usize = start;
    while i < s.len()
        invariant
            start <= i <= s@.len(),
            d == s@.subrange(start as int, s@.len() as int),
            d == strip_plus(s@),
            max <= u32::MAX,
            v <= max,
            all_digits(d.take(i - start)),
            v == digits_value(d.take(i - start)),
        decreases s.len() - i,
    {
        let c = s[i];
        if !('0' <= c && c <= '9') {
            assert(d[i - start] == c);
            assert(!all_digits(d));
            assert(parse_uint(s@, max as int) is None);
            return None;
        }
        let dv = (c as u64) - ('0' as u64);
        let nv = v * 10 + dv;
        assert(d.take(i + 1 - start).drop_last() =~= d.take(i - start));
        assert(d.take(i + 1 - start).last() == c);
        assert(all_digits(d.take(i + 1 - start))) by {
            assert forall|k: int| 0 <= k < i + 1 - start implies is_digit(
                #[trigger] d.take(i + 1 - start)[k],
            ) by {
                if k < i - start {
                    assert(d.take(i + 1 - start)[k] == d.take(i - start)[k]);
                }
            }
        }
        if nv > max {
            proof {
                if all_digits(d) {
                    lemma_digits_value_prefix(d, i + 1 - start, d.len() as int);
                    assert(d.take(d.len() as int) =~= d);
                    assert(digits_value(d) > max);
                }
            }
            return None;
        }
        v = nv;
        i = i + 1;
    }
    assert(d.take(i - start) =~= d);
    Some(v)
}

/// `str::parse::<u128>`.
pub fn parse_u128_exec(s: &Vec<char>) -> (r: Option<u128>)
    ensures
        match r {
            Some(v) => parse_uint(s@, u128::MAX as int) == Some(v as int),
            None => parse_uint(s@, u128::MAX as int) is None,
        },
{
    let start: usize = if s.len() > 0 && s[0] == '+' {
        1
    } else {
        0
    };
    let ghost d = strip_plus(s@);
    let ghost max = u128::MAX as int;
    assert(d =~= s@.subrange(start as int, s@.len() as int));
    if start >= s.len() {
        assert(d.len() == 0);
        return None;
    }
    let mut v: u128 = 0;
    let mut i: usize = start;
    while i < s.len()
        invariant
            start <= i <= s@.len(),
            d == s@.subrange(start as int, s@.len() as int),
            d == strip_plus(s@),
            max == u128::MAX as int,
            all_digits(d.take(i - start)),
            v == digits_value(d.take(i - start)),
        decreases s.len() - i,
    {
        let c = s[i];
        if !('0' <= c && c <= '9') {
            assert(d[i - start] == c);
            assert(!all_digits(d));
            return None;
        }
        let dv = ((c as u32) - ('0' as u32)) as u128;
        assert(d.take(i + 1 - start).drop_last() =~= d.take(i - start));
        assert(d.take(i + 1 - start).last() == c);
        assert(all_digits(d.take(i + 1 - start))) by {
            assert forall|k: int| 0 <= k < i + 1 - start implies is_digit(
                #[trigger] d.take(i + 1 - start)[k],
            ) by {
                if k < i - start {
                    assert(d.take(i + 1 - start)[k] == d.take(i - start)[k]);
                }
            }
        }
        let nv = match v.checked_mul(10) {
            Some(m) => m.checked_add(dv),
            None => None,
        };
        match nv {
            Some(n) => {
                v = n;
            },
            None => {
                proof {
                    assert(digits_value(d.take(i + 1 - start)) > max);
                    if all_digits(d) {
                        lemma_digits_value_prefix(d, i + 1 - start, d.len() as int);
                        assert(d.take(d.len() as int) =~= d);
                    }
                }
                return None;
            },
        }
        i = i + 1;
    }
    assert(d.take(i - start) =~= d);
    Some(v)
}

} // verus!
