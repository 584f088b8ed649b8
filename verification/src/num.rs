//! Decimal integers read from text, as `str::parse::<i32>` reads them.
use vstd::prelude::*;

verus! {

pub open spec fn is_digit(c: char) -> bool {
    '0' <= c && c <= '9'
}

pub open spec fn all_digits(s: Seq<char>) -> bool {
    forall|i: int| 0 <= i < s.len() ==> is_digit(#[trigger] s[i])
}

/// The number that a string of decimal digits denotes.
pub open spec fn digits_value(s: Seq<char>) -> int
    decreases s.len(),
{
    if s.len() == 0 {
        0
    } else {
        10 * digits_value(s.drop_last()) + (s.last() as int - '0' as int)
    }
}

/// The integer that `s` denotes: an optional sign followed by at least one
/// decimal digit, and nothing else.
pub open spec fn integer_value(s: Seq<char>) -> Option<int> {
    if s.len() == 0 {
        None
    } else if s[0] == '-' || s[0] == '+' {
        let rest = s.drop_first();
        if rest.len() > 0 && all_digits(rest) {
            Some(if s[0] == '-' { -digits_value(rest) } else { digits_value(rest) })
        } else {
            None
        }
    } else if all_digits(s) {
        Some(digits_value(s))
    } else {
        None
    }
}

/// What `str::parse::<i32>().ok()` gives back.
pub open spec fn parse_i32_spec(s: Seq<char>) -> Option<i32> {
    match integer_value(s) {
        Some(v) => if i32::MIN <= v && v <= i32::MAX {
            Some(v as i32)
        } else {
            None
        },
        None => None,
    }
}

proof fn lemma_digits_value_nonneg(s: Seq<char>)
    requires
        all_digits(s),
    ensures
        digits_value(s) >= 0,
    decreases s.len(),
{
    if s.len() > 0 {
        assert(all_digits(s.drop_last()));
        lemma_digits_value_nonneg(s.drop_last());
        assert(is_digit(s[s.len() - 1]));
    }
}

/// Reads an `i32` from `s` the way `str::parse::<i32>` does, `None` where it
/// fails.
pub fn parse_i32(s: &str) -> (r: Option<i32>)
    ensures
        r == parse_i32_spec(s@),
{
    let v = crate::text::chars_of(s);
    let n = v.len();
    if n == 0 {
        return None;
    }
    let negative = v[0] == '-';
    let start: usize = if v[0] == '-' || v[0] == '+' { 1 } else { 0 };
    if start == n {
        return None;
    }
    let ghost digits = v@.skip(start as int);
    let limit: i64 = 2147483648;
    let mut acc: i64 = 0;
    let mut big = false;
    let mut i: usize = start;
    while i < n
        invariant
            n == v@.len(),
            v@ == s@,
            start <= i <= n,
            digits == v@.skip(start as int),
            all_digits(digits.take(i - start)),
            !big ==> acc == digits_value(digits.take(i - start)) && 0 <= acc <= limit,
            negative == (v@[0] == '-'),
            start == 1 <==> (v@[0] == '-' || v@[0] == '+'),
            start == 0 <==> !(v@[0] == '-' || v@[0] == '+'),
            big ==> digits_value(digits.take(i - start)) > limit,
            limit == 2147483648,
        decreases n - i,
    {
        let c = v[i];
        if !('0' <= c && c <= '9') {
            assert(!all_digits(digits)) by {
                assert(digits[i - start] == c);
            }
            proof {
                if start == 1 {
                    assert(v@.drop_first() =~= digits);
                } else {
                    assert(v@.skip(0) =~= v@);
                    assert(!is_digit(v@[i as int]));
                }
                assert(integer_value(v@) is None);
            }
            return None;
        }
        let d: i64 = (c as u32 - '0' as u32) as i64;
        let ghost prev = digits.take(i - start);
        let ghost next = digits.take(i + 1 - start);
        assert(next.drop_last() =~= prev);
        assert(next.last() == c);
        assert(all_digits(next));
        proof {
            lemma_digits_value_nonneg(prev);
        }
        if !big {
            let nv = acc * 10 + d;
            if nv > limit {
                big = true;
            } else {
                acc = nv;
            }
        }
        i = i + 1;
    }
    assert(digits.take(n - start) =~= digits);
    proof {
        if start == 1 {
            assert(v@.drop_first() =~= digits);
        } else {
            assert(v@.skip(0) =~= v@);
        }
    }
    if big {
        return None;
    }
    if negative {
        Some((0 - acc) as i32)
    } else if acc == limit {
        None
    } else {
        Some(acc as i32)
    }
}

/// The decimal digit for `d` in `0..10`.
pub open spec fn digit_char(d: int) -> char {
    (48 + d) as char
}

/// The decimal digits of `n`, as `Display` writes an unsigned integer.
pub open spec fn decimal(n: nat) -> Seq<char>
    decreases n,
{
    if n < 10 {
        seq![digit_char(n as int)]
    } else {
        decimal(n / 10).push(digit_char((n % 10) as int))
    }
}

/// How `Display` writes an integer: a minus sign before the digits of a
/// negative one.
pub open spec fn int_text(i: int) -> Seq<char> {
    if i < 0 {
        seq!['-'] + decimal((-i) as nat)
    } else {
        decimal(i as nat)
    }
}

fn push_decimal(n: u64, out: &mut Vec<char>)
    ensures
        final(out)@ == old(out)@ + decimal(n as nat),
    decreases n,
{
    if n >= 10 {
        push_decimal(n / 10, out);
    }
    let d: u8 = (n % 10) as u8;
    let c = (48u8 + d) as char;
    out.push(c);
    proof {
        if n < 10 {
            assert(decimal(n as nat) == seq![digit_char(n as int)]);
        }
    }
}

/// The text of an unsigned integer.
pub fn u64_text(n: u64) -> (r: String)
    ensures
        r@ == decimal(n as nat),
{
    let mut v: Vec<char> = Vec::new();
    push_decimal(n, &mut v);
    assert(v@ =~= decimal(n as nat));
    crate::text::string_of(&v)
}

/// The text of a signed integer.
pub fn i64_text(i: i64) -> (r: String)
    ensures
        r@ == int_text(i as int),
{
    let mut v: Vec<char> = Vec::new();
    if i < 0 {
        v.push('-');
        let m: u64 = if i == i64::MIN {
            0x8000_0000_0000_0000u64
        } else {
            (-i) as u64
        };
        push_decimal(m, &mut v);
        assert(v@ =~= seq!['-'] + decimal((-i) as nat));
    } else {
        push_decimal(i as u64, &mut v);
        assert(v@ =~= decimal(i as nat));
    }
    crate::text::string_of(&v)
}

} // verus!
