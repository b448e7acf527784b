//! Decimal numbers: `str::parse::<usize>` and the decimal form of a number.
use vstd::prelude::*;
use crate::opencode_theme::{decimal, is_dec_digit, unsigned_digits, lemma_decimal_nonneg};
use crate::text::string_of;

verus! {

/// `s.parse::<usize>()`: an optional `+` followed by at least one decimal
/// digit and nothing else, of value at most `usize::MAX`.
pub open spec fn dec_usize(s: Seq<char>) -> Option<int> {
    let d = unsigned_digits(s);
    if d.len() > 0 && (forall|i: int| 0 <= i < d.len() ==> is_dec_digit(d[i])) && decimal(d)
        <= usize::MAX {
        Some(decimal(d))
    } else {
        None
    }
}

/// Parses a `usize` as `str::parse` does.
pub fn parse_usize(s: &[char]) -> (r: Option<usize>)
    ensures
        match r {
            Some(n) => dec_usize(s@) == Some(n as int),
            None => dec_usize(s@) is None,
        },
{
    let start: usize = if s.len() > 0 && s[0] == '+' {
        1
    } else {
        0
    };
    let ghost d = unsigned_digits(s@);
    proof {
        assert(d =~= s@.subrange(start as int, s@.len() as int));
    }
    if s.len() == start {
        return None;
    }
    let big: u128 = usize::MAX as u128 + 1;
    let mut acc: u128 = 0;
    let mut i: usize = start;
    while i < s.len()
        invariant
            start <= i <= s@.len(),
            big == usize::MAX + 1,
            d == s@.subrange(start as int, s@.len() as int),
            d == unsigned_digits(s@),
            forall|j: int| start <= j < i ==> is_dec_digit(s@[j]),
            acc == if decimal(s@.subrange(start as int, i as int)) <= usize::MAX {
                decimal(s@.subrange(start as int, i as int))
            } else {
                big as int
            },
        decreases s@.len() - i,
    {
        let u = s[i] as u32;
        if u < 0x30 || u > 0x39 {
            proof {
                assert(d[i - start] == s@[i as int]);
                assert(!is_dec_digit(d[i - start]));
            }
            return None;
        }
        proof {
            let p = s@.subrange(start as int, i + 1);
            assert(p.drop_last() =~= s@.subrange(start as int, i as int));
            let q = s@.subrange(start as int, i as int);
            assert forall|j: int| 0 <= j < q.len() implies is_dec_digit(q[j]) by {
                assert(q[j] == s@[start + j]);
            }
            lemma_decimal_nonneg(q);
        }
        let next = acc * 10 + (u - 0x30) as u128;
        acc = if next > usize::MAX as u128 {
            big
        } else {
            next
        };
        i = i + 1;
    }
    proof {
        assert(s@.subrange(start as int, s@.len() as int) == d);
        assert forall|j: int| 0 <= j < d.len() implies is_dec_digit(d[j]) by {
            assert(d[j] == s@[start + j]);
        }
    }
    if acc > usize::MAX as u128 {
        None
    } else {
        Some(acc as usize)
    }
}

/// The character of the decimal digit `d`.
pub open spec fn digit_char(d: int) -> char {
    (0x30 + d) as char
}

/// The decimal form of `n`, as `{}` formats it.
pub open spec fn dec_string(n: nat) -> Seq<char>
    decreases n,
{
    if n < 10 {
        seq![digit_char(n as int)]
    } else {
        dec_string(n / 10).push(digit_char((n % 10) as int))
    }
}

fn dec_chars(n: u128) -> (r: Vec<char>)
    ensures
        r@ == dec_string(n as nat),
    decreases n,
{
    let d = (n % 10) as u8;
    let c = (0x30u8 + d) as char;
    if n < 10 {
        let mut v: Vec<char> = Vec::new();
        v.push(c);
        assert(v@ =~= seq![digit_char(n as int)]);
        v
    } else {
        let mut v = dec_chars(n / 10);
        v.push(c);
        v
    }
}

/// The decimal form of `n`.
pub fn fmt_decimal(n: u128) -> (r: String)
    ensures
        r@ == dec_string(n as nat),
{
    let v = dec_chars(n);
    string_of(&v)
}

} // verus!
