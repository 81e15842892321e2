//! Writing numbers in decimal.
use vstd::prelude::*;

use crate::outside::string_push;

verus! {

/// The character of a decimal digit.
pub open spec fn digit_char(d: int) -> char {
    (48 + d) as char
}

/// The decimal digits of a natural number, most significant first.
pub open spec fn digits(n: nat) -> Seq<char>
    decreases n,
{
    if n < 10 {
        seq![digit_char(n as int)]
    } else {
        digits(n / 10).push(digit_char((n % 10) as int))
    }
}

/// An integer in decimal, with a leading minus sign when negative.
pub open spec fn decimal(v: int) -> Seq<char> {
    if v < 0 {
        seq!['-'] + digits((-v) as nat)
    } else {
        digits(v as nat)
    }
}

/// Appends an integer in decimal, as `to_string` writes it.
pub fn push_decimal(out: &mut String, v: i64)
    ensures
        final(out)@ == old(out)@ + decimal(v as int),
{
    let mut n: u64 = if v < 0 {
        ((-(v + 1)) as u64) + 1
    } else {
        v as u64
    };
    let ghost mag: nat = if v < 0 {
        (-v) as nat
    } else {
        v as nat
    };
    assert(n == mag);
    // The digits, least significant first.
    let mut rev: Vec<char> = Vec::new();
    while n >= 10
        invariant
            digits(mag) == digits(n as nat) + rev@.reverse(),
        decreases n,
    {
        let d = (n % 10) as u8;
        let c = (48u8 + d) as char;
        proof {
            assert(digits(n as nat) == digits((n / 10) as nat).push(digit_char((n % 10) as int)));
            assert(c == digit_char((n % 10) as int));
            assert(rev@.push(c).reverse() =~= seq![c] + rev@.reverse());
            assert(digits(n as nat) + rev@.reverse() =~= digits((n / 10) as nat) + rev@.push(
                c,
            ).reverse());
        }
        rev.push(c);
        n = n / 10;
    }
    let c = (48u8 + n as u8) as char;
    proof {
        assert(digits(n as nat) == seq![digit_char(n as int)]);
    }
    if v < 0 {
        string_push(out, '-');
    }
    let ghost before = out@;
    string_push(out, c);
    let mut i = rev.len();
    while i > 0
        invariant
            i <= rev@.len(),
            out@ == before + seq![c] + rev@.subrange(i as int, rev@.len() as int).reverse(),
        decreases i,
    {
        i = i - 1;
        let ghost prev = out@;
        string_push(out, rev[i]);
        proof {
            assert(rev@.subrange(i as int, rev@.len() as int).reverse() =~= rev@.subrange(
                i + 1,
                rev@.len() as int,
            ).reverse().push(rev@[i as int]));
        }
    }
    proof {
        assert(rev@.subrange(0, rev@.len() as int) =~= rev@);
        if v < 0 {
            assert(decimal(v as int) =~= seq!['-'] + digits(mag));
        }
    }
}

} // verus!
