//! MODU: three more kinds of remainder.
use vstd::prelude::*;

use crate::befunge::{Value, lemma_trunc_bounds, trunc_div, trunc_rem};
use crate::befunge98::fingerprints::{Fingerprint, FingerprintFunction, FingerprintName, fingerprint_map, table};
use crate::befunge98::{Cursor, Env};
use crate::settings::Settings;

verus! {

/// The table of MODU: `m`, `u` and `r`.
pub open spec fn letters_table() -> Seq<Option<FingerprintFunction>> {
    table(FingerprintName::Modu, seq![109u8, 117, 114])
}

/// The letters of MODU.
pub fn list_of_ops() -> (r: Fingerprint)
    ensures
        r@ == letters_table(),
{
    let letters: [u8; 3] = [109, 117, 114];
    assert(letters@ =~= seq![109u8, 117, 114]);
    fingerprint_map(FingerprintName::Modu, letters.as_slice())
}

/// The remainder that `M` pushes for `b` and `a`: 0 for a zero divisor;
/// otherwise the truncated remainder, negated when exactly one of them is
/// negative.
pub open spec fn signed_modulo(b: Value, a: Value) -> int {
    if a == 0 {
        0
    } else if (a < 0) == (b < 0) {
        trunc_rem(b as int, a as int)
    } else {
        -trunc_rem(b as int, a as int)
    }
}

/// The remainder that `U` pushes: 0 for a zero divisor, otherwise the
/// magnitude of the truncated remainder.
pub open spec fn unsigned_modulo(b: Value, a: Value) -> int {
    if a == 0 {
        0
    } else if trunc_rem(b as int, a as int) < 0 {
        -trunc_rem(b as int, a as int)
    } else {
        trunc_rem(b as int, a as int)
    }
}

/// The remainder that `R` pushes: 0 for a zero divisor, otherwise the
/// truncated remainder, negated unless it has the sign of `b`.
pub open spec fn c_remainder(b: Value, a: Value) -> int {
    if a == 0 {
        0
    } else if (b < 0) == (trunc_rem(b as int, a as int) < 0) {
        trunc_rem(b as int, a as int)
    } else {
        -trunc_rem(b as int, a as int)
    }
}

/// The remainder that a letter of MODU pushes for `b` and `a`.
pub open spec fn remainder(letter: u8, b: Value, a: Value) -> Option<int> {
    if letter == 109 {
        Some(signed_modulo(b, a))
    } else if letter == 117 {
        Some(unsigned_modulo(b, a))
    } else if letter == 114 {
        Some(c_remainder(b, a))
    } else {
        None
    }
}

/// Whether `b` and `a` are the one pair whose quotient and remainder
/// overflow, which Rust refuses to compute.
pub open spec fn overflowing(b: Value, a: Value) -> bool {
    b == i64::MIN && a == -1
}

/// The truncated remainder is smaller in magnitude than the divisor.
proof fn lemma_rem_below(b: Value, a: Value)
    requires
        a != 0,
        !overflowing(b, a),
    ensures
        -0x7fff_ffff_ffff_ffff <= trunc_rem(b as int, a as int) <= 0x7fff_ffff_ffff_ffff,
        trunc_rem(b as int, a as int) == b - trunc_div(b as int, a as int) * a,
        b >= 0 ==> trunc_rem(b as int, a as int) >= 0,
        b < 0 ==> trunc_rem(b as int, a as int) <= 0,
{
    lemma_trunc_bounds(b as int, a as int);
    let x = b as int;
    let d = a as int;
    if x >= 0 && d > 0 {
        assert(x % d == x - (x / d) * d) by (nonlinear_arith)
            requires
                d > 0,
        ;
    } else if x < 0 && d < 0 {
        assert(-((-x) % (-d)) == x - ((-x) / (-d)) * d) by (nonlinear_arith)
            requires
                -d > 0,
        ;
    } else if x < 0 {
        assert(-((-x) % d) == x - (-((-x) / d)) * d) by (nonlinear_arith)
            requires
                d > 0,
        ;
    } else {
        assert(x % (-d) == x - (-(x / (-d))) * d) by (nonlinear_arith)
            requires
                -d > 0,
        ;
    }
}

/// `M`: pops `a` and `b`, pushes their signed-result remainder. Rust
/// refuses the division of the most negative cell by -1, which is left out.
pub fn modu_m(this: &mut Cursor, _state: &mut Env, _settings: &Settings)
    requires
        old(this)@.wf(),
        !overflowing(old(this)@.pop().top(), old(this)@.top()),
    ensures
        final(this)@ == old(this)@.pop().pop().push(
            signed_modulo(old(this)@.pop().top(), old(this)@.top()) as Value,
        ),
        *final(_state) == *old(_state),
{
    let a = this.pop();
    let b = this.pop();
    if a == 0 {
        this.push(0);
    } else {
        proof {
            lemma_rem_below(b, a);
            lemma_trunc_bounds(b as int, a as int);
        }
        let q = match b.checked_div(a) {
            Some(q) => q,
            None => {
                assert(false);
                0
            },
        };
        assert(q == trunc_div(b as int, a as int));
        assert(q * a == trunc_div(b as int, a as int) * a);
        let modu = b - q * a;
        if (a < 0) == (b < 0) {
            this.push(modu);
        } else {
            this.push(-modu);
        }
    }
}

/// `U`: pops `a` and `b`, pushes the magnitude of their remainder. Rust
/// refuses the remainder of the most negative cell by -1, which is left out.
pub fn modu_u(this: &mut Cursor, _state: &mut Env, _settings: &Settings)
    requires
        old(this)@.wf(),
        !overflowing(old(this)@.pop().top(), old(this)@.top()),
    ensures
        final(this)@ == old(this)@.pop().pop().push(
            unsigned_modulo(old(this)@.pop().top(), old(this)@.top()) as Value,
        ),
        *final(_state) == *old(_state),
{
    let a = this.pop();
    let b = this.pop();
    if a == 0 {
        this.push(0)
    } else {
        proof {
            lemma_rem_below(b, a);
        }
        let m = match b.checked_rem(a) {
            Some(m) => m,
            None => {
                assert(false);
                0
            },
        };
        assert(m == trunc_rem(b as int, a as int));
        this.push(if m < 0 {
            -m
        } else {
            m
        })
    }
}

/// `R`: pops `a` and `b`, pushes their remainder with the sign of `b`.
/// Rust refuses the remainder of the most negative cell by -1, which is
/// left out.
pub fn modu_r(this: &mut Cursor, _state: &mut Env, _settings: &Settings)
    requires
        old(this)@.wf(),
        !overflowing(old(this)@.pop().top(), old(this)@.top()),
    ensures
        final(this)@ == old(this)@.pop().pop().push(
            c_remainder(old(this)@.pop().top(), old(this)@.top()) as Value,
        ),
        *final(_state) == *old(_state),
{
    let a = this.pop();
    let b = this.pop();
    if a == 0 {
        this.push(0)
    } else {
        proof {
            lemma_rem_below(b, a);
        }
        let modu = match b.checked_rem(a) {
            Some(m) => m,
            None => {
                assert(false);
                0
            },
        };
        assert(modu == trunc_rem(b as int, a as int));
        if (b < 0) == (modu < 0) {
            this.push(modu)
        } else {
            this.push(-modu)
        }
    };
}

} // verus!
