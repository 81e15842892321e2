//! Fingerprints: named sets of instructions for the letters A to Z.
use vstd::arithmetic::power::pow;
use vstd::prelude::*;

pub mod bool;
pub mod fing;
pub mod fpdp;
pub mod fpsp;
pub mod hrti;
pub mod modu;
pub mod null;
pub mod pixl;
pub mod refc;
pub mod roma;

verus! {

/// The fingerprints that this interpreter knows.
#[derive(Clone, Copy, Debug, PartialEq, Eq)]
pub enum FingerprintName {
    Null,
    Roma,
    Bool,
    Hrti,
    Modu,
    Refc,
    Fing,
    Fpdp,
    Fpsp,
    Pixl,
}

/// An instruction that a letter can stand for: the letter's instruction of
/// a fingerprint, or a plain reflection.
#[derive(Clone, Copy, Debug, PartialEq, Eq)]
pub enum FingerprintFunction {
    Reflect,
    Op { fingerprint: FingerprintName, letter: u8 },
}

/// What each letter, `a` to `z`, stands for in a fingerprint.
pub type Fingerprint = [Option<FingerprintFunction>; 26];

/// The table of a fingerprint that gives its own instruction to each of the
/// given letters (lower-case ASCII codes) and leaves the other letters unset.
pub open spec fn table(name: FingerprintName, letters: Seq<u8>) -> Seq<Option<FingerprintFunction>> {
    Seq::new(
        26,
        |i: int|
            if letters.contains((i + 97) as u8) {
                Some(FingerprintFunction::Op { fingerprint: name, letter: (i + 97) as u8 })
            } else {
                None
            },
    )
}

/// Builds the table of a fingerprint from the letters it defines.
pub fn fingerprint_map(name: FingerprintName, letters: &[u8]) -> (r: Fingerprint)
    requires
        forall|k: int| 0 <= k < letters@.len() ==> 97 <= #[trigger] letters@[k] <= 122,
    ensures
        r@ == table(name, letters@),
{
    let mut arr: Fingerprint = [None; 26];
    let mut i: usize = 0;
    assert(arr@ =~= table(name, letters@.take(0)));
    while i < letters.len()
        invariant
            i <= letters@.len(),
            forall|k: int| 0 <= k < letters@.len() ==> 97 <= #[trigger] letters@[k] <= 122,
            arr@ == table(name, letters@.take(i as int)),
        decreases letters@.len() - i,
    {
        let l = letters[i];
        let ghost before = letters@.take(i as int);
        arr[(l - 97) as usize] = Some(FingerprintFunction::Op { fingerprint: name, letter: l });
        proof {
            let after = letters@.take(i + 1);
            assert(after =~= before.push(l));
            assert forall|x: u8| after.contains(x) <==> (before.contains(x) || x == l) by {
                if before.contains(x) {
                    let j = choose|j: int| 0 <= j < before.len() && before[j] == x;
                    assert(after[j] == x);
                }
                if x == l {
                    assert(after[i as int] == x);
                }
                if after.contains(x) {
                    let j = choose|j: int| 0 <= j < after.len() && after[j] == x;
                    if j < i {
                        assert(before[j] == x);
                    }
                }
            }
            assert(arr@ =~= table(name, after));
        }
        i = i + 1;
    }
    assert(letters@.take(i as int) =~= letters@);
    arr
}

/// The number that names a fingerprint: its bytes read as a base-256
/// numeral, the first byte the most significant.
pub open spec fn fingerprint_value(bytes: Seq<u8>) -> int
    decreases bytes.len(),
{
    if bytes.len() == 0 {
        0
    } else {
        fingerprint_value(bytes.drop_last()) * 256 + bytes.last()
    }
}

/// A fingerprint's number is at least that of any of its prefixes, and not
/// negative.
proof fn lemma_fingerprint_value_grows(bytes: Seq<u8>, i: int)
    requires
        0 <= i <= bytes.len(),
    ensures
        0 <= fingerprint_value(bytes.take(i)) <= fingerprint_value(bytes),
    decreases bytes.len() - i,
{
    if i < bytes.len() {
        lemma_fingerprint_value_grows(bytes, i + 1);
        assert(bytes.take(i + 1).drop_last() =~= bytes.take(i));
    } else {
        assert(bytes.take(i) =~= bytes);
        lemma_fingerprint_value_nonnegative(bytes);
    }
}

proof fn lemma_fingerprint_value_nonnegative(bytes: Seq<u8>)
    ensures
        fingerprint_value(bytes) >= 0,
    decreases bytes.len(),
{
    if bytes.len() > 0 {
        lemma_fingerprint_value_nonnegative(bytes.drop_last());
    }
}

/// A fingerprint's number is below 256 to the power of its length.
pub proof fn lemma_fingerprint_value_bound(bytes: Seq<u8>)
    ensures
        0 <= fingerprint_value(bytes) < pow(256, bytes.len()),
    decreases bytes.len(),
{
    reveal(pow);
    if bytes.len() > 0 {
        let rest = bytes.drop_last();
        lemma_fingerprint_value_bound(rest);
        let v = fingerprint_value(rest);
        let p = pow(256, rest.len());
        let b = bytes.last();
        assert(v * 256 + b < 256 * p) by (nonlinear_arith)
            requires
                0 <= v < p,
                0 <= b < 256,
        ;
        assert(0 <= v * 256 + b) by (nonlinear_arith)
            requires
                0 <= v,
                0 <= b,
        ;
    }
}

/// The number of two names one after the other: the first's number shifted
/// past the bytes of the second, plus the second's number.
pub proof fn lemma_fingerprint_value_concat(a: Seq<u8>, b: Seq<u8>)
    ensures
        fingerprint_value(a + b) == fingerprint_value(a) * pow(256, b.len()) + fingerprint_value(b),
    decreases b.len(),
{
    reveal(pow);
    if b.len() == 0 {
        assert(a + b =~= a);
    } else {
        let b1 = b.drop_last();
        lemma_fingerprint_value_concat(a, b1);
        assert((a + b).drop_last() =~= a + b1);
        assert((a + b).last() == b.last());
        let va = fingerprint_value(a);
        let vb1 = fingerprint_value(b1);
        let p1 = pow(256, b1.len());
        let l = b.last() as int;
        assert((va * p1 + vb1) * 256 + l == va * (256 * p1) + (vb1 * 256 + l)) by (nonlinear_arith);
    }
}

/// The number of a fingerprint from its name's bytes. The number must fit
/// in a cell (the computation would overflow otherwise).
pub fn fingerprint_to_i64(bytes: &[u8]) -> (r: i64)
    requires
        fingerprint_value(bytes@) <= i64::MAX,
    ensures
        r == fingerprint_value(bytes@),
{
    let mut num: i64 = 0;
    let mut i: usize = 0;
    assert(bytes@.take(0) =~= Seq::<u8>::empty());
    while i < bytes.len()
        invariant
            i <= bytes@.len(),
            fingerprint_value(bytes@) <= i64::MAX,
            num == fingerprint_value(bytes@.take(i as int)),
        decreases bytes@.len() - i,
    {
        proof {
            lemma_fingerprint_value_grows(bytes@, i + 1);
            lemma_fingerprint_value_grows(bytes@, i as int);
            assert(bytes@.take(i + 1).drop_last() =~= bytes@.take(i as int));
        }
        num = num * 256;
        num = num + bytes[i] as i64;
        i = i + 1;
    }
    assert(bytes@.take(i as int) =~= bytes@);
    num
}

/// The number of NULL.
pub const NULL_ID: i64 = 0x4E55_4C4C;

/// The number of ROMA.
pub const ROMA_ID: i64 = 0x524F_4D41;

/// The number of BOOL.
pub const BOOL_ID: i64 = 0x424F_4F4C;

/// The number of HRTI.
pub const HRTI_ID: i64 = 0x4852_5449;

/// The number of MODU.
pub const MODU_ID: i64 = 0x4D4F_4455;

/// The number of REFC.
pub const REFC_ID: i64 = 0x5245_4643;

/// The number of FING.
pub const FING_ID: i64 = 0x4649_4E47;

/// The number of FPDP.
pub const FPDP_ID: i64 = 0x4650_4450;

/// The number of FPSP.
pub const FPSP_ID: i64 = 0x4650_5350;

/// The number of a four-letter name.
proof fn lemma_four_bytes(a: u8, b: u8, c: u8, d: u8)
    ensures
        fingerprint_value(seq![a, b, c, d]) == a * 0x100_0000 + b * 0x1_0000 + c * 0x100 + d,
{
    reveal_with_fuel(fingerprint_value, 5);
    assert(seq![a, b, c, d].drop_last() =~= seq![a, b, c]);
    assert(seq![a, b, c].drop_last() =~= seq![a, b]);
    assert(seq![a, b].drop_last() =~= seq![a]);
    assert(seq![a].drop_last() =~= Seq::<u8>::empty());
}

/// Each of those numbers is that of its name.
pub proof fn lemma_fingerprint_ids()
    ensures
        NULL_ID == fingerprint_value(seq![78u8, 85, 76, 76]),
        ROMA_ID == fingerprint_value(seq![82u8, 79, 77, 65]),
        BOOL_ID == fingerprint_value(seq![66u8, 79, 79, 76]),
        HRTI_ID == fingerprint_value(seq![72u8, 82, 84, 73]),
        MODU_ID == fingerprint_value(seq![77u8, 79, 68, 85]),
        REFC_ID == fingerprint_value(seq![82u8, 69, 70, 67]),
        FING_ID == fingerprint_value(seq![70u8, 73, 78, 71]),
        FPDP_ID == fingerprint_value(seq![70u8, 80, 68, 80]),
        FPSP_ID == fingerprint_value(seq![70u8, 80, 83, 80]),
{
    lemma_four_bytes(78, 85, 76, 76);
    lemma_four_bytes(82, 79, 77, 65);
    lemma_four_bytes(66, 79, 79, 76);
    lemma_four_bytes(72, 82, 84, 73);
    lemma_four_bytes(77, 79, 68, 85);
    lemma_four_bytes(82, 69, 70, 67);
    lemma_four_bytes(70, 73, 78, 71);
    lemma_four_bytes(70, 80, 68, 80);
    lemma_four_bytes(70, 80, 83, 80);
}

/// The table of the fingerprint that a number names, among those that can
/// be loaded: NULL, ROMA, BOOL, MODU, REFC, FING, FPDP and FPSP, and HRTI
/// where there is a clock (`clock`; there is none on the web).
pub open spec fn loadable(id: i64, clock: bool) -> Option<Seq<Option<FingerprintFunction>>> {
    if id == NULL_ID {
        Some(null::reflecting())
    } else if id == ROMA_ID {
        Some(roma::letters_table())
    } else if id == BOOL_ID {
        Some(bool::letters_table())
    } else if id == HRTI_ID && clock {
        Some(hrti::letters_table())
    } else if id == MODU_ID {
        Some(modu::letters_table())
    } else if id == REFC_ID {
        Some(refc::letters_table())
    } else if id == FING_ID {
        Some(fing::letters_table())
    } else if id == FPDP_ID {
        Some(fpdp::letters_table())
    } else if id == FPSP_ID {
        Some(fpsp::letters_table())
    } else {
        None
    }
}

/// The fingerprint that a number names, if it can be loaded; HRTI only
/// where there is a clock.
pub fn fingerprint_from_id(id: i64, clock: bool) -> (r: Option<Fingerprint>)
    ensures
        match r {
            Some(f) => loadable(id, clock) == Some(f@),
            None => loadable(id, clock) is None,
        },
{
    if id == NULL_ID {
        Some(null::list_of_ops())
    } else if id == ROMA_ID {
        Some(roma::list_of_ops())
    } else if id == BOOL_ID {
        Some(bool::list_of_ops())
    } else if id == HRTI_ID && clock {
        Some(hrti::list_of_ops())
    } else if id == MODU_ID {
        Some(modu::list_of_ops())
    } else if id == REFC_ID {
        Some(refc::list_of_ops())
    } else if id == FING_ID {
        Some(fing::list_of_ops())
    } else if id == FPDP_ID {
        Some(fpdp::list_of_ops())
    } else if id == FPSP_ID {
        Some(fpsp::list_of_ops())
    } else {
        None
    }
}

/// What carries out the floating-point instructions of FPDP and FPSP, whose
/// cells hold the bits of floats: the fingerprint functions that this
/// library, which does no floating point, leaves to whoever runs programs.
/// Handed the fingerprint, the letter, the cursor's top stack and the
/// output, it gives back the new top stack and output and whether the
/// cursor is to turn around. Any function or closure of that shape is one.
pub trait FloatUnit: Fn(FingerprintName, u8, Vec<i64>, String) -> (Vec<i64>, String, bool) {

}

impl<T: Fn(FingerprintName, u8, Vec<i64>, String) -> (Vec<i64>, String, bool)> FloatUnit for T {

}

/// Whether the unit can be handed anything.
pub open spec fn accepts_all<F: FloatUnit>(f: F) -> bool {
    forall|n: FingerprintName, l: u8, t: Vec<i64>, o: String| call_requires(f, (n, l, t, o))
}

/// The top stack, output and turn that the unit may give back when handed
/// the fingerprint, the letter, the top stack and the output.
pub open spec fn float_step<F: FloatUnit>(
    f: F,
    name: FingerprintName,
    letter: u8,
    toss: Seq<i64>,
    output: Seq<char>,
    r: (Seq<i64>, Seq<char>, bool),
) -> bool {
    exists|t: Vec<i64>, o: String, out: (Vec<i64>, String, bool)|
        t@ == toss && o@ == output && #[trigger] call_ensures(f, (name, letter, t, o), out) && r == (
            out.0@,
            out.1@,
            out.2,
        )
}

} // verus!
