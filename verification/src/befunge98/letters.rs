//! The fingerprint instructions of a cursor: `(` and `)` load and unload a
//! fingerprint, and `A` to `Z` carry out what their letter stands for.
use vstd::prelude::*;

use crate::befunge::Value;
use crate::befunge98::fingerprints::fing::current;
use crate::befunge98::fingerprints::pixl::nth;
use crate::befunge98::fingerprints::{
    Fingerprint, FingerprintFunction, FingerprintName, FloatUnit, accepts_all, fingerprint_from_id,
    float_step,
};
use crate::befunge98::fingerprints::{bool as boolean, fing, hrti, modu, pixl, refc, roma};
use crate::befunge98::model::{CursorView, lemma_with_toss, popped};
use crate::befunge98::semantics::{
    Choices, Outcome, fingerprint_step, id_length, letter_step, load_fingerprint, pop_id,
    unload_fingerprint, with_loaded, with_unloaded,
};
use crate::befunge98::{Cursor, StateTempName, StepStatus, histories_kept};
use crate::settings::Settings;

verus! {

/// The cell `k` places below the top is the stack's entry there, or 0 below
/// its bottom.
proof fn lemma_nth(c: CursorView, k: nat)
    requires
        c.wf(),
    ensures
        nth(c, k) == if k < c.toss().len() {
            c.toss()[c.toss().len() - 1 - k]
        } else {
            0
        },
    decreases k,
{
    if k > 0 {
        lemma_with_toss(c, popped(c.toss()), popped(c.toss()));
        lemma_nth(c.pop(), (k - 1) as nat);
    }
}

impl Cursor {
    /// The cell `k` places below the top of the top stack (0 below its
    /// bottom).
    fn peek(&self, k: usize) -> (r: Value)
        requires
            self@.wf(),
        ensures
            r == nth(self@, k as nat),
    {
        proof {
            lemma_nth(self@, k as nat);
        }
        let t = &self.stacks[self.stacks.len() - 1];
        if k < t.len() {
            t[t.len() - 1 - k]
        } else {
            0
        }
    }

    /// Pops the number of a fingerprint: `count` cells, each shifted in as
    /// the next base-256 digit.
    fn pop_id(&mut self, count: Value) -> (r: Value)
        requires
            old(self)@.wf(),
        ensures
            final(self)@.wf(),
            (r, final(self)@) == pop_id(old(self)@, id_length(count), 0),
    {
        let n: i64 = if count > 0 {
            count
        } else {
            0
        };
        let mut id: i64 = 0;
        let mut i: i64 = 0;
        while i < n
            invariant
                0 <= i <= n,
                n == id_length(count),
                self@.wf(),
                pop_id(self@, (n - i) as nat, id) == pop_id(old(self)@, n as nat, 0),
            decreases n - i,
        {
            let v = self.pop();
            id = id.wrapping_mul(256).wrapping_add(v);
            i = i + 1;
        }
        id
    }

    /// Puts a fingerprint's meanings on top of the letters it defines.
    fn load_table(&mut self, table: &Fingerprint)
        requires
            old(self)@.wf(),
        ensures
            final(self)@ == (CursorView {
                fingerprints: with_loaded(old(self)@.fingerprints, table@),
                ..old(self)@
            }),
    {
        let mut i: usize = 0;
        while i < 26
            invariant
                i <= 26,
                old(self)@.wf(),
                self@ == (CursorView { fingerprints: self@.fingerprints, ..old(self)@ }),
                self@.fingerprints.len() == 26,
                forall|j: int|
                    0 <= j < i ==> #[trigger] self@.fingerprints[j] == with_loaded(
                        old(self)@.fingerprints,
                        table@,
                    )[j],
                forall|j: int| i <= j < 26 ==> #[trigger] self@.fingerprints[j] == old(self)@.fingerprints[j],
            decreases 26 - i,
        {
            let ghost before = self@.fingerprints;
            assert(table@[i as int] == table[i as int]);
            assert(before[i as int] == old(self)@.fingerprints[i as int]);
            match table[i] {
                Some(f) => {
                    self.fingerprints[i].push(f);
                },
                None => {},
            }
            assert(self@.fingerprints =~= before.update(i as int, self@.fingerprints[i as int]));
            assert(self@.fingerprints[i as int] == with_loaded(old(self)@.fingerprints, table@)[i as int]);
            i = i + 1;
        }
        assert(self@.fingerprints =~= with_loaded(old(self)@.fingerprints, table@));
    }

    /// Takes a fingerprint's meanings off the letters it defines.
    fn unload_table(&mut self, table: &Fingerprint)
        requires
            old(self)@.wf(),
        ensures
            final(self)@ == (CursorView {
                fingerprints: with_unloaded(old(self)@.fingerprints, table@),
                ..old(self)@
            }),
    {
        let mut i: usize = 0;
        while i < 26
            invariant
                i <= 26,
                old(self)@.wf(),
                self@ == (CursorView { fingerprints: self@.fingerprints, ..old(self)@ }),
                self@.fingerprints.len() == 26,
                forall|j: int|
                    0 <= j < i ==> #[trigger] self@.fingerprints[j] == with_unloaded(
                        old(self)@.fingerprints,
                        table@,
                    )[j],
                forall|j: int| i <= j < 26 ==> #[trigger] self@.fingerprints[j] == old(self)@.fingerprints[j],
            decreases 26 - i,
        {
            let ghost before = self@.fingerprints;
            assert(table@[i as int] == table[i as int]);
            assert(before[i as int] == old(self)@.fingerprints[i as int]);
            match table[i] {
                Some(_) => {
                    self.fingerprints[i].pop();
                },
                None => {},
            }
            assert(self@.fingerprints =~= before.update(i as int, self@.fingerprints[i as int]));
            assert(self@.fingerprints[i as int] == with_unloaded(old(self)@.fingerprints, table@)[i as int]);
            i = i + 1;
        }
        assert(self@.fingerprints =~= with_unloaded(old(self)@.fingerprints, table@));
    }

    /// `(`: loads the fingerprint whose number is on the stack.
    pub(crate) fn op_load(&mut self, clock: bool)
        requires
            old(self)@.wf(),
        ensures
            final(self)@.wf(),
            final(self)@ == load_fingerprint(old(self)@, clock),
    {
        let count = self.pop();
        let id = self.pop_id(count);
        match fingerprint_from_id(id, clock) {
            Some(table) => {
                self.load_table(&table);
                self.push(id);
                self.push(1);
            },
            None => {
                self.direction = self.direction.reverse();
            },
        }
    }

    /// `)`: unloads the fingerprint whose number is on the stack.
    pub(crate) fn op_unload(&mut self, clock: bool)
        requires
            old(self)@.wf(),
        ensures
            final(self)@.wf(),
            final(self)@ == unload_fingerprint(old(self)@, clock),
    {
        let count = self.pop();
        let id = self.pop_id(count);
        match fingerprint_from_id(id, clock) {
            Some(table) => {
                self.unload_table(&table);
            },
            None => {
                self.direction = self.direction.reverse();
            },
        }
    }

    /// `A` to `Z`: carries out what the letter stands for.
    pub(crate) fn run_letter<F: FloatUnit>(
        &mut self,
        op: u8,
        state: &mut StateTempName,
        settings: &Settings,
        floats: &F,
    ) -> (r: Ghost<Choices>)
        requires
            accepts_all(*floats),
            old(self)@.wf(),
            65 <= op <= 90,
        ensures
            final(self)@.wf(),
            final(state).instruction_count == old(state).instruction_count,
            histories_kept(*old(state), *final(state)),
            final(state).hrti_marks@.remove(old(self).id) == old(state).hrti_marks@.remove(old(self).id),
            letter_step(*floats, 
                current(old(self)@.fingerprints[op - 65]),
                old(self)@,
                old(state)@,
                Outcome { cursor: final(self)@, env: final(state)@, status: StepStatus::Normal },
                r@,
            ),
    {
        let k = (op - 65) as usize;
        let n = self.fingerprints[k].len();
        let f = if n == 0 {
            FingerprintFunction::Reflect
        } else {
            self.fingerprints[k][n - 1]
        };
        assert(f == current(self@.fingerprints[k as int]));
        match f {
            FingerprintFunction::Reflect => {
                self.direction = self.direction.reverse();
                Ghost(Choices::Plain)
            },
            FingerprintFunction::Op { fingerprint, letter } => {
                self.run_fingerprint(fingerprint, letter, state, settings, floats)
            },
        }
    }

    /// Carries out the instruction of a fingerprint for a letter.
    fn run_fingerprint<F: FloatUnit>(
        &mut self,
        name: FingerprintName,
        letter: u8,
        state: &mut StateTempName,
        settings: &Settings,
        floats: &F,
    ) -> (r: Ghost<Choices>)
        requires
            accepts_all(*floats),
            old(self)@.wf(),
        ensures
            final(self)@.wf(),
            final(state).instruction_count == old(state).instruction_count,
            histories_kept(*old(state), *final(state)),
            final(state).hrti_marks@.remove(old(self).id) == old(state).hrti_marks@.remove(old(self).id),
            fingerprint_step(*floats, 
                name,
                letter,
                old(self)@,
                old(state)@,
                Outcome { cursor: final(self)@, env: final(state)@, status: StepStatus::Normal },
                r@,
            ),
    {
        match name {
            FingerprintName::Roma => self.run_roma(name, letter, state, settings, floats),
            FingerprintName::Bool => self.run_bool(name, letter, state, settings, floats),
            FingerprintName::Modu => self.run_modu(name, letter, state, settings, floats),
            FingerprintName::Refc => self.run_refc(name, letter, state, settings, floats),
            FingerprintName::Fing => self.run_fing(name, letter, state, settings, floats),
            FingerprintName::Hrti => self.run_hrti(name, letter, state, settings, floats),
            FingerprintName::Pixl => self.run_pixl(name, letter, state, settings, floats),
            FingerprintName::Fpdp | FingerprintName::Fpsp => self.run_float(name, letter, state, settings, floats),
            FingerprintName::Null => {
                self.direction = self.direction.reverse();
                Ghost(Choices::Plain)
            },
        }
    }

    /// Carries out a letter of ROMA.
    fn run_roma<F: FloatUnit>(
        &mut self,
        name: FingerprintName,
        letter: u8,
        state: &mut StateTempName,
        settings: &Settings,
        floats: &F,
    ) -> (r: Ghost<Choices>)
        requires
            accepts_all(*floats),
            old(self)@.wf(),
            name == FingerprintName::Roma,
        ensures
            final(self)@.wf(),
            final(state).instruction_count == old(state).instruction_count,
            histories_kept(*old(state), *final(state)),
            final(state).hrti_marks@.remove(old(self).id) == old(state).hrti_marks@.remove(old(self).id),
            fingerprint_step(*floats, 
                name,
                letter,
                old(self)@,
                old(state)@,
                Outcome { cursor: final(self)@, env: final(state)@, status: StepStatus::Normal },
                r@,
            ),
    {
        let ghost c0 = self@;
        let ghost e0 = state@;
        if letter == 99 {
            roma::roma_c(self, state, settings);
        } else if letter == 100 {
            roma::roma_d(self, state, settings);
        } else if letter == 105 {
            roma::roma_i(self, state, settings);
        } else if letter == 108 {
            roma::roma_l(self, state, settings);
        } else if letter == 109 {
            roma::roma_m(self, state, settings);
        } else if letter == 118 {
            roma::roma_v(self, state, settings);
        } else if letter == 120 {
            roma::roma_x(self, state, settings);
        } else {
            self.direction = self.direction.reverse();
        }
        Ghost(Choices::Plain)
    }

    /// Carries out a letter of BOOL.
    fn run_bool<F: FloatUnit>(
        &mut self,
        name: FingerprintName,
        letter: u8,
        state: &mut StateTempName,
        settings: &Settings,
        floats: &F,
    ) -> (r: Ghost<Choices>)
        requires
            accepts_all(*floats),
            old(self)@.wf(),
            name == FingerprintName::Bool,
        ensures
            final(self)@.wf(),
            final(state).instruction_count == old(state).instruction_count,
            histories_kept(*old(state), *final(state)),
            final(state).hrti_marks@.remove(old(self).id) == old(state).hrti_marks@.remove(old(self).id),
            fingerprint_step(*floats, 
                name,
                letter,
                old(self)@,
                old(state)@,
                Outcome { cursor: final(self)@, env: final(state)@, status: StepStatus::Normal },
                r@,
            ),
    {
        let ghost c0 = self@;
        let ghost e0 = state@;
        if letter == 97 {
            boolean::bool_a(self, state, settings);
        } else if letter == 110 {
            boolean::bool_n(self, state, settings);
        } else if letter == 111 {
            boolean::bool_o(self, state, settings);
        } else if letter == 120 {
            boolean::bool_x(self, state, settings);
        } else {
            self.direction = self.direction.reverse();
        }
        Ghost(Choices::Plain)
    }

    /// Carries out a letter of MODU; the pair that Rust cannot divide reflects.
    fn run_modu<F: FloatUnit>(
        &mut self,
        name: FingerprintName,
        letter: u8,
        state: &mut StateTempName,
        settings: &Settings,
        floats: &F,
    ) -> (r: Ghost<Choices>)
        requires
            accepts_all(*floats),
            old(self)@.wf(),
            name == FingerprintName::Modu,
        ensures
            final(self)@.wf(),
            final(state).instruction_count == old(state).instruction_count,
            histories_kept(*old(state), *final(state)),
            final(state).hrti_marks@.remove(old(self).id) == old(state).hrti_marks@.remove(old(self).id),
            fingerprint_step(*floats, 
                name,
                letter,
                old(self)@,
                old(state)@,
                Outcome { cursor: final(self)@, env: final(state)@, status: StepStatus::Normal },
                r@,
            ),
    {
        let ghost c0 = self@;
        let ghost e0 = state@;
        let a = self.peek(0);
        let b = self.peek(1);
        proof {
            reveal_with_fuel(nth, 2);
        }
        if !(letter == 109 || letter == 117 || letter == 114) || (b == i64::MIN && a == -1) {
            self.direction = self.direction.reverse();
        } else if letter == 109 {
            modu::modu_m(self, state, settings);
        } else if letter == 117 {
            modu::modu_u(self, state, settings);
        } else {
            modu::modu_r(self, state, settings);
        }
        Ghost(Choices::Plain)
    }

    /// Carries out a letter of REFC.
    fn run_refc<F: FloatUnit>(
        &mut self,
        name: FingerprintName,
        letter: u8,
        state: &mut StateTempName,
        settings: &Settings,
        floats: &F,
    ) -> (r: Ghost<Choices>)
        requires
            accepts_all(*floats),
            old(self)@.wf(),
            name == FingerprintName::Refc,
        ensures
            final(self)@.wf(),
            final(state).instruction_count == old(state).instruction_count,
            histories_kept(*old(state), *final(state)),
            final(state).hrti_marks@.remove(old(self).id) == old(state).hrti_marks@.remove(old(self).id),
            fingerprint_step(*floats, 
                name,
                letter,
                old(self)@,
                old(state)@,
                Outcome { cursor: final(self)@, env: final(state)@, status: StepStatus::Normal },
                r@,
            ),
    {
        let ghost c0 = self@;
        let ghost e0 = state@;
        if letter == 114 {
            refc::refc_r(self, state, settings);
        } else if letter == 100 {
            refc::refc_d(self, state, settings);
        } else {
            self.direction = self.direction.reverse();
        }
        Ghost(Choices::Plain)
    }

    /// Carries out a letter of FING.
    fn run_fing<F: FloatUnit>(
        &mut self,
        name: FingerprintName,
        letter: u8,
        state: &mut StateTempName,
        settings: &Settings,
        floats: &F,
    ) -> (r: Ghost<Choices>)
        requires
            accepts_all(*floats),
            old(self)@.wf(),
            name == FingerprintName::Fing,
        ensures
            final(self)@.wf(),
            final(state).instruction_count == old(state).instruction_count,
            histories_kept(*old(state), *final(state)),
            final(state).hrti_marks@.remove(old(self).id) == old(state).hrti_marks@.remove(old(self).id),
            fingerprint_step(*floats, 
                name,
                letter,
                old(self)@,
                old(state)@,
                Outcome { cursor: final(self)@, env: final(state)@, status: StepStatus::Normal },
                r@,
            ),
    {
        let ghost c0 = self@;
        let ghost e0 = state@;
        if letter == 120 {
            fing::fing_x(self, state, settings);
        } else if letter == 121 {
            fing::fing_y(self, state, settings);
        } else if letter == 122 {
            fing::fing_z(self, state, settings);
        } else {
            self.direction = self.direction.reverse();
        }
        Ghost(Choices::Plain)
    }

    /// Carries out a letter of HRTI.
    fn run_hrti<F: FloatUnit>(
        &mut self,
        name: FingerprintName,
        letter: u8,
        state: &mut StateTempName,
        settings: &Settings,
        floats: &F,
    ) -> (r: Ghost<Choices>)
        requires
            accepts_all(*floats),
            old(self)@.wf(),
            name == FingerprintName::Hrti,
        ensures
            final(self)@.wf(),
            final(state).instruction_count == old(state).instruction_count,
            histories_kept(*old(state), *final(state)),
            final(state).hrti_marks@.remove(old(self).id) == old(state).hrti_marks@.remove(old(self).id),
            fingerprint_step(*floats, 
                name,
                letter,
                old(self)@,
                old(state)@,
                Outcome { cursor: final(self)@, env: final(state)@, status: StepStatus::Normal },
                r@,
            ),
    {
        let ghost c0 = self@;
        let ghost e0 = state@;
        if letter == 103 {
            hrti::hrti_g(self, state, settings);
            Ghost(Choices::Plain)
        } else if state.hrti_start.is_none() {
            self.direction = self.direction.reverse();
            Ghost(Choices::Plain)
        } else if letter == 109 {
            hrti::hrti_m(self, state, settings);
            Ghost(Choices::Plain)
        } else if letter == 116 {
            hrti::hrti_t(self, state, settings);
            let ghost w = if e0.hrti_marks.contains(c0.id) {
                Choices::Reading(choose|t: Value| self@ == c0.push(t))
            } else {
                Choices::Plain
            };
            Ghost(w)
        } else if letter == 101 {
            hrti::hrti_e(self, state, settings);
            Ghost(Choices::Plain)
        } else if letter == 115 {
            hrti::hrti_s(self, state, settings);
            Ghost(Choices::Reading(choose|t: Value| 0 <= t < 1_000_000 && self@ == c0.push(t)))
        } else {
            self.direction = self.direction.reverse();
            Ghost(Choices::Plain)
        }
    }

    /// Carries out a letter of PIXL; a line whose ends are not `i32`s reflects.
    fn run_pixl<F: FloatUnit>(
        &mut self,
        name: FingerprintName,
        letter: u8,
        state: &mut StateTempName,
        settings: &Settings,
        floats: &F,
    ) -> (r: Ghost<Choices>)
        requires
            accepts_all(*floats),
            old(self)@.wf(),
            name == FingerprintName::Pixl,
        ensures
            final(self)@.wf(),
            final(state).instruction_count == old(state).instruction_count,
            histories_kept(*old(state), *final(state)),
            final(state).hrti_marks@.remove(old(self).id) == old(state).hrti_marks@.remove(old(self).id),
            fingerprint_step(*floats, 
                name,
                letter,
                old(self)@,
                old(state)@,
                Outcome { cursor: final(self)@, env: final(state)@, status: StepStatus::Normal },
                r@,
            ),
    {
        let ghost c0 = self@;
        let ghost e0 = state@;
        if letter == 99 {
            pixl::pixl_c(self, state, settings);
        } else if letter == 102 {
            pixl::pixl_f(self, state, settings);
        } else if letter == 108 {
            let fits = match &state.graphics {
                Some(_) => {
                    let y1 = self.peek(0);
                    let x1 = self.peek(1);
                    let y2 = self.peek(2);
                    let x2 = self.peek(3);
                    (i32::MIN as i64) <= y1 && y1 <= (i32::MAX as i64) && (i32::MIN as i64)
                        <= x1 && x1 <= (i32::MAX as i64) && (i32::MIN as i64) <= y2 && y2
                        <= (i32::MAX as i64) && (i32::MIN as i64) <= x2 && x2 <= (
                    i32::MAX as i64)
                },
                None => true,
            };
            if fits {
                pixl::pixl_l(self, state, settings);
            } else {
                self.direction = self.direction.reverse();
            }
        } else if letter == 115 {
            pixl::pixl_s(self, state, settings);
        } else if letter == 117 {
            pixl::pixl_u(self, state, settings);
        } else if letter == 120 {
            pixl::pixl_x(self, state, settings);
        } else if letter == 122 {
            pixl::pixl_z(self, state, settings);
        } else {
            self.direction = self.direction.reverse();
        }
        Ghost(Choices::Plain)
    }

    /// Carries out a letter of FPDP and FPSP, through the floating-point unit.
    fn run_float<F: FloatUnit>(
        &mut self,
        name: FingerprintName,
        letter: u8,
        state: &mut StateTempName,
        settings: &Settings,
        floats: &F,
    ) -> (r: Ghost<Choices>)
        requires
            accepts_all(*floats),
            old(self)@.wf(),
            name == FingerprintName::Fpdp || name == FingerprintName::Fpsp,
        ensures
            final(self)@.wf(),
            final(state).instruction_count == old(state).instruction_count,
            histories_kept(*old(state), *final(state)),
            final(state).hrti_marks@.remove(old(self).id) == old(state).hrti_marks@.remove(old(self).id),
            fingerprint_step(*floats, 
                name,
                letter,
                old(self)@,
                old(state)@,
                Outcome { cursor: final(self)@, env: final(state)@, status: StepStatus::Normal },
                r@,
            ),
    {
        let ghost c0 = self@;
        let ghost e0 = state@;
        let t = self.toss();
        let mut toss: Vec<i64> = Vec::new();
        std::mem::swap(t, &mut toss);
        let mut output = String::new();
        std::mem::swap(&mut state.output, &mut output);
        let ghost toss0 = toss;
        let ghost output0 = output;
        let (toss2, output2, reflect) = floats(name, letter, toss, output);
        let ghost out = (toss2, output2, reflect);
        *t = toss2;
        state.output = output2;
        proof {
            lemma_with_toss(c0, c0.toss(), self@.toss());
            assert(float_step(*floats, name, letter, c0.toss(), e0.output, (self@.toss(), state.output@, reflect)));
        }
        if reflect {
            self.direction = self.direction.reverse();
        }
        Ghost(Choices::Plain)
    }

}

} // verus!
