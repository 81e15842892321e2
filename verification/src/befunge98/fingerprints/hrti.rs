//! HRTI: high-resolution timers, one mark per cursor.
use vstd::prelude::*;

use crate::befunge98::fingerprints::{Fingerprint, FingerprintFunction, FingerprintName, fingerprint_map, table};
use crate::befunge98::model::EnvView;
use crate::befunge98::{Cursor, Env};
use crate::befunge::Value;
use crate::outside::{as_micros, duration_since, elapsed, std_now, subsec_micros};
use crate::befunge98::histories_kept;
use crate::settings::Settings;

verus! {

/// The table of HRTI: `g`, `m`, `t`, `e` and `s`.
pub open spec fn letters_table() -> Seq<Option<FingerprintFunction>> {
    table(FingerprintName::Hrti, seq![103u8, 109, 116, 101, 115])
}

/// The letters of HRTI.
pub fn list_of_ops() -> (r: Fingerprint)
    ensures
        r@ == letters_table(),
{
    let letters: [u8; 5] = [103, 109, 116, 101, 115];
    assert(letters@ =~= seq![103u8, 109, 116, 101, 115]);
    fingerprint_map(FingerprintName::Hrti, letters.as_slice())
}

/// `G`: pushes the granularity of the timer, one microsecond.
pub fn hrti_g(this: &mut Cursor, _state: &mut Env, _settings: &Settings)
    requires
        old(this)@.wf(),
    ensures
        final(this)@ == old(this)@.push(1),
        *final(_state) == *old(_state),
{
    this.push(1);
}

/// `M`: sets the cursor's mark to now.
pub fn hrti_m(this: &mut Cursor, state: &mut Env, _settings: &Settings)
    ensures
        *final(this) == *old(this),
        final(state)@ == (EnvView { hrti_marks: old(state)@.hrti_marks.insert(old(this).id), ..old(state)@ }),
        histories_kept(*old(state), *final(state)),
        final(state).hrti_marks@.remove(old(this).id) == old(state).hrti_marks@.remove(old(this).id),
{
    state.hrti_marks.insert(this.id, std_now());
    assert(state@.hrti_marks =~= old(state)@.hrti_marks.insert(this.id));
}

/// `T`: pushes the microseconds since the cursor's mark (which depend on
/// the clock), or reflects when it has none.
pub fn hrti_t(this: &mut Cursor, state: &mut Env, _settings: &Settings)
    requires
        old(this)@.wf(),
    ensures
        *final(state) == *old(state),
        old(state)@.hrti_marks.contains(old(this).id) ==> exists|t: Value|
            final(this)@ == old(this)@.push(t),
        !old(state)@.hrti_marks.contains(old(this).id) ==> final(this)@ == old(this)@.facing(
            old(this)@.direction.spec_reverse(),
        ),
{
    match state.hrti_marks.get(&this.id) {
        Some(prev) => {
            let time_since = as_micros(&duration_since(&std_now(), prev));
            this.push(time_since as i64);
        },
        None => {
            this.direction = this.direction.reverse();
        },
    }
}

/// `E`: erases the cursor's mark.
pub fn hrti_e(this: &mut Cursor, state: &mut Env, _settings: &Settings)
    ensures
        *final(this) == *old(this),
        final(state)@ == (EnvView { hrti_marks: old(state)@.hrti_marks.remove(old(this).id), ..old(state)@ }),
        histories_kept(*old(state), *final(state)),
        final(state).hrti_marks@.remove(old(this).id) == old(state).hrti_marks@.remove(old(this).id),
{
    state.hrti_marks.remove(&this.id);
    assert(state@.hrti_marks =~= old(state)@.hrti_marks.remove(this.id));
}

/// `S`: pushes the microseconds of the current second since the clock
/// started (which depend on the clock); reflects where there is no clock.
pub fn hrti_s(this: &mut Cursor, state: &mut Env, _settings: &Settings)
    requires
        old(this)@.wf(),
    ensures
        *final(state) == *old(state),
        old(state)@.clock ==> exists|t: Value| 0 <= t < 1_000_000 && final(this)@ == old(this)@.push(t),
        !old(state)@.clock ==> final(this)@ == old(this)@.facing(old(this)@.direction.spec_reverse()),
{
    match &state.hrti_start {
        Some(start) => {
            let micros = subsec_micros(&elapsed(start));
            this.push(micros as i64);
        },
        None => {
            this.direction = this.direction.reverse();
        },
    }
}

} // verus!
