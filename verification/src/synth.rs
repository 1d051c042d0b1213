//! Planning of synthetic input.
//!
//! The engine never injects events itself; it plans an explicit sequence of
//! steps that the host runtime carries out against the OS input pipeline. A
//! chord is planned as: every key pressed in listed order, one fixed settle
//! delay so downstream consumers observe the whole chord as simultaneously
//! held, then every key released in exactly the reverse order.

use vstd::prelude::*;

verus! {

/// The settle delay between a planned chord's press phase and its release
/// phase, in milliseconds.
pub const SETTLE_DELAY_MS: u64 = 20;

/// One step of a synthesis plan: inject a single synthetic press or release,
/// or wait for the given number of milliseconds.
#[derive(Clone, Copy, Debug, PartialEq, Eq, Structural)]
pub enum SynthStep {
    Event { code: u32, press: bool },
    Wait { millis: u64 },
}

/// The press phase of a chord: one press per key, in listed order.
pub open spec fn press_steps(keys: Seq<u32>) -> Seq<SynthStep> {
    Seq::new(keys.len(), |i: int| SynthStep::Event { code: keys[i], press: true })
}

/// The release phase of a chord: one release per key, in reverse listed
/// order.
pub open spec fn release_steps(keys: Seq<u32>) -> Seq<SynthStep> {
    Seq::new(keys.len(), |i: int| SynthStep::Event { code: keys[keys.len() - 1 - i], press: false })
}

/// The full plan of a chord: presses in listed order, the settle delay, then
/// releases in reverse listed order.
pub open spec fn chord_steps(keys: Seq<u32>) -> Seq<SynthStep> {
    press_steps(keys) + seq![SynthStep::Wait { millis: SETTLE_DELAY_MS }] + release_steps(keys)
}

/// Plans a single synthetic press or release of one key.
pub fn single_step(code: u32, press: bool) -> (v: Vec<SynthStep>)
    ensures
        v@ == seq![SynthStep::Event { code, press }],
{
    let mut v: Vec<SynthStep> = Vec::new();
    v.push(SynthStep::Event { code, press });
    proof {
        assert(v@ =~= seq![SynthStep::Event { code, press }]);
    }
    v
}

/// Plans a whole chord: presses every key of `keys` in listed order, waits
/// for the settle delay, then releases every key in reverse listed order.
pub fn combination_steps(keys: &Vec<u32>) -> (v: Vec<SynthStep>)
    ensures
        v@ == chord_steps(keys@),
{
    let n = keys.len();
    let mut v: Vec<SynthStep> = Vec::new();
    let mut i: usize = 0;
    while i < n
        invariant
            n == keys@.len(),
            i <= n,
            v@.len() == i,
            forall|j: int|
                0 <= j < i ==> v@[j] == (SynthStep::Event { code: keys@[j], press: true }),
        decreases n - i,
    {
        v.push(SynthStep::Event { code: keys[i], press: true });
        i += 1;
    }
    v.push(SynthStep::Wait { millis: SETTLE_DELAY_MS });
    let mut k: usize = 0;
    while k < n
        invariant
            n == keys@.len(),
            k <= n,
            v@.len() == n + 1 + k,
            forall|j: int|
                0 <= j < n ==> v@[j] == (SynthStep::Event { code: keys@[j], press: true }),
            v@[n as int] == (SynthStep::Wait { millis: SETTLE_DELAY_MS }),
            forall|m: int|
                n + 1 <= m < v@.len() ==> v@[m] == (SynthStep::Event {
                    code: keys@[2 * (n as int) - m],
                    press: false,
                }),
        decreases n - k,
    {
        v.push(SynthStep::Event { code: keys[n - 1 - k], press: false });
        k += 1;
    }
    proof {
        assert(v@ =~= chord_steps(keys@));
    }
    v
}

} // verus!
