//! Reading the controls: debounced push buttons and the volume knob.
use vstd::prelude::*;

verus! {

/// How long, in milliseconds, a level must hold before it counts.
pub const DEBOUNCE_MS: u64 = 5;

/// What a debounced button remembers between readings.
#[derive(Clone, Copy, Debug, PartialEq, Eq, Structural)]
pub struct DebounceState {
    /// The level that has held long enough to count.
    pub button_state: bool,
    /// The level read last time.
    pub last_state: bool,
}

/// What one reading of a button gives.
#[derive(Clone, Copy, Debug, PartialEq, Eq, Structural)]
pub struct DebounceStep {
    /// The button was released: its settled level fell to low.
    pub pressed: bool,
    /// The level changed, so the hold timer starts over now.
    pub restart_timer: bool,
}

/// One reading of a debounced button: the level read restarts the hold
/// timer when it differs from the last one; a level held for more than
/// [`DEBOUNCE_MS`] that differs from the settled level becomes settled, and
/// is a press when it is low.
pub open spec fn debounce_next(s: DebounceState, reading: bool, elapsed_ms: u64) -> (DebounceState, DebounceStep) {
    let restart = reading != s.last_state;
    let settles = !restart && elapsed_ms > DEBOUNCE_MS && reading != s.button_state;
    (
        DebounceState {
            button_state: if settles {
                reading
            } else {
                s.button_state
            },
            last_state: reading,
        },
        DebounceStep { pressed: settles && !reading, restart_timer: restart },
    )
}

/// One press per release: a reading that reports a press settles the button
/// low, so the reading after it never reports another; and a reading whose
/// level differs from the last one, however long ago the timer started,
/// reports nothing.
pub proof fn lemma_debounce_single_press(
    s: DebounceState,
    r1: bool,
    e1: u64,
    r2: bool,
    e2: u64,
)
    ensures
        debounce_next(s, r1, e1).1.pressed ==> !debounce_next(debounce_next(s, r1, e1).0, r2, e2).1.pressed,
        r1 != s.last_state ==> !debounce_next(s, r1, e1).1.pressed,
{
}

impl DebounceState {
    /// A button that has read low and settled low.
    pub fn new() -> (s: DebounceState)
        ensures
            s == (DebounceState { button_state: false, last_state: false }),
    {
        DebounceState { button_state: false, last_state: false }
    }

    /// Takes one reading of the pin. `elapsed_ms` is the time since the hold
    /// timer last started; a change of level restarts it, and a timer that
    /// starts now has held for no time. Once a level has held for more than
    /// [`DEBOUNCE_MS`], it becomes the settled level, and a settled level
    /// falling to low is a press.
    pub fn read_debounced(&mut self, reading: bool, elapsed_ms: u64) -> (step: DebounceStep)
        ensures
            (*final(self), step) == debounce_next(*old(self), reading, elapsed_ms),
    {
        let mut return_val = false;
        let restart = reading != self.last_state;
        let elapsed = if restart {
            0
        } else {
            elapsed_ms
        };
        if elapsed > DEBOUNCE_MS {
            if reading != self.button_state {
                self.button_state = reading;
                if self.button_state == false {
                    return_val = true;
                }
            }
        }
        self.last_state = reading;
        DebounceStep { pressed: return_val, restart_timer: restart }
    }
}

/// Which way the volume knob turned, from its two quadrature pins: `None`
/// while pin A holds its level; when A changes, up if B differs from A,
/// down if it agrees.
pub fn knob_turn(last_a: bool, a: bool, b: bool) -> (r: Option<bool>)
    ensures
        a == last_a ==> r is None,
        a != last_a ==> r == Some(b != a),
{
    if a != last_a {
        Some(b != a)
    } else {
        None
    }
}

} // verus!
