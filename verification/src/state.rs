//! The live view state and the per-frame decisions of the control loop.

use vstd::prelude::*;
use crate::coeff::{coarsen, coarsen_step, refine, refine_step, Coeff, UNIT_ONE};
use crate::registry::{admitted_record, NumberRegistry};
use crate::view::{visible_spec, Center};

verus! {

/// A user command, as mapped from the input source.
#[derive(Clone, Copy, PartialEq, Eq, Structural, Debug)]
pub enum Command {
    /// Stop the frame loop.
    Quit,
    /// Flip the prime-only display filter.
    TogglePrimeOnly,
    /// Flip the axes display.
    ToggleAxes,
    /// Zoom in one step.
    Refine,
    /// Zoom out one step.
    Coarsen,
}

/// The view state owned by the frame loop: the zoom coefficient, the next
/// candidate number awaiting admission, and the two display toggles.
pub struct ViewState {
    pub coeff: Coeff,
    pub next_candidate: u32,
    pub prime_only: bool,
    pub show_axes: bool,
}

impl ViewState {
    /// The coefficient is positive and candidates start at one.
    pub open spec fn wf(self) -> bool {
        self.coeff.wf() && self.next_candidate >= 1
    }

    /// The startup state: coefficient one, first candidate one, both
    /// display toggles off.
    pub fn new() -> (r: ViewState)
        ensures
            r.wf(),
            r.coeff.units == UNIT_ONE,
            r.next_candidate == 1,
            !r.prime_only,
            !r.show_axes,
    {
        ViewState { coeff: Coeff::one(), next_candidate: 1, prime_only: false, show_axes: false }
    }

    /// Applies one user command and reports whether the frame loop goes on.
    /// A coarsening that the coefficient's range cannot hold leaves the
    /// coefficient unchanged.
    pub fn apply_command(&mut self, cmd: Command) -> (keep_running: bool)
        requires
            old(self).wf(),
        ensures
            final(self).wf(),
            keep_running == (cmd != Command::Quit),
            final(self).next_candidate == old(self).next_candidate,
            cmd == Command::Quit ==> *final(self) == *old(self),
            cmd == Command::TogglePrimeOnly ==> final(self).prime_only == !old(self).prime_only
                && final(self).show_axes == old(self).show_axes
                && final(self).coeff == old(self).coeff,
            cmd == Command::ToggleAxes ==> final(self).show_axes == !old(self).show_axes
                && final(self).prime_only == old(self).prime_only
                && final(self).coeff == old(self).coeff,
            cmd == Command::Refine ==> final(self).coeff.units == old(self).coeff.units
                - refine_step(old(self).coeff.units as nat)
                && final(self).prime_only == old(self).prime_only
                && final(self).show_axes == old(self).show_axes,
            cmd == Command::Coarsen ==> final(self).coeff.units == (
                if old(self).coeff.units <= u64::MAX - UNIT_ONE {
                    old(self).coeff.units + coarsen_step(old(self).coeff.units as nat)
                } else {
                    old(self).coeff.units as int
                })
                && final(self).prime_only == old(self).prime_only
                && final(self).show_axes == old(self).show_axes,
    {
        match cmd {
            Command::Quit => false,
            Command::TogglePrimeOnly => {
                self.prime_only = !self.prime_only;
                true
            },
            Command::ToggleAxes => {
                self.show_axes = !self.show_axes;
                true
            },
            Command::Refine => {
                self.coeff = refine(self.coeff);
                true
            },
            Command::Coarsen => {
                if self.coeff.units <= u64::MAX - UNIT_ONE {
                    self.coeff = coarsen(self.coeff);
                }
                true
            },
        }
    }
}

/// One generation attempt: tries to admit the current candidate at its
/// scaled offsets. The candidate counter advances exactly on success; a
/// rejected candidate leaves the registry and the state untouched, so the
/// same value is retried next frame.
pub fn admit_step(
    state: &mut ViewState,
    registry: &mut NumberRegistry,
    ox: i32,
    oy: i32,
    center: Center,
) -> (admitted: bool)
    requires
        old(state).wf(),
        old(state).next_candidate < u32::MAX,
        old(registry).wf(),
    ensures
        final(state).wf(),
        final(registry).wf(),
        admitted == visible_spec(center, ox as int, oy as int),
        final(state).coeff == old(state).coeff,
        final(state).prime_only == old(state).prime_only,
        final(state).show_axes == old(state).show_axes,
        admitted ==> final(registry)@ == old(registry)@.push(
            admitted_record(old(state).next_candidate, center, ox as int, oy as int),
        ) && final(state).next_candidate == old(state).next_candidate + 1,
        !admitted ==> final(registry)@ == old(registry)@ && *final(state) == *old(state),
{
    let admitted = registry.try_admit(state.next_candidate, ox, oy, center);
    if admitted {
        state.next_candidate = state.next_candidate + 1;
    }
    admitted
}

} // verus!
