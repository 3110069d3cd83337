//! Frame state and the driver's schedule.
//!
//! A run carries one piece of state between frames: the current step, a
//! fixed exclusive step bound, and the height of the label band.  The step
//! starts one below zero; every tick advances it by one, and the run quits
//! once the step reaches the bound, so exactly `max_step` frames are
//! rendered, numbered from zero.

use vstd::prelude::*;

verus! {

/// Where a run stands: before its first tick, producing frames, or past
/// its step bound.
#[derive(Clone, Copy, Debug, PartialEq, Eq, Structural)]
pub enum Phase {
    Initializing,
    Rendering,
    Terminated,
}

/// The only state carried from one frame to the next.
pub struct FrameState {
    pub step: i32,
    pub max_step: u32,
    pub label_height: u32,
}

impl FrameState {
    /// Holds between ticks: the step never falls below its starting value,
    /// and the label band stays small enough for the canvas arithmetic.
    pub open spec fn wf(self) -> bool {
        -1 <= self.step && self.label_height <= 100000
    }

    /// The starting state: one step below zero (so that the first tick
    /// lands on step zero), one hundred frames, a thirty pixel label band.
    pub fn new() -> (s: FrameState)
        ensures
            s.step == -1,
            s.max_step == 100,
            s.label_height == 30,
            s.wf(),
    {
        FrameState { step: -1, max_step: 100, label_height: 30 }
    }

    pub open spec fn spec_phase(self) -> Phase {
        if self.step < 0 {
            Phase::Initializing
        } else if (self.step as int) < self.max_step {
            Phase::Rendering
        } else {
            Phase::Terminated
        }
    }

    /// The phase the state stands in: `Initializing` before the first
    /// tick, `Rendering` while `0 <= step < max_step`, `Terminated` after.
    pub fn phase(&self) -> (p: Phase)
        ensures
            p == self.spec_phase(),
    {
        if self.step < 0 {
            Phase::Initializing
        } else if (self.step as u32) < self.max_step {
            Phase::Rendering
        } else {
            Phase::Terminated
        }
    }

    /// One tick: the step advances by exactly one, nothing else changes,
    /// and the result says whether the run is over — true exactly when the
    /// new step has reached the bound, in which case the caller quits
    /// instead of rendering another frame.
    pub fn advance(&mut self) -> (quit: bool)
        requires
            old(self).wf(),
            old(self).step < i32::MAX,
        ensures
            final(self).wf(),
            final(self).step == old(self).step + 1,
            final(self).max_step == old(self).max_step,
            final(self).label_height == old(self).label_height,
            quit <==> final(self).step >= old(self).max_step as int,
    {
        self.step = self.step + 1;
        (self.step as u32) >= self.max_step
    }
}

/// The steps a run renders, in order.  The driver advances once per tick
/// and quits at the bound, so the rendered frames are exactly
/// `0, 1, ..., max_step - 1`: no gaps and no repeats.
pub fn frame_schedule(max_step: u32) -> (steps: Vec<u32>)
    requires
        max_step <= 0x7fff_ffff,
    ensures
        steps@.len() == max_step as int,
        forall|i: int| 0 <= i < steps@.len() ==> steps@[i] == i,
{
    let mut state = FrameState { step: -1, max_step, label_height: 30 };
    let mut steps: Vec<u32> = Vec::new();
    loop
        invariant_except_break
            -1 <= state.step < max_step as int,
            steps@.len() == state.step + 1,
        invariant
            state.wf(),
            state.max_step == max_step,
            max_step <= 0x7fff_ffff,
            forall|i: int| 0 <= i < steps@.len() ==> steps@[i] == i,
        ensures
            steps@.len() == max_step as int,
        decreases max_step as int - state.step,
    {
        let quit = state.advance();
        if quit {
            break;
        }
        steps.push(state.step as u32);
    }
    steps
}

} // verus!
