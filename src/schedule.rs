//! When to update and when to draw.
//!
//! Updates run at a fixed virtual time step, several per drawn frame, so the speed of
//! the simulation does not depend on the rate of drawing.
use vstd::prelude::*;

verus! {

/// Update ticks per drawn frame.
pub const UPDATES_PER_DRAW: u64 = 100;

/// Drawn frames per second that the update rate is made for.
pub const DRAWS_PER_SECOND: u64 = 30;

/// Information about a frame.
#[derive(Clone, Copy, Debug, PartialEq, Eq, Structural)]
pub struct FrameInfo {
    /// Time the previous frame took, in microseconds.
    pub dt_us: u64,
    /// Number of frames that have happened since the program started: update
    /// frames for modes, drawn frames for drawers.
    pub frames_ran: u64,
}

impl FrameInfo {
    /// The first frame, with time step `dt_us`.
    pub fn new(dt_us: u64) -> (r: Self)
        ensures
            r == (FrameInfo { dt_us, frames_ran: 0 }),
    {
        FrameInfo { dt_us, frames_ran: 0 }
    }

    /// The frame after this one, which took `dt_us`. The count stops at its
    /// largest value.
    pub fn next(self, dt_us: u64) -> (r: Self)
        ensures
            r.dt_us == dt_us,
            r.frames_ran == (if self.frames_ran < u64::MAX {
                self.frames_ran + 1
            } else {
                self.frames_ran as int
            }),
    {
        let frames_ran = if self.frames_ran < u64::MAX {
            self.frames_ran + 1
        } else {
            self.frames_ran
        };
        FrameInfo { dt_us, frames_ran }
    }
}

/// Microseconds of virtual time per update tick.
pub fn update_dt_us() -> (r: u64)
    ensures
        r == 1_000_000int / (DRAWS_PER_SECOND * UPDATES_PER_DRAW),
{
    1_000_000 / (DRAWS_PER_SECOND * UPDATES_PER_DRAW)
}

/// In the two-worker pipeline: whether the update worker hands a frame to the draw
/// worker after update tick `frames_ran`.
pub fn draw_due(frames_ran: u64) -> (r: bool)
    ensures
        r == (frames_ran % UPDATES_PER_DRAW == 0),
{
    frames_ran % UPDATES_PER_DRAW == 0
}

/// What the single-threaded loop does next.
#[derive(Clone, Copy, Debug, PartialEq, Eq, Structural)]
pub enum Tick {
    Update,
    Draw,
}

/// The single-threaded schedule: `UPDATES_PER_DRAW` updates, then one draw.
#[derive(Clone, Copy, Debug, PartialEq, Eq, Structural)]
pub struct SyncSchedule {
    /// Updates run since the last draw.
    pub updates_done: u64,
}

impl SyncSchedule {
    pub open spec fn wf(&self) -> bool {
        self.updates_done <= UPDATES_PER_DRAW
    }

    pub fn new() -> (r: Self)
        ensures
            r.updates_done == 0,
            r.wf(),
    {
        SyncSchedule { updates_done: 0 }
    }

    /// The next tick.
    pub fn next(&mut self) -> (r: Tick)
        requires
            old(self).wf(),
        ensures
            final(self).wf(),
            old(self).updates_done < UPDATES_PER_DRAW ==> r == Tick::Update
                && final(self).updates_done == old(self).updates_done + 1,
            old(self).updates_done == UPDATES_PER_DRAW ==> r == Tick::Draw
                && final(self).updates_done == 0,
    {
        if self.updates_done < UPDATES_PER_DRAW {
            self.updates_done = self.updates_done + 1;
            Tick::Update
        } else {
            self.updates_done = 0;
            Tick::Draw
        }
    }
}

/// What the draw worker found when it looked for a frame.
#[derive(Clone, Copy, Debug, PartialEq, Eq, Structural)]
pub enum Handoff {
    /// A frame was ready.
    Ready,
    /// No frame was ready yet.
    Empty,
    /// The update worker is gone.
    Disconnected,
}

/// What the draw worker does about it.
#[derive(Clone, Copy, Debug, PartialEq, Eq, Structural)]
pub enum DrawStep {
    /// Draw the frame received.
    Draw,
    /// Report the wait, block until a frame comes, then draw it.
    WaitThenDraw,
    /// Stop: without its peer the pipeline cannot go on.
    Abort,
}

/// The draw worker's decision on a handoff.
pub fn on_handoff(h: Handoff) -> (r: DrawStep)
    ensures
        h == Handoff::Ready ==> r == DrawStep::Draw,
        h == Handoff::Empty ==> r == DrawStep::WaitThenDraw,
        h == Handoff::Disconnected ==> r == DrawStep::Abort,
{
    match h {
        Handoff::Ready => DrawStep::Draw,
        Handoff::Empty => DrawStep::WaitThenDraw,
        Handoff::Disconnected => DrawStep::Abort,
    }
}

} // verus!
