use vstd::prelude::*;

verus! {

/// Nanoseconds between frame ticks: a fixed target interval of about 60 Hz.
/// The loop is paced by scheduling the next tick, not by blocking on vsync.
pub const FRAME_INTERVAL_NANOS: u64 = 16_666_667;

/// The events the frame driver reacts to. A close request is the only
/// externally observable cancellation; everything else just ticks.
#[derive(Clone, Copy, Debug, PartialEq, Eq, Structural)]
pub enum DriverEvent {
    CloseRequested,
    OtherWindowEvent,
    Other,
}

/// What the loop does after a tick: stop, or wake again at the deadline.
#[derive(Clone, Copy, Debug, PartialEq, Eq, Structural)]
pub enum LoopControl {
    Exit,
    WaitUntil(u64),
}

/// The frame driver's clock state, in nanoseconds of a monotonic clock: when
/// the loop started and when the previous tick ran.
#[derive(Clone, Copy, Debug, PartialEq, Eq, Structural)]
pub struct TickState {
    pub start_nanos: u64,
    pub current_nanos: u64,
}

/// What one tick decides: the timing handed to the compositor and what the
/// loop does next.
#[derive(Clone, Copy, Debug, PartialEq, Eq, Structural)]
pub struct TickOutcome {
    pub delta_nanos: u64,
    pub elapsed_nanos: u64,
    pub control: LoopControl,
}

impl TickState {
    /// The previous tick never precedes the start of the loop.
    pub open spec fn wf(self) -> bool {
        self.start_nanos <= self.current_nanos
    }

    pub fn new(now: u64) -> (r: TickState)
        ensures
            r == (TickState { start_nanos: now, current_nanos: now }),
            r.wf(),
    {
        TickState { start_nanos: now, current_nanos: now }
    }

    /// One tick of the frame loop: every event renders one frame first, with
    /// the time since the previous tick and since the start; then a close
    /// request exits, and any other event schedules the next tick one frame
    /// interval from now.
    pub fn tick(&mut self, now: u64, event: DriverEvent) -> (r: TickOutcome)
        requires
            old(self).wf(),
            old(self).current_nanos <= now,
            now + FRAME_INTERVAL_NANOS <= u64::MAX,
        ensures
            final(self).start_nanos == old(self).start_nanos,
            final(self).current_nanos == now,
            final(self).wf(),
            r.delta_nanos == now - old(self).current_nanos,
            r.elapsed_nanos == now - old(self).start_nanos,
            r.control == (if event == DriverEvent::CloseRequested {
                LoopControl::Exit
            } else {
                LoopControl::WaitUntil((now + FRAME_INTERVAL_NANOS) as u64)
            }),
    {
        let delta_nanos = now - self.current_nanos;
        let elapsed_nanos = now - self.start_nanos;
        self.current_nanos = now;
        let control = match event {
            DriverEvent::CloseRequested => LoopControl::Exit,
            _ => LoopControl::WaitUntil(now + FRAME_INTERVAL_NANOS),
        };
        TickOutcome { delta_nanos, elapsed_nanos, control }
    }
}

} // verus!
