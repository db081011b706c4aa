//! Fan-out of the enumerated displays into independent capture loops, and
//! their joint, cooperative shutdown.

use vstd::prelude::*;

use crate::capture::CaptureError;
use crate::capture::CaptureEvent;
use crate::capture::LoopState;
use crate::capture::next_state;

verus! {

/// Why supervisor startup failed as a whole. Startup is all-or-nothing: any
/// of these aborts every loop, none is left running.
#[derive(Clone, Copy, PartialEq, Eq, Structural, Debug)]
pub enum StartupError {
    SinkCreationFailed,
    DisplayIndexOutOfRange,
}

/// Tracks one lifecycle state per launched capture loop, together with the
/// single shared shutdown flag that every loop observes each iteration. The
/// flag is set at most once and never reset.
pub struct StreamSupervisor {
    pub loops: Vec<LoopState>,
    pub shutdown: bool,
}

impl StreamSupervisor {
    /// A launched loop is past `Starting`: it begins `Running` and only
    /// winds down from there.
    pub open spec fn wf(self) -> bool {
        forall|k: int| 0 <= k < self.loops@.len() ==> self.loops@[k] != LoopState::Starting
    }

    /// A fresh supervisor: no loop launched, shutdown not signalled.
    pub fn new() -> (s: Self)
        ensures
            s.loops@.len() == 0,
            !s.shutdown,
            s.wf(),
    {
        StreamSupervisor { loops: Vec::new(), shutdown: false }
    }

    /// Record one capture loop launched for the next display, in list
    /// order. The new loop starts out running; no other loop is touched.
    pub fn launch(&mut self)
        requires
            old(self).wf(),
        ensures
            final(self).loops@ == old(self).loops@.push(LoopState::Running),
            final(self).shutdown == old(self).shutdown,
            final(self).wf(),
    {
        self.loops.push(LoopState::Running);
    }

    /// Set the shared shutdown signal. Every loop observes it at the top of
    /// its next iteration; nothing else changes here.
    pub fn set_shutdown(&mut self)
        requires
            old(self).wf(),
        ensures
            final(self).shutdown,
            final(self).loops@ == old(self).loops@,
            final(self).wf(),
    {
        self.shutdown = true;
    }

    /// Advance exactly one loop by one observation. Fault isolation: the
    /// event — a fatal capture error included — reaches only loop `i`;
    /// every other loop's state is untouched.
    pub fn step_loop(&mut self, i: usize, event: &CaptureEvent)
        requires
            old(self).wf(),
            i < old(self).loops@.len(),
        ensures
            final(self).loops@.len() == old(self).loops@.len(),
            final(self).loops@[i as int] == next_state(
                old(self).loops@[i as int],
                old(self).shutdown,
                *event,
            ),
            forall|j: int|
                0 <= j < old(self).loops@.len() && j != i ==> final(self).loops@[j] == old(
                    self,
                ).loops@[j],
            final(self).shutdown == old(self).shutdown,
            final(self).wf(),
    {
        let cur = self.loops[i];
        let nxt = step_state(cur, self.shutdown, event);
        self.loops[i] = nxt;
    }

    /// Whether every launched loop has reached its final state.
    pub fn all_exited(&self) -> (r: bool)
        ensures
            r == forall|k: int|
                0 <= k < self.loops@.len() ==> self.loops@[k] == LoopState::Exited,
    {
        let mut k: usize = 0;
        while k < self.loops.len()
            invariant
                k <= self.loops@.len(),
                forall|j: int| 0 <= j < k ==> self.loops@[j] == LoopState::Exited,
            decreases self.loops@.len() - k,
        {
            if self.loops[k] != LoopState::Exited {
                return false;
            }
            k += 1;
        }
        true
    }

    /// Cooperative joint shutdown: set the shared signal once, then wait
    /// for every loop to wind down. Each loop leaves `Running` at its next
    /// observation and reaches `Exited` the step after; when this returns,
    /// every loop is `Exited` and none can restart.
    pub fn stop(&mut self)
        requires
            old(self).wf(),
        ensures
            final(self).shutdown,
            final(self).loops@.len() == old(self).loops@.len(),
            forall|k: int|
                0 <= k < final(self).loops@.len() ==> final(self).loops@[k] == LoopState::Exited,
            final(self).wf(),
    {
        self.shutdown = true;
        let mut k: usize = 0;
        while k < self.loops.len()
            invariant
                self.wf(),
                self.shutdown,
                k <= self.loops@.len(),
                self.loops@.len() == old(self).loops@.len(),
                forall|j: int| 0 <= j < k ==> self.loops@[j] == LoopState::Exited,
            decreases self.loops@.len() - k,
        {
            let s0 = self.loops[k];
            let s1 = wind_down_step(s0);
            proof {
                assert(s1 == next_state(s0, true, CaptureEvent::Failed(CaptureError::Transient)));
            }
            let s2 = wind_down_step(s1);
            proof {
                assert(s2 == next_state(s1, true, CaptureEvent::Failed(CaptureError::Transient)));
            }
            self.loops[k] = s2;
            k += 1;
        }
    }

    /// Abort a partially-done startup after a sink could not be created:
    /// all-or-nothing, so every loop already launched is shut down before
    /// the error is returned, and none is left running.
    pub fn abort_startup(&mut self) -> (e: StartupError)
        requires
            old(self).wf(),
        ensures
            final(self).shutdown,
            forall|k: int|
                0 <= k < final(self).loops@.len() ==> final(self).loops@[k] == LoopState::Exited,
            final(self).loops@.len() == old(self).loops@.len(),
            final(self).wf(),
            e == StartupError::SinkCreationFailed,
    {
        self.stop();
        StartupError::SinkCreationFailed
    }
}

/// The loop state transition, executably: what one observation of the
/// shutdown flag and one capture event do to a loop's lifecycle state.
pub fn step_state(s: LoopState, shutdown: bool, event: &CaptureEvent) -> (r: LoopState)
    ensures
        r == next_state(s, shutdown, *event),
{
    match s {
        LoopState::Starting => LoopState::Starting,
        LoopState::Running => {
            if shutdown {
                LoopState::Stopping
            } else {
                match event {
                    CaptureEvent::Failed(CaptureError::Fatal) => LoopState::Failed,
                    _ => LoopState::Running,
                }
            }
        },
        LoopState::Stopping => LoopState::Exited,
        LoopState::Failed => LoopState::Exited,
        LoopState::Exited => LoopState::Exited,
    }
}

/// One wind-down step of a loop that is past `Starting`: with shutdown set,
/// the state a loop reaches next, whatever its last capture event was.
fn wind_down_step(s: LoopState) -> (r: LoopState)
    requires
        s != LoopState::Starting,
    ensures
        forall|e: CaptureEvent| r == next_state(s, true, e),
{
    match s {
        LoopState::Starting => LoopState::Starting,
        LoopState::Running => LoopState::Stopping,
        LoopState::Stopping => LoopState::Exited,
        LoopState::Failed => LoopState::Exited,
        LoopState::Exited => LoopState::Exited,
    }
}

} // verus!
