//! Shutdown coordination: the single-fire decision that maps an OS
//! termination signal to a drain policy for the two listeners.

use vstd::prelude::*;

verus! {

/// The bounded grace period, in seconds, that in-flight connections
/// are allowed on an interrupt-class shutdown.
pub const GRACE_PERIOD_SECS: u64 = 5;

/// The two classes of termination signal.
#[derive(Clone, Copy, PartialEq, Eq, Structural, Debug)]
pub enum SignalKind {
    /// An interrupt-class signal (a console interrupt).
    Interrupt,
    /// A terminate-class signal.
    Terminate,
}

/// What one listener is told to do on shutdown.
#[derive(Clone, Copy, PartialEq, Eq, Structural, Debug)]
pub enum ListenerAction {
    /// Stop accepting, allow in-flight connections the given number
    /// of seconds, then force-close.
    GracefulDrain(u64),
    /// Close immediately.
    CloseNow,
}

/// The drain policy for both listeners.
#[derive(Clone, Copy, PartialEq, Eq, Structural, Debug)]
pub struct DrainPlan {
    pub https: ListenerAction,
    pub http: ListenerAction,
}

/// The policy per signal: an interrupt drains the HTTPS listener
/// gracefully within the grace period while the HTTP listener
/// closes at once; a terminate closes both at once.
pub open spec fn spec_drain_plan(kind: SignalKind) -> DrainPlan {
    match kind {
        SignalKind::Interrupt => DrainPlan {
            https: ListenerAction::GracefulDrain(GRACE_PERIOD_SECS),
            http: ListenerAction::CloseNow,
        },
        SignalKind::Terminate => DrainPlan {
            https: ListenerAction::CloseNow,
            http: ListenerAction::CloseNow,
        },
    }
}

/// The drain policy for a signal.
pub fn drain_plan(kind: SignalKind) -> (r: DrainPlan)
    ensures
        r == spec_drain_plan(kind),
{
    match kind {
        SignalKind::Interrupt => DrainPlan {
            https: ListenerAction::GracefulDrain(GRACE_PERIOD_SECS),
            http: ListenerAction::CloseNow,
        },
        SignalKind::Terminate => DrainPlan {
            https: ListenerAction::CloseNow,
            http: ListenerAction::CloseNow,
        },
    }
}

/// The process-wide, single-fire shutdown decision: whichever
/// signal arrives first wins, and every later signal is abandoned.
pub struct ShutdownCoordinator {
    fired: Option<SignalKind>,
}

impl ShutdownCoordinator {
    /// The signal that has fired, if one has.
    pub closed spec fn spec_fired(&self) -> Option<SignalKind> {
        self.fired
    }

    /// An armed coordinator: nothing has fired.
    pub fn new() -> (r: Self)
        ensures
            r.spec_fired() is None,
    {
        ShutdownCoordinator { fired: None }
    }

    /// Delivers a signal. The first signal fires and yields its
    /// drain plan; any signal after the first yields nothing and
    /// leaves the recorded signal as it was.
    pub fn fire(&mut self, kind: SignalKind) -> (r: Option<DrainPlan>)
        ensures
            old(self).spec_fired() is None ==> r == Some(spec_drain_plan(kind))
                && final(self).spec_fired() == Some(kind),
            old(self).spec_fired() is Some ==> r is None
                && final(self).spec_fired() == old(self).spec_fired(),
    {
        match self.fired {
            None => {
                self.fired = Some(kind);
                Some(drain_plan(kind))
            },
            Some(_) => None,
        }
    }
}

} // verus!
