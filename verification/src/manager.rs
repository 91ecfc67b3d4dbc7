//! The driver lifetime manager: one-time driver startup and shutdown,
//! reference-counted so every section releases before shutdown.

use vstd::prelude::*;

use crate::QatError;
use crate::is_success;

verus! {

/// Where the managed driver stands in its lifetime.
#[derive(Clone, Copy, Debug, PartialEq, Eq, Structural)]
pub enum ManagerState {
    /// Driver startup has not succeeded yet.
    Idle,
    /// The driver runs; sections may use the hardware.
    Active,
    /// The driver was shut down; terminal, nothing can be acquired.
    Stopped,
}

/// The process-wide owner of the driver's lifetime. Acquiring it
/// performs driver startup on the first call only; releasing the last
/// reference performs driver shutdown exactly once. After shutdown no
/// reference can be acquired again, which keeps every hardware call
/// inside the driver's lifetime.
///
/// The two call counters witness that startup and shutdown each happen
/// exactly once over any sequence of acquires and releases.
#[derive(Clone, Copy, Debug)]
pub struct QatManager {
    /// The driver's lifecycle state.
    pub state: ManagerState,
    /// How often driver startup was requested at the boundary.
    pub start_calls: u32,
    /// How often driver shutdown was requested at the boundary.
    pub stop_calls: u32,
    /// How many holders currently keep the driver alive.
    pub refs: u32,
}

/// What `acquire` does to the manager: the next manager value and
/// whether the acquisition succeeds.
pub open spec fn spec_acquire(m: QatManager, start_status: i32) -> (QatManager, bool) {
    if m.state is Active {
        (QatManager { refs: (m.refs + 1) as u32, ..m }, true)
    } else if is_success(start_status) {
        (
            QatManager {
                state: ManagerState::Active,
                start_calls: (m.start_calls + 1) as u32,
                refs: (m.refs + 1) as u32,
                ..m
            },
            true,
        )
    } else {
        (QatManager { start_calls: (m.start_calls + 1) as u32, ..m }, false)
    }
}

impl QatManager {
    /// Whether sections may currently use the hardware.
    pub open spec fn is_active(self) -> bool {
        self.state is Active
    }

    /// Well-formedness: the reference count and the two call counters
    /// agree with the lifecycle state.
    pub open spec fn wf(self) -> bool {
        &&& (self.state is Idle ==> self.refs == 0 && self.stop_calls == 0)
        &&& (self.state is Active ==> self.refs >= 1 && self.stop_calls == 0
            && self.start_calls >= 1)
        &&& (self.state is Stopped ==> self.refs == 0 && self.stop_calls == 1
            && self.start_calls >= 1)
    }

    /// A manager before any driver interaction.
    pub fn new() -> (r: QatManager)
        ensures
            r == (QatManager {
                state: ManagerState::Idle,
                start_calls: 0,
                stop_calls: 0,
                refs: 0,
            }),
            r.wf(),
    {
        QatManager { state: ManagerState::Idle, start_calls: 0, stop_calls: 0, refs: 0 }
    }

    /// Takes one reference on the manager. On the first successful
    /// call this performs driver startup, whose status the boundary
    /// hands in; once the driver runs, later acquisitions never start
    /// it again, and the status argument is not consulted. A failed
    /// startup is `HardwareInitError` — fatal for the caller, who must
    /// fall back to software crypto or refuse to start.
    ///
    /// Acquiring after shutdown began is structurally unreachable: the
    /// precondition excludes the stopped state.
    pub fn acquire(&mut self, start_status: i32) -> (r: Result<(), QatError>)
        requires
            old(self).wf(),
            !(old(self).state is Stopped),
            old(self).refs < u32::MAX,
            old(self).start_calls < u32::MAX,
        ensures
            final(self).wf(),
            *final(self) == spec_acquire(*old(self), start_status).0,
            (r is Ok) == spec_acquire(*old(self), start_status).1,
            old(self).state is Active ==> r is Ok && final(self).start_calls == old(
                self,
            ).start_calls && final(self).refs == old(self).refs + 1 && final(self).is_active(),
            old(self).state is Idle && is_success(start_status) ==> r is Ok
                && final(self).start_calls == old(self).start_calls + 1 && final(self).refs == 1
                && final(self).is_active(),
            old(self).state is Idle && !is_success(start_status) ==> {
                &&& r matches Err(e) && e == QatError::HardwareInitError
                &&& final(self).state is Idle
                &&& final(self).start_calls == old(self).start_calls + 1
                &&& final(self).refs == 0
            },
            final(self).stop_calls == old(self).stop_calls,
    {
        match self.state {
            ManagerState::Active => {
                self.refs = self.refs + 1;
                Ok(())
            },
            _ => {
                self.start_calls = self.start_calls + 1;
                if start_status == crate::STATUS_SUCCESS {
                    self.state = ManagerState::Active;
                    self.refs = self.refs + 1;
                    Ok(())
                } else {
                    Err(QatError::HardwareInitError)
                }
            },
        }
    }

    /// Gives one reference back. The answer says whether this was the
    /// last one: exactly then the manager turns stopped and the
    /// boundary must perform driver shutdown — once, and never before
    /// every holder released.
    pub fn release(&mut self) -> (r: bool)
        requires
            old(self).wf(),
            old(self).state is Active,
        ensures
            final(self).wf(),
            final(self).refs == old(self).refs - 1,
            final(self).start_calls == old(self).start_calls,
            r == (old(self).refs == 1),
            r ==> final(self).state is Stopped && final(self).stop_calls == 1,
            !r ==> final(self).state is Active && final(self).stop_calls == 0,
    {
        self.refs = self.refs - 1;
        if self.refs == 0 {
            self.state = ManagerState::Stopped;
            self.stop_calls = self.stop_calls + 1;
            true
        } else {
            false
        }
    }

    /// The index under which a connection is registered with the TLS
    /// context.
    pub fn connection_index() -> (r: i32)
        ensures
            r == 0,
    {
        0
    }

    /// The index under which the provider context is registered with
    /// the TLS context.
    pub fn context_index() -> (r: i32)
        ensures
            r == 0,
    {
        0
    }
}

/// Acquiring the manager twice hands back the same one manager and
/// performs driver startup exactly once: the first successful
/// acquisition starts the driver, the second only takes a reference,
/// and the startup counter ends one above where it began.
pub proof fn lemma_single_startup(m0: QatManager, s1: i32, s2: i32)
    requires
        m0.wf(),
        m0.state is Idle,
        m0.start_calls < u32::MAX,
        is_success(s1),
    ensures
        ({
            let (m1, ok1) = spec_acquire(m0, s1);
            let (m2, ok2) = spec_acquire(m1, s2);
            &&& ok1
            &&& ok2
            &&& m1.is_active()
            &&& m2.is_active()
            &&& m2.start_calls == m0.start_calls + 1
            &&& m2.refs == m0.refs + 2
        }),
{
}

} // verus!
