//! One hardware accelerator instance and the policy of its polling loop.

use vstd::prelude::*;

use crate::QatError;
use crate::is_success;

verus! {

/// One hardware accelerator instance: the driver's opaque instance
/// reference, its NUMA affinity, the count of connections currently
/// using it, and the draining/stopped flag.
///
/// Invariants carried by the contracts: `done == true` means no new
/// submission is accepted (the sign and decrypt contracts reject a
/// connection whose bound handle drains) and no new selection chooses
/// this handle (the round-robin choice skips it); the user count never
/// goes negative (it only moves by guarded increments and by
/// decrements that require it positive).
#[derive(Clone, Copy, Debug)]
pub struct QatHandle {
    /// The driver's native instance reference, opaque to this crate;
    /// valid from successful initialization until the handle stops.
    pub instance: u64,
    /// The NUMA node this instance is attached to.
    pub node_affinity: u32,
    /// How many connections are currently bound to this instance.
    pub users: u32,
    /// Set when the handle is draining or stopped; never cleared.
    pub done: bool,
}

/// What the polling loop of one handle must do next.
#[derive(Clone, Copy, Debug, PartialEq, Eq, Structural)]
pub enum PollAction {
    /// The handle is draining or stopped: the loop exits.
    Exit,
    /// No connection uses the handle: suspend until one registers or
    /// draining begins, instead of polling idle hardware.
    Suspend,
    /// Work may be outstanding: poll the driver, then sleep for the
    /// configured delay.
    Poll,
}

impl QatHandle {
    /// Builds the handle for one discovered instance from the driver's
    /// answers to the three initialization steps: address-translation
    /// binding, instance-metadata fetch, and instance start. Any step
    /// failing yields `HardwareInitError` and no handle.
    pub fn init_qat_instance(
        instance: u64,
        node_affinity: u32,
        addr_status: i32,
        info_status: i32,
        start_status: i32,
    ) -> (r: Result<QatHandle, QatError>)
        ensures
            r is Ok <==> (is_success(addr_status) && is_success(info_status)
                && is_success(start_status)),
            r is Ok ==> r->Ok_0 == (QatHandle {
                instance,
                node_affinity,
                users: 0,
                done: false,
            }),
            r is Err ==> r->Err_0 == QatError::HardwareInitError,
    {
        if addr_status == crate::STATUS_SUCCESS
            && info_status == crate::STATUS_SUCCESS
            && start_status == crate::STATUS_SUCCESS
        {
            Ok(QatHandle { instance, node_affinity, users: 0, done: false })
        } else {
            Err(QatError::HardwareInitError)
        }
    }

    /// Whether the handle is draining or stopped.
    pub fn is_done(&self) -> (r: bool)
        ensures
            r == self.done,
    {
        self.done
    }

    /// The driver's native instance reference, handed to driver calls.
    pub fn get_handle(&self) -> (r: u64)
        ensures
            r == self.instance,
    {
        self.instance
    }

    /// Whether any connection currently uses this handle.
    pub fn has_users(&self) -> (r: bool)
        ensures
            r == (self.users > 0),
    {
        self.users > 0
    }

    /// Registers one more connection as a user of this handle.
    pub fn add_user(&mut self)
        requires
            old(self).users < u32::MAX,
        ensures
            *final(self) == (QatHandle { users: (old(self).users + 1) as u32, ..*old(self) }),
    {
        self.users = self.users + 1;
    }

    /// Releases one user of this handle. Calling this with no user
    /// registered is a double-release defect, so it is ruled out by
    /// the precondition rather than clamped.
    pub fn remove_user(&mut self)
        requires
            old(self).users > 0,
        ensures
            *final(self) == (QatHandle { users: (old(self).users - 1) as u32, ..*old(self) }),
    {
        self.users = self.users - 1;
    }

    /// The NUMA node of the instance.
    pub fn get_node_affinity(&self) -> (r: u32)
        ensures
            r == self.node_affinity,
    {
        self.node_affinity
    }

    /// Marks the handle draining: no new submissions, no new
    /// selections; users already bound keep the handle until they
    /// unbind.
    pub fn begin_drain(&mut self)
        ensures
            *final(self) == (QatHandle { done: true, ..*old(self) }),
    {
        self.done = true;
    }

    /// The decision one iteration of the polling loop takes: exit when
    /// draining, suspend when idle, otherwise poll the driver.
    pub fn poll_step(&self) -> (r: PollAction)
        ensures
            r == (if self.done {
                PollAction::Exit
            } else if self.users == 0 {
                PollAction::Suspend
            } else {
                PollAction::Poll
            }),
    {
        if self.done {
            PollAction::Exit
        } else if self.users == 0 {
            PollAction::Suspend
        } else {
            PollAction::Poll
        }
    }
}

} // verus!
