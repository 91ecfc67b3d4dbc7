//! A pool of accelerator instances serving one offload purpose:
//! discovery-driven startup, round-robin selection, and draining.

use vstd::prelude::*;

use crate::QatError;
use crate::STATUS_SUCCESS;
use crate::handle::QatHandle;
use crate::is_success;

verus! {

/// The driver's answers to the three initialization steps of one
/// discovered instance, together with the instance's identity. The
/// calls themselves are made at the driver boundary; the library
/// decides on their status codes.
#[derive(Clone, Copy, Debug)]
pub struct HandleInit {
    /// The driver's opaque reference for this instance.
    pub instance: u64,
    /// The NUMA node reported for this instance.
    pub node_affinity: u32,
    /// Status of binding the address-translation callback.
    pub addr_status: i32,
    /// Status of fetching the instance metadata.
    pub info_status: i32,
    /// Status of starting the instance.
    pub start_status: i32,
}

/// Whether every initialization step of one instance succeeded.
pub open spec fn init_ok(hi: HandleInit) -> bool {
    is_success(hi.addr_status) && is_success(hi.info_status) && is_success(hi.start_status)
}

/// The handle a successful initialization yields.
pub open spec fn handle_of(hi: HandleInit) -> QatHandle {
    QatHandle { instance: hi.instance, node_affinity: hi.node_affinity, users: 0, done: false }
}

/// The sum of active-user counts over a group of handles.
pub open spec fn user_sum(s: Seq<QatHandle>) -> nat
    decreases s.len(),
{
    if s.len() == 0 {
        0
    } else {
        (user_sum(s.drop_last()) + s.last().users) as nat
    }
}

/// Round-robin scan: the first handle not draining at cyclic offsets
/// `k, k + 1, ..., len` from `cursor`, or nothing when all of them
/// drain.
pub open spec fn rr_scan(h: Seq<QatHandle>, cursor: int, k: int) -> Option<int>
    decreases h.len() + 1 - k,
{
    if k < 1 || k > h.len() {
        None
    } else {
        let i = (cursor + k) % (h.len() as int);
        if !h[i].done {
            Some(i)
        } else {
            rr_scan(h, cursor, k + 1)
        }
    }
}

/// The handle round-robin selection chooses next: the first
/// non-draining handle strictly after `cursor` in cyclic order.
pub open spec fn rr_choice(h: Seq<QatHandle>, cursor: int) -> Option<int> {
    rr_scan(h, cursor, 1)
}

/// A configured group of accelerator instances: the owned handles, the
/// instance count the driver reported, the round-robin cursor, and the
/// poll delay its polling loops sleep between hardware polls.
pub struct QatSection {
    pub qat_handles: Vec<QatHandle>,
    pub num_instances: u16,
    pub next_handle: usize,
    pub poll_delay_ms: u64,
    pub bound: Ghost<nat>,
}

impl QatSection {
    /// The handles of the section, in discovery order.
    pub open spec fn handles(self) -> Seq<QatHandle> {
        self.qat_handles@
    }

    /// The round-robin cursor.
    pub open spec fn cursor(self) -> int {
        self.next_handle as int
    }

    /// How many connections are currently bound to this section.
    pub open spec fn bound_connections(self) -> nat {
        self.bound@
    }

    /// The configured poll delay, in milliseconds.
    pub open spec fn poll_delay(self) -> u64 {
        self.poll_delay_ms
    }

    /// Well-formedness: the handle list matches the reported instance
    /// count, the cursor stays in range, and the user counts sum to
    /// the number of currently-bound connections.
    pub open spec fn wf(self) -> bool {
        &&& self.qat_handles@.len() == self.num_instances as int
        &&& (self.qat_handles@.len() == 0 ==> self.next_handle == 0)
        &&& (self.qat_handles@.len() > 0 ==> (self.next_handle as int) < self.qat_handles@.len())
        &&& user_sum(self.qat_handles@) == self.bound@
    }

    /// A section before startup: no handles, nothing bound.
    pub open spec fn is_fresh(self) -> bool {
        &&& self.qat_handles@.len() == 0
        &&& self.num_instances == 0
        &&& self.next_handle == 0
        &&& self.bound@ == 0
    }

    /// A section that has not started any instance yet.
    pub fn new(poll_delay_ms: u64) -> (r: QatSection)
        ensures
            r.is_fresh(),
            r.wf(),
            r.poll_delay() == poll_delay_ms,
    {
        QatSection {
            qat_handles: Vec::new(),
            num_instances: 0,
            next_handle: 0,
            poll_delay_ms,
            bound: Ghost(0),
        }
    }

    /// Starts the section from the driver's discovery answers: the
    /// status of the instance-count query, the status of the
    /// instance-list query, and the three per-instance initialization
    /// statuses. Succeeds exactly when every query and every step of
    /// every instance succeeded; any failure aborts startup with
    /// `HardwareInitError` and unwinds the handles already started, so
    /// no polling loop is left running.
    pub fn start_section(
        &mut self,
        count_status: i32,
        list_status: i32,
        inits: Vec<HandleInit>,
    ) -> (r: Result<(), QatError>)
        requires
            old(self).is_fresh(),
            inits@.len() <= u16::MAX,
        ensures
            final(self).poll_delay() == old(self).poll_delay(),
            r is Ok <==> (is_success(count_status) && is_success(list_status)
                && (forall|j: int| 0 <= j < inits@.len() ==> init_ok(#[trigger] inits@[j]))),
            r is Ok ==> {
                &&& final(self).wf()
                &&& final(self).handles().len() == inits@.len()
                &&& forall|j: int| 0 <= j < inits@.len()
                    ==> final(self).handles()[j] == handle_of(#[trigger] inits@[j])
                &&& final(self).cursor() == 0
                &&& final(self).bound_connections() == 0
            },
            r is Err ==> r->Err_0 == QatError::HardwareInitError && final(self).is_fresh()
                && final(self).wf(),
    {
        if count_status != STATUS_SUCCESS || list_status != STATUS_SUCCESS {
            return Err(QatError::HardwareInitError);
        }
        let n = inits.len();
        let mut i: usize = 0;
        while i < n
            invariant
                i <= n,
                n == inits@.len(),
                n <= u16::MAX,
                self.qat_handles@.len() == i,
                forall|j: int| 0 <= j < i ==> init_ok(#[trigger] inits@[j]),
                forall|j: int| 0 <= j < i
                    ==> self.qat_handles@[j] == handle_of(#[trigger] inits@[j]),
                self.num_instances == 0,
                self.next_handle == 0,
                self.bound@ == 0,
                self.poll_delay_ms == old(self).poll_delay_ms,
            decreases n - i,
        {
            let hi = inits[i];
            match QatHandle::init_qat_instance(
                hi.instance,
                hi.node_affinity,
                hi.addr_status,
                hi.info_status,
                hi.start_status,
            ) {
                Ok(h) => {
                    self.qat_handles.push(h);
                }
                Err(e) => {
                    // Unwind: every handle already started is stopped
                    // at the driver boundary and released here.
                    self.qat_handles = Vec::new();
                    return Err(e);
                }
            }
            i = i + 1;
        }
        self.num_instances = n as u16;
        proof {
            assert forall|j: int| 0 <= j < self.qat_handles@.len()
                implies (#[trigger] self.qat_handles@[j]).users == 0 by {
                assert(self.qat_handles@[j] == handle_of(inits@[j]));
            }
            lemma_user_sum_all_zero(self.qat_handles@);
        }
        Ok(())
    }

    /// Chooses the handle for a new connection: round-robin over the
    /// handles not draining, starting just after the cursor. When
    /// every handle drains (or none exists), fails with
    /// `NoHardwareAvailable` and changes nothing.
    pub fn select_handle(&mut self) -> (r: Result<usize, QatError>)
        requires
            old(self).wf(),
        ensures
            final(self).wf(),
            final(self).handles() == old(self).handles(),
            final(self).bound_connections() == old(self).bound_connections(),
            final(self).poll_delay() == old(self).poll_delay(),
            r is Ok ==> {
                &&& rr_choice(old(self).handles(), old(self).cursor()) == Some(r->Ok_0 as int)
                &&& (r->Ok_0 as int) < old(self).handles().len()
                &&& !old(self).handles()[r->Ok_0 as int].done
                &&& final(self).cursor() == r->Ok_0 as int
            },
            r is Err ==> {
                &&& r->Err_0 == QatError::NoHardwareAvailable
                &&& rr_choice(old(self).handles(), old(self).cursor()) is None
                &&& *final(self) == *old(self)
            },
    {
        let n = self.qat_handles.len();
        if n == 0 {
            return Err(QatError::NoHardwareAvailable);
        }
        let ghost h = self.qat_handles@;
        let ghost c = self.next_handle as int;
        let mut k: usize = 1;
        while k <= n
            invariant
                self == old(self),
                h == self.qat_handles@,
                c == self.next_handle as int,
                self.wf(),
                n == h.len(),
                n > 0,
                n <= u16::MAX,
                self.next_handle < n,
                1 <= k <= n + 1,
                rr_scan(h, c, k as int) == rr_choice(h, c),
            decreases n + 1 - k,
        {
            let idx = (self.next_handle + k) % n;
            if !self.qat_handles[idx].is_done() {
                self.next_handle = idx;
                return Ok(idx);
            }
            proof {
                assert(rr_scan(h, c, k as int) == rr_scan(h, c, k as int + 1));
            }
            k = k + 1;
        }
        Err(QatError::NoHardwareAvailable)
    }

    /// Marks every handle draining: no new selection will choose one,
    /// while the user counts — and with them the connections already
    /// bound — stay untouched until each connection unbinds.
    pub fn drain(&mut self)
        requires
            old(self).wf(),
        ensures
            final(self).wf(),
            final(self).handles().len() == old(self).handles().len(),
            forall|j: int| 0 <= j < old(self).handles().len()
                ==> final(self).handles()[j]
                    == (QatHandle { done: true, ..old(self).handles()[j] }),
            final(self).bound_connections() == old(self).bound_connections(),
            final(self).cursor() == old(self).cursor(),
            final(self).poll_delay() == old(self).poll_delay(),
    {
        let n = self.qat_handles.len();
        let mut i: usize = 0;
        while i < n
            invariant
                i <= n,
                n == self.qat_handles@.len(),
                n == old(self).qat_handles@.len(),
                self.num_instances == old(self).num_instances,
                self.next_handle == old(self).next_handle,
                self.poll_delay_ms == old(self).poll_delay_ms,
                self.bound == old(self).bound,
                forall|j: int| 0 <= j < i
                    ==> self.qat_handles@[j]
                        == (QatHandle { done: true, ..old(self).qat_handles@[j] }),
                forall|j: int| i <= j < n
                    ==> self.qat_handles@[j] == old(self).qat_handles@[j],
                user_sum(self.qat_handles@) == old(self).bound@,
            decreases n - i,
        {
            let ghost before = self.qat_handles@;
            let mut h = self.qat_handles[i];
            h.begin_drain();
            self.qat_handles[i] = h;
            proof {
                lemma_user_sum_update(before, i as int, h);
            }
            i = i + 1;
        }
    }

    /// How many handles the section owns.
    pub fn handle_count(&self) -> (r: usize)
        ensures
            r == self.handles().len(),
    {
        self.qat_handles.len()
    }

    /// Read access to one handle, for the polling loop of that
    /// instance and for observers.
    pub fn handle_at(&self, i: usize) -> (r: &QatHandle)
        requires
            i < self.handles().len(),
        ensures
            *r == self.handles()[i as int],
    {
        &self.qat_handles[i]
    }
}

/// A group of handles with no user anywhere sums to zero users.
pub proof fn lemma_user_sum_all_zero(s: Seq<QatHandle>)
    requires
        forall|j: int| 0 <= j < s.len() ==> (#[trigger] s[j]).users == 0,
    ensures
        user_sum(s) == 0,
    decreases s.len(),
{
    if s.len() > 0 {
        lemma_user_sum_all_zero(s.drop_last());
    }
}

/// Replacing one handle moves the user sum by the difference of the
/// two user counts.
pub proof fn lemma_user_sum_update(s: Seq<QatHandle>, i: int, h: QatHandle)
    requires
        0 <= i < s.len(),
    ensures
        user_sum(s.update(i, h)) + s[i].users == user_sum(s) + h.users,
    decreases s.len(),
{
    if s.len() > 0 {
        if i == s.len() - 1 {
            assert(s.update(i, h).drop_last() =~= s.drop_last());
        } else {
            assert(s.update(i, h).drop_last() =~= s.drop_last().update(i, h));
            lemma_user_sum_update(s.drop_last(), i, h);
        }
    }
}

/// Every handle's user count is bounded by the user sum of its group.
pub proof fn lemma_user_le_sum(s: Seq<QatHandle>, i: int)
    requires
        0 <= i < s.len(),
    ensures
        s[i].users <= user_sum(s),
    decreases s.len(),
{
    if i == s.len() - 1 {
    } else {
        lemma_user_le_sum(s.drop_last(), i);
    }
}

} // verus!
