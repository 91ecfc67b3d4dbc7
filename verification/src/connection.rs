//! The binding of one TLS session to one accelerator instance.

use vstd::prelude::*;

use crate::QatError;
use crate::handle::QatHandle;
use crate::laws::BindEvent;
use crate::laws::apply_event;
use crate::provider::PendingOperation;
use crate::section::QatSection;
use crate::section::lemma_user_le_sum;
use crate::section::lemma_user_sum_update;
use crate::section::rr_choice;

verus! {

/// One TLS session bound to one handle of a section, holding the
/// session's private-key bytes (opaque to the hardware) and at most
/// one outstanding hardware operation.
///
/// A binding registers exactly one increment on its handle's user
/// count at creation (`bind`) and exactly one decrement at
/// destruction (`unbind`, which consumes the binding), on every exit
/// path.
pub struct QatConnection {
    /// Index of the bound handle within its section.
    pub handle_index: usize,
    /// The session's private-key bytes.
    pub private_key: Vec<u8>,
    /// The one operation submitted and not yet resolved, if any.
    pub pending: Option<PendingOperation>,
}

impl QatConnection {
    /// The binding points at a live handle of this section: the index
    /// is in range and the handle still counts this binding among its
    /// users.
    pub open spec fn is_valid(self, section: QatSection) -> bool {
        &&& (self.handle_index as int) < section.handles().len()
        &&& section.handles()[self.handle_index as int].users > 0
    }

    /// Binds a new TLS session: selects a handle round-robin,
    /// registers the session as one of its users, and stores the key
    /// bytes. Fails with `NoHardwareAvailable`, changing nothing, when
    /// every handle drains.
    pub fn bind(section: &mut QatSection, private_key: Vec<u8>) -> (r: Result<
        QatConnection,
        QatError,
    >)
        requires
            old(section).wf(),
            old(section).bound_connections() < u32::MAX,
        ensures
            final(section).wf(),
            final(section).poll_delay() == old(section).poll_delay(),
            r matches Ok(c) ==> {
                let i = c.handle_index as int;
                &&& rr_choice(old(section).handles(), old(section).cursor()) == Some(i)
                &&& 0 <= i < old(section).handles().len()
                &&& !old(section).handles()[i].done
                &&& c.private_key@ == private_key@
                &&& c.pending is None
                &&& final(section).handles() == old(section).handles().update(
                    i,
                    QatHandle {
                        users: (old(section).handles()[i].users + 1) as u32,
                        ..old(section).handles()[i]
                    },
                )
                &&& final(section).handles() == apply_event(
                    old(section).handles(),
                    BindEvent::Bind { idx: i },
                )
                &&& final(section).cursor() == i
                &&& final(section).bound_connections() == old(section).bound_connections() + 1
                &&& c.is_valid(*final(section))
            },
            r is Err ==> {
                &&& r->Err_0 == QatError::NoHardwareAvailable
                &&& rr_choice(old(section).handles(), old(section).cursor()) is None
                &&& *final(section) == *old(section)
            },
    {
        let idx = match section.select_handle() {
            Ok(i) => i,
            Err(e) => {
                return Err(e);
            },
        };
        proof {
            lemma_user_le_sum(section.qat_handles@, idx as int);
        }
        let ghost before = section.qat_handles@;
        let mut h = section.qat_handles[idx];
        h.add_user();
        section.qat_handles[idx] = h;
        proof {
            lemma_user_sum_update(before, idx as int, h);
        }
        section.bound = Ghost(section.bound@ + 1);
        Ok(QatConnection { handle_index: idx, private_key, pending: None })
    }

    /// Releases the binding: decrements the bound handle's user count
    /// exactly once and consumes the binding, so a second release of
    /// the same binding cannot be written.
    pub fn unbind(self, section: &mut QatSection)
        requires
            old(section).wf(),
            self.is_valid(*old(section)),
        ensures
            final(section).wf(),
            final(section).handles() == old(section).handles().update(
                self.handle_index as int,
                QatHandle {
                    users: (old(section).handles()[self.handle_index as int].users - 1) as u32,
                    ..old(section).handles()[self.handle_index as int]
                },
            ),
            final(section).handles() == apply_event(
                old(section).handles(),
                BindEvent::Unbind { idx: self.handle_index as int },
            ),
            final(section).bound_connections() == old(section).bound_connections() - 1,
            final(section).cursor() == old(section).cursor(),
            final(section).poll_delay() == old(section).poll_delay(),
    {
        let idx = self.handle_index;
        proof {
            lemma_user_le_sum(section.qat_handles@, idx as int);
        }
        let ghost before = section.qat_handles@;
        let mut h = section.qat_handles[idx];
        h.remove_user();
        section.qat_handles[idx] = h;
        proof {
            lemma_user_sum_update(before, idx as int, h);
        }
        section.bound = Ghost((section.bound@ - 1) as nat);
    }

    /// The index of the handle this session is bound to.
    pub fn get_qat_handle(&self) -> (r: usize)
        ensures
            r == self.handle_index,
    {
        self.handle_index
    }

    /// The session's private-key bytes.
    pub fn get_private_key(&self) -> (r: &Vec<u8>)
        ensures
            r@ == self.private_key@,
    {
        &self.private_key
    }
}

} // verus!
