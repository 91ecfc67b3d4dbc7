//! The private-key-method provider: the asynchronous
//! sign/decrypt/complete contract the TLS engine drives.

use vstd::prelude::*;

use crate::QatError;
use crate::connection::QatConnection;
use crate::is_success;
use crate::laws::BindEvent;
use crate::laws::apply_event;
use crate::manager::QatManager;
use crate::section::QatSection;
use crate::section::rr_choice;

verus! {

/// The kind of one hardware request.
#[derive(Clone, Copy, Debug, PartialEq, Eq, Structural)]
pub enum QatOpKind {
    /// A private-key signature.
    Sign,
    /// A private-key decryption.
    Decrypt,
}

/// The completion slot of one outstanding request: empty until the
/// polling loop drains the completion from the hardware.
#[derive(Debug)]
pub enum OpCompletion {
    /// The driver has not reported completion yet.
    Absent,
    /// The driver reported success, with the output bytes.
    Success(Vec<u8>),
    /// The driver reported failure, with its status code.
    Failure(i32),
}

/// One outstanding hardware request of a connection: its kind, the
/// signature algorithm (for signing), the input bytes, the capacity of
/// the TLS engine's output buffer, and the completion slot. At most
/// one is open per connection at a time.
#[derive(Debug)]
pub struct PendingOperation {
    /// Sign or decrypt.
    pub kind: QatOpKind,
    /// The TLS signature algorithm identifier; absent for decryption.
    pub algorithm: Option<u16>,
    /// The bytes handed to the hardware.
    pub input: Vec<u8>,
    /// How many output bytes the TLS engine can accept.
    pub max_out: usize,
    /// Empty, success with output, or failure with a status code.
    pub completion: OpCompletion,
}

/// What one call of the sign/decrypt/complete contract answers the
/// TLS engine.
#[derive(Debug)]
pub enum KeyMethodResult {
    /// The operation finished; the output bytes are final.
    Success(Vec<u8>),
    /// The operation is still in flight: ask again on a later turn.
    Retry,
    /// The operation failed; the error says how.
    Failure(QatError),
}

/// Configuration of the provider: the private-key bytes it serves and
/// the delay its polling loops sleep between hardware polls.
pub struct QatPrivateKeyMethodProviderConfig {
    /// The private-key bytes, opaque to the hardware.
    pub p_key: Vec<u8>,
    /// Poll delay in milliseconds.
    pub poll_delay_ms: u64,
}

impl QatPrivateKeyMethodProviderConfig {
    /// The default configuration: a one-byte placeholder key and a
    /// poll delay of one second.
    pub fn new() -> (r: QatPrivateKeyMethodProviderConfig)
        ensures
            r.p_key@ == seq![1u8],
            r.poll_delay_ms == 1000,
    {
        let mut p_key: Vec<u8> = Vec::new();
        p_key.push(1u8);
        proof {
            assert(p_key@ =~= seq![1u8]);
        }
        QatPrivateKeyMethodProviderConfig { p_key, poll_delay_ms: 1000 }
    }
}

/// The provider of the TLS engine's private-key offload contract: it
/// owns the section whose handles serve the operations and the key
/// bytes it signs and decrypts with.
pub struct QatPrivateKeyMethodProvider {
    /// The pool of accelerator instances serving this provider.
    pub qat_section: QatSection,
    /// The private-key bytes served by this provider.
    pub private_key: Vec<u8>,
}

impl QatPrivateKeyMethodProvider {
    /// Builds the provider under a running manager: driver startup
    /// happens-before any section use, so an active manager is
    /// required. The section starts empty; instance discovery follows.
    pub fn new(conf: QatPrivateKeyMethodProviderConfig, manager: &QatManager) -> (r:
        QatPrivateKeyMethodProvider)
        requires
            manager.is_active(),
        ensures
            r.qat_section.is_fresh(),
            r.qat_section.wf(),
            r.qat_section.poll_delay() == conf.poll_delay_ms,
            r.private_key@ == conf.p_key@,
    {
        QatPrivateKeyMethodProvider {
            qat_section: QatSection::new(conf.poll_delay_ms),
            private_key: conf.p_key,
        }
    }

    /// Binds a new TLS session to this provider: the connection gets a
    /// round-robin handle of the provider's section and a copy of the
    /// provider's key bytes.
    pub fn qat_connection(&mut self) -> (r: Result<QatConnection, QatError>)
        requires
            old(self).qat_section.wf(),
            old(self).qat_section.bound_connections() < u32::MAX,
        ensures
            final(self).private_key@ == old(self).private_key@,
            final(self).qat_section.wf(),
            final(self).qat_section.poll_delay() == old(self).qat_section.poll_delay(),
            r matches Ok(c) ==> {
                &&& rr_choice(old(self).qat_section.handles(), old(self).qat_section.cursor())
                    == Some(c.handle_index as int)
                &&& !old(self).qat_section.handles()[c.handle_index as int].done
                &&& final(self).qat_section.handles() == apply_event(
                    old(self).qat_section.handles(),
                    BindEvent::Bind { idx: c.handle_index as int },
                )
                &&& final(self).qat_section.cursor() == c.handle_index as int
                &&& c.private_key@ == old(self).private_key@
                &&& c.pending is None
                &&& c.is_valid(final(self).qat_section)
                &&& final(self).qat_section.bound_connections() == old(
                    self,
                ).qat_section.bound_connections() + 1
            },
            r is Err ==> {
                &&& r->Err_0 == QatError::NoHardwareAvailable
                &&& rr_choice(old(self).qat_section.handles(), old(self).qat_section.cursor())
                    is None
                &&& final(self).qat_section == old(self).qat_section
            },
    {
        let key = copy_bytes(&self.private_key);
        QatConnection::bind(&mut self.qat_section, key)
    }

    /// The TLS engine's `sign` entry: builds the pending signature
    /// operation and records the driver's synchronous answer to its
    /// submission. Never blocks: a successful submission answers
    /// `Retry` at once, a failed one answers `Failure` and leaves no
    /// pending operation behind. A draining handle accepts no new
    /// submission: the rejection comes first, before anything would
    /// reach the hardware. A second submission while one is
    /// outstanding is rejected as a contract violation, untouched
    /// state.
    pub fn sign(
        section: &QatSection,
        conn: &mut QatConnection,
        algorithm: u16,
        input: Vec<u8>,
        max_out: usize,
        submit_status: i32,
    ) -> (r: KeyMethodResult)
        requires
            old(conn).is_valid(*section),
        ensures
            section.handles()[old(conn).handle_index as int].done ==> {
                &&& r matches KeyMethodResult::Failure(e) && e == QatError::NoHardwareAvailable
                &&& *final(conn) == *old(conn)
            },
            !section.handles()[old(conn).handle_index as int].done && old(conn).pending is Some
                ==> {
                &&& r matches KeyMethodResult::Failure(e) && e == QatError::LogicError
                &&& *final(conn) == *old(conn)
            },
            !section.handles()[old(conn).handle_index as int].done && old(conn).pending is None
                && !is_success(submit_status) ==> {
                &&& r matches KeyMethodResult::Failure(e) && e == QatError::OperationFailure
                &&& *final(conn) == *old(conn)
            },
            !section.handles()[old(conn).handle_index as int].done && old(conn).pending is None
                && is_success(submit_status) ==> {
                &&& r is Retry
                &&& final(conn).handle_index == old(conn).handle_index
                &&& final(conn).private_key@ == old(conn).private_key@
                &&& final(conn).pending matches Some(op) && op.kind == QatOpKind::Sign
                    && op.algorithm == Some(algorithm) && op.input@ == input@
                    && op.max_out == max_out && op.completion is Absent
            },
    {
        Self::submit(
            section,
            conn,
            QatOpKind::Sign,
            Some(algorithm),
            input,
            max_out,
            submit_status,
        )
    }

    /// The TLS engine's `decrypt` entry: symmetric to `sign` with kind
    /// `Decrypt` and no signature algorithm.
    pub fn decrypt(
        section: &QatSection,
        conn: &mut QatConnection,
        input: Vec<u8>,
        max_out: usize,
        submit_status: i32,
    ) -> (r: KeyMethodResult)
        requires
            old(conn).is_valid(*section),
        ensures
            section.handles()[old(conn).handle_index as int].done ==> {
                &&& r matches KeyMethodResult::Failure(e) && e == QatError::NoHardwareAvailable
                &&& *final(conn) == *old(conn)
            },
            !section.handles()[old(conn).handle_index as int].done && old(conn).pending is Some
                ==> {
                &&& r matches KeyMethodResult::Failure(e) && e == QatError::LogicError
                &&& *final(conn) == *old(conn)
            },
            !section.handles()[old(conn).handle_index as int].done && old(conn).pending is None
                && !is_success(submit_status) ==> {
                &&& r matches KeyMethodResult::Failure(e) && e == QatError::OperationFailure
                &&& *final(conn) == *old(conn)
            },
            !section.handles()[old(conn).handle_index as int].done && old(conn).pending is None
                && is_success(submit_status) ==> {
                &&& r is Retry
                &&& final(conn).handle_index == old(conn).handle_index
                &&& final(conn).private_key@ == old(conn).private_key@
                &&& final(conn).pending matches Some(op) && op.kind == QatOpKind::Decrypt
                    && op.algorithm is None && op.input@ == input@ && op.max_out == max_out
                    && op.completion is Absent
            },
    {
        Self::submit(section, conn, QatOpKind::Decrypt, None, input, max_out, submit_status)
    }

    /// The TLS engine's `complete` entry, called on a later turn:
    /// resolves the one outstanding operation from its completion
    /// slot. An empty slot answers `Retry` and changes nothing — never
    /// stale data, never blocking. A filled slot is cleared: success
    /// hands the output bytes out (failing instead when they exceed
    /// the engine's buffer), failure surfaces as a crypto failure.
    /// With no operation outstanding the call is a contract violation.
    pub fn complete(conn: &mut QatConnection) -> (r: KeyMethodResult)
        ensures
            old(conn).pending is None ==> {
                &&& r matches KeyMethodResult::Failure(e) && e == QatError::LogicError
                &&& *final(conn) == *old(conn)
            },
            old(conn).pending matches Some(op) ==> op.completion is Absent ==> {
                &&& r is Retry
                &&& *final(conn) == *old(conn)
            },
            old(conn).pending matches Some(op) ==> op.completion matches OpCompletion::Success(out)
                ==> out@.len() <= op.max_out ==> {
                &&& r matches KeyMethodResult::Success(o) && o@ == out@
                &&& final(conn).pending is None
            },
            old(conn).pending matches Some(op) ==> op.completion matches OpCompletion::Success(out)
                ==> out@.len() > op.max_out ==> {
                &&& r matches KeyMethodResult::Failure(e) && e == QatError::OperationFailure
                &&& final(conn).pending is None
            },
            old(conn).pending matches Some(op) ==> op.completion matches OpCompletion::Failure(_)
                ==> {
                &&& r matches KeyMethodResult::Failure(e) && e == QatError::OperationFailure
                &&& final(conn).pending is None
            },
            final(conn).handle_index == old(conn).handle_index,
            final(conn).private_key@ == old(conn).private_key@,
    {
        match conn.pending.take() {
            None => KeyMethodResult::Failure(QatError::LogicError),
            Some(op) => {
                match op.completion {
                    OpCompletion::Absent => {
                        conn.pending = Some(op);
                        KeyMethodResult::Retry
                    },
                    OpCompletion::Success(out) => {
                        if out.len() <= op.max_out {
                            KeyMethodResult::Success(out)
                        } else {
                            KeyMethodResult::Failure(QatError::OperationFailure)
                        }
                    },
                    OpCompletion::Failure(_code) => KeyMethodResult::Failure(
                        QatError::OperationFailure,
                    ),
                }
            },
        }
    }

    /// Common submission path of `sign` and `decrypt`.
    fn submit(
        section: &QatSection,
        conn: &mut QatConnection,
        kind: QatOpKind,
        algorithm: Option<u16>,
        input: Vec<u8>,
        max_out: usize,
        submit_status: i32,
    ) -> (r: KeyMethodResult)
        requires
            old(conn).is_valid(*section),
        ensures
            section.handles()[old(conn).handle_index as int].done ==> {
                &&& r matches KeyMethodResult::Failure(e) && e == QatError::NoHardwareAvailable
                &&& *final(conn) == *old(conn)
            },
            !section.handles()[old(conn).handle_index as int].done && old(conn).pending is Some
                ==> {
                &&& r matches KeyMethodResult::Failure(e) && e == QatError::LogicError
                &&& *final(conn) == *old(conn)
            },
            !section.handles()[old(conn).handle_index as int].done && old(conn).pending is None
                && !is_success(submit_status) ==> {
                &&& r matches KeyMethodResult::Failure(e) && e == QatError::OperationFailure
                &&& *final(conn) == *old(conn)
            },
            !section.handles()[old(conn).handle_index as int].done && old(conn).pending is None
                && is_success(submit_status) ==> {
                &&& r is Retry
                &&& final(conn).handle_index == old(conn).handle_index
                &&& final(conn).private_key@ == old(conn).private_key@
                &&& final(conn).pending matches Some(op) && op.kind == kind
                    && op.algorithm == algorithm && op.input@ == input@ && op.max_out == max_out
                    && op.completion is Absent
            },
    {
        if section.handle_at(conn.get_qat_handle()).is_done() {
            // The bound handle drains: no new work is accepted on it,
            // from the moment the flag is set.
            return KeyMethodResult::Failure(QatError::NoHardwareAvailable);
        }
        if conn.pending.is_some() {
            // The TLS engine must not submit while an operation is
            // outstanding; reject without touching the open slot.
            return KeyMethodResult::Failure(QatError::LogicError);
        }
        if submit_status != crate::STATUS_SUCCESS {
            return KeyMethodResult::Failure(QatError::OperationFailure);
        }
        conn.pending = Some(
            PendingOperation { kind, algorithm, input, max_out, completion: OpCompletion::Absent },
        );
        KeyMethodResult::Retry
    }
}

impl QatConnection {
    /// The polling loop's side of the protocol: the driver has drained
    /// a completion for this connection's outstanding operation, and
    /// its callback delivers status and output here. A success status
    /// fills the slot with the output bytes; any other status records
    /// the failure.
    pub fn deliver_completion(&mut self, status: i32, output: Vec<u8>)
        requires
            old(self).pending matches Some(op) && op.completion is Absent,
        ensures
            final(self).handle_index == old(self).handle_index,
            final(self).private_key@ == old(self).private_key@,
            old(self).pending matches Some(op) ==> final(self).pending matches Some(op2)
                && op2.kind == op.kind && op2.algorithm == op.algorithm && op2.input@ == op.input@
                && op2.max_out == op.max_out && op2.completion == (if is_success(status) {
                OpCompletion::Success(output)
            } else {
                OpCompletion::Failure(status)
            }),
    {
        if let Some(op) = &mut self.pending {
            op.completion = if status == crate::STATUS_SUCCESS {
                OpCompletion::Success(output)
            } else {
                OpCompletion::Failure(status)
            };
        }
    }
}

/// An owned copy of a byte vector, element for element.
pub fn copy_bytes(v: &Vec<u8>) -> (r: Vec<u8>)
    ensures
        r@ == v@,
{
    let mut r: Vec<u8> = Vec::new();
    let mut i: usize = 0;
    while i < v.len()
        invariant
            i <= v@.len(),
            r@ == v@.subrange(0, i as int),
        decreases v@.len() - i,
    {
        r.push(v[i]);
        proof {
            assert(r@ =~= v@.subrange(0, i + 1 as int));
        }
        i = i + 1;
    }
    proof {
        assert(r@ =~= v@);
    }
    r
}

} // verus!
