use qat_offload::STATUS_SUCCESS;
use qat_offload::QatError;
use qat_offload::connection::QatConnection;
use qat_offload::handle::PollAction;
use qat_offload::handle::QatHandle;
use qat_offload::manager::ManagerState;
use qat_offload::manager::QatManager;
use qat_offload::provider::KeyMethodResult;
use qat_offload::provider::OpCompletion;
use qat_offload::provider::QatOpKind;
use qat_offload::provider::QatPrivateKeyMethodProvider;
use qat_offload::provider::QatPrivateKeyMethodProviderConfig;
use qat_offload::section::HandleInit;
use qat_offload::section::QatSection;

const FAIL: i32 = -1;

fn ok_init(instance: u64, node: u32) -> HandleInit {
    HandleInit {
        instance,
        node_affinity: node,
        addr_status: STATUS_SUCCESS,
        info_status: STATUS_SUCCESS,
        start_status: STATUS_SUCCESS,
    }
}

fn started_section(n: u64) -> QatSection {
    let mut section = QatSection::new(100);
    let mut inits = Vec::new();
    for i in 0..n {
        inits.push(ok_init(i, 0));
    }
    section
        .start_section(STATUS_SUCCESS, STATUS_SUCCESS, inits)
        .expect("startup succeeds when every status is success");
    section
}

fn users_of(section: &QatSection) -> Vec<u32> {
    let mut users = Vec::new();
    for i in 0..section.handle_count() {
        users.push(section.handle_at(i).users);
    }
    users
}

#[test]
fn handle_init_requires_all_steps() {
    let h = QatHandle::init_qat_instance(7, 2, STATUS_SUCCESS, STATUS_SUCCESS, STATUS_SUCCESS)
        .expect("all steps succeeded");
    assert_eq!(h.get_handle(), 7);
    assert_eq!(h.get_node_affinity(), 2);
    assert!(!h.is_done());
    assert!(!h.has_users());

    for bad in [
        (FAIL, STATUS_SUCCESS, STATUS_SUCCESS),
        (STATUS_SUCCESS, FAIL, STATUS_SUCCESS),
        (STATUS_SUCCESS, STATUS_SUCCESS, FAIL),
    ] {
        let r = QatHandle::init_qat_instance(7, 2, bad.0, bad.1, bad.2);
        assert_eq!(r.unwrap_err(), QatError::HardwareInitError);
    }
}

#[test]
fn poll_step_policy() {
    let mut h = QatHandle::init_qat_instance(0, 0, 0, 0, 0).unwrap();
    assert_eq!(h.poll_step(), PollAction::Suspend);
    h.add_user();
    assert!(h.has_users());
    assert_eq!(h.poll_step(), PollAction::Poll);
    h.begin_drain();
    assert_eq!(h.poll_step(), PollAction::Exit);
    h.remove_user();
    assert!(!h.has_users());
}

#[test]
fn start_section_failure_unwinds() {
    let mut section = QatSection::new(100);
    let inits = vec![ok_init(0, 0), ok_init(1, 0)];
    let r = section.start_section(FAIL, STATUS_SUCCESS, inits);
    assert_eq!(r.unwrap_err(), QatError::HardwareInitError);
    assert_eq!(section.handle_count(), 0);

    let mut section = QatSection::new(100);
    let mut inits = vec![ok_init(0, 0)];
    inits.push(HandleInit {
        instance: 1,
        node_affinity: 0,
        addr_status: STATUS_SUCCESS,
        info_status: FAIL,
        start_status: STATUS_SUCCESS,
    });
    let r = section.start_section(STATUS_SUCCESS, STATUS_SUCCESS, inits);
    assert_eq!(r.unwrap_err(), QatError::HardwareInitError);
    // The handle started before the failure was stopped and released.
    assert_eq!(section.handle_count(), 0);
}

#[test]
fn empty_section_has_no_hardware() {
    let mut section = QatSection::new(100);
    section
        .start_section(STATUS_SUCCESS, STATUS_SUCCESS, Vec::new())
        .expect("zero instances is a successful start");
    assert_eq!(
        section.select_handle().unwrap_err(),
        QatError::NoHardwareAvailable
    );
}

#[test]
fn round_robin_selection_is_balanced() {
    // Three active handles, seven selections: picks walk the pool in
    // cyclic order from the cursor, so every handle is chosen two or
    // three times (ceil(7/3) == 3).
    let mut section = started_section(3);
    let mut picks = Vec::new();
    for _ in 0..7 {
        picks.push(section.select_handle().expect("nothing drains"));
    }
    assert_eq!(picks, vec![1, 2, 0, 1, 2, 0, 1]);
    let mut counts = [0u32; 3];
    for p in picks {
        counts[p] += 1;
    }
    assert_eq!(counts, [2, 3, 2]);
}

#[test]
fn binding_balance() {
    // The sum of user counts always equals the number of connections
    // currently bound.
    let mut section = started_section(2);
    let total = |s: &QatSection| users_of(s).iter().sum::<u32>();
    assert_eq!(total(&section), 0);

    let c1 = QatConnection::bind(&mut section, vec![1]).unwrap();
    assert_eq!(total(&section), 1);
    let c2 = QatConnection::bind(&mut section, vec![1]).unwrap();
    assert_eq!(total(&section), 2);
    let c3 = QatConnection::bind(&mut section, vec![1]).unwrap();
    assert_eq!(total(&section), 3);

    c2.unbind(&mut section);
    assert_eq!(total(&section), 2);
    c1.unbind(&mut section);
    assert_eq!(total(&section), 1);
    c3.unbind(&mut section);
    assert_eq!(total(&section), 0);
}

#[test]
fn two_instance_lifecycle() {
    // Two instances started, three connections bound: the handles are
    // used [1, 2] from a fresh cursor; unbinding all returns every
    // count to zero; draining then tells every polling loop to exit.
    let mut section = started_section(2);
    let c1 = QatConnection::bind(&mut section, vec![1]).unwrap();
    let c2 = QatConnection::bind(&mut section, vec![1]).unwrap();
    let c3 = QatConnection::bind(&mut section, vec![1]).unwrap();
    assert_eq!(c1.get_qat_handle(), 1);
    assert_eq!(c2.get_qat_handle(), 0);
    assert_eq!(c3.get_qat_handle(), 1);
    assert_eq!(users_of(&section), vec![1, 2]);

    c1.unbind(&mut section);
    c2.unbind(&mut section);
    c3.unbind(&mut section);
    assert_eq!(users_of(&section), vec![0, 0]);

    section.drain();
    for i in 0..section.handle_count() {
        assert!(section.handle_at(i).is_done());
        assert_eq!(section.handle_at(i).poll_step(), PollAction::Exit);
    }
}

#[test]
fn drain_blocks_selection_but_not_bound_connections() {
    let mut section = started_section(2);
    let mut conn = QatConnection::bind(&mut section, vec![1]).unwrap();
    let r = QatPrivateKeyMethodProvider::sign(&section, &mut conn, 4, vec![7, 7], 64, STATUS_SUCCESS);
    assert!(matches!(r, KeyMethodResult::Retry));

    section.drain();
    // No new selection chooses a draining handle.
    assert_eq!(
        section.select_handle().unwrap_err(),
        QatError::NoHardwareAvailable
    );
    assert!(matches!(
        QatConnection::bind(&mut section, vec![1]),
        Err(QatError::NoHardwareAvailable)
    ));
    // The bound connection still resolves its pending operation.
    assert_eq!(section.handle_at(conn.get_qat_handle()).users, 1);
    conn.deliver_completion(STATUS_SUCCESS, vec![3, 4]);
    match QatPrivateKeyMethodProvider::complete(&mut conn) {
        KeyMethodResult::Success(out) => assert_eq!(out, vec![3, 4]),
        _ => panic!("the completed operation resolves"),
    }
    // But it submits no new work: the draining handle rejects it
    // before anything reaches the hardware, and no operation opens.
    let r = QatPrivateKeyMethodProvider::sign(&section, &mut conn, 4, vec![8], 64, STATUS_SUCCESS);
    assert!(matches!(r, KeyMethodResult::Failure(QatError::NoHardwareAvailable)));
    assert!(conn.pending.is_none());
    let r = QatPrivateKeyMethodProvider::decrypt(&section, &mut conn, vec![8], 64, STATUS_SUCCESS);
    assert!(matches!(r, KeyMethodResult::Failure(QatError::NoHardwareAvailable)));
    assert!(conn.pending.is_none());
    conn.unbind(&mut section);
}

#[test]
fn complete_before_completion_retries() {
    let (section, mut conn) = bound_connection();
    let r = QatPrivateKeyMethodProvider::sign(&section, &mut conn, 4, vec![1, 2, 3], 64, STATUS_SUCCESS);
    assert!(matches!(r, KeyMethodResult::Retry));
    // Until the polling loop delivers the completion, complete always
    // answers retry and never hands data out.
    for _ in 0..3 {
        assert!(matches!(
            QatPrivateKeyMethodProvider::complete(&mut conn),
            KeyMethodResult::Retry
        ));
        assert!(conn.pending.is_some());
    }
    conn.deliver_completion(STATUS_SUCCESS, vec![9]);
    match QatPrivateKeyMethodProvider::complete(&mut conn) {
        KeyMethodResult::Success(out) => assert_eq!(out, vec![9]),
        _ => panic!("a delivered success resolves"),
    }
    assert!(conn.pending.is_none());
}

#[test]
fn failed_submission_leaves_no_pending_operation() {
    let (section, mut conn) = bound_connection();
    let r = QatPrivateKeyMethodProvider::sign(&section, &mut conn, 4, vec![1], 64, FAIL);
    assert!(matches!(r, KeyMethodResult::Failure(QatError::OperationFailure)));
    assert!(conn.pending.is_none());
    // Nothing dangles: the next submission opens a fresh operation.
    let r = QatPrivateKeyMethodProvider::sign(&section, &mut conn, 4, vec![1], 64, STATUS_SUCCESS);
    assert!(matches!(r, KeyMethodResult::Retry));
    assert!(conn.pending.is_some());
}

#[test]
fn second_submission_is_rejected() {
    let (section, mut conn) = bound_connection();
    let r = QatPrivateKeyMethodProvider::sign(&section, &mut conn, 4, vec![1], 64, STATUS_SUCCESS);
    assert!(matches!(r, KeyMethodResult::Retry));
    let r = QatPrivateKeyMethodProvider::decrypt(&section, &mut conn, vec![2], 64, STATUS_SUCCESS);
    assert!(matches!(r, KeyMethodResult::Failure(QatError::LogicError)));
    // The open slot is untouched by the rejected submission.
    let op = conn.pending.as_ref().unwrap();
    assert_eq!(op.kind, QatOpKind::Sign);
    assert_eq!(op.algorithm, Some(4));
    assert_eq!(op.input, vec![1]);
}

#[test]
fn complete_without_operation_is_a_logic_error() {
    let (_section, mut conn) = bound_connection();
    assert!(matches!(
        QatPrivateKeyMethodProvider::complete(&mut conn),
        KeyMethodResult::Failure(QatError::LogicError)
    ));
}

#[test]
fn driver_failure_surfaces_as_operation_failure() {
    let (section, mut conn) = bound_connection();
    QatPrivateKeyMethodProvider::decrypt(&section, &mut conn, vec![5], 64, STATUS_SUCCESS);
    let op = conn.pending.as_ref().unwrap();
    assert_eq!(op.kind, QatOpKind::Decrypt);
    assert_eq!(op.algorithm, None);
    conn.deliver_completion(FAIL, Vec::new());
    assert!(matches!(
        conn.pending.as_ref().unwrap().completion,
        OpCompletion::Failure(f) if f == FAIL
    ));
    assert!(matches!(
        QatPrivateKeyMethodProvider::complete(&mut conn),
        KeyMethodResult::Failure(QatError::OperationFailure)
    ));
    assert!(conn.pending.is_none());
}

#[test]
fn oversized_output_fails_completion() {
    let (section, mut conn) = bound_connection();
    QatPrivateKeyMethodProvider::sign(&section, &mut conn, 4, vec![1], 2, STATUS_SUCCESS);
    conn.deliver_completion(STATUS_SUCCESS, vec![1, 2, 3]);
    assert!(matches!(
        QatPrivateKeyMethodProvider::complete(&mut conn),
        KeyMethodResult::Failure(QatError::OperationFailure)
    ));
}

#[test]
fn manager_singleton_starts_driver_once() {
    // Acquired twice, the one manager performs driver startup exactly
    // once; released twice, it performs shutdown exactly once, at the
    // last release.
    let mut m = QatManager::new();
    assert_eq!(m.start_calls, 0);
    m.acquire(STATUS_SUCCESS).expect("startup succeeded");
    assert_eq!(m.start_calls, 1);
    assert_eq!(m.state, ManagerState::Active);
    m.acquire(STATUS_SUCCESS).expect("already running");
    assert_eq!(m.start_calls, 1);
    assert_eq!(m.refs, 2);

    assert!(!m.release());
    assert_eq!(m.stop_calls, 0);
    assert!(m.release());
    assert_eq!(m.stop_calls, 1);
    assert_eq!(m.state, ManagerState::Stopped);
}

#[test]
fn failed_driver_startup_is_fatal() {
    let mut m = QatManager::new();
    let r = m.acquire(FAIL);
    assert_eq!(r.unwrap_err(), QatError::HardwareInitError);
    assert_eq!(m.start_calls, 1);
    assert_eq!(m.state, ManagerState::Idle);
    assert_eq!(m.refs, 0);
}

#[test]
fn manager_indexes() {
    assert_eq!(QatManager::connection_index(), 0);
    assert_eq!(QatManager::context_index(), 0);
}

#[test]
fn provider_serves_connections_with_its_key() {
    let mut m = QatManager::new();
    m.acquire(STATUS_SUCCESS).unwrap();
    let conf = QatPrivateKeyMethodProviderConfig::new();
    assert_eq!(conf.p_key, vec![1]);
    assert_eq!(conf.poll_delay_ms, 1000);

    let mut provider = QatPrivateKeyMethodProvider::new(conf, &m);
    provider
        .qat_section
        .start_section(STATUS_SUCCESS, STATUS_SUCCESS, vec![ok_init(0, 0), ok_init(1, 1)])
        .unwrap();
    let conn = provider.qat_connection().expect("hardware available");
    assert_eq!(conn.get_private_key(), &vec![1]);
    assert_eq!(provider.private_key, vec![1]);
    assert_eq!(
        provider.qat_section.handle_at(conn.get_qat_handle()).users,
        1
    );
    conn.unbind(&mut provider.qat_section);
    assert!(m.release());
}

fn bound_connection() -> (QatSection, QatConnection) {
    let mut section = started_section(1);
    let conn = QatConnection::bind(&mut section, vec![1]).expect("one active handle");
    (section, conn)
}
