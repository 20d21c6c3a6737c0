use connpool::pool::AcquireAction;
use connpool::pool::ConnectionPool;
use connpool::pool::PoolError;
use connpool::pool::PooledConnection;

fn acquire_via_dial(pool: &mut ConnectionPool) -> PooledConnection {
    match pool.get_connection() {
        AcquireAction::Dial => pool.dial_succeeded(),
        AcquireAction::Reuse(_) => panic!("expected a dial, got a reused connection"),
        AcquireAction::Wait => panic!("expected a dial, pool said wait"),
    }
}

#[test]
fn fresh_pool_has_full_capacity() {
    let pool = ConnectionPool::new(3, String::from("127.0.0.1"), 5432);
    assert_eq!(pool.max_size(), 3);
    assert_eq!(pool.available_permits(), 3);
    assert_eq!(pool.idle_count(), 0);
}

#[test]
fn bound_never_exceeded() {
    let mut pool = ConnectionPool::new(2, String::from("127.0.0.1"), 5432);
    let _a = acquire_via_dial(&mut pool);
    let _b = acquire_via_dial(&mut pool);
    assert_eq!(pool.available_permits(), 0);
    // A third acquisition cannot get anything: no hand-out, no dial.
    assert!(matches!(pool.get_connection(), AcquireAction::Wait));
    assert_eq!(pool.idle_count(), 0);
}

#[test]
fn no_double_hand_out() {
    let mut pool = ConnectionPool::new(2, String::from("127.0.0.1"), 5432);
    let a = acquire_via_dial(&mut pool);
    let b = acquire_via_dial(&mut pool);
    let id_a = a.get_ref().expect("live handle");
    let id_b = b.get_ref().expect("live handle");
    assert_ne!(id_a, id_b);
}

#[test]
fn return_restores_permit_and_idles_connection() {
    let mut pool = ConnectionPool::new(2, String::from("127.0.0.1"), 5432);
    let mut a = acquire_via_dial(&mut pool);
    assert_eq!(pool.available_permits(), 1);
    pool.return_connection(&mut a);
    assert_eq!(pool.available_permits(), 2);
    assert_eq!(pool.idle_count(), 1);
    assert!(a.get_ref().is_none());
}

#[test]
fn second_return_is_a_no_op() {
    let mut pool = ConnectionPool::new(1, String::from("127.0.0.1"), 5432);
    let mut a = acquire_via_dial(&mut pool);
    pool.return_connection(&mut a);
    pool.return_connection(&mut a);
    assert_eq!(pool.available_permits(), 1);
    assert_eq!(pool.idle_count(), 1);
}

#[test]
fn dial_failure_restores_permit_count() {
    let mut pool = ConnectionPool::new(1, String::from("127.0.0.1"), 5432);
    let before = pool.available_permits();
    let err = match pool.get_connection() {
        AcquireAction::Dial => pool.dial_failed(),
        _ => panic!("expected a dial on an empty pool"),
    };
    assert_eq!(err, PoolError::DialFailure);
    assert_eq!(pool.available_permits(), before);
    assert_eq!(pool.idle_count(), 0);
}

#[test]
fn idle_connection_is_reused_without_dialing() {
    let mut pool = ConnectionPool::new(2, String::from("127.0.0.1"), 5432);
    let mut a = acquire_via_dial(&mut pool);
    let id_a = a.get_ref().expect("live handle");
    pool.return_connection(&mut a);
    match pool.get_connection() {
        AcquireAction::Reuse(h) => assert_eq!(h.get_ref().expect("live handle"), id_a),
        AcquireAction::Dial => panic!("dialed although an idle connection existed"),
        AcquireAction::Wait => panic!("waited although a permit was available"),
    }
}

#[test]
fn saturation_blocks_second_acquire() {
    let mut pool = ConnectionPool::new(1, String::from("127.0.0.1"), 5432);
    // Acquire A: succeeds immediately via a dial.
    let mut a = acquire_via_dial(&mut pool);
    let id_a = a.get_ref().expect("live handle");
    // Acquire B: does not complete while A is out.
    assert!(matches!(pool.get_connection(), AcquireAction::Wait));
    // Release A; B's retry now completes and receives A's connection.
    pool.return_connection(&mut a);
    match pool.get_connection() {
        AcquireAction::Reuse(h) => assert_eq!(h.get_ref().expect("live handle"), id_a),
        _ => panic!("expected to reuse the returned connection"),
    }
}

#[test]
fn three_sessions_two_connections() {
    let mut pool = ConnectionPool::new(2, String::from("127.0.0.1"), 5432);
    let mut dials: usize = 0;
    // Three client sessions arrive; the first two dial, the third waits.
    let mut a = match pool.get_connection() {
        AcquireAction::Dial => {
            dials += 1;
            pool.dial_succeeded()
        }
        _ => panic!("first session should dial"),
    };
    let _b = match pool.get_connection() {
        AcquireAction::Dial => {
            dials += 1;
            pool.dial_succeeded()
        }
        _ => panic!("second session should dial"),
    };
    assert!(matches!(pool.get_connection(), AcquireAction::Wait));
    // One of the first two sessions finishes; the third then completes
    // with a reused connection, so no further dial happens.
    pool.return_connection(&mut a);
    match pool.get_connection() {
        AcquireAction::Reuse(_) => {}
        _ => panic!("third session should reuse the returned connection"),
    }
    assert_eq!(dials, 2);
}

#[test]
fn idle_store_is_first_in_first_out() {
    let mut pool = ConnectionPool::new(2, String::from("127.0.0.1"), 5432);
    let mut a = acquire_via_dial(&mut pool);
    let mut b = acquire_via_dial(&mut pool);
    let id_a = a.get_ref().expect("live handle");
    let id_b = b.get_ref().expect("live handle");
    pool.return_connection(&mut a);
    pool.return_connection(&mut b);
    match pool.get_connection() {
        AcquireAction::Reuse(h) => assert_eq!(h.get_ref().expect("live handle"), id_a),
        _ => panic!("expected reuse of the oldest idle connection"),
    }
    match pool.get_connection() {
        AcquireAction::Reuse(h) => assert_eq!(h.get_ref().expect("live handle"), id_b),
        _ => panic!("expected reuse of the remaining idle connection"),
    }
}
