use browser_pool::config::Config;
use browser_pool::error::SessionError;
use browser_pool::pool::{BrowserClientGuard, BrowserPool, Checkout, Manager, Reservation};
use browser_pool::slot::Policy;
use std::rc::Rc;

fn endpoint() -> String {
    String::from("http://localhost:4444")
}

fn expect_create<H>(step: Checkout<H>) -> Reservation {
    match step {
        Checkout::Create(reservation) => reservation,
        Checkout::Reuse(_) => panic!("an idle session was handed out"),
        Checkout::Wait => panic!("the acquisition waits"),
    }
}

fn expect_reuse<H>(step: Checkout<H>) -> BrowserClientGuard<H> {
    match step {
        Checkout::Reuse(guard) => guard,
        Checkout::Create(_) => panic!("a session is to be created"),
        Checkout::Wait => panic!("the acquisition waits"),
    }
}

fn expect_guard<H>(result: Result<BrowserClientGuard<H>, SessionError>) -> BrowserClientGuard<H> {
    match result {
        Ok(guard) => guard,
        Err(error) => panic!("no guard: {:?}", error),
    }
}

fn acquire(pool: &mut BrowserPool<u32>, session: u32) -> BrowserClientGuard<u32> {
    match pool.get() {
        Checkout::Reuse(guard) => guard,
        Checkout::Create(reservation) => expect_guard(pool.complete::<()>(reservation, Ok(session))),
        Checkout::Wait => panic!("the acquisition waits"),
    }
}

#[test]
fn new_pool_has_every_permit() {
    let pool: BrowserPool<u32> = BrowserPool::new(endpoint(), 3);
    assert_eq!(pool.permits(), 3);
    assert_eq!(pool.available_permits(), 3);
    assert_eq!(pool.checked_out(), 0);
    assert_eq!(pool.policy(), Policy::Ephemeral);
    assert_eq!(pool.url(), "http://localhost:4444");
}

#[test]
fn status_reflects_the_counters() {
    let mut pool: BrowserPool<u32> = BrowserPool::with_policy(endpoint(), 4, Policy::Persisted);
    let status = pool.status();
    assert_eq!(status.permits, 4);
    assert_eq!(status.available_permits, 4);
    let _guard = acquire(&mut pool, 1);
    let status = pool.status();
    assert_eq!(status.permits, 4);
    assert_eq!(status.available_permits, 3);
    assert_eq!(format!("{:?}", status), "BrowserPoolStatus { permits: 4, available_permits: 3 }");
}

#[test]
fn permits_add_up_after_every_step() {
    let mut pool: BrowserPool<u32> = BrowserPool::with_policy(endpoint(), 3, Policy::Persisted);
    let check = |pool: &BrowserPool<u32>| {
        assert_eq!(pool.available_permits() + pool.checked_out(), pool.permits());
        assert_eq!(pool.permits(), 3);
    };
    check(&pool);
    let first = acquire(&mut pool, 10);
    check(&pool);
    let second = acquire(&mut pool, 20);
    check(&pool);
    let reservation = expect_create(pool.get());
    check(&pool);
    assert!(matches!(pool.get(), Checkout::Wait));
    check(&pool);
    assert!(pool.complete(reservation, Err::<u32, ()>(())).is_err());
    check(&pool);
    assert!(pool.release(first).is_none());
    check(&pool);
    assert!(pool.release(second).is_none());
    check(&pool);
    assert_eq!(pool.available_permits(), 3);
}

#[test]
fn third_acquire_of_two_permits_waits_for_a_release() {
    let mut pool: BrowserPool<u32> = BrowserPool::new(endpoint(), 2);
    let first = acquire(&mut pool, 1);
    let second = acquire(&mut pool, 2);
    assert_eq!(pool.available_permits(), 0);
    assert!(matches!(pool.get(), Checkout::Wait));
    assert!(matches!(pool.get(), Checkout::Wait));
    assert_eq!(pool.available_permits(), 0);
    assert_eq!(pool.checked_out(), 2);
    assert_eq!(pool.release(first), Some(1));
    let third = acquire(&mut pool, 3);
    assert_eq!(*third.deref(), 3);
    assert!(matches!(pool.get(), Checkout::Wait));
    assert_eq!(pool.release(second), Some(2));
    assert_eq!(pool.release(third), Some(3));
    assert_eq!(pool.available_permits(), 2);
}

#[test]
fn release_lets_exactly_one_waiter_through() {
    let mut pool: BrowserPool<u32> = BrowserPool::with_policy(endpoint(), 1, Policy::Persisted);
    let guard = acquire(&mut pool, 5);
    assert!(matches!(pool.get(), Checkout::Wait));
    assert!(pool.release(guard).is_none());
    let again = expect_reuse(pool.get());
    assert!(matches!(pool.get(), Checkout::Wait));
    assert_eq!(*again.deref(), 5);
}

#[test]
fn ephemeral_cycle_creates_once_and_destroys_once() {
    let mut pool: BrowserPool<u32> = BrowserPool::new(endpoint(), 4);
    let mut created = 0;
    let mut destroyed: Vec<u32> = Vec::new();
    let reservation = expect_create(pool.get());
    assert!(!reservation.durable());
    created += 1;
    let guard = expect_guard(pool.complete::<()>(reservation, Ok(77)));
    assert_eq!(guard.slot(), None);
    assert_eq!(*guard.deref(), 77);
    assert_eq!(pool.available_permits(), 3);
    if let Some(session) = pool.release(guard) {
        destroyed.push(session);
    }
    assert_eq!(created, 1);
    assert_eq!(destroyed, vec![77]);
    assert_eq!(pool.available_permits(), 4);
    assert_eq!(pool.checked_out(), 0);
}

#[test]
fn ephemeral_pool_never_reuses() {
    let mut pool: BrowserPool<u32> = BrowserPool::new(endpoint(), 1);
    for session in 0..5 {
        let reservation = expect_create(pool.get());
        let guard = expect_guard(pool.complete::<()>(reservation, Ok(session)));
        assert_eq!(pool.release(guard), Some(session));
    }
}

#[test]
fn failed_creation_leaves_permits_unchanged() {
    for policy in [Policy::Ephemeral, Policy::Persisted] {
        let mut pool: BrowserPool<u32> = BrowserPool::with_policy(endpoint(), 2, policy);
        let before = pool.available_permits();
        let reservation = expect_create(pool.get());
        assert_eq!(pool.available_permits(), before - 1);
        let result = pool.complete(reservation, Err::<u32, &str>("endpoint unreachable"));
        assert_eq!(result.err(), Some(SessionError::SessionCreateFailed));
        assert_eq!(pool.available_permits(), before);
        assert_eq!(pool.checked_out(), 0);
        let reservation = expect_create(pool.get());
        assert_eq!(pool.available_permits(), before - 1);
        let guard = expect_guard(pool.complete::<()>(reservation, Ok(3)));
        assert_eq!(*guard.deref(), 3);
    }
}

#[test]
fn persisted_pool_of_one_reuses_the_same_instance() {
    let mut pool: BrowserPool<Rc<u32>> = BrowserPool::with_policy(endpoint(), 1, Policy::Persisted);
    let mut created = 0;
    let reservation = expect_create(pool.get());
    assert!(reservation.durable());
    created += 1;
    let session = Rc::new(41);
    let guard = expect_guard(pool.complete::<()>(reservation, Ok(session.clone())));
    assert_eq!(guard.slot(), Some(0));
    assert!(pool.release(guard).is_none());
    assert_eq!(pool.available_permits(), 1);
    let guard = match pool.get() {
        Checkout::Reuse(guard) => guard,
        Checkout::Create(_) => {
            created += 1;
            panic!("a second session is to be created")
        },
        Checkout::Wait => panic!("the acquisition waits"),
    };
    assert!(Rc::ptr_eq(guard.deref(), &session));
    assert_eq!(guard.slot(), Some(0));
    assert!(pool.release(guard).is_none());
    assert_eq!(created, 1);
    assert_eq!(pool.available_permits(), 1);
}

#[test]
fn persisted_pool_creates_once_per_slot() {
    let mut pool: BrowserPool<u32> = BrowserPool::with_policy(endpoint(), 2, Policy::Persisted);
    let first = acquire(&mut pool, 100);
    let second = acquire(&mut pool, 200);
    assert_eq!(first.slot(), Some(0));
    assert_eq!(second.slot(), Some(1));
    assert!(pool.release(second).is_none());
    assert!(pool.release(first).is_none());
    for _ in 0..3 {
        let a = expect_reuse(pool.get());
        let b = expect_reuse(pool.get());
        assert_eq!((a.slot(), *a.deref()), (Some(0), 100));
        assert_eq!((b.slot(), *b.deref()), (Some(1), 200));
        assert!(pool.release(b).is_none());
        assert!(pool.release(a).is_none());
    }
}

#[test]
fn slot_that_came_back_last_is_drawn_first() {
    let mut pool: BrowserPool<u32> = BrowserPool::with_policy(endpoint(), 3, Policy::Persisted);
    let a = acquire(&mut pool, 10);
    let b = acquire(&mut pool, 20);
    let c = acquire(&mut pool, 30);
    assert_eq!((a.slot(), b.slot(), c.slot()), (Some(0), Some(1), Some(2)));
    assert!(pool.release(b).is_none());
    assert!(pool.release(c).is_none());
    assert!(pool.release(a).is_none());
    let first = expect_reuse(pool.get());
    let second = expect_reuse(pool.get());
    let third = expect_reuse(pool.get());
    assert_eq!((first.slot(), *first.deref()), (Some(0), 10));
    assert_eq!((second.slot(), *second.deref()), (Some(2), 30));
    assert_eq!((third.slot(), *third.deref()), (Some(1), 20));
}

#[test]
fn slot_of_a_failed_creation_is_drawn_again() {
    let mut pool: BrowserPool<u32> = BrowserPool::with_policy(endpoint(), 2, Policy::Persisted);
    let pending = expect_create(pool.get());
    let second = acquire(&mut pool, 9);
    assert_eq!(second.slot(), Some(1));
    assert!(pool.release(second).is_none());
    assert!(pool.complete(pending, Err::<u32, ()>(())).is_err());
    assert_eq!(pool.available_permits(), 2);
    let reservation = expect_create(pool.get());
    let created = expect_guard(pool.complete::<()>(reservation, Ok(8)));
    assert_eq!(created.slot(), Some(0));
    let reused = expect_reuse(pool.get());
    assert_eq!((reused.slot(), *reused.deref()), (Some(1), 9));
    assert!(matches!(pool.get(), Checkout::Wait));
}

#[test]
fn failed_use_still_restores_the_permit() {
    for policy in [Policy::Ephemeral, Policy::Persisted] {
        let mut pool: BrowserPool<u32> = BrowserPool::with_policy(endpoint(), 2, policy);
        let before = pool.available_permits();
        let guard = acquire(&mut pool, 6);
        assert_eq!(pool.available_permits(), before - 1);
        let (result, discarded) = pool.finish(guard, Err::<Vec<u8>, &str>("navigation failed"));
        assert_eq!(result, Err(SessionError::SessionUseFailed));
        assert_eq!(pool.available_permits(), before);
        match policy {
            Policy::Ephemeral => assert_eq!(discarded, Some(6)),
            Policy::Persisted => assert_eq!(discarded, None),
        }
    }
}

#[test]
fn finished_work_hands_on_its_value() {
    let mut pool: BrowserPool<u32> = BrowserPool::new(endpoint(), 1);
    let guard = acquire(&mut pool, 6);
    let (result, discarded) = pool.finish(guard, Ok::<Vec<u8>, ()>(vec![137, 80, 78, 71]));
    assert_eq!(result, Ok(vec![137, 80, 78, 71]));
    assert_eq!(discarded, Some(6));
    assert_eq!(pool.available_permits(), 1);
}

#[test]
fn dead_session_is_stored_as_it_is() {
    let mut pool: BrowserPool<String> = BrowserPool::with_policy(endpoint(), 1, Policy::Persisted);
    let reservation = expect_create(pool.get());
    let mut guard = expect_guard(pool.complete::<()>(reservation, Ok(String::from("live"))));
    guard.deref_mut().push_str(", then dead");
    let (result, discarded) = pool.finish(guard, Err::<(), ()>(()));
    assert_eq!(result, Err(SessionError::SessionUseFailed));
    assert!(discarded.is_none());
    let guard = expect_reuse(pool.get());
    assert_eq!(guard.deref().as_str(), "live, then dead");
}

#[test]
fn guard_of_another_pool_changes_nothing() {
    let mut one: BrowserPool<u32> = BrowserPool::with_policy(endpoint(), 2, Policy::Persisted);
    let mut other: BrowserPool<u32> = BrowserPool::with_policy(endpoint(), 2, Policy::Persisted);
    let guard = acquire(&mut other, 12);
    assert_eq!(one.release(guard), Some(12));
    assert_eq!(one.available_permits(), 2);
    assert_eq!(one.checked_out(), 0);
    let mut plain: BrowserPool<u32> = BrowserPool::new(endpoint(), 2);
    let guard = acquire(&mut plain, 13);
    let held = acquire(&mut one, 14);
    assert_eq!(one.release(guard), Some(13));
    assert_eq!(one.available_permits(), 1);
    assert!(one.release(held).is_none());
    assert_eq!(one.available_permits(), 2);
}

#[test]
fn release_into_ephemeral_pool_without_permit_out() {
    let mut one: BrowserPool<u32> = BrowserPool::new(endpoint(), 1);
    let mut other: BrowserPool<u32> = BrowserPool::new(endpoint(), 1);
    let guard = acquire(&mut other, 1);
    assert_eq!(one.release(guard), Some(1));
    assert_eq!(one.available_permits(), 1);
    assert_eq!(one.checked_out(), 0);
}

#[test]
fn shutdown_waits_for_outstanding_guards() {
    let mut pool: BrowserPool<u32> = BrowserPool::with_policy(endpoint(), 3, Policy::Persisted);
    let a = acquire(&mut pool, 1);
    let b = acquire(&mut pool, 2);
    let c = acquire(&mut pool, 3);
    assert!(pool.release(c).is_none());
    assert!(pool.release(a).is_none());
    let mut pool = match pool.shutdown() {
        Ok(_) => panic!("the pool shut down with a guard out"),
        Err(pool) => pool,
    };
    assert_eq!(pool.available_permits(), 2);
    assert_eq!(pool.checked_out(), 1);
    assert!(pool.release(b).is_none());
    match pool.shutdown() {
        Ok(sessions) => assert_eq!(sessions, vec![1, 2, 3]),
        Err(_) => panic!("the pool did not shut down"),
    }
}

#[test]
fn shutdown_of_pool_without_idle_sessions() {
    let pool: BrowserPool<u32> = BrowserPool::with_policy(endpoint(), 3, Policy::Persisted);
    assert_eq!(pool.shutdown().ok(), Some(vec![]));
    let mut pool: BrowserPool<u32> = BrowserPool::new(endpoint(), 2);
    let guard = acquire(&mut pool, 4);
    assert_eq!(pool.release(guard), Some(4));
    assert_eq!(pool.shutdown().ok(), Some(vec![]));
}

#[test]
fn pool_from_config() {
    let config = Config {
        webdriver_url: endpoint(),
        pool_keep_alive: true,
        pool_size: Some(2),
    };
    assert_eq!(config.capacity(), 2);
    assert_eq!(config.policy(), Policy::Persisted);
    let pool: BrowserPool<u32> = BrowserPool::from_config(&config).expect("a pool");
    assert_eq!(pool.permits(), 2);
    assert_eq!(pool.available_permits(), 2);
    assert_eq!(pool.policy(), Policy::Persisted);
    assert_eq!(pool.url(), "http://localhost:4444");
}

#[test]
fn config_defaults() {
    let config = Config { webdriver_url: endpoint(), pool_keep_alive: false, pool_size: None };
    assert_eq!(config.capacity(), 4);
    assert_eq!(config.policy(), Policy::Ephemeral);
    let pool: BrowserPool<u32> = BrowserPool::from_config(&config).expect("a pool");
    assert_eq!(pool.permits(), 4);
    assert_eq!(pool.policy(), Policy::Ephemeral);
}

#[test]
fn config_without_capacity_gives_no_pool() {
    let config = Config { webdriver_url: endpoint(), pool_keep_alive: false, pool_size: Some(0) };
    assert!(BrowserPool::<u32>::from_config(&config).is_none());
    let config = Config {
        webdriver_url: endpoint(),
        pool_keep_alive: false,
        pool_size: Some(usize::MAX / 8 + 1),
    };
    assert!(BrowserPool::<u32>::from_config(&config).is_none());
    let config = Config {
        webdriver_url: endpoint(),
        pool_keep_alive: false,
        pool_size: Some(usize::MAX / 8),
    };
    let pool = BrowserPool::<u32>::from_config(&config).expect("a pool");
    assert_eq!(pool.available_permits(), usize::MAX / 8);
}
