use fp_bindgen::errors::InvocationError;
use fp_bindgen::pending::PendingCalls;

#[test]
fn new_table_is_empty() {
    let pending: PendingCalls<&str> = PendingCalls::new();
    assert_eq!(pending.len(), 0);
    assert!(!pending.is_pending(7));
}

#[test]
fn registered_call_is_pending_until_resolved() {
    let mut pending = PendingCalls::new();
    assert_eq!(pending.register(7, "caller"), Ok(()));
    assert!(pending.is_pending(7));
    assert_eq!(pending.len(), 1);
    assert_eq!(pending.resolve(7), Ok("caller"));
    assert!(!pending.is_pending(7));
    assert_eq!(pending.len(), 0);
}

#[test]
fn resolving_twice_is_rejected() {
    let mut pending = PendingCalls::new();
    assert_eq!(pending.register(7, "caller"), Ok(()));
    assert_eq!(pending.resolve(7), Ok("caller"));
    assert_eq!(pending.resolve(7), Err(InvocationError::UnknownHandle));
    assert_eq!(pending.len(), 0);
}

#[test]
fn resolving_an_unknown_handle_is_rejected() {
    let mut pending = PendingCalls::new();
    assert_eq!(pending.register(7, "caller"), Ok(()));
    assert_eq!(pending.resolve(8), Err(InvocationError::UnknownHandle));
    assert!(pending.is_pending(7));
    assert_eq!(pending.len(), 1);
}

#[test]
fn pending_handle_is_not_registered_again() {
    let mut pending = PendingCalls::new();
    assert_eq!(pending.register(7, "first"), Ok(()));
    assert_eq!(pending.register(7, "second"), Err("second"));
    assert_eq!(pending.len(), 1);
    assert_eq!(pending.resolve(7), Ok("first"));
}

#[test]
fn handle_can_be_used_again_after_it_was_resolved() {
    let mut pending = PendingCalls::new();
    assert_eq!(pending.register(7, "first"), Ok(()));
    assert_eq!(pending.resolve(7), Ok("first"));
    assert_eq!(pending.register(7, "second"), Ok(()));
    assert_eq!(pending.resolve(7), Ok("second"));
}

#[test]
fn calls_resolved_in_reverse_order_reach_their_callers() {
    let mut pending = PendingCalls::new();
    let n: u64 = 16;
    for caller in 0..n {
        assert_eq!(pending.register(0x1000 + caller, caller), Ok(()));
    }
    assert_eq!(pending.len(), 16);
    let mut woken: Vec<u64> = Vec::new();
    for caller in (0..n).rev() {
        let waiter = pending.resolve(0x1000 + caller);
        assert_eq!(waiter, Ok(caller));
        woken.push(caller);
    }
    woken.sort();
    assert_eq!(woken, (0..n).collect::<Vec<u64>>());
    assert_eq!(pending.len(), 0);
    for caller in 0..n {
        assert_eq!(pending.resolve(0x1000 + caller), Err(InvocationError::UnknownHandle));
    }
}

#[test]
fn waiter_observes_the_payload_of_its_own_call() {
    let (sender, receiver) = std::sync::mpsc::channel::<Vec<u8>>();
    let (other_sender, other_receiver) = std::sync::mpsc::channel::<Vec<u8>>();
    let mut pending = PendingCalls::new();
    assert!(pending.register(41, other_sender).is_ok());
    assert!(pending.register(42, sender).is_ok());
    let payload = vec![0x93, 0x01, 0x02, 0x03];
    match pending.resolve(42) {
        Ok(waiter) => waiter.send(payload.clone()).unwrap(),
        Err(e) => panic!("{:?}", e),
    }
    assert_eq!(receiver.try_recv(), Ok(payload));
    assert!(other_receiver.try_recv().is_err());
    assert!(pending.is_pending(41));
}
