use rally::reactor::{allocation_result, AllocateError, ReactorState, FIRST_TOKEN, WAKER_TOKEN};

#[test]
fn tokens_start_after_the_waker_token() {
    let mut r: ReactorState<&str, u32> = ReactorState::new();
    assert_eq!(WAKER_TOKEN, 1024);
    assert_eq!(r.next_token(), FIRST_TOKEN);
    assert_eq!(r.next_token(), 1026);
}

#[test]
fn register_then_deregister_gives_the_source_back() {
    let mut r: ReactorState<&str, u32> = ReactorState::new();
    let t = r.next_token();
    r.register(t, "waker", 7);
    assert!(r.is_registered(t));
    assert_eq!(r.waker_for_event(t), Some(&"waker"));
    assert_eq!(r.deregister(t), Some(7));
    assert!(!r.is_registered(t));
    assert_eq!(r.waker_for_event(t), None);
    assert_eq!(r.deregister(t), None);
}

#[test]
fn waker_token_events_wake_nothing() {
    let mut r: ReactorState<&str, u32> = ReactorState::new();
    r.register(WAKER_TOKEN, "w", 1);
    assert_eq!(r.waker_for_event(WAKER_TOKEN), None);
}

#[test]
fn shutdown_hands_back_every_source() {
    let mut r: ReactorState<&str, u32> = ReactorState::new();
    r.register(1025, "a", 1);
    r.register(1026, "b", 2);
    let mut out = r.shutdown();
    out.sort();
    assert_eq!(out, vec![(1025, 1), (1026, 2)]);
    assert!(!r.is_registered(1025));
    assert_eq!(r.waker_for_event(1026), None);
}

#[test]
fn allocation_outcomes() {
    assert_eq!(allocation_result(true, true, Some(1030)), Ok(1030));
    assert_eq!(allocation_result(false, true, Some(1)), Err(AllocateError::SendFailed));
    assert_eq!(allocation_result(true, false, Some(1)), Err(AllocateError::WakeFailed));
    assert_eq!(allocation_result(true, true, None), Err(AllocateError::Timeout));
    assert_eq!(AllocateError::Timeout.message(), "Timeout waiting for token allocation");
    assert_eq!(AllocateError::SendFailed.message(), "Failed to send token allocation request");
    assert_eq!(AllocateError::WakeFailed.message(), "Failed to wake reactor");
}
