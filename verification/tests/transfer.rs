use rally::transfer::{ReadOutcome, ReceiveBuffer, ReceiveStep, SendBuffer, SendStep, WriteOutcome};

#[test]
fn receiver_collects_chunks_until_end_of_stream() {
    let mut r = ReceiveBuffer::new();
    assert_eq!(r.on_read(ReadOutcome::Bytes(b"Hello, ".to_vec())), ReceiveStep::Continue);
    assert_eq!(r.on_read(ReadOutcome::Bytes(b"client!".to_vec())), ReceiveStep::Continue);
    assert_eq!(r.on_read(ReadOutcome::Bytes(Vec::new())), ReceiveStep::Complete);
    assert_eq!(r.contents(), b"Hello, client!".to_vec());
    assert_eq!(r.len(), 14);
}

#[test]
fn receiver_waits_until_something_arrives() {
    let mut r = ReceiveBuffer::new();
    assert_eq!(r.on_read(ReadOutcome::WouldBlock), ReceiveStep::Pending);
    assert_eq!(r.on_read(ReadOutcome::Bytes(vec![1])), ReceiveStep::Continue);
    assert_eq!(r.on_read(ReadOutcome::WouldBlock), ReceiveStep::Complete);
    assert_eq!(r.on_read(ReadOutcome::Failed), ReceiveStep::Failed);
    assert_eq!(r.contents(), vec![1]);
}

#[test]
fn sender_writes_the_rest_until_done() {
    let mut s = SendBuffer::new(vec![1, 2, 3, 4, 5]);
    assert!(!s.is_complete());
    assert_eq!(s.unwritten(), &[1, 2, 3, 4, 5]);
    assert_eq!(s.on_write(WriteOutcome::Wrote(2)), SendStep::Continue);
    assert_eq!(s.unwritten(), &[3, 4, 5]);
    assert_eq!(s.on_write(WriteOutcome::WouldBlock), SendStep::Pending);
    assert_eq!(s.written(), 2);
    assert_eq!(s.on_write(WriteOutcome::Wrote(3)), SendStep::Continue);
    assert!(s.is_complete());
    assert_eq!(s.unwritten(), &[] as &[u8]);
}

#[test]
fn sender_fails_on_zero_write_or_error() {
    let mut s = SendBuffer::new(vec![1]);
    assert_eq!(s.on_write(WriteOutcome::Wrote(0)), SendStep::WriteZero);
    assert_eq!(s.on_write(WriteOutcome::Failed), SendStep::Failed);
    assert_eq!(s.written(), 0);
    assert!(SendBuffer::new(Vec::new()).is_complete());
}
