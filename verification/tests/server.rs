use rally::client::client_message;
use rally::data::DataError;
use rally::server::{
    dispatch, next_worker, worker_action, RequestBuffer, RequestStep, WorkerAction, RESPONSE,
    WORKER_COUNT,
};
use rally::transfer::ReadOutcome;

#[test]
fn connections_go_round_robin() {
    assert_eq!(WORKER_COUNT, 3);
    assert_eq!(next_worker(0), 1);
    assert_eq!(next_worker(1), 2);
    assert_eq!(next_worker(2), 0);
    let d = dispatch(2, true);
    assert_eq!(d.worker, 2);
    assert!(d.unpark);
    assert_eq!(d.next, 0);
    assert!(!dispatch(0, false).unpark);
}

#[test]
fn workers_spawn_park_or_poll() {
    assert_eq!(worker_action(true, true), WorkerAction::Spawn);
    assert_eq!(worker_action(true, false), WorkerAction::Spawn);
    assert_eq!(worker_action(false, true), WorkerAction::Park);
    assert_eq!(worker_action(false, false), WorkerAction::Poll);
}

#[test]
fn request_reader_reads_a_message() {
    let bytes = client_message().serialize().unwrap();
    let mut r = RequestBuffer::new();
    assert_eq!(r.on_read(ReadOutcome::WouldBlock), RequestStep::Wait);
    assert_eq!(r.on_read(ReadOutcome::Bytes(bytes[..4].to_vec())), RequestStep::Continue);
    assert_eq!(r.on_read(ReadOutcome::Failed), RequestStep::Continue);
    assert_eq!(r.on_read(ReadOutcome::Bytes(bytes[4..].to_vec())), RequestStep::Continue);
    assert_eq!(r.on_read(ReadOutcome::WouldBlock), RequestStep::Done);
    let d = r.into_message().unwrap();
    assert_eq!(d.field1, 42);
    assert_eq!(d.field3, "Hello from Rally!");
}

#[test]
fn request_reader_ends_at_end_of_stream() {
    let mut r = RequestBuffer::new();
    assert_eq!(r.on_read(ReadOutcome::Bytes(vec![1, 2])), RequestStep::Continue);
    assert_eq!(r.on_read(ReadOutcome::Bytes(Vec::new())), RequestStep::Done);
    assert_eq!(r.into_message().unwrap_err(), DataError::UnexpectedEof);
}

#[test]
fn server_answers_hello() {
    assert_eq!(RESPONSE, "Hello, client!");
    assert_eq!(RESPONSE.len(), 14);
}
