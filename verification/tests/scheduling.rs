use rally::executor::{PollOutcome, TaskTable};
use rally::idmap::IdMap;
use rally::waker::TaskWaker;
use std::sync::mpsc;

#[test]
fn spawned_tasks_get_increasing_ids() {
    let mut t: TaskTable<&str> = TaskTable::new();
    assert!(t.is_empty());
    assert_eq!(t.spawn("a"), 0);
    assert_eq!(t.spawn("b"), 1);
    assert_eq!(t.len(), 2);
    assert!(t.contains(0) && t.contains(1));
}

#[test]
fn pending_task_goes_back_finished_task_leaves() {
    let mut t: TaskTable<&str> = TaskTable::new();
    let a = t.spawn("a");
    let b = t.spawn("b");
    let task = t.take(a).unwrap();
    assert_eq!(task, "a");
    assert!(!t.contains(a));
    t.settle(a, task, PollOutcome::Pending);
    assert!(t.contains(a));
    let task = t.take(b).unwrap();
    t.settle(b, task, PollOutcome::Ready);
    assert!(!t.contains(b));
    assert_eq!(t.len(), 1);
}

#[test]
fn waking_a_finished_task_does_nothing() {
    let mut t: TaskTable<u8> = TaskTable::new();
    let a = t.spawn(1);
    let task = t.take(a).unwrap();
    t.settle(a, task, PollOutcome::Ready);
    assert_eq!(t.take(a), None);
    assert_eq!(t.take(99), None);
    assert!(t.is_empty());
    assert_eq!(t.spawn(2), 1);
}

#[test]
fn task_waker_carries_its_id() {
    let (tx, rx) = mpsc::channel();
    let w = TaskWaker::new(3, tx);
    assert_eq!(w.task_id(), 3);
    w.sender().send(w.task_id()).unwrap();
    assert_eq!(rx.recv().unwrap(), 3);
}

#[test]
fn id_map_insert_get_remove() {
    let mut m: IdMap<&str> = IdMap::new();
    assert_eq!(m.insert(5, "x"), None);
    assert_eq!(m.insert(5, "y"), Some("x"));
    assert_eq!(m.get(5), Some(&"y"));
    assert_eq!(m.remove(5), Some("y"));
    assert_eq!(m.get(5), None);
    assert!(m.is_empty());
}

#[test]
fn id_map_drain_hands_out_every_entry_once() {
    let mut m: IdMap<u32> = IdMap::new();
    for i in 0..10usize {
        m.insert(i * 3, i as u32);
    }
    let mut out = m.drain();
    out.sort();
    assert_eq!(out.len(), 10);
    for (i, (k, v)) in out.iter().enumerate() {
        assert_eq!(*k, i * 3);
        assert_eq!(*v, i as u32);
    }
    assert!(m.is_empty());
    let mut ids = IdMap::<u8>::new();
    ids.insert(4, 0);
    assert_eq!(ids.ids(), vec![4]);
}

#[test]
fn polling_every_task_to_completion_empties_the_table() {
    let mut t: TaskTable<u8> = TaskTable::new();
    let a = t.spawn(1);
    let b = t.spawn(2);
    let task = t.take(b).unwrap();
    t.settle(b, task, PollOutcome::Pending);
    for id in [a, b] {
        let task = t.take(id).unwrap();
        t.settle(id, task, PollOutcome::Ready);
    }
    assert!(t.is_empty());
    assert_eq!(t.take(a), None);
}
