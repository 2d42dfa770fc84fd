//! The identity of a task as its wakers carry it: the task's id and the
//! channel on which waking it announces that id.
use std::sync::mpsc::Sender;
use vstd::prelude::*;

verus! {

/// `std::sync::mpsc::Sender`, carried through opaquely.
#[verifier::external_type_specification]
#[verifier::external_body]
#[verifier::reject_recursive_types(T)]
pub struct ExSender<T>(Sender<T>);

/// What a task's waker holds: waking sends `task_id` on `sender`.
pub struct TaskWaker {
    task_id: usize,
    sender: Sender<usize>,
}

impl TaskWaker {
    /// The id this waker announces.
    pub closed spec fn id(self) -> usize {
        self.task_id
    }

    /// The channel this waker announces on.
    pub closed spec fn channel(self) -> Sender<usize> {
        self.sender
    }

    /// A waker for the task `task_id` that announces on `sender`.
    pub fn new(task_id: usize, sender: Sender<usize>) -> (w: Self)
        ensures
            w.id() == task_id,
            w.channel() == sender,
    {
        TaskWaker { task_id, sender }
    }

    /// The id this waker announces.
    pub fn task_id(&self) -> (id: usize)
        ensures
            id == self.id(),
    {
        self.task_id
    }

    /// The channel this waker announces on.
    pub fn sender(&self) -> (s: &Sender<usize>)
        ensures
            *s == self.channel(),
    {
        &self.sender
    }
}

} // verus!
