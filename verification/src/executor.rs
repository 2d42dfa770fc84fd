//! The bookkeeping of a single-threaded executor: which tasks are alive,
//! under which ids, and what happens to a task once it has been polled.
//! Polling the futures and carrying ids on the wake-up channel is the
//! caller's part; every decision about the table is made here.
use crate::idmap::IdMap;
use vstd::prelude::*;

verus! {

/// What polling a task gave.
#[derive(Debug, Clone, Copy, PartialEq, Eq, Structural)]
pub enum PollOutcome {
    /// The task has finished and leaves the table.
    Ready,
    /// The task waits for a wake-up and goes back into the table.
    Pending,
}

/// The live tasks of an executor, each under the id it was spawned with.
pub struct TaskTable<T> {
    tasks: IdMap<T>,
    next_task_id: usize,
}

/// Every id in `tasks` was handed out before `next`.
pub open spec fn ids_below<T>(tasks: Map<usize, T>, next: int) -> bool {
    forall|id: usize| #[trigger] tasks.contains_key(id) ==> id < next
}

impl<T> TaskTable<T> {
    #[verifier::type_invariant]
    spec fn inv(self) -> bool {
        ids_below(self.tasks@, self.next_task_id as int)
    }

    /// The live tasks by id.
    pub closed spec fn tasks(self) -> Map<usize, T> {
        self.tasks@
    }

    /// The id the next spawned task gets.
    pub closed spec fn next_id(self) -> int {
        self.next_task_id as int
    }

    /// An empty table; the first task gets id 0.
    pub fn new() -> (t: Self)
        ensures
            t.tasks() == Map::<usize, T>::empty(),
            t.next_id() == 0,
    {
        TaskTable { tasks: IdMap::new(), next_task_id: 0 }
    }

    /// Moves the table out, leaving an empty one in its place.
    fn take_tasks(&mut self) -> (tasks: IdMap<T>)
        ensures
            tasks@ == old(self).tasks(),
            final(self).tasks() == Map::<usize, T>::empty(),
            final(self).next_id() == old(self).next_id(),
    {
        let mut tasks = IdMap::new();
        std::mem::swap(&mut tasks, &mut self.tasks);
        tasks
    }

    /// Adds `task` under a fresh id and returns that id.
    pub fn spawn(&mut self, task: T) -> (id: usize)
        requires
            old(self).next_id() < usize::MAX,
        ensures
            id == old(self).next_id(),
            !old(self).tasks().contains_key(id),
            final(self).tasks() == old(self).tasks().insert(id, task),
            final(self).next_id() == old(self).next_id() + 1,
    {
        proof {
            use_type_invariant(&*self);
        }
        let id = self.next_task_id;
        let mut tasks = self.take_tasks();
        tasks.insert(id, task);
        self.next_task_id = id + 1;
        self.tasks = tasks;
        id
    }

    /// Takes the task with `id` out of the table to poll it. An id whose
    /// task has already finished gives `None` and changes nothing.
    pub fn take(&mut self, id: usize) -> (r: Option<T>)
        ensures
            final(self).tasks() == old(self).tasks().remove(id),
            final(self).next_id() == old(self).next_id(),
            match r {
                Some(task) => old(self).tasks().contains_key(id) && old(self).tasks()[id] == task
                    && id < old(self).next_id(),
                None => !old(self).tasks().contains_key(id) && final(self).tasks() == old(
                    self,
                ).tasks(),
            },
    {
        proof {
            use_type_invariant(&*self);
        }
        let mut tasks = self.take_tasks();
        let r = tasks.remove(id);
        self.tasks = tasks;
        proof {
            if r is None {
                assert(self.tasks@ =~= old(self).tasks@);
            }
        }
        r
    }

    /// Settles a task that was taken out and polled: a pending task goes
    /// back under its id, a finished one is dropped.
    pub fn settle(&mut self, id: usize, task: T, outcome: PollOutcome)
        requires
            id < old(self).next_id(),
        ensures
            final(self).next_id() == old(self).next_id(),
            outcome == PollOutcome::Pending ==> final(self).tasks() == old(self).tasks().insert(
                id,
                task,
            ),
            outcome == PollOutcome::Ready ==> final(self).tasks() == old(self).tasks(),
    {
        proof {
            use_type_invariant(&*self);
        }
        match outcome {
            PollOutcome::Pending => {
                let mut tasks = self.take_tasks();
                tasks.insert(id, task);
                self.tasks = tasks;
            },
            PollOutcome::Ready => {},
        }
    }

    /// The id the next spawned task gets.
    pub fn upcoming_id(&self) -> (id: usize)
        ensures
            id == self.next_id(),
    {
        self.next_task_id
    }

    /// Whether no task is alive.
    pub fn is_empty(&self) -> (b: bool)
        ensures
            b == (self.tasks() == Map::<usize, T>::empty()),
    {
        self.tasks.is_empty()
    }

    /// Number of live tasks.
    pub fn len(&self) -> (n: usize)
        ensures
            n == self.tasks().len(),
    {
        self.tasks.len()
    }

    /// Whether the task with `id` is alive.
    pub fn contains(&self, id: usize) -> (b: bool)
        ensures
            b == self.tasks().contains_key(id),
    {
        self.tasks.contains(id)
    }
}

/// A freshly spawned task never takes the id of a live task, and afterwards
/// every live id is still one that was handed out.
pub proof fn law_spawned_id_is_fresh<T>(tasks: Map<usize, T>, next: usize, task: T)
    requires
        ids_below(tasks, next as int),
    ensures
        !tasks.contains_key(next),
        ids_below(tasks.insert(next, task), next + 1),
{
}

/// Taking a task out and settling it as pending gives back the table it
/// was taken from.
pub proof fn law_pending_task_returns<T>(tasks: Map<usize, T>, id: usize)
    requires
        tasks.contains_key(id),
    ensures
        tasks.remove(id).insert(id, tasks[id]) == tasks,
{
    assert(tasks.remove(id).insert(id, tasks[id]) =~= tasks);
}

/// Taking a task out and settling it as finished leaves every other task
/// where it was and the finished one gone.
pub proof fn law_finished_task_leaves<T>(tasks: Map<usize, T>, id: usize)
    ensures
        !tasks.remove(id).contains_key(id),
        forall|other: usize|
            other != id && #[trigger] tasks.contains_key(other) ==> tasks.remove(id).contains_key(
                other,
            ) && tasks.remove(id)[other] == tasks[other],
{
}

/// One step of an executor's life: a task is spawned, or the task with an
/// id is taken out, polled with the given outcome and settled.
pub enum TaskEvent<T> {
    Spawn(T),
    Poll(usize, PollOutcome),
}

/// The live tasks and the next id after one step, as [`TaskTable::spawn`],
/// [`TaskTable::take`] and [`TaskTable::settle`] state them. A poll of an
/// id with no live task finds nothing and changes nothing; a pending task
/// goes back as it was.
pub open spec fn task_step<T>(state: (Map<usize, T>, int), event: TaskEvent<T>) -> (
    Map<usize, T>,
    int,
) {
    match event {
        TaskEvent::Spawn(task) => (state.0.insert(state.1 as usize, task), state.1 + 1),
        TaskEvent::Poll(id, outcome) => if state.0.contains_key(id) {
            match outcome {
                PollOutcome::Pending => (state.0.remove(id).insert(id, state.0[id]), state.1),
                PollOutcome::Ready => (state.0.remove(id), state.1),
            }
        } else {
            state
        },
    }
}

/// The live tasks and the next id after a run of steps.
pub open spec fn task_run<T>(state: (Map<usize, T>, int), events: Seq<TaskEvent<T>>) -> (
    Map<usize, T>,
    int,
)
    decreases events.len(),
{
    if events.len() == 0 {
        state
    } else {
        task_run(task_step(state, events[0]), events.drop_first())
    }
}

/// A task that a poll finished is gone, and from then on no step of the
/// executor brings it back: every later poll of its id finds nothing, since
/// spawned tasks always get ids that were never handed out before.
pub proof fn law_finished_task_never_returns<T>(
    state: (Map<usize, T>, int),
    id: usize,
    events: Seq<TaskEvent<T>>,
)
    requires
        0 <= id < state.1,
        state.1 + events.len() <= usize::MAX,
        !state.0.contains_key(id) || events.len() > 0 && events[0] == TaskEvent::<T>::Poll(
            id,
            PollOutcome::Ready,
        ),
    ensures
        !task_run(state, events).0.contains_key(id),
    decreases events.len(),
{
    if events.len() > 0 {
        let next = task_step(state, events[0]);
        assert(!next.0.contains_key(id));
        assert(next.1 >= state.1);
        assert(next.1 <= state.1 + 1);
        law_finished_task_never_returns(next, id, events.drop_first());
    }
}

/// No event of the run spawns a task.
pub open spec fn polls_only<T>(events: Seq<TaskEvent<T>>) -> bool {
    forall|i: int| 0 <= i < events.len() ==> #[trigger] events[i] is Poll
}

/// Some event of the run polls task `id` to completion.
pub open spec fn finishes<T>(events: Seq<TaskEvent<T>>, id: usize) -> bool {
    exists|i: int|
        0 <= i < events.len() && #[trigger] events[i] == TaskEvent::<T>::Poll(id, PollOutcome::Ready)
}

/// A run that only polls never adds a task and never moves the next id.
proof fn lemma_polls_only_remove<T>(state: (Map<usize, T>, int), events: Seq<TaskEvent<T>>)
    requires
        polls_only(events),
    ensures
        forall|id: usize|
            #[trigger] task_run(state, events).0.contains_key(id) ==> state.0.contains_key(id),
        task_run(state, events).1 == state.1,
    decreases events.len(),
{
    if events.len() > 0 {
        assert(events[0] is Poll);
        let tail = events.drop_first();
        assert forall|i: int| 0 <= i < tail.len() implies #[trigger] tail[i] is Poll by {
            assert(tail[i] == events[i + 1]);
        }
        lemma_polls_only_remove(task_step(state, events[0]), tail);
    }
}

/// In a run that only polls, a task that some poll finishes is gone at the
/// end of the run.
proof fn lemma_finished_is_gone<T>(state: (Map<usize, T>, int), events: Seq<TaskEvent<T>>, id: usize)
    requires
        polls_only(events),
        finishes(events, id),
    ensures
        !task_run(state, events).0.contains_key(id),
    decreases events.len(),
{
    let tail = events.drop_first();
    assert forall|i: int| 0 <= i < tail.len() implies #[trigger] tail[i] is Poll by {
        assert(tail[i] == events[i + 1]);
    }
    let next = task_step(state, events[0]);
    if events[0] == TaskEvent::<T>::Poll(id, PollOutcome::Ready) {
        assert(!next.0.contains_key(id));
        lemma_polls_only_remove(next, tail);
    } else {
        let i = choose|i: int|
            0 <= i < events.len() && #[trigger] events[i] == TaskEvent::<T>::Poll(
                id,
                PollOutcome::Ready,
            );
        assert(i > 0);
        assert(tail[i - 1] == events[i]);
        lemma_finished_is_gone(next, tail, id);
    }
}

/// When, after the last spawn, every live task is at some point polled to
/// completion, the executor ends with no task left: the condition on which
/// its run loop stops.
pub proof fn law_run_ends_with_no_task<T>(state: (Map<usize, T>, int), events: Seq<TaskEvent<T>>)
    requires
        polls_only(events),
        forall|id: usize| #[trigger] state.0.contains_key(id) ==> finishes(events, id),
    ensures
        task_run(state, events).0 == Map::<usize, T>::empty(),
        task_run(state, events).1 == state.1,
{
    lemma_polls_only_remove(state, events);
    let end = task_run(state, events).0;
    assert forall|id: usize| !#[trigger] end.contains_key(id) by {
        if state.0.contains_key(id) {
            lemma_finished_is_gone(state, events, id);
        }
    }
    assert(end.dom() =~= Set::<usize>::empty());
    assert(end =~= Map::<usize, T>::empty());
}

} // verus!
