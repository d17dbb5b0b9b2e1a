//! A very simple cooperative scheduler: a table of at most eight tasks, run
//! in the order they were registered.
use vstd::prelude::*;

verus! {

/// Number of task slots.
pub const MAX_TASKS: usize = 8;

/// The task table. `T` is whatever the caller runs as a task (a function
/// pointer on the board).
pub struct Scheduler<T> {
    tasks: Vec<T>,
}

impl<T> View for Scheduler<T> {
    type V = Seq<T>;

    closed spec fn view(&self) -> Seq<T> {
        self.tasks@
    }
}

impl<T: Copy> Scheduler<T> {
    /// The table holds no more than `MAX_TASKS` tasks.
    pub closed spec fn wf(&self) -> bool {
        self.tasks@.len() <= MAX_TASKS
    }

    /// An empty table.
    pub fn new() -> (s: Self)
        ensures
            s.wf(),
            s@ == Seq::<T>::empty(),
    {
        Scheduler { tasks: Vec::new() }
    }

    /// Number of registered tasks.
    pub fn task_count(&self) -> (n: usize)
        requires
            self.wf(),
        ensures
            n == self@.len(),
            n <= MAX_TASKS,
    {
        self.tasks.len()
    }

    /// Registers `task` after the others; a full table is left unchanged.
    pub fn add_task(&mut self, task: T)
        requires
            old(self).wf(),
        ensures
            final(self).wf(),
            final(self)@ == (if old(self)@.len() < MAX_TASKS {
                old(self)@.push(task)
            } else {
                old(self)@
            }),
    {
        if self.tasks.len() < MAX_TASKS {
            self.tasks.push(task);
        }
    }

    /// The tasks one round runs, in registration order.
    pub fn run_tasks(&self) -> (round: &[T])
        requires
            self.wf(),
        ensures
            round@ == self@,
    {
        self.tasks.as_slice()
    }
}

/// Registering tasks one after the other keeps the first `MAX_TASKS` of
/// them, in order.
pub open spec fn registered<T>(tasks: Seq<T>) -> Seq<T> {
    if tasks.len() <= MAX_TASKS {
        tasks
    } else {
        tasks.subrange(0, MAX_TASKS as int)
    }
}

/// One more registration extends the kept prefix by the new task while
/// there is room, and changes nothing after that.
pub proof fn lemma_registered_push<T>(tasks: Seq<T>, task: T)
    ensures
        registered(tasks.push(task)) == (if registered(tasks).len() < MAX_TASKS {
            registered(tasks).push(task)
        } else {
            registered(tasks)
        }),
        registered(tasks).len() <= MAX_TASKS,
{
    if tasks.len() < MAX_TASKS {
        assert(registered(tasks.push(task)) == tasks.push(task));
    } else {
        assert(tasks.push(task).subrange(0, MAX_TASKS as int) =~= registered(tasks));
    }
}

/// The table keeps the first eight tasks registered, each at its
/// registration position.
pub proof fn lemma_registered_first_eight<T>(tasks: Seq<T>)
    ensures
        registered(tasks).len() == (if tasks.len() <= 8 { tasks.len() } else { 8 }),
        forall|i: int| 0 <= i < registered(tasks).len() ==> #[trigger] registered(tasks)[i] == tasks[i],
{
}

} // verus!
