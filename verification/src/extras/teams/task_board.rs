//! Task board for teams: add, complete, claim and list tasks with dependency tracking.
//!
//! A task is `Blocked` while one of its dependencies is on the board and not yet
//! `Done`. Ids are handed out consecutively, so the board keeps its tasks in a
//! vector ordered by id, and the task with id `k` sits at position
//! `k - first_id`.

use vstd::prelude::*;

use crate::text::{dec_text, decimal, push_decimal};

verus! {

/// Summary of task counts by status on a board.
#[derive(Debug, Clone, Copy, Default)]
pub struct TaskBoardSummary {
    pub total: usize,
    pub done: usize,
    pub pending: usize,
    pub blocked: usize,
    pub in_progress: usize,
}

/// Unique task identifier within a team.
#[derive(Debug, Clone, Copy, PartialEq, Eq, Hash, Structural)]
pub struct TaskId(pub u32);

impl TaskId {
    /// The decimal text of the id.
    pub fn to_string(&self) -> (r: String)
        ensures
            r@ == dec_text(self.0 as nat),
    {
        decimal(self.0 as u64)
    }
}

/// Priority level for a task.
#[derive(Debug, Clone, Copy, PartialEq, Eq, Structural)]
pub enum Priority {
    High,
    Medium,
    Low,
}

impl Priority {
    /// The lower-case name of the priority.
    pub open spec fn text(self) -> Seq<char> {
        match self {
            Priority::High => "high"@,
            Priority::Medium => "medium"@,
            Priority::Low => "low"@,
        }
    }

    /// The lower-case name of the priority.
    pub fn to_string(&self) -> (r: String)
        ensures
            r@ == self.text(),
    {
        match self {
            Priority::High => String::from_str("high"),
            Priority::Medium => String::from_str("medium"),
            Priority::Low => String::from_str("low"),
        }
    }
}

/// Status of a task on the board.
#[derive(Debug, Clone, Copy, PartialEq, Eq, Structural)]
pub enum TaskStatus {
    /// Waiting on dependencies to complete.
    Blocked,
    /// All dependencies complete, ready to claim.
    Pending,
    /// Claimed and being worked on.
    InProgress,
    /// Completed successfully.
    Done,
}

impl TaskStatus {
    /// The lower-case name of the status.
    pub open spec fn text(self) -> Seq<char> {
        match self {
            TaskStatus::Blocked => "blocked"@,
            TaskStatus::Pending => "pending"@,
            TaskStatus::InProgress => "in_progress"@,
            TaskStatus::Done => "done"@,
        }
    }

    /// The lower-case name of the status.
    pub fn to_string(&self) -> (r: String)
        ensures
            r@ == self.text(),
    {
        match self {
            TaskStatus::Blocked => String::from_str("blocked"),
            TaskStatus::Pending => String::from_str("pending"),
            TaskStatus::InProgress => String::from_str("in_progress"),
            TaskStatus::Done => String::from_str("done"),
        }
    }
}

/// A single task on the board.
#[derive(Debug, Clone)]
pub struct Task {
    pub id: TaskId,
    pub content: String,
    pub priority: Priority,
    pub status: TaskStatus,
    pub depends_on: Vec<TaskId>,
}

/// Why a task board operation was refused.
#[derive(Debug, Clone, Copy, PartialEq, Eq, Structural)]
pub enum TaskBoardError {
    /// No task with this id is on the board.
    NotFound(TaskId),
    /// The task exists but is not pending, so it cannot be claimed.
    NotPending(TaskId, TaskStatus),
}

impl TaskBoardError {
    /// The human-readable message of the error.
    pub open spec fn text(self) -> Seq<char> {
        match self {
            TaskBoardError::NotFound(id) => "task "@ + dec_text(id.0 as nat) + " not found"@,
            TaskBoardError::NotPending(id, st) => "task "@ + dec_text(id.0 as nat) + " is "@
                + st.text() + " (must be pending to claim)"@,
        }
    }

    /// The human-readable message of the error.
    pub fn message(&self) -> (r: String)
        ensures
            r@ == self.text(),
    {
        let mut s = String::from_str("task ");
        match self {
            TaskBoardError::NotFound(id) => {
                push_decimal(&mut s, id.0 as u64);
                s.append(" not found");
            },
            TaskBoardError::NotPending(id, st) => {
                push_decimal(&mut s, id.0 as u64);
                s.append(" is ");
                let t = st.to_string();
                s.append(t.as_str());
                s.append(" (must be pending to claim)");
            },
        }
        assert(s@ =~= self.text());
        s
    }
}

/// `t` with its status replaced by `st`.
pub open spec fn with_status(t: Task, st: TaskStatus) -> Task {
    Task { id: t.id, content: t.content, priority: t.priority, status: st, depends_on: t.depends_on }
}

/// Dependency `d` is a task of `tasks` (whose first id is `first`) that is not done.
pub open spec fn dep_unfinished(tasks: Seq<Task>, first: int, d: TaskId) -> bool {
    &&& first <= d.0 < first + tasks.len()
    &&& tasks[d.0 - first].status != TaskStatus::Done
}

/// The status a task with dependencies `deps` gets on a board holding `tasks`:
/// blocked while some dependency on the board is unfinished, pending otherwise.
/// A dependency that is not on the board does not block.
pub open spec fn initial_status(tasks: Seq<Task>, first: int, deps: Seq<TaskId>) -> TaskStatus {
    if exists|k: int| 0 <= k < deps.len() && #[trigger] dep_unfinished(tasks, first, deps[k]) {
        TaskStatus::Blocked
    } else {
        TaskStatus::Pending
    }
}

/// The tasks after the task with id `id` is marked done: that task is done,
/// every blocked task that depends on it gets its status computed anew, and
/// every other task is unchanged.
pub open spec fn after_done(tasks: Seq<Task>, first: int, id: u32) -> Seq<Task> {
    let marked = tasks.update(id - first, with_status(tasks[id - first], TaskStatus::Done));
    Seq::new(
        tasks.len(),
        |i: int|
            if i == id - first {
                marked[i]
            } else if tasks[i].status == TaskStatus::Blocked && tasks[i].depends_on@.contains(
                TaskId(id),
            ) {
                with_status(tasks[i], initial_status(marked, first, tasks[i].depends_on@))
            } else {
                tasks[i]
            },
    )
}

/// Every pending task of `tasks` (whose first id is `first`) has its earlier
/// dependencies done: those with a smaller id than its own, which were on
/// the board when it was added.
pub open spec fn pending_tasks_ready(tasks: Seq<Task>, first: int) -> bool {
    forall|i: int, k: int|
        0 <= i < tasks.len() && tasks[i].status == TaskStatus::Pending && 0 <= k < tasks[i].depends_on@.len()
            && #[trigger] tasks[i].depends_on@[k].0 < tasks[i].id.0 ==> !dep_unfinished(
            tasks,
            first,
            tasks[i].depends_on@[k],
        )
}

/// How many of `tasks` have status `st`.
pub open spec fn count_status(tasks: Seq<Task>, st: TaskStatus) -> nat
    decreases tasks.len(),
{
    if tasks.len() == 0 {
        0
    } else {
        count_status(tasks.drop_last(), st) + if tasks.last().status == st {
            1nat
        } else {
            0nat
        }
    }
}

/// Shared task board for a team.
///
/// Tracks tasks with dependency-based blocking: a task is `Blocked` until all
/// its `depends_on` tasks are `Done`.
#[derive(Debug)]
pub struct TaskBoard {
    tasks: Vec<Task>,
    next_id: u32,
}

impl TaskBoard {
    /// The tasks on the board, in id order.
    pub closed spec fn spec_tasks(self) -> Seq<Task> {
        self.tasks@
    }

    /// The id the next added task gets.
    pub closed spec fn spec_next_id(self) -> u32 {
        self.next_id
    }

    /// The id of the first task on the board.
    pub open spec fn first_id(self) -> int {
        self.spec_next_id() - self.spec_tasks().len()
    }

    /// A task with this id is on the board.
    pub open spec fn has_task(self, id: u32) -> bool {
        self.first_id() <= id < self.spec_next_id()
    }

    /// The task with this id (meaningful where `has_task(id)`).
    pub open spec fn task(self, id: u32) -> Task {
        self.spec_tasks()[id - self.first_id()]
    }

    /// Every blocked task has a dependency on the board that is not done.
    pub open spec fn blocked_tasks_wait(self) -> bool {
        forall|i: int|
            0 <= i < self.spec_tasks().len() && #[trigger] self.spec_tasks()[i].status
                == TaskStatus::Blocked ==> exists|k: int|
                0 <= k < self.spec_tasks()[i].depends_on@.len() && #[trigger] dep_unfinished(
                    self.spec_tasks(),
                    self.first_id(),
                    self.spec_tasks()[i].depends_on@[k],
                )
    }

    /// Well-formedness: ids are consecutive, in order, ending just below the
    /// next id; every blocked task waits on an unfinished dependency, and
    /// every pending task's earlier dependencies are done.
    pub open spec fn wf(self) -> bool {
        &&& self.spec_tasks().len() <= self.spec_next_id()
        &&& forall|i: int|
            0 <= i < self.spec_tasks().len() ==> #[trigger] self.spec_tasks()[i].id.0 == self.first_id()
                + i
        &&& self.blocked_tasks_wait()
        &&& pending_tasks_ready(self.spec_tasks(), self.first_id())
    }

    /// Create an empty task board whose first task gets id 1.
    pub fn new() -> (b: Self)
        ensures
            b.wf(),
            b.spec_tasks() == Seq::<Task>::empty(),
            b.spec_next_id() == 1,
    {
        TaskBoard { tasks: Vec::new(), next_id: 1 }
    }

    /// The id the next added task gets.
    pub fn next_id(&self) -> (r: u32)
        ensures
            r == self.spec_next_id(),
    {
        self.next_id
    }

    /// Position of the task with id `id`, if it is on the board.
    fn index_of(&self, id: TaskId) -> (r: Option<usize>)
        requires
            self.wf(),
        ensures
            r is Some <==> self.has_task(id.0),
            r matches Some(i) ==> i == id.0 - self.first_id() && i < self.spec_tasks().len(),
    {
        let first: u32 = self.next_id - self.tasks.len() as u32;
        if first <= id.0 && id.0 < self.next_id {
            Some((id.0 - first) as usize)
        } else {
            None
        }
    }

    /// The status a new task with dependencies `depends_on` gets now.
    fn compute_status(&self, depends_on: &Vec<TaskId>) -> (st: TaskStatus)
        requires
            self.spec_tasks().len() <= self.spec_next_id(),
        ensures
            st == initial_status(self.spec_tasks(), self.first_id(), depends_on@),
    {
        let first: u32 = self.next_id - self.tasks.len() as u32;
        let mut k: usize = 0;
        while k < depends_on.len()
            invariant
                k <= depends_on@.len(),
                first == self.first_id(),
                self.spec_tasks().len() <= self.spec_next_id(),
                forall|j: int|
                    0 <= j < k ==> !#[trigger] dep_unfinished(
                        self.spec_tasks(),
                        self.first_id(),
                        depends_on@[j],
                    ),
            decreases depends_on@.len() - k,
        {
            let d = depends_on[k];
            if first <= d.0 && d.0 < self.next_id {
                let idx = (d.0 - first) as usize;
                if self.tasks[idx].status != TaskStatus::Done {
                    assert(dep_unfinished(self.spec_tasks(), self.first_id(), depends_on@[k as int]));
                    return TaskStatus::Blocked;
                }
            }
            k += 1;
        }
        TaskStatus::Pending
    }

    /// Add a task to the board. Returns the new task's id.
    ///
    /// The task starts as `Pending` if it has no unresolved dependencies,
    /// or `Blocked` if any dependency is not yet `Done`.
    pub fn add(&mut self, content: String, priority: Priority, depends_on: Vec<TaskId>) -> (id: TaskId)
        requires
            old(self).wf(),
            old(self).spec_next_id() < u32::MAX,
        ensures
            final(self).wf(),
            id.0 == old(self).spec_next_id(),
            final(self).spec_next_id() == old(self).spec_next_id() + 1,
            final(self).spec_tasks() == old(self).spec_tasks().push(
                Task {
                    id,
                    content,
                    priority,
                    status: initial_status(old(self).spec_tasks(), old(self).first_id(), depends_on@),
                    depends_on,
                },
            ),
    {
        let id = TaskId(self.next_id);
        let status = self.compute_status(&depends_on);
        let ghost old_tasks = self.tasks@;
        let ghost first = self.first_id();
        self.next_id = self.next_id + 1;
        self.tasks.push(Task { id, content, priority, status, depends_on });
        assert(self.first_id() == first);
        assert forall|i: int|
            0 <= i < self.spec_tasks().len() && #[trigger] self.spec_tasks()[i].status
                == TaskStatus::Blocked implies exists|k: int|
            0 <= k < self.spec_tasks()[i].depends_on@.len() && #[trigger] dep_unfinished(
                self.spec_tasks(),
                self.first_id(),
                self.spec_tasks()[i].depends_on@[k],
            ) by {
            if i < old_tasks.len() {
                let k = choose|k: int|
                    0 <= k < old_tasks[i].depends_on@.len() && #[trigger] dep_unfinished(
                        old_tasks,
                        first,
                        old_tasks[i].depends_on@[k],
                    );
                assert(dep_unfinished(self.spec_tasks(), first, self.spec_tasks()[i].depends_on@[k]));
            } else {
                let k = choose|k: int|
                    0 <= k < depends_on@.len() && #[trigger] dep_unfinished(
                        old_tasks,
                        first,
                        depends_on@[k],
                    );
                assert(dep_unfinished(self.spec_tasks(), first, self.spec_tasks()[i].depends_on@[k]));
            }
        }
        proof {
            lemma_add_keeps_ready(old_tasks, self.spec_tasks(), first);
        }
        id
    }

    /// Mark a task as done, unblocking any tasks that depended on it.
    pub fn mark_done(&mut self, id: TaskId) -> (r: Result<(), TaskBoardError>)
        requires
            old(self).wf(),
        ensures
            final(self).wf(),
            r is Ok <==> old(self).has_task(id.0),
            r is Err ==> r == Err::<(), TaskBoardError>(TaskBoardError::NotFound(id)),
            r is Err ==> final(self).spec_tasks() == old(self).spec_tasks(),
            final(self).spec_next_id() == old(self).spec_next_id(),
            r is Ok ==> final(self).spec_tasks() == after_done(
                old(self).spec_tasks(),
                old(self).first_id(),
                id.0,
            ),
    {
        let idx = match self.index_of(id) {
            Some(i) => i,
            None => return Err(TaskBoardError::NotFound(id)),
        };
        let ghost old_tasks = self.tasks@;
        let ghost first = self.first_id();
        let ghost expected = after_done(old_tasks, first, id.0);
        self.tasks[idx].status = TaskStatus::Done;
        let ghost marked = self.tasks@;
        assert(marked == old_tasks.update(
            id.0 - first,
            with_status(old_tasks[id.0 - first], TaskStatus::Done),
        ));
        let mut i: usize = 0;
        while i < self.tasks.len()
            invariant
                0 <= idx < old_tasks.len(),
                idx == id.0 - first,
                first == self.first_id(),
                self.spec_next_id() == old(self).spec_next_id(),
                old_tasks == old(self).spec_tasks(),
                first == old(self).first_id(),
                old(self).wf(),
                marked == old_tasks.update(
                    id.0 - first,
                    with_status(old_tasks[id.0 - first], TaskStatus::Done),
                ),
                expected == after_done(old_tasks, first, id.0),
                i <= self.spec_tasks().len(),
                self.spec_tasks().len() == old_tasks.len(),
                forall|j: int| 0 <= j < i ==> #[trigger] self.spec_tasks()[j] == expected[j],
                forall|j: int| i <= j < old_tasks.len() ==> #[trigger] self.spec_tasks()[j] == marked[j],
                forall|j: int|
                    0 <= j < old_tasks.len() ==> (#[trigger] self.spec_tasks()[j].status
                        == TaskStatus::Done) == (marked[j].status == TaskStatus::Done),
            decreases old_tasks.len() - i,
        {
            let blocked = self.tasks[i].status == TaskStatus::Blocked;
            if blocked && i != idx && deps_contain(&self.tasks[i].depends_on, id) {
                let st = self.compute_status(&self.tasks[i].depends_on);
                assert(initial_status(self.spec_tasks(), first, self.spec_tasks()[i as int].depends_on@)
                    == initial_status(marked, first, old_tasks[i as int].depends_on@)) by {
                    lemma_same_done_same_status(
                        self.spec_tasks(),
                        marked,
                        first,
                        old_tasks[i as int].depends_on@,
                    );
                }
                self.tasks[i].status = st;
            }
            assert(self.spec_tasks()[i as int] == expected[i as int]);
            i += 1;
        }
        assert(self.spec_tasks() =~= expected);
        proof {
            self.lemma_after_done_waits(old_tasks, first, id.0);
            lemma_done_keeps_ready(old_tasks, first, id.0);
        }
        Ok(())
    }

    proof fn lemma_after_done_waits(self, old_tasks: Seq<Task>, first: int, id: u32)
        requires
            first <= id < first + old_tasks.len(),
            self.first_id() == first,
            self.spec_tasks() == after_done(old_tasks, first, id),
            forall|i: int|
                0 <= i < old_tasks.len() && #[trigger] old_tasks[i].status == TaskStatus::Blocked
                    ==> exists|k: int|
                    0 <= k < old_tasks[i].depends_on@.len() && #[trigger] dep_unfinished(
                        old_tasks,
                        first,
                        old_tasks[i].depends_on@[k],
                    ),
        ensures
            self.blocked_tasks_wait(),
    {
        let marked = old_tasks.update(id - first, with_status(old_tasks[id - first], TaskStatus::Done));
        let new_tasks = self.spec_tasks();
        assert forall|j: int|
            0 <= j < new_tasks.len() implies (#[trigger] new_tasks[j].status == TaskStatus::Done) == (
            marked[j].status == TaskStatus::Done) by {}
        assert forall|i: int|
            0 <= i < new_tasks.len() && #[trigger] new_tasks[i].status
                == TaskStatus::Blocked implies exists|k: int|
            0 <= k < new_tasks[i].depends_on@.len() && #[trigger] dep_unfinished(
                new_tasks,
                first,
                new_tasks[i].depends_on@[k],
            ) by {
            if old_tasks[i].status == TaskStatus::Blocked && old_tasks[i].depends_on@.contains(
                TaskId(id),
            ) && i != id - first {
                let deps = old_tasks[i].depends_on@;
                let k = choose|k: int| 0 <= k < deps.len() && #[trigger] dep_unfinished(marked, first, deps[k]);
                assert(dep_unfinished(new_tasks, first, new_tasks[i].depends_on@[k]));
            } else {
                let deps = old_tasks[i].depends_on@;
                let k = choose|k: int|
                    0 <= k < deps.len() && #[trigger] dep_unfinished(old_tasks, first, deps[k]);
                if deps[k] == TaskId(id) {
                    assert(deps.contains(TaskId(id)));
                }
                assert(dep_unfinished(new_tasks, first, new_tasks[i].depends_on@[k]));
            }
        }
    }

    /// Claim a pending task (mark as in-progress). Returns the task content.
    pub fn claim(&mut self, id: TaskId) -> (r: Result<String, TaskBoardError>)
        requires
            old(self).wf(),
        ensures
            final(self).wf(),
            final(self).spec_next_id() == old(self).spec_next_id(),
            !old(self).has_task(id.0) ==> r == Err::<String, TaskBoardError>(
                TaskBoardError::NotFound(id),
            ),
            old(self).has_task(id.0) && old(self).task(id.0).status != TaskStatus::Pending ==> r
                == Err::<String, TaskBoardError>(
                TaskBoardError::NotPending(id, old(self).task(id.0).status),
            ),
            r is Err ==> final(self).spec_tasks() == old(self).spec_tasks(),
            r is Ok <==> old(self).has_task(id.0) && old(self).task(id.0).status
                == TaskStatus::Pending,
            r matches Ok(content) ==> {
                &&& content == old(self).task(id.0).content
                &&& final(self).spec_tasks() == old(self).spec_tasks().update(
                    id.0 - old(self).first_id(),
                    with_status(old(self).task(id.0), TaskStatus::InProgress),
                )
            },
    {
        let idx = match self.index_of(id) {
            Some(i) => i,
            None => return Err(TaskBoardError::NotFound(id)),
        };
        let st = self.tasks[idx].status;
        if st != TaskStatus::Pending {
            return Err(TaskBoardError::NotPending(id, st));
        }
        let ghost old_tasks = self.tasks@;
        let ghost first = self.first_id();
        self.tasks[idx].status = TaskStatus::InProgress;
        assert(self.spec_tasks() =~= old_tasks.update(
            id.0 - first,
            with_status(old_tasks[id.0 - first], TaskStatus::InProgress),
        ));
        assert(self.first_id() == first);
        assert forall|i: int|
            0 <= i < self.spec_tasks().len() && #[trigger] self.spec_tasks()[i].status
                == TaskStatus::Blocked implies exists|k: int|
            0 <= k < self.spec_tasks()[i].depends_on@.len() && #[trigger] dep_unfinished(
                self.spec_tasks(),
                self.first_id(),
                self.spec_tasks()[i].depends_on@[k],
            ) by {
            assert(i != idx);
            assert(old_tasks[i] == self.spec_tasks()[i]);
            assert(old_tasks[i].status == TaskStatus::Blocked);
            let k = choose|k: int|
                0 <= k < old_tasks[i].depends_on@.len() && #[trigger] dep_unfinished(
                    old_tasks,
                    first,
                    old_tasks[i].depends_on@[k],
                );
            assert(dep_unfinished(self.spec_tasks(), first, self.spec_tasks()[i].depends_on@[k]));
            assert(dep_unfinished(self.spec_tasks(), self.first_id(), self.spec_tasks()[i].depends_on@[k]));
        }
        proof {
            lemma_claim_keeps_ready(old_tasks, first, idx as int);
        }
        Ok(self.tasks[idx].content.clone())
    }

    /// Return all tasks sorted by id.
    pub fn list(&self) -> (r: Vec<&Task>)
        requires
            self.wf(),
        ensures
            r@.len() == self.spec_tasks().len(),
            forall|i: int| 0 <= i < r@.len() ==> *#[trigger] r@[i] == self.spec_tasks()[i],
            forall|i: int, j: int| 0 <= i < j < r@.len() ==> r@[i].id.0 < r@[j].id.0,
    {
        let mut r: Vec<&Task> = Vec::new();
        let mut i: usize = 0;
        while i < self.tasks.len()
            invariant
                i <= self.spec_tasks().len(),
                r@.len() == i,
                forall|j: int| 0 <= j < i ==> *#[trigger] r@[j] == self.spec_tasks()[j],
            decreases self.spec_tasks().len() - i,
        {
            r.push(&self.tasks[i]);
            i += 1;
        }
        r
    }

    /// Return a summary of task counts by status.
    pub fn summary(&self) -> (s: TaskBoardSummary)
        ensures
            s.total == self.spec_tasks().len(),
            s.done == count_status(self.spec_tasks(), TaskStatus::Done),
            s.pending == count_status(self.spec_tasks(), TaskStatus::Pending),
            s.blocked == count_status(self.spec_tasks(), TaskStatus::Blocked),
            s.in_progress == count_status(self.spec_tasks(), TaskStatus::InProgress),
    {
        let mut done: usize = 0;
        let mut pending: usize = 0;
        let mut blocked: usize = 0;
        let mut in_progress: usize = 0;
        let mut i: usize = 0;
        let ghost all = self.spec_tasks();
        while i < self.tasks.len()
            invariant
                all == self.spec_tasks(),
                i <= all.len(),
                done == count_status(all.take(i as int), TaskStatus::Done),
                pending == count_status(all.take(i as int), TaskStatus::Pending),
                blocked == count_status(all.take(i as int), TaskStatus::Blocked),
                in_progress == count_status(all.take(i as int), TaskStatus::InProgress),
                done + pending + blocked + in_progress == i,
            decreases all.len() - i,
        {
            proof {
                assert(all.take(i + 1).drop_last() =~= all.take(i as int));
                lemma_counts_partition(all.take(i as int));
                lemma_counts_partition(all.take(i + 1));
            }
            match self.tasks[i].status {
                TaskStatus::Done => done += 1,
                TaskStatus::Pending => pending += 1,
                TaskStatus::Blocked => blocked += 1,
                TaskStatus::InProgress => in_progress += 1,
            }
            i += 1;
        }
        assert(all.take(all.len() as int) =~= all);
        TaskBoardSummary { total: self.tasks.len(), done, pending, blocked, in_progress }
    }
}

impl Default for TaskBoard {
    /// An empty board whose first task gets id 0.
    fn default() -> (b: Self)
        ensures
            b.wf(),
            b.spec_tasks() == Seq::<Task>::empty(),
            b.spec_next_id() == 0,
    {
        TaskBoard { tasks: Vec::new(), next_id: 0 }
    }
}

/// `deps` holds `id`.
fn deps_contain(deps: &Vec<TaskId>, id: TaskId) -> (r: bool)
    ensures
        r == deps@.contains(id),
{
    let mut k: usize = 0;
    while k < deps.len()
        invariant
            k <= deps@.len(),
            forall|j: int| 0 <= j < k ==> deps@[j] != id,
        decreases deps@.len() - k,
    {
        if deps[k] == id {
            assert(deps@[k as int] == id);
            return true;
        }
        k += 1;
    }
    false
}

/// Adding a task keeps pending tasks ready: the new task is pending only
/// when none of its dependencies on the board is unfinished.
proof fn lemma_add_keeps_ready(old_tasks: Seq<Task>, new_tasks: Seq<Task>, first: int)
    requires
        pending_tasks_ready(old_tasks, first),
        new_tasks.len() == old_tasks.len() + 1,
        forall|i: int| 0 <= i < old_tasks.len() ==> #[trigger] new_tasks[i] == old_tasks[i],
        forall|i: int| 0 <= i < new_tasks.len() ==> #[trigger] new_tasks[i].id.0 == first + i,
        new_tasks.last().status == initial_status(old_tasks, first, new_tasks.last().depends_on@),
    ensures
        pending_tasks_ready(new_tasks, first),
{
    assert forall|i: int, k: int|
        0 <= i < new_tasks.len() && new_tasks[i].status == TaskStatus::Pending && 0 <= k
            < new_tasks[i].depends_on@.len() && #[trigger] new_tasks[i].depends_on@[k].0
            < new_tasks[i].id.0 implies !dep_unfinished(new_tasks, first, new_tasks[i].depends_on@[k]) by {
        let d = new_tasks[i].depends_on@[k];
        if i < old_tasks.len() {
            assert(new_tasks[i] == old_tasks[i]);
            assert(old_tasks[i].id.0 == first + i);
            assert(!dep_unfinished(old_tasks, first, old_tasks[i].depends_on@[k]));
            if first <= d.0 {
                assert(new_tasks[d.0 - first] == old_tasks[d.0 - first]);
            }
        } else {
            assert(!dep_unfinished(old_tasks, first, new_tasks.last().depends_on@[k]));
            if first <= d.0 && d.0 < first + old_tasks.len() {
                assert(new_tasks[d.0 - first] == old_tasks[d.0 - first]);
            }
        }
    }
}

/// Marking a task done keeps pending tasks ready: a done task stays done,
/// and a blocked task becomes pending only when none of its dependencies on
/// the board is unfinished.
proof fn lemma_done_keeps_ready(old_tasks: Seq<Task>, first: int, id: u32)
    requires
        pending_tasks_ready(old_tasks, first),
        first <= id < first + old_tasks.len(),
    ensures
        pending_tasks_ready(after_done(old_tasks, first, id), first),
{
    let marked = old_tasks.update(id - first, with_status(old_tasks[id - first], TaskStatus::Done));
    let new_tasks = after_done(old_tasks, first, id);
    assert forall|j: int|
        0 <= j < new_tasks.len() && marked[j].status == TaskStatus::Done implies #[trigger] new_tasks[j].status
        == TaskStatus::Done by {}
    assert forall|i: int, k: int|
        0 <= i < new_tasks.len() && new_tasks[i].status == TaskStatus::Pending && 0 <= k
            < new_tasks[i].depends_on@.len() && #[trigger] new_tasks[i].depends_on@[k].0
            < new_tasks[i].id.0 implies !dep_unfinished(new_tasks, first, new_tasks[i].depends_on@[k]) by {
        let d = new_tasks[i].depends_on@[k];
        assert(new_tasks[i].depends_on == old_tasks[i].depends_on);
        if old_tasks[i].status == TaskStatus::Blocked && old_tasks[i].depends_on@.contains(TaskId(id)) && i
            != id - first {
            let deps = old_tasks[i].depends_on@;
            assert(!dep_unfinished(marked, first, deps[k]));
            if first <= d.0 < first + new_tasks.len() {
                assert(marked[d.0 - first].status == TaskStatus::Done);
                assert(new_tasks[d.0 - first].status == TaskStatus::Done);
            }
        } else {
            assert(new_tasks[i] == old_tasks[i] || i == id - first);
            assert(i != id - first);
            assert(old_tasks[i].status == TaskStatus::Pending);
            assert(old_tasks[i].id == new_tasks[i].id);
            assert(!dep_unfinished(old_tasks, first, old_tasks[i].depends_on@[k]));
            if first <= d.0 < first + new_tasks.len() {
                assert(old_tasks[d.0 - first].status == TaskStatus::Done);
                assert(marked[d.0 - first].status == TaskStatus::Done);
                assert(new_tasks[d.0 - first].status == TaskStatus::Done);
            }
        }
    }
}

/// Claiming a pending task keeps pending tasks ready: the claimed task was
/// not done, so it was no pending task's earlier dependency.
proof fn lemma_claim_keeps_ready(old_tasks: Seq<Task>, first: int, c: int)
    requires
        pending_tasks_ready(old_tasks, first),
        0 <= c < old_tasks.len(),
        old_tasks[c].status == TaskStatus::Pending,
    ensures
        pending_tasks_ready(old_tasks.update(c, with_status(old_tasks[c], TaskStatus::InProgress)), first),
{
    let new_tasks = old_tasks.update(c, with_status(old_tasks[c], TaskStatus::InProgress));
    assert forall|i: int, k: int|
        0 <= i < new_tasks.len() && new_tasks[i].status == TaskStatus::Pending && 0 <= k
            < new_tasks[i].depends_on@.len() && #[trigger] new_tasks[i].depends_on@[k].0
            < new_tasks[i].id.0 implies !dep_unfinished(new_tasks, first, new_tasks[i].depends_on@[k]) by {
        let d = new_tasks[i].depends_on@[k];
        assert(i != c);
        assert(new_tasks[i] == old_tasks[i]);
        assert(!dep_unfinished(old_tasks, first, old_tasks[i].depends_on@[k]));
        if first <= d.0 < first + new_tasks.len() {
            assert(old_tasks[d.0 - first].status == TaskStatus::Done);
            assert(d.0 - first != c);
        }
    }
}

/// Two boards that agree on which tasks are done give every task the same
/// initial status.
proof fn lemma_same_done_same_status(a: Seq<Task>, b: Seq<Task>, first: int, deps: Seq<TaskId>)
    requires
        a.len() == b.len(),
        forall|j: int|
            0 <= j < a.len() ==> (#[trigger] a[j].status == TaskStatus::Done) == (b[j].status
                == TaskStatus::Done),
    ensures
        initial_status(a, first, deps) == initial_status(b, first, deps),
{
    assert forall|k: int| 0 <= k < deps.len() implies #[trigger] dep_unfinished(a, first, deps[k])
        == dep_unfinished(b, first, deps[k]) by {
        if first <= deps[k].0 < first + a.len() {
            let j = deps[k].0 - first;
            assert((a[j].status == TaskStatus::Done) == (b[j].status == TaskStatus::Done));
        }
    }
    if exists|k: int| 0 <= k < deps.len() && #[trigger] dep_unfinished(a, first, deps[k]) {
        let k = choose|k: int| 0 <= k < deps.len() && #[trigger] dep_unfinished(a, first, deps[k]);
        assert(dep_unfinished(b, first, deps[k]));
    }
    if exists|k: int| 0 <= k < deps.len() && #[trigger] dep_unfinished(b, first, deps[k]) {
        let k = choose|k: int| 0 <= k < deps.len() && #[trigger] dep_unfinished(b, first, deps[k]);
        assert(dep_unfinished(a, first, deps[k]));
    }
}

/// Every task is counted under exactly one status: the four status counts
/// of a sequence of tasks add up to its length.
pub proof fn lemma_counts_partition(tasks: Seq<Task>)
    ensures
        count_status(tasks, TaskStatus::Done) + count_status(tasks, TaskStatus::Pending)
            + count_status(tasks, TaskStatus::Blocked) + count_status(tasks, TaskStatus::InProgress)
            == tasks.len(),
    decreases tasks.len(),
{
    if tasks.len() > 0 {
        lemma_counts_partition(tasks.drop_last());
    }
}


/// A status count is the number of tasks with that status: the tasks
/// whose status it is, picked out in order, are exactly as many as it says.
/// Counting the tasks of two lists together adds their counts.
pub proof fn law_count_is_number_of_tasks_with_status(tasks: Seq<Task>, more: Seq<Task>, st: TaskStatus)
    ensures
        count_status(tasks, st) == tasks.filter(|t: Task| t.status == st).len(),
        count_status(tasks + more, st) == count_status(tasks, st) + count_status(more, st),
        count_status(tasks, st) <= tasks.len(),
    decreases tasks.len() + more.len(),
{
    reveal(Seq::filter);
    if tasks.len() > 0 {
        law_count_is_number_of_tasks_with_status(tasks.drop_last(), more, st);
    }
    if more.len() > 0 {
        law_count_is_number_of_tasks_with_status(tasks, more.drop_last(), st);
        assert((tasks + more).drop_last() =~= tasks + more.drop_last());
        assert((tasks + more).last() == more.last());
    } else {
        assert(tasks + more =~= tasks);
    }
}

/// A blocked task on a well-formed board waits on a dependency that is on
/// the board and not done.
pub proof fn law_blocked_task_waits(b: TaskBoard, id: u32)
    requires
        b.wf(),
        b.has_task(id),
        b.task(id).status == TaskStatus::Blocked,
    ensures
        exists|k: int|
            0 <= k < b.task(id).depends_on@.len() && #[trigger] b.has_task(b.task(id).depends_on@[k].0)
                && b.task(b.task(id).depends_on@[k].0).status != TaskStatus::Done,
{
    let i = id - b.first_id();
    let deps = b.spec_tasks()[i].depends_on@;
    let k = choose|k: int| 0 <= k < deps.len() && #[trigger] dep_unfinished(b.spec_tasks(), b.first_id(), deps[k]);
    assert(b.has_task(deps[k].0));
}

/// On a well-formed board, a task that is waiting (pending or blocked) and
/// whose dependencies were all on the board when it was added is pending
/// exactly when all those dependencies are done.
pub proof fn law_waiting_task_is_pending_iff_dependencies_done(b: TaskBoard, id: u32)
    requires
        b.wf(),
        b.has_task(id),
        b.task(id).status == TaskStatus::Pending || b.task(id).status == TaskStatus::Blocked,
        forall|k: int|
            0 <= k < b.task(id).depends_on@.len() ==> b.first_id() <= #[trigger] b.task(id).depends_on@[k].0
                < id,
    ensures
        (b.task(id).status == TaskStatus::Pending) <==> forall|k: int|
            0 <= k < b.task(id).depends_on@.len() ==> #[trigger] b.task(b.task(id).depends_on@[k].0).status
                == TaskStatus::Done,
{
    let i = id - b.first_id();
    let t = b.spec_tasks()[i];
    assert(t.id.0 == id);
    if t.status == TaskStatus::Pending {
        assert forall|k: int| 0 <= k < t.depends_on@.len() implies #[trigger] b.task(t.depends_on@[k].0).status
            == TaskStatus::Done by {
            assert(t.depends_on@[k].0 < t.id.0);
            assert(!dep_unfinished(b.spec_tasks(), b.first_id(), t.depends_on@[k]));
        }
    } else {
        let k = choose|k: int|
            0 <= k < t.depends_on@.len() && #[trigger] dep_unfinished(b.spec_tasks(), b.first_id(), t.depends_on@[k]);
        assert(b.task(t.depends_on@[k].0).status != TaskStatus::Done);
    }
}

/// Marking a task done leaves it done, and a task that was done stays done.
pub proof fn law_done_is_final(tasks: Seq<Task>, first: int, id: u32, j: int)
    requires
        first <= id < first + tasks.len(),
        0 <= j < tasks.len(),
        tasks[j].status == TaskStatus::Done || j == id - first,
    ensures
        after_done(tasks, first, id)[j].status == TaskStatus::Done,
{
}

/// Marking a task done changes no task's id, content, priority or
/// dependencies, and keeps the board's length.
pub proof fn law_mark_done_changes_only_statuses(tasks: Seq<Task>, first: int, id: u32, j: int)
    requires
        first <= id < first + tasks.len(),
        0 <= j < tasks.len(),
    ensures
        after_done(tasks, first, id).len() == tasks.len(),
        after_done(tasks, first, id)[j].id == tasks[j].id,
        after_done(tasks, first, id)[j].content == tasks[j].content,
        after_done(tasks, first, id)[j].priority == tasks[j].priority,
        after_done(tasks, first, id)[j].depends_on == tasks[j].depends_on,
{
}

/// Completing the last unfinished dependency of a blocked task unblocks it:
/// it becomes pending.
pub proof fn law_mark_done_unblocks(tasks: Seq<Task>, first: int, id: u32, j: int)
    requires
        first <= id < first + tasks.len(),
        0 <= j < tasks.len(),
        j != id - first,
        tasks[j].status == TaskStatus::Blocked,
        tasks[j].depends_on@.contains(TaskId(id)),
        forall|k: int|
            0 <= k < tasks[j].depends_on@.len() && tasks[j].depends_on@[k] != TaskId(id) ==> !#[trigger] dep_unfinished(
                tasks,
                first,
                tasks[j].depends_on@[k],
            ),
    ensures
        after_done(tasks, first, id)[j].status == TaskStatus::Pending,
{
    let marked = tasks.update(id - first, with_status(tasks[id - first], TaskStatus::Done));
    let deps = tasks[j].depends_on@;
    assert forall|k: int| 0 <= k < deps.len() implies !#[trigger] dep_unfinished(marked, first, deps[k]) by {
        if deps[k] != TaskId(id) {
            assert(!dep_unfinished(tasks, first, deps[k]));
        }
    }
}

/// A task that is blocked stays blocked while one of its dependencies other
/// than the completed one is still unfinished.
pub proof fn law_mark_done_keeps_waiting_tasks_blocked(tasks: Seq<Task>, first: int, id: u32, j: int, k: int)
    requires
        first <= id < first + tasks.len(),
        0 <= j < tasks.len(),
        j != id - first,
        tasks[j].status == TaskStatus::Blocked,
        0 <= k < tasks[j].depends_on@.len(),
        tasks[j].depends_on@[k] != TaskId(id),
        dep_unfinished(tasks, first, tasks[j].depends_on@[k]),
    ensures
        after_done(tasks, first, id)[j].status == TaskStatus::Blocked,
{
    let marked = tasks.update(id - first, with_status(tasks[id - first], TaskStatus::Done));
    let deps = tasks[j].depends_on@;
    assert(dep_unfinished(marked, first, deps[k]));
}

} // verus!
