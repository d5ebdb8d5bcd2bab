//! Team: a named group of subagents with a shared task board.

use vstd::prelude::*;

use super::task_board::{
    after_done, count_status, initial_status, Priority, Task, TaskBoard, TaskBoardError,
    TaskBoardSummary, TaskId, TaskStatus,
};
use crate::extras::subagent::registry::AgentModel;
use crate::extras::subagent::{SubagentId, SubagentRegistry};

verus! {

/// `agents` after `msg` is put into the inbox of every member of `members`
/// that is a live subagent.
pub open spec fn deliver(agents: Map<u32, AgentModel>, members: Seq<SubagentId>, msg: String) -> Map<
    u32,
    AgentModel,
> {
    Map::new(
        |k: u32| agents.dom().contains(k),
        |k: u32|
            if members.contains(SubagentId(k)) {
                AgentModel { inbox: agents[k].inbox.push(msg), ..agents[k] }
            } else {
                agents[k]
            },
    )
}

/// How many of `members` are live subagents.
pub open spec fn live_count(agents: Map<u32, AgentModel>, members: Seq<SubagentId>) -> nat
    decreases members.len(),
{
    if members.len() == 0 {
        0
    } else {
        live_count(agents, members.drop_last()) + if agents.dom().contains(members.last().0) {
            1nat
        } else {
            0nat
        }
    }
}

/// A named team of subagents with a shared task board.
///
/// Teams do not own subagents: they hold ids, and operations that reach the
/// subagents take the registry as an argument.
pub struct Team {
    member_ids: Vec<SubagentId>,
    task_board: TaskBoard,
}

impl Team {
    /// The member ids, in the order they joined.
    pub closed spec fn spec_members(&self) -> Seq<SubagentId> {
        self.member_ids@
    }

    /// The team's task board.
    pub closed spec fn spec_board(&self) -> TaskBoard {
        self.task_board
    }

    /// The board is well formed and no member is listed twice.
    pub open spec fn wf(&self) -> bool {
        &&& self.spec_board().wf()
        &&& self.spec_members().no_duplicates()
    }

    /// Create a new empty team.
    pub fn new() -> (t: Self)
        ensures
            t.wf(),
            t.spec_members() == Seq::<SubagentId>::empty(),
            t.spec_board().spec_tasks() == Seq::<Task>::empty(),
            t.spec_board().spec_next_id() == 1,
    {
        Team { member_ids: Vec::new(), task_board: TaskBoard::new() }
    }

    /// Return the list of member ids.
    pub fn members(&self) -> (r: &[SubagentId])
        ensures
            r@ == self.spec_members(),
    {
        self.member_ids.as_slice()
    }

    /// The id the next task added to the board gets.
    pub fn next_task_id(&self) -> (r: u32)
        ensures
            r == self.spec_board().spec_next_id(),
    {
        self.task_board.next_id()
    }

    /// Add a subagent to the team. The registry is consulted to check that
    /// the subagent exists; an unknown id, or a member added twice, leaves
    /// the team unchanged.
    pub fn add_member(&mut self, agents: &SubagentRegistry, id: SubagentId)
        requires
            old(self).wf(),
            agents.wf(),
        ensures
            final(self).wf(),
            final(self).spec_board() == old(self).spec_board(),
            final(self).spec_members() == if !old(self).spec_members().contains(id)
                && agents.spec_agents().dom().contains(id.0) {
                old(self).spec_members().push(id)
            } else {
                old(self).spec_members()
            },
    {
        if !agents.contains_id(id) {
            return;
        }
        let mut k: usize = 0;
        while k < self.member_ids.len()
            invariant
                *self == *old(self),
                old(self).wf(),
                k <= self.member_ids@.len(),
                forall|j: int| 0 <= j < k ==> self.member_ids@[j] != id,
            decreases self.member_ids@.len() - k,
        {
            if self.member_ids[k] == id {
                assert(self.member_ids@[k as int] == id);
                return;
            }
            k += 1;
        }
        self.member_ids.push(id);
    }

    /// Send a message to the inbox of every member. Returns the number of
    /// members the message was delivered to: those that are live subagents.
    pub fn message(&self, agents: &mut SubagentRegistry, message: String) -> (delivered: usize)
        requires
            self.wf(),
            old(agents).wf(),
        ensures
            final(agents).wf(),
            final(agents).spec_names() == old(agents).spec_names(),
            final(agents).spec_next_id() == old(agents).spec_next_id(),
            final(agents).spec_agents() == deliver(old(agents).spec_agents(), self.spec_members(), message),
            delivered == live_count(old(agents).spec_agents(), self.spec_members()),
    {
        let ghost start = agents.spec_agents();
        let ghost members = self.member_ids@;
        let mut delivered: usize = 0;
        let mut i: usize = 0;
        proof {
            assert(deliver(start, members.take(0), message) =~= start);
        }
        while i < self.member_ids.len()
            invariant
                members == self.spec_members(),
                members.no_duplicates(),
                i <= members.len(),
                agents.wf(),
                agents.spec_names() == old(agents).spec_names(),
                agents.spec_next_id() == old(agents).spec_next_id(),
                start == old(agents).spec_agents(),
                agents.spec_agents() == deliver(start, members.take(i as int), message),
                delivered == live_count(start, members.take(i as int)),
                delivered <= i,
            decreases members.len() - i,
        {
            let id = self.member_ids[i];
            let ghost before = agents.spec_agents();
            let sent = agents.send_message(id, message.clone());
            proof {
                let prev = members.take(i as int);
                let next = members.take(i + 1);
                assert(next.drop_last() =~= prev);
                assert(next.last() == id);
                assert(!prev.contains(id)) by {
                    if prev.contains(id) {
                        let j = choose|j: int| 0 <= j < prev.len() && prev[j] == id;
                        assert(members[j] == members[i as int]);
                    }
                }
                assert forall|m: SubagentId| #[trigger] next.contains(m) <==> prev.contains(m) || m == id by {
                    if next.contains(m) {
                        let j = choose|j: int| 0 <= j < next.len() && next[j] == m;
                        if j < i {
                            assert(prev[j] == m);
                        }
                    }
                    if prev.contains(m) {
                        let j = choose|j: int| 0 <= j < prev.len() && prev[j] == m;
                        assert(next[j] == m);
                    }
                    if m == id {
                        assert(next[i as int] == m);
                    }
                }
                assert(agents.spec_agents() =~= deliver(start, next, message));
            }
            if sent.is_ok() {
                delivered = delivered + 1;
            }
            i += 1;
        }
        proof {
            assert(members.take(members.len() as int) =~= members);
        }
        delivered
    }

    /// Add a task to the board. Returns the new task's id.
    pub fn add_task(&mut self, content: String, priority: Priority, depends_on: Vec<TaskId>) -> (id: TaskId)
        requires
            old(self).wf(),
            old(self).spec_board().spec_next_id() < u32::MAX,
        ensures
            final(self).wf(),
            final(self).spec_members() == old(self).spec_members(),
            id.0 == old(self).spec_board().spec_next_id(),
            final(self).spec_board().spec_next_id() == old(self).spec_board().spec_next_id() + 1,
            final(self).spec_board().spec_tasks() == old(self).spec_board().spec_tasks().push(
                Task {
                    id,
                    content,
                    priority,
                    status: initial_status(
                        old(self).spec_board().spec_tasks(),
                        old(self).spec_board().first_id(),
                        depends_on@,
                    ),
                    depends_on,
                },
            ),
    {
        self.task_board.add(content, priority, depends_on)
    }

    /// Mark a task as done, unblocking any tasks that depended on it.
    pub fn mark_task_done(&mut self, id: TaskId) -> (r: Result<(), TaskBoardError>)
        requires
            old(self).wf(),
        ensures
            final(self).wf(),
            final(self).spec_members() == old(self).spec_members(),
            r is Ok <==> old(self).spec_board().has_task(id.0),
            r is Err ==> r == Err::<(), TaskBoardError>(TaskBoardError::NotFound(id)),
            r is Err ==> final(self).spec_board().spec_tasks() == old(self).spec_board().spec_tasks(),
            final(self).spec_board().spec_next_id() == old(self).spec_board().spec_next_id(),
            r is Ok ==> final(self).spec_board().spec_tasks() == after_done(
                old(self).spec_board().spec_tasks(),
                old(self).spec_board().first_id(),
                id.0,
            ),
    {
        self.task_board.mark_done(id)
    }

    /// Return all tasks sorted by id.
    pub fn list_tasks(&self) -> (r: Vec<&Task>)
        requires
            self.wf(),
        ensures
            r@.len() == self.spec_board().spec_tasks().len(),
            forall|i: int| 0 <= i < r@.len() ==> *#[trigger] r@[i] == self.spec_board().spec_tasks()[i],
    {
        self.task_board.list()
    }

    /// Return a summary of task counts by status.
    pub fn task_board_summary(&self) -> (s: TaskBoardSummary)
        ensures
            s.total == self.spec_board().spec_tasks().len(),
            s.done == count_status(self.spec_board().spec_tasks(), TaskStatus::Done),
            s.pending == count_status(self.spec_board().spec_tasks(), TaskStatus::Pending),
            s.blocked == count_status(self.spec_board().spec_tasks(), TaskStatus::Blocked),
            s.in_progress == count_status(self.spec_board().spec_tasks(), TaskStatus::InProgress),
    {
        self.task_board.summary()
    }
}


/// `team_message` never reports more deliveries than the team has members.
pub proof fn law_delivered_at_most_members(agents: Map<u32, AgentModel>, members: Seq<SubagentId>)
    ensures
        live_count(agents, members) <= members.len(),
    decreases members.len(),
{
    if members.len() > 0 {
        law_delivered_at_most_members(agents, members.drop_last());
    }
}

/// A team message lands once in the inbox of each live member and nowhere
/// else; the set of live subagents does not change.
pub proof fn law_message_reaches_live_members(
    agents: Map<u32, AgentModel>,
    members: Seq<SubagentId>,
    msg: String,
    k: u32,
)
    ensures
        deliver(agents, members, msg).dom() == agents.dom(),
        agents.dom().contains(k) ==> deliver(agents, members, msg)[k].inbox == if members.contains(
            SubagentId(k),
        ) {
            agents[k].inbox.push(msg)
        } else {
            agents[k].inbox
        },
        agents.dom().contains(k) ==> deliver(agents, members, msg)[k].status == agents[k].status,
{
    assert(deliver(agents, members, msg).dom() =~= agents.dom());
}

} // verus!
