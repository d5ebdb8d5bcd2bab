//! Team tools for the lead agent and team members: what each tool does to
//! the registries and what it answers.
//!
//! Lead-only: `team_create`, `team_spawn`, `team_disband`. Shared:
//! `agent_message`, `team_message`, `team_status`, `team_list`,
//! `team_tasks`. Every team tool names its team; an unknown team is refused
//! with a hint to create it first.

use vstd::prelude::*;

use super::registry::TeamRegistry;
use super::task_board::{
    after_done, count_status, Priority, Task, TaskBoardSummary, TaskId, TaskStatus,
};
use super::team::{deliver, live_count, Team};
use crate::agent::tools::ToolError;
use crate::extras::subagent::registry::{AgentModel, SubagentError};
use crate::extras::subagent::tools::{flag_str, name_taken, name_taken_text, preset_flag};
use crate::extras::subagent::{SubagentId, SubagentRegistry};
use crate::text::{
    dec_text, ends_with, join, lemma_join_push, lemma_join_starts_with_first, push_decimal, push_part, starts_with,
    str_eq,
};

verus! {

/// Arguments of `team_create`.
pub struct TeamCreateArgs {
    pub team: String,
}

/// Arguments of `team_spawn`.
pub struct TeamSpawnArgs {
    pub team: String,
    pub name: String,
    pub prompt: String,
    pub readonly: bool,
    pub no_tools: bool,
}

/// Arguments of `team_disband`.
pub struct TeamDisbandArgs {
    pub team: String,
}

/// Arguments of `agent_message`.
pub struct AgentMessageArgs {
    pub name: String,
    pub message: String,
}

/// Arguments of `team_message`.
pub struct TeamMessageArgs {
    pub team: String,
    pub message: String,
}

/// Arguments of `team_status`.
pub struct TeamStatusArgs {
    pub team: String,
}

/// Arguments of `team_list`.
pub struct TeamListArgs {}

/// Arguments of `team_tasks`.
pub struct TeamTasksArgs {
    pub team: String,
    /// "add", "done", or "list"
    pub action: String,
    /// Task content (for "add")
    pub content: Option<String>,
    /// Priority: "high", "medium", or "low" (for "add"; defaults to "medium")
    pub priority: Option<String>,
    /// Task id (for "done")
    pub id: Option<u32>,
}

/// The refusal for a team name that is not registered.
pub open spec fn team_missing_text(team: Seq<char>) -> Seq<char> {
    "team '"@ + team + "' not found — use team_create first"@
}

fn missing_team(team: &str) -> (e: ToolError)
    ensures
        e.text() == team_missing_text(team@),
{
    let mut s = String::from_str("team '");
    s.append(team);
    s.append("' not found — use team_create first");
    ToolError::Msg(s)
}

/// Lead-only tool: create a new named team.
pub fn team_create(teams: &mut TeamRegistry, args: TeamCreateArgs) -> (r: Result<String, ToolError>)
    requires
        old(teams).wf(),
    ensures
        final(teams).wf(),
        final(teams).spec_retired() == old(teams).spec_retired(),
        old(teams).spec_teams().dom().contains(args.team@) || old(teams).spec_retired().contains(args.team@) ==> {
            &&& r matches Err(e) && e.text() == "team '"@ + args.team@ + "' already exists"@
            &&& final(teams).spec_teams() == old(teams).spec_teams()
        },
        !old(teams).spec_teams().dom().contains(args.team@) && !old(teams).spec_retired().contains(args.team@) ==> {
            &&& r matches Ok(s) && s@ == "team '"@ + args.team@ + "' created"@
            &&& final(teams).spec_teams().dom() == old(teams).spec_teams().dom().insert(args.team@)
            &&& forall|n: Seq<char>|
                n != args.team@ && #[trigger] old(teams).spec_teams().dom().contains(n) ==> final(teams).spec_teams()[n] == old(teams).spec_teams()[n]
            &&& final(teams).spec_teams()[args.team@].spec_members().len() == 0
            &&& final(teams).spec_teams()[args.team@].spec_board().spec_tasks().len() == 0
        },
{
    let name = args.team;
    match teams.create(name.clone()) {
        Ok(()) => {
            let mut s = String::from_str("team '");
            s.append(name.as_str());
            s.append("' created");
            Ok(s)
        },
        Err(e) => Err(ToolError::Msg(e.message())),
    }
}

/// Lead-only tool: check that a subagent can be spawned into a team and
/// answer with the slash command that spawns it. Spawning itself needs the
/// UI loop's full builder context, so the lead issues that command.
pub fn team_spawn(teams: &TeamRegistry, agents: &SubagentRegistry, args: TeamSpawnArgs) -> (r: Result<
    String,
    ToolError,
>)
    requires
        teams.wf(),
        agents.wf(),
    ensures
        !teams.spec_teams().dom().contains(args.team@) ==> (r matches Err(e) && e.text()
            == team_missing_text(args.team@)),
        teams.spec_teams().dom().contains(args.team@) && agents.spec_names().dom().contains(args.name@)
            ==> (r matches Err(e) && e.text() == name_taken_text(args.name@)),
        teams.spec_teams().dom().contains(args.team@) && !agents.spec_names().dom().contains(args.name@)
            ==> (r matches Ok(s) && s@ == "To spawn subagent '"@ + args.name@ + "' into team '"@
            + args.team@ + "': use `/team spawn "@ + args.team@ + " "@ + args.name@ + preset_flag(
            args.no_tools,
            args.readonly,
        ) + " "@ + args.prompt@ + "`"@),
{
    if teams.get(args.team.as_str()).is_none() {
        return Err(missing_team(args.team.as_str()));
    }
    if agents.id_by_name(args.name.as_str()).is_some() {
        return Err(name_taken(args.name.as_str()));
    }
    let flag = flag_str(args.no_tools, args.readonly);
    let mut s = String::from_str("To spawn subagent '");
    s.append(args.name.as_str());
    s.append("' into team '");
    s.append(args.team.as_str());
    s.append("': use `/team spawn ");
    s.append(args.team.as_str());
    s.append(" ");
    s.append(args.name.as_str());
    s.append(flag);
    s.append(" ");
    s.append(args.prompt.as_str());
    s.append("`");
    Ok(s)
}

/// Shared tool: send a message to a single named subagent's inbox.
pub fn agent_message(agents: &mut SubagentRegistry, args: AgentMessageArgs) -> (r: Result<
    String,
    ToolError,
>)
    requires
        old(agents).wf(),
    ensures
        final(agents).wf(),
        final(agents).spec_names() == old(agents).spec_names(),
        final(agents).spec_next_id() == old(agents).spec_next_id(),
        !old(agents).spec_names().dom().contains(args.name@) ==> {
            &&& r matches Err(e) && e.text() == "subagent '"@ + args.name@ + "' not found"@
            &&& final(agents).spec_agents() == old(agents).spec_agents()
        },
        old(agents).spec_names().dom().contains(args.name@) && !old(agents).spec_agents().dom().contains(
            old(agents).spec_names()[args.name@].0,
        ) ==> {
            &&& r matches Err(e) && e.text() == SubagentError::NotFound(old(agents).spec_names()[args.name@]).text()
            &&& final(agents).spec_agents() == old(agents).spec_agents()
        },
        old(agents).spec_names().dom().contains(args.name@) && old(agents).spec_agents().dom().contains(
            old(agents).spec_names()[args.name@].0,
        ) ==> {
            let id = old(agents).spec_names()[args.name@].0;
            &&& r matches Ok(s) && s@ == "message sent to '"@ + args.name@ + "'"@
            &&& final(agents).spec_agents() == old(agents).spec_agents().insert(
                id,
                AgentModel {
                    inbox: old(agents).spec_agents()[id].inbox.push(args.message),
                    ..old(agents).spec_agents()[id]
                },
            )
        },
{
    let id = match agents.id_by_name(args.name.as_str()) {
        Some(id) => id,
        None => {
            let mut s = String::from_str("subagent '");
            s.append(args.name.as_str());
            s.append("' not found");
            return Err(ToolError::Msg(s));
        },
    };
    match agents.send_message(id, args.message) {
        Ok(()) => {
            let mut s = String::from_str("message sent to '");
            s.append(args.name.as_str());
            s.append("'");
            Ok(s)
        },
        Err(e) => Err(ToolError::Msg(e.message())),
    }
}

/// Shared tool: send a message to all members of a named team.
pub fn team_message(teams: &TeamRegistry, agents: &mut SubagentRegistry, args: TeamMessageArgs) -> (r:
    Result<String, ToolError>)
    requires
        teams.wf(),
        old(agents).wf(),
    ensures
        final(agents).wf(),
        final(agents).spec_names() == old(agents).spec_names(),
        final(agents).spec_next_id() == old(agents).spec_next_id(),
        !teams.spec_teams().dom().contains(args.team@) ==> {
            &&& r matches Err(e) && e.text() == team_missing_text(args.team@)
            &&& final(agents).spec_agents() == old(agents).spec_agents()
        },
        teams.spec_teams().dom().contains(args.team@) ==> {
            let members = teams.spec_teams()[args.team@].spec_members();
            &&& r matches Ok(s) && s@ == "message delivered to "@ + dec_text(
                live_count(old(agents).spec_agents(), members),
            ) + " member(s) of team '"@ + args.team@ + "'"@
            &&& final(agents).spec_agents() == deliver(old(agents).spec_agents(), members, args.message)
        },
{
    let team = match teams.get(args.team.as_str()) {
        Some(t) => t,
        None => return Err(missing_team(args.team.as_str())),
    };
    let delivered = team.message(agents, args.message);
    let mut s = String::from_str("message delivered to ");
    push_decimal(&mut s, delivered as u64);
    s.append(" member(s) of team '");
    s.append(args.team.as_str());
    s.append("'");
    Ok(s)
}

/// Shared tool: list all teams by name.
pub fn team_list(teams: &TeamRegistry, args: TeamListArgs) -> (r: Result<String, ToolError>)
    requires
        teams.wf(),
    ensures
        teams.spec_team_names().len() == 0 ==> (r matches Ok(s) && s@ == "no teams"@),
        teams.spec_team_names().len() > 0 ==> (r matches Ok(s) && s@ == dec_text(
            teams.spec_team_names().len(),
        ) + " team(s): "@ + join(teams.spec_team_names().map_values(|n: String| n@), ", "@)),
{
    let names = teams.list();
    if names.len() == 0 {
        return Ok(String::from_str("no teams"));
    }
    let ghost parts = names@.map_values(|n: String| n@);
    let mut joined = String::new();
    let mut i: usize = 0;
    while i < names.len()
        invariant
            i <= names@.len(),
            parts == names@.map_values(|n: String| n@),
            joined@ == join(parts.take(i as int), ", "@),
        decreases names@.len() - i,
    {
        proof {
            assert(parts.take(i + 1) =~= parts.take(i as int).push(parts[i as int]));
            lemma_join_push(parts.take(i as int), ", "@, parts[i as int]);
        }
        push_part(&mut joined, i, ", ", names[i].as_str());
        i += 1;
    }
    assert(parts.take(names@.len() as int) =~= parts);
    let mut s = String::new();
    push_decimal(&mut s, names.len() as u64);
    s.append(" team(s): ");
    s.append(joined.as_str());
    Ok(s)
}


/// `agents` without the subagents of `ids`.
pub open spec fn without_agents(agents: Map<u32, AgentModel>, ids: Seq<SubagentId>) -> Map<u32, AgentModel> {
    Map::new(|k: u32| agents.dom().contains(k) && !ids.contains(SubagentId(k)), |k: u32| agents[k])
}

/// Lead-only tool: stop every member of a named team and remove the team.
/// The members' names stay taken (stopping keeps them for history).
pub fn team_disband(teams: &mut TeamRegistry, agents: &mut SubagentRegistry, args: TeamDisbandArgs) -> (r:
    Result<String, ToolError>)
    requires
        old(teams).wf(),
        old(agents).wf(),
    ensures
        final(teams).wf(),
        final(agents).wf(),
        final(agents).spec_next_id() == old(agents).spec_next_id(),
        !old(teams).spec_teams().dom().contains(args.team@) ==> {
            &&& r matches Err(e) && e.text() == team_missing_text(args.team@)
            &&& final(teams).spec_teams() == old(teams).spec_teams()
            &&& final(teams).spec_retired() == old(teams).spec_retired()
            &&& final(agents).spec_agents() == old(agents).spec_agents()
            &&& final(agents).spec_names() == old(agents).spec_names()
        },
        old(teams).spec_teams().dom().contains(args.team@) ==> {
            let members = old(teams).spec_teams()[args.team@].spec_members();
            &&& r matches Ok(s) && s@ == "disbanded team '"@ + args.team@ + "': stopped "@ + dec_text(
                members.len(),
            ) + " member(s)"@
            &&& final(teams).spec_teams() == old(teams).spec_teams().remove(args.team@)
            &&& final(teams).spec_retired() == old(teams).spec_retired().insert(args.team@)
            &&& final(agents).spec_agents() == without_agents(old(agents).spec_agents(), members)
            &&& final(agents).spec_names() == old(agents).spec_names()
        },
{
    let team = match teams.get(args.team.as_str()) {
        Some(t) => t,
        None => return Err(missing_team(args.team.as_str())),
    };
    let member_ids = team.members();
    let count = member_ids.len();
    let ghost members = member_ids@;
    let ghost start = agents.spec_agents();
    let ghost start_names = agents.spec_names();
    let mut i: usize = 0;
    proof {
        assert(without_agents(start, members.take(0)) =~= start);
    }
    while i < member_ids.len()
        invariant
            members == member_ids@,
            i <= members.len(),
            agents.wf(),
            agents.spec_next_id() == old(agents).spec_next_id(),
            start == old(agents).spec_agents(),
            start_names == old(agents).spec_names(),
            agents.spec_agents() == without_agents(start, members.take(i as int)),
            agents.spec_names() == start_names,
        decreases members.len() - i,
    {
        let id = member_ids[i];
        // Stopping never fails: an unknown id is left alone.
        let _ = agents.stop(id);
        proof {
            let prev = members.take(i as int);
            let next = members.take(i + 1);
            assert forall|m: SubagentId| #[trigger] next.contains(m) <==> prev.contains(m) || m == id by {
                if next.contains(m) {
                    let j = choose|j: int| 0 <= j < next.len() && next[j] == m;
                    if j < i {
                        assert(prev[j] == m);
                    }
                }
                if prev.contains(m) {
                    let j = choose|j: int| 0 <= j < prev.len() && prev[j] == m;
                    assert(next[j] == m);
                }
                if m == id {
                    assert(next[i as int] == m);
                }
            }
            assert(agents.spec_agents() =~= without_agents(start, next));
        }
        i += 1;
    }
    proof {
        assert(members.take(members.len() as int) =~= members);
    }
    match teams.remove(args.team.as_str()) {
        Ok(()) => {},
        Err(e) => return Err(ToolError::Msg(e.message())),
    }
    let mut s = String::from_str("disbanded team '");
    s.append(args.team.as_str());
    s.append("': stopped ");
    push_decimal(&mut s, count as u64);
    s.append(" member(s)");
    Ok(s)
}

/// The status line of one member.
pub open spec fn member_line(id: SubagentId, a: AgentModel) -> Seq<char> {
    "  ["@ + dec_text(id.0 as nat) + "] "@ + a.name + " — "@ + a.status.text()
}

/// The status lines of the members that are live subagents, in member order.
pub open spec fn member_lines(members: Seq<SubagentId>, agents: Map<u32, AgentModel>) -> Seq<Seq<char>>
    decreases members.len(),
{
    if members.len() == 0 {
        Seq::empty()
    } else {
        let rest = member_lines(members.drop_last(), agents);
        let m = members.last();
        if agents.dom().contains(m.0) {
            rest.push(member_line(m, agents[m.0]))
        } else {
            rest
        }
    }
}

/// `team_status` lists exactly the live members, one line each, in member
/// order: a live member gives its own line, one that is not live gives
/// none, and the lines of two runs of members are those of the first
/// followed by those of the second.
pub proof fn law_member_lines_list_live_members(
    a: Seq<SubagentId>,
    b: Seq<SubagentId>,
    m: SubagentId,
    agents: Map<u32, AgentModel>,
)
    ensures
        member_lines(seq![m], agents) == if agents.dom().contains(m.0) {
            seq![member_line(m, agents[m.0])]
        } else {
            Seq::<Seq<char>>::empty()
        },
        member_lines(a + b, agents) == member_lines(a, agents) + member_lines(b, agents),
        member_lines(a, agents).len() <= a.len(),
    decreases b.len(),
{
    assert(seq![m].drop_last() =~= Seq::<SubagentId>::empty());
    assert(member_lines(Seq::<SubagentId>::empty(), agents) == Seq::<Seq<char>>::empty());
    if agents.dom().contains(m.0) {
        assert(member_lines(seq![m], agents) =~= seq![member_line(m, agents[m.0])]);
    }
    if b.len() == 0 {
        assert(a + b =~= a);
        assert(member_lines(a, agents) + member_lines(b, agents) =~= member_lines(a, agents));
    } else {
        law_member_lines_list_live_members(a, b.drop_last(), m, agents);
        assert((a + b).drop_last() =~= a + b.drop_last());
        assert((a + b).last() == b.last());
        let x = b.last();
        if agents.dom().contains(x.0) {
            assert(member_lines(a, agents) + member_lines(b.drop_last(), agents).push(member_line(x, agents[x.0]))
                =~= (member_lines(a, agents) + member_lines(b.drop_last(), agents)).push(member_line(x, agents[x.0])));
        }
    }
    lemma_member_lines_len(a, agents);
}

proof fn lemma_member_lines_len(a: Seq<SubagentId>, agents: Map<u32, AgentModel>)
    ensures
        member_lines(a, agents).len() <= a.len(),
    decreases a.len(),
{
    if a.len() > 0 {
        lemma_member_lines_len(a.drop_last(), agents);
    }
}

/// The `team_tasks` list of an empty board says so; otherwise it starts
/// with the header (the counts) and shows each task on a line of its own,
/// in id order: the list of a board with one more task is the list's lines
/// with that task's line after them.
pub proof fn law_task_list_shows_every_task(team: Seq<char>, tasks: Seq<Task>, t: Task)
    ensures
        task_list_text(team, Seq::<Task>::empty()) == "no tasks in team '"@ + team + "'"@,
        starts_with(task_list_text(team, tasks.push(t)), task_list_header(team, tasks.push(t))),
        ends_with(task_list_text(team, tasks.push(t)), "\n"@ + task_line(t)),
{
    reveal(task_list_text);
    let all = tasks.push(t);
    let parts = seq![task_list_header(team, all)] + Seq::new(all.len(), |i: int| task_line(all[i]));
    assert(parts.drop_last() =~= seq![task_list_header(team, all)] + Seq::new(tasks.len(), |i: int| task_line(all[i])));
    assert(parts.last() == task_line(t));
    lemma_join_push(parts.drop_last(), "\n"@, task_line(t));
    assert(parts.drop_last().push(task_line(t)) =~= parts);
    let text = task_list_text(team, all);
    let tail = "\n"@ + task_line(t);
    assert(text == join(parts.drop_last(), "\n"@) + tail);
    assert(text.subrange(text.len() - tail.len(), text.len() as int) =~= tail);
    lemma_join_starts_with_first(parts, "\n"@);
}

/// The task line of `team_status`.
pub open spec fn status_tasks_line(tasks: Seq<Task>) -> Seq<char> {
    "tasks: "@ + dec_text(count_status(tasks, TaskStatus::Done)) + "/"@ + dec_text(tasks.len())
        + " done, "@ + dec_text(count_status(tasks, TaskStatus::Pending)) + " pending, "@ + dec_text(
        count_status(tasks, TaskStatus::Blocked),
    ) + " blocked"@
}

/// The answer of `team_status`: a header, one line per live member, and the
/// task counts.
pub open spec fn status_text(team: Seq<char>, t: Team, agents: Map<u32, AgentModel>) -> Seq<char> {
    join(
        seq!["team '"@ + team + "' ("@ + dec_text(t.spec_members().len()) + " members):"@]
            + member_lines(t.spec_members(), agents)
            + seq![status_tasks_line(t.spec_board().spec_tasks())],
        "\n"@,
    )
}

/// Shared tool: a snapshot of a named team's members and task board.
pub fn team_status(teams: &TeamRegistry, agents: &SubagentRegistry, args: TeamStatusArgs) -> (r:
    Result<String, ToolError>)
    requires
        teams.wf(),
        agents.wf(),
    ensures
        !teams.spec_teams().dom().contains(args.team@) ==> (r matches Err(e) && e.text()
            == team_missing_text(args.team@)),
        teams.spec_teams().dom().contains(args.team@) ==> (r matches Ok(s) && s@ == status_text(
            args.team@,
            teams.spec_teams()[args.team@],
            agents.spec_agents(),
        )),
{
    let team = match teams.get(args.team.as_str()) {
        Some(t) => t,
        None => return Err(missing_team(args.team.as_str())),
    };
    let summary = team.task_board_summary();
    let members = team.members();
    let ghost ms = members@;
    let ghost header = "team '"@ + args.team@ + "' ("@ + dec_text(ms.len()) + " members):"@;
    let mut s = String::from_str("team '");
    s.append(args.team.as_str());
    s.append("' (");
    push_decimal(&mut s, members.len() as u64);
    s.append(" members):");
    assert(s@ =~= join(seq![header], "\n"@));
    let mut i: usize = 0;
    while i < members.len()
        invariant
            agents.wf(),
            ms == members@,
            i <= ms.len(),
            s@ == join(seq![header] + member_lines(ms.take(i as int), agents.spec_agents()), "\n"@),
        decreases ms.len() - i,
    {
        let id = members[i];
        let ghost prev = seq![header] + member_lines(ms.take(i as int), agents.spec_agents());
        proof {
            assert(ms.take(i + 1).drop_last() =~= ms.take(i as int));
        }
        match (agents.name(id), agents.state(id)) {
            (Some(name), Some(state)) => {
                let mut line = String::from_str("  [");
                push_decimal(&mut line, id.0 as u64);
                line.append("] ");
                line.append(name.as_str());
                line.append(" — ");
                let st = state.status.to_string();
                line.append(st.as_str());
                proof {
                    assert(line@ =~= member_line(id, agents.spec_agents()[id.0]));
                    assert(seq![header] + member_lines(ms.take(i + 1), agents.spec_agents()) =~= prev.push(line@));
                    lemma_join_push(prev, "\n"@, line@);
                }
                push_part(&mut s, 1, "\n", line.as_str());
            },
            _ => {
                proof {
                    assert(seq![header] + member_lines(ms.take(i + 1), agents.spec_agents()) =~= prev);
                }
            },
        }
        i += 1;
    }
    let ghost before = seq![header] + member_lines(ms, agents.spec_agents());
    proof {
        assert(ms.take(ms.len() as int) =~= ms);
    }
    let mut last = String::from_str("tasks: ");
    push_decimal(&mut last, summary.done as u64);
    last.append("/");
    push_decimal(&mut last, summary.total as u64);
    last.append(" done, ");
    push_decimal(&mut last, summary.pending as u64);
    last.append(" pending, ");
    push_decimal(&mut last, summary.blocked as u64);
    last.append(" blocked");
    proof {
        assert(last@ =~= status_tasks_line(team.spec_board().spec_tasks()));
        lemma_join_push(before, "\n"@, last@);
        assert(before.push(last@) =~= seq![header] + member_lines(ms, agents.spec_agents()) + seq![last@]);
    }
    push_part(&mut s, 1, "\n", last.as_str());
    Ok(s)
}


/// The priority a `team_tasks` "add" asks for: "high" and "low" by name,
/// anything else (and no priority) is medium.
pub open spec fn parse_priority(p: Option<String>) -> Priority {
    match p {
        Some(s) => if s@ == "high"@ {
            Priority::High
        } else if s@ == "low"@ {
            Priority::Low
        } else {
            Priority::Medium
        },
        None => Priority::Medium,
    }
}

/// The priority `team_tasks` gives a new task: medium when none is given,
/// high or low only when asked for by exactly that word, and medium for any
/// other word.
pub proof fn law_task_priority_defaults_to_medium(p: String)
    ensures
        parse_priority(None) == Priority::Medium,
        (parse_priority(Some(p)) == Priority::High) <==> p@ == "high"@,
        (parse_priority(Some(p)) == Priority::Low) <==> p@ == "low"@,
        (parse_priority(Some(p)) == Priority::Medium) <==> p@ != "high"@ && p@ != "low"@,
{
    reveal_strlit("high");
    reveal_strlit("low");
    assert("high"@.len() != "low"@.len());
}

/// One line of the `team_tasks` "list" answer.
pub open spec fn task_line(t: Task) -> Seq<char> {
    "  ["@ + dec_text(t.id.0 as nat) + "] "@ + t.content@ + " — "@ + t.status.text() + " ("@
        + t.priority.text() + ")"@
}

/// The header of the `team_tasks` "list" answer.
pub open spec fn task_list_header(team: Seq<char>, tasks: Seq<Task>) -> Seq<char> {
    "team '"@ + team + "' tasks: "@ + dec_text(tasks.len()) + " total, "@ + dec_text(
        count_status(tasks, TaskStatus::Done),
    ) + " done, "@ + dec_text(count_status(tasks, TaskStatus::Pending)) + " pending, "@ + dec_text(
        count_status(tasks, TaskStatus::Blocked),
    ) + " blocked, "@ + dec_text(count_status(tasks, TaskStatus::InProgress)) + " in_progress"@
}

/// The `team_tasks` "list" answer.
#[verifier::opaque]
pub open spec fn task_list_text(team: Seq<char>, tasks: Seq<Task>) -> Seq<char> {
    if tasks.len() == 0 {
        "no tasks in team '"@ + team + "'"@
    } else {
        join(
            seq![task_list_header(team, tasks)] + Seq::new(tasks.len(), |i: int| task_line(tasks[i])),
            "\n"@,
        )
    }
}

/// The refusal for an unknown `team_tasks` action.
pub open spec fn unknown_action_text(action: Seq<char>) -> Seq<char> {
    "unknown action '"@ + action + "' — use 'add', 'done', or 'list'"@
}

/// `new` is `old` with only the team `name` changed.
pub open spec fn only_team_changed(old: Map<Seq<char>, Team>, new: Map<Seq<char>, Team>, name: Seq<char>) -> bool {
    &&& new.dom() == old.dom()
    &&& forall|n: Seq<char>| n != name && #[trigger] old.dom().contains(n) ==> new[n] == old[n]
}

fn priority_of(p: &Option<String>) -> (r: Priority)
    ensures
        r == parse_priority(*p),
{
    match p {
        Some(s) => if str_eq(s.as_str(), "high") {
            Priority::High
        } else if str_eq(s.as_str(), "low") {
            Priority::Low
        } else {
            Priority::Medium
        },
        None => Priority::Medium,
    }
}

fn list_tasks_text(team_name: &str, team: &Team) -> (r: String)
    requires
        team.wf(),
    ensures
        r@ == task_list_text(team_name@, team.spec_board().spec_tasks()),
{
    reveal(task_list_text);
    let tasks = team.list_tasks();
    let summary: TaskBoardSummary = team.task_board_summary();
    let ghost all = team.spec_board().spec_tasks();
    if tasks.len() == 0 {
        let mut s = String::from_str("no tasks in team '");
        s.append(team_name);
        s.append("'");
        return s;
    }
    let mut s = String::from_str("team '");
    s.append(team_name);
    s.append("' tasks: ");
    push_decimal(&mut s, summary.total as u64);
    s.append(" total, ");
    push_decimal(&mut s, summary.done as u64);
    s.append(" done, ");
    push_decimal(&mut s, summary.pending as u64);
    s.append(" pending, ");
    push_decimal(&mut s, summary.blocked as u64);
    s.append(" blocked, ");
    push_decimal(&mut s, summary.in_progress as u64);
    s.append(" in_progress");
    let ghost header = task_list_header(team_name@, all);
    let ghost lines = Seq::new(all.len(), |i: int| task_line(all[i]));
    assert(s@ =~= join(seq![header], "\n"@));
    let mut i: usize = 0;
    while i < tasks.len()
        invariant
            tasks@.len() == all.len(),
            forall|j: int| 0 <= j < tasks@.len() ==> *#[trigger] tasks@[j] == all[j],
            lines == Seq::new(all.len(), |i: int| task_line(all[i])),
            i <= all.len(),
            s@ == join(seq![header] + lines.take(i as int), "\n"@),
        decreases all.len() - i,
    {
        let t = tasks[i];
        let mut line = String::from_str("  [");
        push_decimal(&mut line, t.id.0 as u64);
        line.append("] ");
        line.append(t.content.as_str());
        line.append(" — ");
        let st = t.status.to_string();
        line.append(st.as_str());
        line.append(" (");
        let pr = t.priority.to_string();
        line.append(pr.as_str());
        line.append(")");
        proof {
            assert(line@ =~= task_line(all[i as int]));
            let prev = seq![header] + lines.take(i as int);
            assert(seq![header] + lines.take(i + 1) =~= prev.push(line@));
            lemma_join_push(prev, "\n"@, line@);
        }
        push_part(&mut s, 1, "\n", line.as_str());
        i += 1;
    }
    assert(lines.take(all.len() as int) =~= lines);
    s
}

/// The "add" action of `team_tasks` on one team.
fn tasks_add(team: &mut Team, team_name: &str, content: Option<String>, priority: &Option<String>) -> (r:
    Result<String, ToolError>)
    requires
        old(team).wf(),
        content is Some ==> old(team).spec_board().spec_next_id() < u32::MAX,
    ensures
        final(team).wf(),
        final(team).spec_members() == old(team).spec_members(),
        match content {
            None => {
                &&& r matches Err(e) && e.text() == "'add' requires 'content'"@
                &&& *final(team) == *old(team)
            },
            Some(c) => {
                let board = old(team).spec_board();
                let after = final(team).spec_board();
                let id = board.spec_next_id();
                &&& r matches Ok(s) && s@ == "task "@ + dec_text(id as nat) + " added to team '"@
                    + team_name@ + "'"@
                &&& after.spec_next_id() == id + 1
                &&& after.spec_tasks().len() == board.spec_tasks().len() + 1
                &&& after.spec_tasks().take(board.spec_tasks().len() as int) == board.spec_tasks()
                &&& after.spec_tasks().last().id == TaskId(id)
                &&& after.spec_tasks().last().content == c
                &&& after.spec_tasks().last().priority == parse_priority(*priority)
                &&& after.spec_tasks().last().status == TaskStatus::Pending
                &&& after.spec_tasks().last().depends_on@.len() == 0
            },
        },
{
    match content {
        None => Err(ToolError::Msg(String::from_str("'add' requires 'content'"))),
        Some(content) => {
            let ghost old_tasks = team.spec_board().spec_tasks();
            let p = priority_of(priority);
            let task_id = team.add_task(content, p, Vec::new());
            proof {
                assert(team.spec_board().spec_tasks().take(old_tasks.len() as int) =~= old_tasks);
            }
            let mut s = String::from_str("task ");
            push_decimal(&mut s, task_id.0 as u64);
            s.append(" added to team '");
            s.append(team_name);
            s.append("'");
            Ok(s)
        },
    }
}

/// The "done" action of `team_tasks` on one team.
fn tasks_done(team: &mut Team, id: Option<u32>) -> (r: Result<String, ToolError>)
    requires
        old(team).wf(),
    ensures
        final(team).wf(),
        final(team).spec_members() == old(team).spec_members(),
        match id {
            None => {
                &&& r matches Err(e) && e.text() == "'done' requires 'id'"@
                &&& *final(team) == *old(team)
            },
            Some(k) => {
                let board = old(team).spec_board();
                let after = final(team).spec_board();
                &&& after.spec_next_id() == board.spec_next_id()
                &&& board.has_task(k) ==> {
                    &&& r matches Ok(s) && s@ == "task "@ + dec_text(k as nat) + " marked done"@
                    &&& after.spec_tasks() == after_done(board.spec_tasks(), board.first_id(), k)
                }
                &&& !board.has_task(k) ==> {
                    &&& r matches Err(e) && e.text() == "task "@ + dec_text(k as nat) + " not found"@
                    &&& after.spec_tasks() == board.spec_tasks()
                }
            },
        },
{
    match id {
        None => Err(ToolError::Msg(String::from_str("'done' requires 'id'"))),
        Some(k) => match team.mark_task_done(TaskId(k)) {
            Ok(()) => {
                let mut s = String::from_str("task ");
                push_decimal(&mut s, k as u64);
                s.append(" marked done");
                Ok(s)
            },
            Err(e) => Err(ToolError::Msg(e.message())),
        },
    }
}

/// Shared tool: manage a named team's task board. Actions: "add" (needs
/// content; priority high/medium/low, medium by default), "done" (needs an
/// id), "list".
pub fn team_tasks(teams: &mut TeamRegistry, args: TeamTasksArgs) -> (r: Result<String, ToolError>)
    requires
        old(teams).wf(),
        old(teams).spec_teams().dom().contains(args.team@) && args.action@ == "add"@ && args.content is Some
            ==> old(teams).spec_teams()[args.team@].spec_board().spec_next_id() < u32::MAX,
    ensures
        final(teams).wf(),
        final(teams).spec_retired() == old(teams).spec_retired(),
        !old(teams).spec_teams().dom().contains(args.team@) ==> {
            &&& r matches Err(e) && e.text() == team_missing_text(args.team@)
            &&& final(teams).spec_teams() == old(teams).spec_teams()
        },
        old(teams).spec_teams().dom().contains(args.team@) ==> {
            let before = old(teams).spec_teams()[args.team@];
            let after = final(teams).spec_teams()[args.team@];
            let board = before.spec_board();
            &&& only_team_changed(old(teams).spec_teams(), final(teams).spec_teams(), args.team@)
            &&& after.spec_members() == before.spec_members()
            &&& args.action@ == "add"@ ==> match args.content {
                None => {
                    &&& r matches Err(e) && e.text() == "'add' requires 'content'"@
                    &&& after == before
                },
                Some(c) => {
                    let id = board.spec_next_id();
                    &&& r matches Ok(s) && s@ == "task "@ + dec_text(id as nat) + " added to team '"@
                        + args.team@ + "'"@
                    &&& after.spec_board().spec_next_id() == id + 1
                    &&& after.spec_board().spec_tasks().len() == board.spec_tasks().len() + 1
                    &&& after.spec_board().spec_tasks().take(board.spec_tasks().len() as int)
                        == board.spec_tasks()
                    &&& after.spec_board().spec_tasks().last().id == TaskId(id)
                    &&& after.spec_board().spec_tasks().last().content == c
                    &&& after.spec_board().spec_tasks().last().priority == parse_priority(
                        args.priority,
                    )
                    &&& after.spec_board().spec_tasks().last().status == TaskStatus::Pending
                    &&& after.spec_board().spec_tasks().last().depends_on@.len() == 0
                },
            }
            &&& args.action@ == "done"@ ==> match args.id {
                None => {
                    &&& r matches Err(e) && e.text() == "'done' requires 'id'"@
                    &&& after == before
                },
                Some(k) => if board.has_task(k) {
                    &&& r matches Ok(s) && s@ == "task "@ + dec_text(k as nat) + " marked done"@
                    &&& after.spec_board().spec_next_id() == board.spec_next_id()
                    &&& after.spec_board().spec_tasks() == after_done(
                        board.spec_tasks(),
                        board.first_id(),
                        k,
                    )
                } else {
                    &&& r matches Err(e) && e.text() == "task "@ + dec_text(k as nat) + " not found"@
                    &&& after.spec_board().spec_next_id() == board.spec_next_id()
                    &&& after.spec_board().spec_tasks() == board.spec_tasks()
                },
            }
            &&& args.action@ == "list"@ ==> {
                &&& r matches Ok(s) && s@ == task_list_text(args.team@, board.spec_tasks())
                &&& after == before
            }
            &&& args.action@ != "add"@ && args.action@ != "done"@ && args.action@ != "list"@ ==> {
                &&& r matches Err(e) && e.text() == unknown_action_text(args.action@)
                &&& after == before
            }
        },
{
    proof {
        reveal_strlit("add");
        reveal_strlit("done");
        reveal_strlit("list");
        assert("add"@.len() == 3);
        assert("done"@.len() == 4);
        assert("list"@.len() == 4);
        assert("done"@ != "add"@);
        assert("list"@ != "add"@);
        assert("list"@[0] != "done"@[0]);
        assert("list"@ != "done"@);
    }
    let mut team = Team::new();
    if !teams.swap_team(args.team.as_str(), &mut team) {
        return Err(missing_team(args.team.as_str()));
    }
    let ghost before = team;
    let r = if str_eq(args.action.as_str(), "add") {
        tasks_add(&mut team, args.team.as_str(), args.content, &args.priority)
    } else if str_eq(args.action.as_str(), "done") {
        tasks_done(&mut team, args.id)
    } else if str_eq(args.action.as_str(), "list") {
        Ok(list_tasks_text(args.team.as_str(), &team))
    } else {
        let mut s = String::from_str("unknown action '");
        s.append(args.action.as_str());
        s.append("' — use 'add', 'done', or 'list'");
        Err(ToolError::Msg(s))
    };
    let ghost mid = teams.spec_teams();
    let ghost after = team;
    let _ = teams.swap_team(args.team.as_str(), &mut team);
    proof {
        assert(teams.spec_teams().dom() =~= old(teams).spec_teams().dom());
        assert(teams.spec_teams()[args.team@] == after);
        assert(only_team_changed(old(teams).spec_teams(), teams.spec_teams(), args.team@));
        assert(after.spec_members() == before.spec_members());
    }
    r
}

} // verus!
