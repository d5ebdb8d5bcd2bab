use zagent::agent::tools::ToolError;
use zagent::extras::subagent::handle::SubagentInner;
use zagent::extras::subagent::{SubagentId, SubagentRegistry, SubagentStatus};
use zagent::extras::teams::registry::TeamRegistry;
use zagent::extras::teams::team::Team;
use zagent::extras::teams::tools::{
    agent_message, team_create, team_disband, team_list, team_message, team_spawn, team_status,
    team_tasks, AgentMessageArgs, TeamCreateArgs, TeamDisbandArgs, TeamListArgs, TeamMessageArgs,
    TeamSpawnArgs, TeamStatusArgs, TeamTasksArgs,
};

fn msg(r: Result<String, ToolError>) -> String {
    match r {
        Ok(s) => s,
        Err(ToolError::Msg(m)) => format!("ERR {}", m),
    }
}

fn spawn(reg: &mut SubagentRegistry, name: &str) -> SubagentId {
    let id = reg.allocate_id(name).unwrap();
    reg.insert(id, name.to_string(), SubagentInner::spawned());
    id
}

fn tasks(teams: &mut TeamRegistry, action: &str, content: Option<&str>, priority: Option<&str>, id: Option<u32>) -> String {
    msg(team_tasks(
        teams,
        TeamTasksArgs {
            team: "core".to_string(),
            action: action.to_string(),
            content: content.map(|s| s.to_string()),
            priority: priority.map(|s| s.to_string()),
            id,
        },
    ))
}

fn team_with(teams: &mut TeamRegistry, agents: &SubagentRegistry, name: &str, members: &[SubagentId]) {
    teams.create(name.to_string()).unwrap();
    let mut t = Team::new();
    assert!(teams.swap_team(name, &mut t));
    for m in members {
        t.add_member(agents, *m);
    }
    assert!(teams.swap_team(name, &mut t));
}

#[test]
fn create_and_list_teams() {
    let mut teams = TeamRegistry::new();
    assert_eq!(msg(team_list(&teams, TeamListArgs {})), "no teams");
    assert_eq!(msg(team_create(&mut teams, TeamCreateArgs { team: "core".to_string() })), "team 'core' created");
    assert_eq!(
        msg(team_create(&mut teams, TeamCreateArgs { team: "core".to_string() })),
        "ERR team 'core' already exists"
    );
    team_create(&mut teams, TeamCreateArgs { team: "docs".to_string() }).unwrap();
    assert_eq!(msg(team_list(&teams, TeamListArgs {})), "2 team(s): core, docs");
}

#[test]
fn spawn_command_text() {
    let mut teams = TeamRegistry::new();
    let mut agents = SubagentRegistry::new();
    let args = |ro: bool, nt: bool| TeamSpawnArgs {
        team: "core".to_string(),
        name: "ann".to_string(),
        prompt: "fix it".to_string(),
        readonly: ro,
        no_tools: nt,
    };
    assert_eq!(
        msg(team_spawn(&teams, &agents, args(false, false))),
        "ERR team 'core' not found — use team_create first"
    );
    teams.create("core".to_string()).unwrap();
    assert_eq!(
        msg(team_spawn(&teams, &agents, args(false, false))),
        "To spawn subagent 'ann' into team 'core': use `/team spawn core ann fix it`"
    );
    assert_eq!(
        msg(team_spawn(&teams, &agents, args(true, false))),
        "To spawn subagent 'ann' into team 'core': use `/team spawn core ann --readonly fix it`"
    );
    assert_eq!(
        msg(team_spawn(&teams, &agents, args(true, true))),
        "To spawn subagent 'ann' into team 'core': use `/team spawn core ann --no-tools fix it`"
    );
    spawn(&mut agents, "ann");
    assert_eq!(
        msg(team_spawn(&teams, &agents, args(false, false))),
        "ERR subagent 'ann' already exists. Choose a different name."
    );
}

#[test]
fn disband_stops_members() {
    let mut teams = TeamRegistry::new();
    let mut agents = SubagentRegistry::new();
    let a = spawn(&mut agents, "a");
    let b = spawn(&mut agents, "b");
    let c = spawn(&mut agents, "c");
    team_with(&mut teams, &agents, "core", &[a, b]);
    assert_eq!(
        msg(team_disband(&mut teams, &mut agents, TeamDisbandArgs { team: "core".to_string() })),
        "disbanded team 'core': stopped 2 member(s)"
    );
    assert!(!agents.contains_id(a));
    assert!(!agents.contains_id(b));
    assert!(agents.contains_id(c));
    assert_eq!(agents.id_by_name("a"), Some(a));
    assert_eq!(
        msg(agent_message(&mut agents, AgentMessageArgs { name: "a".to_string(), message: "m".to_string() })),
        "ERR subagent 1 not found"
    );
    assert!(teams.get("core").is_none());
    assert_eq!(
        msg(team_disband(&mut teams, &mut agents, TeamDisbandArgs { team: "core".to_string() })),
        "ERR team 'core' not found — use team_create first"
    );
}

#[test]
fn messages_to_agents_and_teams() {
    let mut teams = TeamRegistry::new();
    let mut agents = SubagentRegistry::new();
    let a = spawn(&mut agents, "a");
    let b = spawn(&mut agents, "b");
    assert_eq!(
        msg(agent_message(&mut agents, AgentMessageArgs { name: "a".to_string(), message: "hi".to_string() })),
        "message sent to 'a'"
    );
    assert_eq!(
        msg(agent_message(&mut agents, AgentMessageArgs { name: "z".to_string(), message: "hi".to_string() })),
        "ERR subagent 'z' not found"
    );
    team_with(&mut teams, &agents, "core", &[a, b]);
    assert_eq!(
        msg(team_message(&teams, &mut agents, TeamMessageArgs { team: "core".to_string(), message: "all".to_string() })),
        "message delivered to 2 member(s) of team 'core'"
    );
    assert_eq!(agents.pop_inbox_message(a), Some("hi".to_string()));
    assert_eq!(agents.pop_inbox_message(a), Some("all".to_string()));
    assert_eq!(agents.pop_inbox_message(b), Some("all".to_string()));
    assert_eq!(
        msg(team_message(&teams, &mut agents, TeamMessageArgs { team: "x".to_string(), message: "m".to_string() })),
        "ERR team 'x' not found — use team_create first"
    );
}

#[test]
fn status_snapshot() {
    let mut teams = TeamRegistry::new();
    let mut agents = SubagentRegistry::new();
    let a = spawn(&mut agents, "ann");
    let b = spawn(&mut agents, "bob");
    team_with(&mut teams, &agents, "core", &[a, b]);
    agents.stop(b).unwrap();
    agents.set_status(a, SubagentStatus::Idle);
    tasks(&mut teams, "add", Some("one"), None, None);
    tasks(&mut teams, "add", Some("two"), None, None);
    tasks(&mut teams, "done", None, None, Some(1));
    assert_eq!(
        msg(team_status(&teams, &agents, TeamStatusArgs { team: "core".to_string() })),
        "team 'core' (2 members):\n  [1] ann — idle\ntasks: 1/2 done, 1 pending, 0 blocked"
    );
}

#[test]
fn task_actions() {
    let mut teams = TeamRegistry::new();
    assert_eq!(
        tasks(&mut teams, "list", None, None, None),
        "ERR team 'core' not found — use team_create first"
    );
    teams.create("core".to_string()).unwrap();
    assert_eq!(tasks(&mut teams, "list", None, None, None), "no tasks in team 'core'");
    assert_eq!(tasks(&mut teams, "add", None, None, None), "ERR 'add' requires 'content'");
    assert_eq!(tasks(&mut teams, "add", Some("write docs"), Some("high"), None), "task 1 added to team 'core'");
    assert_eq!(tasks(&mut teams, "add", Some("review"), Some("urgent"), None), "task 2 added to team 'core'");
    assert_eq!(tasks(&mut teams, "add", Some("ship"), Some("low"), None), "task 3 added to team 'core'");
    assert_eq!(tasks(&mut teams, "done", None, None, None), "ERR 'done' requires 'id'");
    assert_eq!(tasks(&mut teams, "done", None, None, Some(9)), "ERR task 9 not found");
    assert_eq!(tasks(&mut teams, "done", None, None, Some(2)), "task 2 marked done");
    assert_eq!(
        tasks(&mut teams, "list", None, None, None),
        "team 'core' tasks: 3 total, 1 done, 2 pending, 0 blocked, 0 in_progress\n  [1] write docs — pending (high)\n  [2] review — done (medium)\n  [3] ship — pending (low)"
    );
    assert_eq!(
        tasks(&mut teams, "remove", None, None, None),
        "ERR unknown action 'remove' — use 'add', 'done', or 'list'"
    );
}
