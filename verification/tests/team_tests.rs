use zagent::extras::subagent::handle::SubagentInner;
use zagent::extras::subagent::{SubagentId, SubagentRegistry};
use zagent::extras::teams::registry::{TeamError, TeamRegistry};
use zagent::extras::teams::task_board::{Priority, TaskId};
use zagent::extras::teams::team::Team;

fn spawn(reg: &mut SubagentRegistry, name: &str) -> SubagentId {
    let id = reg.allocate_id(name).unwrap();
    reg.insert(id, name.to_string(), SubagentInner::new());
    id
}

#[test]
fn members_must_exist_and_are_kept_once() {
    let mut agents = SubagentRegistry::new();
    let a = spawn(&mut agents, "a");
    let mut team = Team::new();
    team.add_member(&agents, a);
    team.add_member(&agents, a);
    team.add_member(&agents, SubagentId(99));
    assert_eq!(team.members(), &[a]);
}

#[test]
fn message_reaches_live_members() {
    let mut agents = SubagentRegistry::new();
    let a = spawn(&mut agents, "a");
    let b = spawn(&mut agents, "b");
    let mut team = Team::new();
    team.add_member(&agents, a);
    team.add_member(&agents, b);
    agents.stop(b).unwrap();
    let delivered = team.message(&mut agents, "hello".to_string());
    assert_eq!(delivered, 1);
    assert_eq!(agents.pop_inbox_message(a), Some("hello".to_string()));
}

#[test]
fn team_task_delegation() {
    let mut team = Team::new();
    let t = team.add_task("x".to_string(), Priority::High, vec![]);
    assert_eq!(t, TaskId(1));
    assert_eq!(team.next_task_id(), 2);
    assert!(team.mark_task_done(TaskId(7)).is_err());
    team.mark_task_done(t).unwrap();
    assert_eq!(team.task_board_summary().done, 1);
    assert_eq!(team.list_tasks().len(), 1);
}

#[test]
fn team_registry_lifecycle() {
    let mut teams = TeamRegistry::new();
    teams.create("red".to_string()).unwrap();
    teams.create("blue".to_string()).unwrap();
    assert_eq!(teams.create("red".to_string()), Err(TeamError::AlreadyExists("red".to_string())));
    assert_eq!(teams.list(), vec!["red".to_string(), "blue".to_string()]);
    assert!(teams.get("red").is_some());
    teams.remove("red").unwrap();
    assert!(teams.get("red").is_none());
    let e = teams.remove("red").unwrap_err();
    assert_eq!(e.message(), "team 'red' not found");
    // a removed team's name cannot be used again
    let e = teams.create("red".to_string()).unwrap_err();
    assert_eq!(e.message(), "team 'red' already exists");
    assert_eq!(teams.list(), vec!["blue".to_string()]);
}
