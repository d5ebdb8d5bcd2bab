use zagent::agent::tools::ToolError;
use zagent::extras::subagent::handle::SubagentInner;
use zagent::extras::subagent::tools::{
    agent_spawn, agent_status, agent_stop, AgentSpawnArgs, AgentStatusArgs, AgentStopArgs,
};
use zagent::extras::subagent::{SubagentId, SubagentRegistry};

fn msg(r: Result<String, ToolError>) -> String {
    match r {
        Ok(s) => s,
        Err(ToolError::Msg(m)) => format!("ERR {}", m),
    }
}

fn spawn(reg: &mut SubagentRegistry, name: &str) -> SubagentId {
    let id = reg.allocate_id(name).unwrap();
    reg.insert(id, name.to_string(), SubagentInner::spawned());
    id
}

#[test]
fn spawn_stop_and_status() {
    let mut agents = SubagentRegistry::new();
    assert_eq!(msg(agent_status(&agents, AgentStatusArgs {})), "no subagents");
    let spawn_args = AgentSpawnArgs {
        name: "ann".to_string(),
        prompt: "look around".to_string(),
        readonly: true,
        no_tools: false,
    };
    assert_eq!(
        msg(agent_spawn(&agents, spawn_args)),
        "To spawn subagent 'ann': use `/agent spawn ann --readonly look around`"
    );
    let a = spawn(&mut agents, "ann");
    let _b = spawn(&mut agents, "bob");
    let again = AgentSpawnArgs { name: "ann".to_string(), prompt: "x".to_string(), readonly: false, no_tools: false };
    assert_eq!(msg(agent_spawn(&agents, again)), "ERR subagent 'ann' already exists. Choose a different name.");
    agents.set_final_response(a, "short answer".to_string());
    assert_eq!(
        msg(agent_status(&agents, AgentStatusArgs {})),
        "2 subagent(s):\n  [1] ann — running  last: short answer\n  [2] bob — running"
    );
    assert_eq!(msg(agent_stop(&mut agents, AgentStopArgs { name: "bob".to_string() })), "stopped subagent 'bob'");
    assert_eq!(msg(agent_stop(&mut agents, AgentStopArgs { name: "bob".to_string() })), "stopped subagent 'bob'");
    assert_eq!(msg(agent_stop(&mut agents, AgentStopArgs { name: "carl".to_string() })), "ERR subagent 'carl' not found");
    assert_eq!(agents.list().len(), 1);
}

#[test]
fn status_shows_first_sixty_bytes() {
    let mut agents = SubagentRegistry::new();
    let a = spawn(&mut agents, "ann");
    let long = "x".repeat(75);
    agents.set_final_response(a, long);
    let expected = format!("1 subagent(s):\n  [1] ann — running  last: {}", "x".repeat(60));
    assert_eq!(msg(agent_status(&agents, AgentStatusArgs {})), expected);
}
