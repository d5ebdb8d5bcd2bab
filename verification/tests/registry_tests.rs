use zagent::extras::subagent::handle::SubagentInner;
use zagent::extras::subagent::registry::SubagentError;
use zagent::extras::subagent::{SubagentId, SubagentRegistry, SubagentStatus};

fn spawn(reg: &mut SubagentRegistry, name: &str) -> SubagentId {
    let id = reg.allocate_id(name).unwrap();
    let mut state = SubagentInner::new();
    state.status = SubagentStatus::Running;
    reg.insert(id, name.to_string(), state);
    id
}

#[test]
fn ids_are_handed_out_in_order() {
    let mut reg = SubagentRegistry::new();
    assert_eq!(spawn(&mut reg, "alice"), SubagentId(1));
    assert_eq!(spawn(&mut reg, "bob"), SubagentId(2));
    assert_eq!(reg.id_by_name("bob"), Some(SubagentId(2)));
    assert_eq!(reg.id_by_name("carol"), None);
    assert!(reg.contains_id(SubagentId(1)));
    assert!(!reg.contains_id(SubagentId(3)));
}

#[test]
fn taken_name_is_refused() {
    let mut reg = SubagentRegistry::new();
    spawn(&mut reg, "alice");
    let e = reg.allocate_id("alice").unwrap_err();
    assert_eq!(e, SubagentError::AlreadyExists("alice".to_string()));
    assert_eq!(e.message(), "subagent 'alice' already exists");
}

#[test]
fn inbox_is_first_in_first_out() {
    let mut reg = SubagentRegistry::new();
    let id = spawn(&mut reg, "alice");
    reg.send_message(id, "one".to_string()).unwrap();
    reg.send_message(id, "two".to_string()).unwrap();
    assert_eq!(reg.pop_inbox_message(id), Some("one".to_string()));
    assert_eq!(reg.pop_inbox_message(id), Some("two".to_string()));
    assert_eq!(reg.pop_inbox_message(id), None);
}

#[test]
fn message_to_unknown_id_is_refused() {
    let mut reg = SubagentRegistry::new();
    let e = reg.send_message(SubagentId(9), "hi".to_string()).unwrap_err();
    assert_eq!(e.message(), "subagent 9 not found");
    assert_eq!(reg.pop_inbox_message(SubagentId(9)), None);
}

#[test]
fn stop_removes_agent_and_keeps_name() {
    let mut reg = SubagentRegistry::new();
    let id = spawn(&mut reg, "alice");
    assert!(reg.stop(id).is_ok());
    assert!(!reg.contains_id(id));
    assert_eq!(reg.id_by_name("alice"), Some(id));
    assert_eq!(reg.name(id), None);
    assert!(reg.allocate_id("alice").is_err());
    let other = spawn(&mut reg, "bob");
    assert_eq!(other, SubagentId(2));
    assert!(reg.stop(SubagentId(42)).is_ok());
}

#[test]
fn status_and_final_response_are_recorded() {
    let mut reg = SubagentRegistry::new();
    let id = spawn(&mut reg, "alice");
    reg.set_status(id, SubagentStatus::Error("boom".to_string()));
    reg.set_final_response(id, "all done".to_string());
    let list = reg.list();
    assert_eq!(list.len(), 1);
    assert_eq!(list[0].id, id);
    assert_eq!(list[0].name, "alice");
    assert_eq!(list[0].status, SubagentStatus::Error("boom".to_string()));
    assert_eq!(list[0].final_response, Some("all done".to_string()));
    assert_eq!(reg.state(id).unwrap().status.to_string(), "error: boom");
    reg.set_status(SubagentId(5), SubagentStatus::Done);
    assert_eq!(reg.list().len(), 1);
}

#[test]
fn status_names() {
    assert_eq!(SubagentStatus::Running.to_string(), "running");
    assert_eq!(SubagentStatus::Idle.to_string(), "idle");
    assert_eq!(SubagentStatus::Done.to_string(), "done");
    assert_eq!(SubagentInner::new().status, SubagentStatus::Idle);
    assert!(SubagentInner::new().inbox.is_empty());
}

#[test]
fn next_id_counts_allocations() {
    let mut reg = SubagentRegistry::new();
    assert_eq!(reg.next_id(), 1);
    let _ = spawn(&mut reg, "alice");
    assert_eq!(reg.next_id(), 2);
    assert!(reg.allocate_id("alice").is_err());
    assert_eq!(reg.next_id(), 2);
}
