use std::collections::HashMap;

use zagent::extras::subagent::SubagentId;

#[test]
fn display() {
    assert_eq!(SubagentId(1).to_string(), "1");
    assert_eq!(SubagentId(42).to_string(), "42");
}

#[test]
fn equality() {
    assert_eq!(SubagentId(1), SubagentId(1));
    assert_ne!(SubagentId(1), SubagentId(2));
}

#[test]
fn hash_in_map() {
    let mut m: HashMap<SubagentId, &str> = HashMap::new();
    m.insert(SubagentId(1), "alice");
    m.insert(SubagentId(2), "bob");
    assert_eq!(m[&SubagentId(1)], "alice");
    assert_eq!(m[&SubagentId(2)], "bob");
}
