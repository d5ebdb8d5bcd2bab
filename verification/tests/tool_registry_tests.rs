use zagent::agent::tools::ToolName;
use zagent::agent::toolset::ToolSet;

fn sorted_names(ts: &ToolSet) -> Vec<String> {
    let mut names: Vec<String> = ts.tools().iter().map(|t| t.as_str().to_string()).collect();
    names.sort();
    names
}

#[test]
fn default_builds_every_builtin() {
    let names = sorted_names(&ToolSet::default());
    assert_eq!(
        names,
        vec!["bash", "edit", "find_files", "grep", "list_dir", "read", "write", "write_todo_list"]
    );
}

#[test]
fn read_only_builds_four_tools() {
    let names = sorted_names(&ToolSet::read_only());
    assert_eq!(names, vec!["find_files", "grep", "list_dir", "read"]);
}

#[test]
fn no_tools_builds_nothing() {
    assert!(ToolSet::no_tools().tools().is_empty());
    assert!(ToolSet::no_tools().get(&ToolName::bash()).is_none());
}

#[test]
fn included_but_unregistered_tool_is_not_built() {
    let ts = ToolSet::no_tools().with_tool(ToolName::new("weather"));
    assert!(ts.includes(&ToolName::new("weather")));
    assert!(ts.get(&ToolName::new("weather")).is_none());
    assert!(ts.tools().is_empty());
}

#[test]
fn get_returns_included_registered_tool() {
    let ts = ToolSet::read_only();
    let got = ts.get(&ToolName::grep()).expect("grep is read-only");
    assert_eq!(got.as_str(), "grep");
    assert!(ts.get(&ToolName::bash()).is_none());
}

#[test]
fn registered_tool_is_included_and_built() {
    let mut ts = ToolSet::no_tools();
    ts.register_tool(ToolName::new("files__search"));
    assert!(ts.includes(&ToolName::new("files__search")));
    assert_eq!(sorted_names(&ts), vec!["files__search"]);
    let ts = ts.without_tool(ToolName::new("files__search"));
    assert!(ts.tools().is_empty());
    let ts = ts.with_tool(ToolName::new("files__search"));
    assert_eq!(sorted_names(&ts), vec!["files__search"]);
}
