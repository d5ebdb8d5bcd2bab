use zagent::agent::tools::ToolName;
use zagent::agent::toolset::ToolSet;

/// Default includes all tools.
#[test]
fn default_includes_all() {
    let ts = ToolSet::default();
    assert!(ts.includes(&ToolName::READ.get()));
    assert!(ts.includes(&ToolName::WRITE.get()));
    assert!(ts.includes(&ToolName::BASH.get()));
    assert!(ts.includes(&ToolName::GREP.get()));
    assert!(ts.includes(&ToolName::FIND_FILES.get()));
    assert!(ts.includes(&ToolName::LIST_DIR.get()));
    assert!(ts.includes(&ToolName::EDIT.get()));
    assert!(ts.includes(&ToolName::WRITE_TODO_LIST.get()));
}

/// ReadOnly includes only read-only tools.
#[test]
fn read_only() {
    let ts = ToolSet::read_only();
    assert!(ts.includes(&ToolName::READ.get()));
    assert!(ts.includes(&ToolName::GREP.get()));
    assert!(ts.includes(&ToolName::FIND_FILES.get()));
    assert!(ts.includes(&ToolName::LIST_DIR.get()));
    assert!(!ts.includes(&ToolName::WRITE.get()));
    assert!(!ts.includes(&ToolName::BASH.get()));
    assert!(!ts.includes(&ToolName::EDIT.get()));
}

/// no_tools excludes all tools.
#[test]
fn no_tools_excludes_all() {
    let ts = ToolSet::no_tools();
    assert!(!ts.includes(&ToolName::READ.get()));
    assert!(!ts.includes(&ToolName::BASH.get()));
    assert!(!ts.includes(&ToolName::WRITE.get()));
}

/// with_tool adds a tool to a restrictive set.
#[test]
fn with_tool_force_include() {
    let ts = ToolSet::read_only().with_tool(ToolName::BASH.get());
    // bash is normally excluded by read_only, but with_tool forces include.
    assert!(ts.includes(&ToolName::BASH.get()));
    // read is still included.
    assert!(ts.includes(&ToolName::READ.get()));
    // write is still excluded.
    assert!(!ts.includes(&ToolName::WRITE.get()));
}

/// without_tool removes a tool from default set.
#[test]
fn without_tool_force_exclude() {
    let ts = ToolSet::default().without_tool(ToolName::BASH.get());
    assert!(!ts.includes(&ToolName::BASH.get()));
    assert!(ts.includes(&ToolName::READ.get()));
}
