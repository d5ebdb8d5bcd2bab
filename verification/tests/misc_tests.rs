use zagent::agent::tools::{
    ask_outcome, ask_result, check_step, is_skip_dir, perm_step, PermAction, BashTool, CheckResult, PermStep, ToolContext, ToolError,
    LazyToolName, ToolName, UserDecision, WriteTool,
};
use zagent::agent::toolset::ToolSet;
use zagent::extras::subagent::registry::history_source;
use zagent::extras::subagent::handle::SubagentInner;
use zagent::extras::subagent::{ContextMode, SubagentId, SubagentStatus};

#[test]
fn skip_dirs() {
    assert!(is_skip_dir("node_modules"));
    assert!(is_skip_dir("target"));
    assert!(!is_skip_dir("src"));
}

#[test]
fn bash_report_layout() {
    let b = BashTool;
    assert_eq!(b.report("out", "", 0), "out");
    assert_eq!(b.report("out", "err", 0), "out\nerr");
    assert_eq!(b.report("", "err", 2), "err\nExit code: 2");
    assert_eq!(b.report("", "", -1), "\nExit code: -1");
}

#[test]
fn write_report_counts_bytes() {
    assert_eq!(WriteTool.report("héllo", "a.txt"), "Written 6 bytes to a.txt");
}

#[test]
fn permission_steps() {
    assert!(matches!(perm_step(CheckResult::Allowed, false), PermStep::Proceed));
    assert!(matches!(perm_step(CheckResult::Ask, true), PermStep::AskUser));
    match perm_step(CheckResult::Ask, false) {
        PermStep::Refuse(ToolError::Msg(m)) => assert_eq!(m, "Permission denied (non-interactive mode)"),
        _ => panic!("expected a refusal"),
    }
    match perm_step(CheckResult::Denied("rm -rf".to_string()), true) {
        PermStep::Refuse(ToolError::Msg(m)) => assert_eq!(m, "Permission denied: rm -rf"),
        _ => panic!("expected a refusal"),
    }
}

#[test]
fn ask_outcomes() {
    assert!(matches!(ask_outcome(Some(UserDecision::AllowOnce)), (Ok(()), None)));
    let (r, p) = ask_outcome(Some(UserDecision::AllowAlways("cargo *".to_string())));
    assert!(r.is_ok());
    assert_eq!(p, Some("cargo *".to_string()));
    for reply in [Some(UserDecision::Deny), None] {
        match ask_outcome(reply) {
            (Err(ToolError::Msg(m)), None) => assert_eq!(m, "Permission denied by user"),
            _ => panic!("expected a denial"),
        }
    }
}

#[test]
fn contexts() {
    let h = ToolContext::<u8, u8, &str>::headless("sandbox");
    assert!(h.permission.is_none());
    assert!(h.ask_tx.is_none());
    assert_eq!(h.sandbox, "sandbox");
    let i = ToolContext::interactive(Some(1u8), Some(2u8), "sb");
    assert_eq!(i.permission, Some(1));
    assert_eq!(i.ask_tx, Some(2));
}

#[test]
fn tool_names() {
    assert_eq!(ToolName::bash().as_str(), "bash");
    assert_eq!(ToolName::FIND_FILES.as_str(), "find_files");
    assert_eq!(ToolName::WRITE_TODO_LIST.get().as_str(), "write_todo_list");
    assert_eq!(ToolName::new("custom").as_str(), "custom");
}

#[test]
fn merge_prefers_the_other_set() {
    let base = ToolSet::default();
    let other = ToolSet::no_tools().without_tool(ToolName::bash()).with_tool(ToolName::new("mcp_tool"));
    let merged = base.merge(&other);
    assert!(!merged.includes(&ToolName::bash()));
    assert!(merged.includes(&ToolName::read()));
    assert!(merged.includes(&ToolName::new("mcp_tool")));
    let ro = ToolSet::read_only().merge(&ToolSet::no_tools());
    assert!(ro.includes(&ToolName::grep()));
    assert!(!ro.includes(&ToolName::edit()));
}

#[test]
fn subagent_id_text() {
    assert_eq!(SubagentId(0).to_string(), "0");
    assert_eq!(SubagentId(1234567).to_string(), "1234567");
}

#[test]
fn forked_subagent_starts_from_lead_history() {
    assert_eq!(history_source(ContextMode::Fork, Some("lead")), Some("lead"));
    assert_eq!(history_source(ContextMode::Fork, None::<&str>), None);
    assert_eq!(history_source(ContextMode::Fresh, Some("lead")), None);
}

#[test]
fn builtin_names_compare_with_tool_names() {
    assert!(ToolName::BASH == ToolName::bash());
    assert!(ToolName::bash() == ToolName::BASH);
    assert!(ToolName::READ != ToolName::write());
    assert!(ToolName::new("list_dir") == ToolName::LIST_DIR);
}

fn refusal(a: PermAction) -> Option<String> {
    match a {
        PermAction::Refuse(ToolError::Msg(m)) => Some(m),
        _ => None,
    }
}

#[test]
fn permission_check_steps() {
    assert!(matches!(check_step(None, false, "bash", "ls"), PermAction::Proceed));
    assert!(matches!(check_step(Some(CheckResult::Allowed), true, "bash", "ls"), PermAction::Proceed));
    assert_eq!(
        refusal(check_step(Some(CheckResult::Denied("rule".to_string())), true, "bash", "ls")),
        Some("Permission denied: rule".to_string())
    );
    assert_eq!(
        refusal(check_step(Some(CheckResult::Ask), false, "bash", "ls")),
        Some("Permission denied (non-interactive mode)".to_string())
    );
    match check_step(Some(CheckResult::Ask), true, "write", "a.txt") {
        PermAction::Ask(q) => {
            assert_eq!(q.tool, "write");
            assert_eq!(q.input, "a.txt");
        }
        _ => panic!("expected a question"),
    }
}

#[test]
fn unsent_question_fails_closed() {
    let (r, allow) = ask_result(false, Some(UserDecision::AllowOnce));
    assert!(matches!(r, Err(ToolError::Msg(m)) if m == "Permission system unavailable"));
    assert_eq!(allow, None);
    let (r, allow) = ask_result(true, Some(UserDecision::AllowAlways("git *".to_string())));
    assert!(r.is_ok());
    assert_eq!(allow, Some("git *".to_string()));
    let (r, _) = ask_result(true, None);
    assert!(matches!(r, Err(ToolError::Msg(m)) if m == "Permission denied by user"));
}

#[test]
fn spawned_subagent_is_running() {
    let st = SubagentInner::spawned();
    assert_eq!(st.status, SubagentStatus::Running);
    assert!(st.inbox.is_empty());
    assert_eq!(st.final_response, None);
}

#[test]
fn other_tool_names_known_at_compile_time() {
    let n = LazyToolName::Other("files__search");
    assert_eq!(n.as_str(), "files__search");
    assert_eq!(n.get().as_str(), "files__search");
    assert!(n == ToolName::new("files__search"));
}

#[test]
fn names_from_their_strings() {
    let v = zagent::ui::view::ViewId::from("alice".to_string());
    assert_eq!(v.as_str(), "alice");
    let t = ToolName::from(compact_str::CompactString::new("grep"));
    assert!(t == ToolName::GREP);
}
