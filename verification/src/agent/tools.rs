//! Shared tool types: the tool error, the argument records of the built-in
//! tools, and the parts of the built-in tools that compute their output.

use std::sync::Arc;

use compact_str::CompactString;
use vstd::prelude::*;

use vstd::string::StringSliceAdditionalSpecFns;

use crate::text::{digits_value, ends_with, is_digit, law_dec_text_reads_back, starts_with, dec_text, int_text, push_decimal, push_signed};

verus! {

/// The error every tool reports: a message for the model.
#[derive(Debug, Clone, PartialEq, Eq)]
pub enum ToolError {
    Msg(String),
}

impl ToolError {
    /// The message of the error.
    pub open spec fn text(self) -> Seq<char> {
        match self {
            ToolError::Msg(m) => m@,
        }
    }
}

#[verifier::external_type_specification]
#[verifier::external_body]
pub struct ExCompactString(CompactString);

/// The text a `CompactString` holds.
pub uninterp spec fn compact_text(s: CompactString) -> Seq<char>;

/// `compact_str::CompactString::new`: claimed to hold exactly the given text
/// (its documentation: `CompactString::new(s) == s`).
#[verifier::external_body]
fn compact_new(text: &str) -> (r: CompactString)
    ensures
        compact_text(r) == text@,
{
    CompactString::new(text)
}

/// `compact_str::CompactString::as_str`: claimed to give back the held text
/// (its documentation: `CompactString::new("hello").as_str() == "hello"`).
#[verifier::external_body]
fn compact_as_str(s: &CompactString) -> (r: &str)
    ensures
        r@ == compact_text(*s),
{
    s.as_str()
}

/// `<compact_str::CompactString as Clone>::clone`: claimed to hold the same
/// text as the string it was cloned from.
#[verifier::external_body]
fn compact_clone(s: &CompactString) -> (r: CompactString)
    ensures
        compact_text(r) == compact_text(*s),
{
    s.clone()
}

/// Type-safe tool name: a small string.
#[derive(Debug, PartialEq, Eq, Hash)]
pub struct ToolName(pub CompactString);

impl View for ToolName {
    type V = Seq<char>;

    open spec fn view(&self) -> Seq<char> {
        compact_text(self.0)
    }
}

impl ToolName {
    /// A tool name holding `s`.
    pub fn new(s: &str) -> (r: Self)
        ensures
            r@ == s@,
    {
        ToolName(compact_new(s))
    }

    /// The name as text.
    pub fn as_str(&self) -> (r: &str)
        ensures
            r@ == self@,
    {
        compact_as_str(&self.0)
    }

    /// A copy of the name.
    pub fn duplicate(&self) -> (r: Self)
        ensures
            r@ == self@,
    {
        ToolName(compact_clone(&self.0))
    }

    /// The `bash` tool.
    pub fn bash() -> (r: Self)
        ensures
            r@ == "bash"@,
    {
        ToolName::new("bash")
    }

    /// The `read` tool.
    pub fn read() -> (r: Self)
        ensures
            r@ == "read"@,
    {
        ToolName::new("read")
    }

    /// The `write` tool.
    pub fn write() -> (r: Self)
        ensures
            r@ == "write"@,
    {
        ToolName::new("write")
    }

    /// The `edit` tool.
    pub fn edit() -> (r: Self)
        ensures
            r@ == "edit"@,
    {
        ToolName::new("edit")
    }

    /// The `grep` tool.
    pub fn grep() -> (r: Self)
        ensures
            r@ == "grep"@,
    {
        ToolName::new("grep")
    }

    /// The `find_files` tool.
    pub fn find_files() -> (r: Self)
        ensures
            r@ == "find_files"@,
    {
        ToolName::new("find_files")
    }

    /// The `list_dir` tool.
    pub fn list_dir() -> (r: Self)
        ensures
            r@ == "list_dir"@,
    {
        ToolName::new("list_dir")
    }

    /// The `write_todo_list` tool.
    pub fn write_todo_list() -> (r: Self)
        ensures
            r@ == "write_todo_list"@,
    {
        ToolName::new("write_todo_list")
    }

    pub const BASH: LazyToolName = LazyToolName::Bash;
    pub const READ: LazyToolName = LazyToolName::Read;
    pub const WRITE: LazyToolName = LazyToolName::Write;
    pub const EDIT: LazyToolName = LazyToolName::Edit;
    pub const GREP: LazyToolName = LazyToolName::Grep;
    pub const FIND_FILES: LazyToolName = LazyToolName::FindFiles;
    pub const LIST_DIR: LazyToolName = LazyToolName::ListDir;
    pub const WRITE_TODO_LIST: LazyToolName = LazyToolName::WriteTodoList;
}

/// A tool name known at compile time (a built-in one, or any other given by
/// its text) and turned into a `ToolName` on demand.
#[derive(Debug, Clone, Copy)]
pub enum LazyToolName {
    Bash,
    Read,
    Write,
    Edit,
    Grep,
    FindFiles,
    ListDir,
    WriteTodoList,
    /// Any other tool, by name.
    Other(&'static str),
}

impl LazyToolName {
    /// The text of the name.
    pub open spec fn text(self) -> Seq<char> {
        match self {
            LazyToolName::Bash => "bash"@,
            LazyToolName::Read => "read"@,
            LazyToolName::Write => "write"@,
            LazyToolName::Edit => "edit"@,
            LazyToolName::Grep => "grep"@,
            LazyToolName::FindFiles => "find_files"@,
            LazyToolName::ListDir => "list_dir"@,
            LazyToolName::WriteTodoList => "write_todo_list"@,
            LazyToolName::Other(name) => name@,
        }
    }

    /// The name as text.
    pub fn as_str(&self) -> (r: &'static str)
        ensures
            r@ == self.text(),
    {
        match self {
            LazyToolName::Bash => "bash",
            LazyToolName::Read => "read",
            LazyToolName::Write => "write",
            LazyToolName::Edit => "edit",
            LazyToolName::Grep => "grep",
            LazyToolName::FindFiles => "find_files",
            LazyToolName::ListDir => "list_dir",
            LazyToolName::WriteTodoList => "write_todo_list",
            LazyToolName::Other(name) => name,
        }
    }

    /// The tool name.
    pub fn get(&self) -> (r: ToolName)
        ensures
            r@ == self.text(),
    {
        ToolName::new(self.as_str())
    }
}

impl From<CompactString> for ToolName {
    fn from(s: CompactString) -> (r: Self) {
        ToolName(s)
    }
}

impl vstd::std_specs::convert::FromSpecImpl<CompactString> for ToolName {
    open spec fn obeys_from_spec() -> bool {
        true
    }

    /// The tool name holding that string.
    open spec fn from_spec(s: CompactString) -> ToolName {
        ToolName(s)
    }
}

impl PartialEq<ToolName> for LazyToolName {
    fn eq(&self, other: &ToolName) -> (r: bool) {
        crate::text::str_eq(self.as_str(), other.as_str())
    }
}

impl vstd::std_specs::cmp::PartialEqSpecImpl<ToolName> for LazyToolName {
    open spec fn obeys_eq_spec() -> bool {
        true
    }

    /// A built-in name equals a tool name holding the same text.
    open spec fn eq_spec(&self, other: &ToolName) -> bool {
        self.text() == other@
    }
}

impl PartialEq<LazyToolName> for ToolName {
    fn eq(&self, other: &LazyToolName) -> (r: bool) {
        crate::text::str_eq(self.as_str(), other.as_str())
    }
}

impl vstd::std_specs::cmp::PartialEqSpecImpl<LazyToolName> for ToolName {
    open spec fn obeys_eq_spec() -> bool {
        true
    }

    /// A tool name equals a built-in name holding the same text.
    open spec fn eq_spec(&self, other: &LazyToolName) -> bool {
        self@ == other.text()
    }
}

/// Context passed to every tool call: the permission checker, the channel
/// for asking the user, and the sandbox commands run in.
pub struct ToolContext<P, A, S> {
    pub permission: Option<P>,
    pub ask_tx: Option<A>,
    pub sandbox: S,
}

impl<P, A, S> ToolContext<P, A, S> {
    /// Full interactive context with permission checking and ask channel.
    pub fn interactive(permission: Option<P>, ask_tx: Option<A>, sandbox: S) -> (r: Arc<Self>)
        ensures
            r.permission == permission,
            r.ask_tx == ask_tx,
            r.sandbox == sandbox,
    {
        Arc::new(ToolContext { permission, ask_tx, sandbox })
    }

    /// Headless context: no permission checker, no one to ask, so every
    /// operation is allowed.
    pub fn headless(sandbox: S) -> (r: Arc<Self>)
        ensures
            r.permission is None,
            r.ask_tx is None,
            r.sandbox == sandbox,
    {
        Arc::new(ToolContext { permission: None, ask_tx: None, sandbox })
    }
}

/// What the permission checker ruled for one tool call.
pub enum CheckResult {
    Allowed,
    Denied(String),
    Ask,
}

/// What the user answered to a permission question.
pub enum UserDecision {
    /// Allow this call only.
    AllowOnce,
    /// Allow this call and every later one matching the pattern.
    AllowAlways(String),
    /// Refuse the call.
    Deny,
}

/// What to do with a tool call once the checker has ruled.
pub enum PermStep {
    /// Run the tool.
    Proceed,
    /// Refuse the call with this error.
    Refuse(ToolError),
    /// Ask the user.
    AskUser,
}

/// The step for a checker's ruling. Asking is only possible when there is a
/// channel to the user; without one a question is a refusal.
pub fn perm_step(result: CheckResult, can_ask: bool) -> (r: PermStep)
    ensures
        match result {
            CheckResult::Allowed => r is Proceed,
            CheckResult::Denied(reason) => r matches PermStep::Refuse(e) && e.text() == "Permission denied: "@
                + reason@,
            CheckResult::Ask => if can_ask {
                r is AskUser
            } else {
                r matches PermStep::Refuse(e) && e.text() == "Permission denied (non-interactive mode)"@
            },
        },
{
    match result {
        CheckResult::Allowed => PermStep::Proceed,
        CheckResult::Denied(reason) => {
            let mut s = String::from_str("Permission denied: ");
            s.append(reason.as_str());
            PermStep::Refuse(ToolError::Msg(s))
        },
        CheckResult::Ask => if can_ask {
            PermStep::AskUser
        } else {
            PermStep::Refuse(ToolError::Msg(String::from_str("Permission denied (non-interactive mode)")))
        },
    }
}

/// How a permission question ended: allowed or refused, and the pattern to
/// add to the session allowlist when the user allowed it for good. `None`
/// stands for a question that got no answer.
pub fn ask_outcome(reply: Option<UserDecision>) -> (r: (Result<(), ToolError>, Option<String>))
    ensures
        match reply {
            Some(UserDecision::AllowOnce) => r.0 is Ok && r.1 is None,
            Some(UserDecision::AllowAlways(p)) => r.0 is Ok && r.1 == Some(p),
            _ => (r.0 matches Err(e) && e.text() == "Permission denied by user"@) && r.1 is None,
        },
{
    match reply {
        Some(UserDecision::AllowOnce) => (Ok(()), None),
        Some(UserDecision::AllowAlways(p)) => (Ok(()), Some(p)),
        _ => (Err(ToolError::Msg(String::from_str("Permission denied by user"))), None),
    }
}

/// A question to the user: may `tool` run on `input`?
pub struct AskRequest {
    pub tool: String,
    pub input: String,
}

/// What the permission check of a tool call leads to.
pub enum PermAction {
    /// Run the tool.
    Proceed,
    /// Refuse the call with this error.
    Refuse(ToolError),
    /// Send the user exactly this one question and wait for the answer.
    Ask(AskRequest),
}

/// The permission check of one call of `tool` on `input_key`. `verdict` is
/// the checker's ruling on that call, `None` when there is no permission
/// checker (then everything is allowed and nothing is asked); `can_ask` says
/// whether there is a channel to the user.
pub fn check_step(verdict: Option<CheckResult>, can_ask: bool, tool: &str, input_key: &str) -> (r: PermAction)
    ensures
        match verdict {
            None => r is Proceed,
            Some(CheckResult::Allowed) => r is Proceed,
            Some(CheckResult::Denied(reason)) => r matches PermAction::Refuse(e) && e.text()
                == "Permission denied: "@ + reason@,
            Some(CheckResult::Ask) => if can_ask {
                r matches PermAction::Ask(q) && q.tool@ == tool@ && q.input@ == input_key@
            } else {
                r matches PermAction::Refuse(e) && e.text() == "Permission denied (non-interactive mode)"@
            },
        },
{
    match verdict {
        None => PermAction::Proceed,
        Some(v) => match perm_step(v, can_ask) {
            PermStep::Proceed => PermAction::Proceed,
            PermStep::Refuse(e) => PermAction::Refuse(e),
            PermStep::AskUser => PermAction::Ask(
                AskRequest { tool: String::from_str(tool), input: String::from_str(input_key) },
            ),
        },
    }
}

/// How asking the user ended. `sent` says whether the question reached the
/// permission system; when it did not, the call is refused (failing closed)
/// and nothing is allowed. Otherwise the reply decides, as in
/// [`ask_outcome`].
pub fn ask_result(sent: bool, reply: Option<UserDecision>) -> (r: (Result<(), ToolError>, Option<String>))
    ensures
        !sent ==> (r.0 matches Err(e) && e.text() == "Permission system unavailable"@) && r.1 is None,
        sent ==> match reply {
            Some(UserDecision::AllowOnce) => r.0 is Ok && r.1 is None,
            Some(UserDecision::AllowAlways(p)) => r.0 is Ok && r.1 == Some(p),
            _ => (r.0 matches Err(e) && e.text() == "Permission denied by user"@) && r.1 is None,
        },
{
    if !sent {
        (Err(ToolError::Msg(String::from_str("Permission system unavailable"))), None)
    } else {
        ask_outcome(reply)
    }
}

/// Directories that file-walking tools skip.
pub fn is_skip_dir(name: &str) -> (r: bool)
    ensures
        r == (name@ == "node_modules"@ || name@ == "target"@),
{
    crate::text::str_eq(name, "node_modules") || crate::text::str_eq(name, "target")
}

/// Arguments of the `read` tool.
pub struct ReadArgs {
    pub path: String,
    pub offset: Option<usize>,
    pub limit: Option<usize>,
}

/// Arguments of the `write` tool.
pub struct WriteArgs {
    pub path: String,
    pub content: String,
}

/// Arguments of the `edit` tool.
pub struct EditArgs {
    pub path: String,
    pub old_text: String,
    pub new_text: String,
    pub replace_all: Option<bool>,
}

/// Arguments of the `bash` tool.
pub struct BashArgs {
    pub command: String,
    pub timeout: Option<u64>,
}

/// Arguments of the `grep` tool.
pub struct GrepArgs {
    pub pattern: String,
    pub path: Option<String>,
    /// Glob that file names must match.
    pub file_glob: Option<String>,
    pub context_lines: Option<usize>,
}

/// Arguments of the `find_files` tool.
pub struct FindFilesArgs {
    pub pattern: String,
    pub path: Option<String>,
}

/// Arguments of the `list_dir` tool.
pub struct ListDirArgs {
    pub path: Option<String>,
}

/// The `bash` tool: runs a command in the sandbox and reports its output.
pub struct BashTool;

/// What the `bash` tool reports for a finished command: stdout, then stderr
/// on a line of its own (when both are non-empty), then the exit code when it
/// is not zero.
pub open spec fn bash_report(stdout: Seq<char>, stderr: Seq<char>, exit_code: int) -> Seq<char> {
    let with_err = if stderr.len() == 0 {
        stdout
    } else if stdout.len() == 0 {
        stderr
    } else {
        stdout + "\n"@ + stderr
    };
    if exit_code != 0 {
        with_err + "\nExit code: "@ + int_text(exit_code)
    } else {
        with_err
    }
}

/// The layout of the `bash` report, for every output and exit code: a
/// non-zero exit code is reported after everything else, as
/// `\nExit code: ` and its decimal text; what comes before it (the whole
/// report for exit code 0) starts with stdout, ends with stderr, and holds
/// nothing else but one newline between them when both are non-empty.
pub proof fn law_bash_report_layout(stdout: Seq<char>, stderr: Seq<char>, exit_code: int)
    ensures
        exit_code != 0 ==> bash_report(stdout, stderr, exit_code) == bash_report(stdout, stderr, 0)
            + "\nExit code: "@ + int_text(exit_code),
        exit_code != 0 ==> ends_with(bash_report(stdout, stderr, exit_code), "\nExit code: "@ + int_text(exit_code)),
        starts_with(bash_report(stdout, stderr, 0), stdout),
        ends_with(bash_report(stdout, stderr, 0), stderr),
        bash_report(stdout, stderr, 0).len() == stdout.len() + stderr.len() + if stdout.len() > 0
            && stderr.len() > 0 {
            1int
        } else {
            0int
        },
        stdout.len() > 0 && stderr.len() > 0 ==> bash_report(stdout, stderr, 0)[stdout.len() as int] == '\n',
{
    reveal_strlit("\n");
    let body = bash_report(stdout, stderr, 0);
    let tail = "\nExit code: "@ + int_text(exit_code);
    if exit_code != 0 {
        let r = bash_report(stdout, stderr, exit_code);
        assert(r == body + tail);
        assert(r.subrange(r.len() - tail.len(), r.len() as int) =~= tail);
    }
    if stderr.len() == 0 {
        assert(body =~= stdout);
        assert(body.subrange(body.len() - stderr.len(), body.len() as int) =~= stderr);
        assert(body.subrange(0, stdout.len() as int) =~= stdout);
    } else if stdout.len() == 0 {
        assert(body =~= stderr);
        assert(body.subrange(0, stdout.len() as int) =~= stdout);
        assert(body.subrange(body.len() - stderr.len(), body.len() as int) =~= stderr);
    } else {
        assert(body =~= stdout + "\n"@ + stderr);
        assert(body.subrange(0, stdout.len() as int) =~= stdout);
        assert(body.subrange(body.len() - stderr.len(), body.len() as int) =~= stderr);
    }
}

impl BashTool {
    /// The report for a command that printed `stdout` and `stderr` and
    /// exited with `exit_code` (-1 when it was killed by a signal).
    pub fn report(&self, stdout: &str, stderr: &str, exit_code: i32) -> (r: String)
        ensures
            r@ == bash_report(stdout@, stderr@, exit_code as int),
    {
        let mut result = String::new();
        if !stdout.is_empty() {
            result.append(stdout);
        }
        if !stderr.is_empty() {
            if !result.as_str().is_empty() {
                result.append("\n");
            }
            result.append(stderr);
        }
        if exit_code != 0 {
            result.append("\nExit code: ");
            push_signed(&mut result, exit_code as i64);
        }
        assert(result@ =~= bash_report(stdout@, stderr@, exit_code as int));
        result
    }
}

/// The `write` tool: writes a file, creating parent directories.
pub struct WriteTool;

/// What the `write` tool reports after writing `bytes` bytes to `path`.
pub open spec fn write_report(bytes: nat, path: Seq<char>) -> Seq<char> {
    "Written "@ + dec_text(bytes) + " bytes to "@ + path
}

/// The `write` report names the file last and the number of bytes written
/// in between: it reads `Written `, then the decimal digits of the byte
/// count (which read back as that count), then ` bytes to ` and the path.
pub proof fn law_write_report_layout(bytes: nat, path: Seq<char>)
    ensures
        starts_with(write_report(bytes, path), "Written "@),
        ends_with(write_report(bytes, path), " bytes to "@ + path),
        write_report(bytes, path).len() > 8 + 10 + path.len(),
        digits_value(write_report(bytes, path).subrange(8, write_report(bytes, path).len() - (10 + path.len())))
            == bytes,
        forall|i: int|
            8 <= i < write_report(bytes, path).len() - (10 + path.len()) ==> is_digit(
                #[trigger] write_report(bytes, path)[i],
            ),
{
    reveal_strlit("Written ");
    reveal_strlit(" bytes to ");
    law_dec_text_reads_back(bytes);
    let r = write_report(bytes, path);
    let d = dec_text(bytes);
    let tail = " bytes to "@ + path;
    assert(r.subrange(0, 8) =~= "Written "@);
    assert(r.subrange(r.len() - tail.len(), r.len() as int) =~= tail);
    assert(r.subrange(8, r.len() - (10 + path.len())) =~= d);
    assert forall|i: int| 8 <= i < r.len() - (10 + path.len()) implies is_digit(#[trigger] r[i]) by {
        assert(r[i] == d[i - 8]);
    }
}

impl WriteTool {
    /// The report after writing `content` to `path`.
    pub fn report(&self, content: &str, path: &str) -> (r: String)
        ensures
            r@ == write_report(content.len() as nat, path@),
    {
        let bytes = content.len();
        let mut s = String::from_str("Written ");
        push_decimal(&mut s, bytes as u64);
        s.append(" bytes to ");
        s.append(path);
        assert(s@ =~= write_report(content.len() as nat, path@));
        s
    }
}

} // verus!
