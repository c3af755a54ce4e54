//! The events of the Codex app server, as plain values, and the entries they show.
use vstd::prelude::*;
use vstd::string::*;
use crate::diff::{concatenate_diff_hunks, diff_header, extract_unified_diff_hunks, hunks_of};
use crate::entry::{ActionType, CommandExitStatus, CommandRunResult, FileChange, NormalizedEntry, NormalizedEntryType, ToolResult, ToolStatus};
use crate::path::{make_path_relative, rel_path};
use crate::text::{backticked, trim, trimmed};
use crate::tool_result::{join_with, views};

verus! {

#[derive(Clone, Copy, Debug, PartialEq, Eq, Structural)]
pub enum ExecOutputStream {
    Stdout,
    Stderr,
}

/// A change to one file, as Codex reports it.
#[derive(Clone, Debug, PartialEq)]
pub enum CodexFileChange {
    Add { content: String },
    Delete,
    Update { unified_diff: String, move_path: Option<String> },
}

/// An MCP tool call: the server, the tool and its arguments as JSON text.
#[derive(Clone, Debug, PartialEq)]
pub struct McpInvocation {
    pub server: String,
    pub tool: String,
    pub arguments: Option<String>,
}

#[derive(Clone, Debug, PartialEq)]
pub enum McpContentBlock {
    Text { text: String },
    /// Any other block, as JSON text.
    Other { json: String },
}

/// The result of an MCP tool call.
#[derive(Clone, Debug, PartialEq)]
pub struct McpCallResult {
    pub content: Vec<McpContentBlock>,
    pub is_error: Option<bool>,
    /// JSON text.
    pub structured_content: Option<String>,
    /// The content blocks as one JSON array text.
    pub content_json: String,
}

/// How an MCP tool call ended: with a result, or with an error message.
#[derive(Clone, Debug, PartialEq)]
pub enum McpCallOutcome {
    Completed { value: McpCallResult },
    Failed { error: String },
}

#[derive(Clone, Copy, Debug, PartialEq, Eq, Structural)]
pub enum StepStatus {
    Pending,
    InProgress,
    Completed,
}

#[derive(Clone, Debug, PartialEq)]
pub struct PlanItem {
    pub step: String,
    pub status: StepStatus,
}

/// One event of a Codex conversation.
#[derive(Clone, Debug, PartialEq)]
pub enum CodexEvent {
    SessionConfigured { session_id: String, model: String, reasoning_effort: Option<String> },
    AgentMessageDelta { delta: String },
    AgentReasoningDelta { delta: String },
    AgentMessage { message: String },
    AgentReasoning { text: String },
    AgentReasoningSectionBreak,
    ExecApprovalRequest { call_id: String, command: Vec<String>, reason: Option<String> },
    ApplyPatchApprovalRequest { call_id: String, changes: Vec<(String, CodexFileChange)> },
    ExecCommandBegin { call_id: String, command: Vec<String> },
    ExecCommandOutputDelta { call_id: String, stream: ExecOutputStream, chunk: String },
    ExecCommandEnd { call_id: String, exit_code: i32, formatted_output: String },
    BackgroundEvent { message: String },
    StreamError { message: String },
    McpToolCallBegin { call_id: String, invocation: McpInvocation },
    McpToolCallEnd { call_id: String, result: McpCallOutcome },
    PatchApplyBegin { call_id: String, changes: Vec<(String, CodexFileChange)> },
    PatchApplyEnd { call_id: String, success: bool },
    WebSearchBegin { call_id: String },
    WebSearchEnd { call_id: String, query: String },
    ViewImageToolCall { path: String },
    PlanUpdate { plan: Vec<PlanItem>, explanation: Option<String> },
    Error { message: String },
    /// Token accounting, as JSON text.
    TokenCount { info: Option<String> },
    TurnAborted,
    /// Any event that shows nothing.
    Other,
}

/// `stdout:` and `stderr:` sections for the non-blank outputs, a blank line between them.
pub open spec fn command_output(stdout: Seq<char>, stderr: Seq<char>) -> Option<Seq<char>> {
    let o = trimmed(stdout);
    let e = trimmed(stderr);
    if o.len() == 0 && e.len() == 0 {
        None
    } else if e.len() == 0 {
        Some("stdout:\n"@ + o)
    } else if o.len() == 0 {
        Some("stderr:\n"@ + e)
    } else {
        Some("stdout:\n"@ + o + "\n\n"@ + "stderr:\n"@ + e)
    }
}

/// The output of a command, in sections.
pub fn build_command_output(stdout: &str, stderr: &str) -> (r: Option<String>)
    ensures
        r matches Some(s) ==> command_output(stdout@, stderr@) == Some(s@),
        r is None ==> command_output(stdout@, stderr@) is None,
{
    let o = trim(stdout);
    let e = trim(stderr);
    let o_empty = o.as_str().unicode_len() == 0;
    let e_empty = e.as_str().unicode_len() == 0;
    if o_empty && e_empty {
        return None;
    }
    let mut s = String::new();
    if !o_empty {
        s.append("stdout:\n");
        s.append(o.as_str());
    }
    if !e_empty {
        if !o_empty {
            s.append("\n\n");
        }
        s.append("stderr:\n");
        s.append(e.as_str());
    }
    Some(s)
}

/// What the normalizer knows of a command call.
pub struct CommandState {
    pub index: Option<usize>,
    pub command: String,
    pub stdout: String,
    pub stderr: String,
    pub formatted_output: Option<String>,
    pub status: ToolStatus,
    pub exit_code: Option<i32>,
    pub awaiting_approval: bool,
    pub call_id: String,
}

/// `e` shows the command `c`.
pub open spec fn command_entry_ok(c: CommandState, e: NormalizedEntry) -> bool {
    &&& e.content@ == "`"@ + c.command@ + "`"@
    &&& e.entry_type matches NormalizedEntryType::ToolUse { tool_name, action_type, status }
    &&& tool_name@ == "bash"@
    &&& status == c.status
    &&& action_type matches ActionType::CommandRun { command, result }
    &&& command@ == c.command@
    &&& result matches Some(res)
    &&& res.exit_status == (match c.exit_code {
        Some(code) => Some(CommandExitStatus::ExitCode { code }),
        None => None,
    })
    &&& (match c.formatted_output {
        Some(f) => res.output matches Some(o) && o@ == f@,
        None => match command_output(c.stdout@, c.stderr@) {
            Some(x) => res.output matches Some(o) && o@ == x,
            None => res.output is None,
        },
    })
}

impl CommandState {
    pub fn to_normalized_entry(&self) -> (r: NormalizedEntry)
        ensures
            command_entry_ok(*self, r),
    {
        let output = match &self.formatted_output {
            Some(f) => Some(f.clone()),
            None => build_command_output(self.stdout.as_str(), self.stderr.as_str()),
        };
        let exit_status = match self.exit_code {
            Some(code) => Some(CommandExitStatus::ExitCode { code }),
            None => None,
        };
        NormalizedEntry {
            entry_type: NormalizedEntryType::ToolUse {
                tool_name: String::from_str("bash"),
                action_type: ActionType::CommandRun {
                    command: self.command.clone(),
                    result: Some(CommandRunResult { exit_status, output }),
                },
                status: self.status,
            },
            content: backticked(self.command.as_str()),
        }
    }
}

/// What the normalizer knows of an MCP tool call.
pub struct McpToolState {
    pub index: Option<usize>,
    pub invocation: McpInvocation,
    pub result: Option<ToolResult>,
    pub status: ToolStatus,
}

pub open spec fn ov(o: Option<String>) -> Option<Seq<char>> {
    match o {
        Some(s) => Some(s@),
        None => None,
    }
}

pub open spec fn rv(o: Option<ToolResult>) -> Option<(crate::entry::ToolResultValueType, Seq<char>)> {
    match o {
        Some(t) => Some((t.value_type, t.value@)),
        None => None,
    }
}

/// `e` shows the MCP call `m`.
pub open spec fn mcp_entry_ok(m: McpToolState, e: NormalizedEntry) -> bool {
    let label = "mcp:"@ + m.invocation.server@ + ":"@ + m.invocation.tool@;
    &&& e.content@ == m.invocation.tool@
    &&& e.entry_type matches NormalizedEntryType::ToolUse { tool_name, action_type, status }
    &&& tool_name@ == label
    &&& status == m.status
    &&& action_type matches ActionType::Tool { tool_name: n, arguments, result }
    &&& n@ == label
    &&& ov(arguments) == ov(m.invocation.arguments)
    &&& rv(result) == rv(m.result)
}

fn clone_result(r: &Option<ToolResult>) -> (o: Option<ToolResult>)
    ensures
        rv(o) == rv(*r),
{
    match r {
        Some(t) => Some(ToolResult { value_type: t.value_type, value: t.value.clone() }),
        None => None,
    }
}

impl McpToolState {
    pub fn to_normalized_entry(&self) -> (r: NormalizedEntry)
        ensures
            mcp_entry_ok(*self, r),
    {
        let mut label = String::from_str("mcp:");
        label.append(self.invocation.server.as_str());
        label.append(":");
        label.append(self.invocation.tool.as_str());
        NormalizedEntry {
            entry_type: NormalizedEntryType::ToolUse {
                tool_name: label.clone(),
                action_type: ActionType::Tool {
                    tool_name: label,
                    arguments: crate::text::clone_opt(&self.invocation.arguments),
                    result: clone_result(&self.result),
                },
                status: self.status,
            },
            content: self.invocation.tool.clone(),
        }
    }
}

/// What the normalizer knows of a web search.
pub struct WebSearchState {
    pub index: Option<usize>,
    pub query: Option<String>,
    pub status: ToolStatus,
}

/// `e` shows the web search `w`; before its query is known it shows placeholders.
pub open spec fn web_search_entry_ok(w: WebSearchState, e: NormalizedEntry) -> bool {
    &&& e.content@ == (match w.query {
        Some(q) => q@,
        None => "Web search"@,
    })
    &&& e.entry_type matches NormalizedEntryType::ToolUse { tool_name, action_type, status }
    &&& tool_name@ == "web_search"@
    &&& status == w.status
    &&& action_type matches ActionType::WebFetch { url }
    &&& url@ == (match w.query {
        Some(q) => q@,
        None => "..."@,
    })
}

impl WebSearchState {
    pub fn new() -> (r: WebSearchState)
        ensures
            r.index is None,
            r.query is None,
            r.status == ToolStatus::Created,
    {
        WebSearchState { index: None, query: None, status: ToolStatus::Created }
    }

    pub fn to_normalized_entry(&self) -> (r: NormalizedEntry)
        ensures
            web_search_entry_ok(*self, r),
    {
        let (url, content) = match &self.query {
            Some(q) => (q.clone(), q.clone()),
            None => (String::from_str("..."), String::from_str("Web search")),
        };
        NormalizedEntry {
            entry_type: NormalizedEntryType::ToolUse {
                tool_name: String::from_str("web_search"),
                action_type: ActionType::WebFetch { url },
                status: self.status,
            },
            content,
        }
    }
}

/// One file of a patch call.
pub struct PatchEntry {
    pub index: Option<usize>,
    pub path: String,
    pub changes: Vec<FileChange>,
    pub status: ToolStatus,
    pub awaiting_approval: bool,
    pub call_id: String,
}

/// `e` shows the file `p` of a patch call.
pub open spec fn patch_entry_ok(p: PatchEntry, e: NormalizedEntry) -> bool {
    &&& e.content@ == p.path@
    &&& e.entry_type matches NormalizedEntryType::ToolUse { tool_name, action_type, status }
    &&& tool_name@ == "edit"@
    &&& status == p.status
    &&& action_type matches ActionType::FileEdit { path, changes }
    &&& path@ == p.path@
    &&& changes.len() == p.changes.len()
}

pub fn clone_changes(changes: &Vec<FileChange>) -> (r: Vec<FileChange>)
    ensures
        r.len() == changes.len(),
{
    let mut out: Vec<FileChange> = Vec::new();
    let mut k: usize = 0;
    while k < changes.len()
        invariant
            k <= changes.len(),
            out.len() == k,
        decreases changes.len() - k,
    {
        let c = match &changes[k] {
            FileChange::Write { content } => FileChange::Write { content: content.clone() },
            FileChange::Delete => FileChange::Delete,
            FileChange::Rename { new_path } => FileChange::Rename { new_path: new_path.clone() },
            FileChange::Edit { unified_diff, has_line_numbers } => FileChange::Edit {
                unified_diff: unified_diff.clone(),
                has_line_numbers: *has_line_numbers,
            },
        };
        out.push(c);
        k = k + 1;
    }
    out
}

impl PatchEntry {
    pub fn to_normalized_entry(&self) -> (r: NormalizedEntry)
        ensures
            patch_entry_ok(*self, r),
    {
        NormalizedEntry {
            entry_type: NormalizedEntryType::ToolUse {
                tool_name: String::from_str("edit"),
                action_type: ActionType::FileEdit {
                    path: self.path.clone(),
                    changes: clone_changes(&self.changes),
                },
                status: self.status,
            },
            content: self.path.clone(),
        }
    }
}

/// The file changes `r` for the change `c` to the file at `path`, relative to the worktree `w`.
pub open spec fn file_changes_ok(path: Seq<char>, c: CodexFileChange, w: Seq<char>, r: Seq<FileChange>) -> bool {
    match c {
        CodexFileChange::Add { content } => r.len() == 1 && (r[0] matches FileChange::Write { content: x } && x@ == content@),
        CodexFileChange::Delete => r.len() == 1 && r[0] is Delete,
        CodexFileChange::Update { unified_diff, move_path } => {
            let k: int = if move_path is Some { 1 } else { 0 };
            &&& r.len() == k + 1
            &&& k == 1 ==> (r[0] matches FileChange::Rename { new_path } && new_path@ == rel_path(move_path->0@, w))
            &&& r[k] matches FileChange::Edit { unified_diff: d, has_line_numbers }
            &&& d@ == diff_header(rel_path(path, w)) + hunks_of(unified_diff@)
            &&& has_line_numbers
        },
    }
}

/// The changes to one file, with paths relative to the worktree.
pub fn normalize_file_change(path: &str, change: &CodexFileChange, worktree_path: &str) -> (r: (String, Vec<FileChange>))
    ensures
        r.0@ == rel_path(path@, worktree_path@),
        file_changes_ok(path@, *change, worktree_path@, r.1@),
{
    let relative = make_path_relative(path, worktree_path);
    let mut edits: Vec<FileChange> = Vec::new();
    match change {
        CodexFileChange::Add { content } => {
            edits.push(FileChange::Write { content: content.clone() });
        },
        CodexFileChange::Delete => {
            edits.push(FileChange::Delete);
        },
        CodexFileChange::Update { unified_diff, move_path } => {
            if let Some(dest) = move_path {
                edits.push(FileChange::Rename { new_path: make_path_relative(dest.as_str(), worktree_path) });
            }
            let hunks = extract_unified_diff_hunks(unified_diff.as_str());
            let mut hv: Vec<String> = Vec::new();
            hv.push(hunks);
            let diff = concatenate_diff_hunks(relative.as_str(), &hv);
            proof {
                let vs = hv@.map_values(|h: String| h@);
                assert(vs.drop_last() =~= Seq::<Seq<char>>::empty());
                assert(vs.last() == hunks_of(unified_diff@));
                assert(crate::diff::joined(vs.drop_last()) == Seq::<char>::empty());
                assert(crate::diff::joined(vs) =~= hunks_of(unified_diff@));
            }
            edits.push(FileChange::Edit { unified_diff: diff, has_line_numbers: true });
        },
    }
    (relative, edits)
}

/// The changes of a patch call, file by file, with paths relative to the worktree.
pub fn normalize_file_changes(worktree_path: &str, changes: &Vec<(String, CodexFileChange)>) -> (r: Vec<(String, Vec<FileChange>)>)
    ensures
        r.len() == changes.len(),
        forall|i: int| 0 <= i < r.len() ==> (#[trigger] r@[i]).0@ == rel_path(changes@[i].0@, worktree_path@)
            && file_changes_ok(changes@[i].0@, changes@[i].1, worktree_path@, r@[i].1@),
{
    let mut out: Vec<(String, Vec<FileChange>)> = Vec::new();
    let mut k: usize = 0;
    while k < changes.len()
        invariant
            k <= changes.len(),
            out.len() == k,
            forall|i: int| 0 <= i < k ==> (#[trigger] out@[i]).0@ == rel_path(changes@[i].0@, worktree_path@)
                && file_changes_ok(changes@[i].0@, changes@[i].1, worktree_path@, out@[i].1@),
        decreases changes.len() - k,
    {
        let (path, change) = (&changes[k].0, &changes[k].1);
        out.push(normalize_file_change(path.as_str(), change, worktree_path));
        k = k + 1;
    }
    out
}

pub open spec fn step_status_text(s: StepStatus) -> Seq<char> {
    match s {
        StepStatus::Pending => "pending"@,
        StepStatus::InProgress => "in_progress"@,
        StepStatus::Completed => "completed"@,
    }
}

pub fn format_todo_status(status: StepStatus) -> (r: String)
    ensures
        r@ == step_status_text(status),
{
    match status {
        StepStatus::Pending => String::from_str("pending"),
        StepStatus::InProgress => String::from_str("in_progress"),
        StepStatus::Completed => String::from_str("completed"),
    }
}

/// The system message that announces the model: `model: <model>`, then two spaces and
/// `reasoning effort: <effort>` when an effort is set.
pub open spec fn model_params_text(model: Seq<char>, effort: Option<Seq<char>>) -> Seq<char> {
    match effort {
        Some(e) => "model: "@ + model + "  "@ + "reasoning effort: "@ + e,
        None => "model: "@ + model,
    }
}

pub fn model_params_entry(model: &str, reasoning_effort: &Option<String>) -> (r: NormalizedEntry)
    ensures
        r.entry_type is SystemMessage,
        r.content@ == model_params_text(model@, ov(*reasoning_effort)),
{
    let mut s = String::from_str("model: ");
    s.append(model);
    if let Some(e) = reasoning_effort {
        s.append("  ");
        s.append("reasoning effort: ");
        s.append(e.as_str());
    }
    NormalizedEntry { entry_type: NormalizedEntryType::SystemMessage, content: s }
}

/// The text of a command given as words: the words with single spaces between them.
pub open spec fn command_text(words: Seq<String>) -> Seq<char> {
    join_with(views(words), " "@)
}

} // verus!

verus! {

pub open spec fn is_hex(c: char) -> bool {
    ('0' <= c && c <= '9') || ('a' <= c && c <= 'f') || ('A' <= c && c <= 'F')
}

/// `s` opens with a UUID in its textual form: 8, 4, 4, 4 and 12 hex digits joined by dashes.
pub open spec fn opens_with_uuid(s: Seq<char>) -> bool {
    &&& s.len() >= 36
    &&& forall|i: int| 0 <= i < 36 ==> (if i == 8 || i == 13 || i == 18 || i == 23 {
        s[i] == '-'
    } else {
        is_hex(#[trigger] s[i])
    })
}

/// How the app server's `sessionConfigured` notification begins.
pub open spec fn session_configured_head() -> Seq<char> {
    "{\"method\":\"sessionConfigured\",\"params\":{\"sessionId\":\""@
}

/// The session id at the head of a `sessionConfigured` line whose JSON could not be read (a
/// long history can cut the line short): the UUID right after the opening, if there is one.
pub fn session_id_from_truncated_line(line: &str) -> (r: Option<String>)
    ensures
        ({
            let rest = line@.subrange(session_configured_head().len() as int, line@.len() as int);
            &&& r is Some <==> (crate::text::has_prefix(line@, session_configured_head()) && opens_with_uuid(rest))
            &&& r matches Some(id) ==> id@ == rest.subrange(0, 36)
        }),
{
    proof {
        reveal_strlit("{\"method\":\"sessionConfigured\",\"params\":{\"sessionId\":\"");
    }
    let head = "{\"method\":\"sessionConfigured\",\"params\":{\"sessionId\":\"";
    assert(session_configured_head() == head@);
    assert(head@.len() == 53);
    if !crate::text::starts_with(line, head) {
        return None;
    }
    let v = crate::text::chars_of(line);
    let start: usize = 53;
    assert(head@.len() == 53);
    if v.len() - start < 36 {
        return None;
    }
    let ghost rest = line@.subrange(53, line@.len() as int);
    let mut i: usize = 0;
    while i < 36
        invariant
            i <= 36,
            v@ == line@,
            v.len() >= 89,
            start == 53,
            session_configured_head().len() == 53,
            rest == line@.subrange(53, line@.len() as int),
            forall|j: int| 0 <= j < i ==> (if j == 8 || j == 13 || j == 18 || j == 23 {
                rest[j] == '-'
            } else {
                is_hex(#[trigger] rest[j])
            }),
        decreases 36 - i,
    {
        let c = v[start + i];
        assert(c == rest[i as int]);
        let ok = if i == 8 || i == 13 || i == 18 || i == 23 {
            c == '-'
        } else {
            ('0' <= c && c <= '9') || ('a' <= c && c <= 'f') || ('A' <= c && c <= 'F')
        };
        let ghost k = i as int;
        assert(ok == (if k == 8 || k == 13 || k == 18 || k == 23 { rest[k] == '-' } else { is_hex(rest[k]) }));
        if !ok {
            assert(opens_with_uuid(rest) ==> (if k == 8 || k == 13 || k == 18 || k == 23 { rest[k] == '-' } else { is_hex(rest[k]) }));
            return None;
        }
        i = i + 1;
    }
    let id = crate::text::slice(line, 53, 89);
    assert(id@ =~= rest.subrange(0, 36));
    Some(id)
}

} // verus!

verus! {

/// An exact copy of a list of file changes.
pub fn copy_changes(changes: &Vec<FileChange>) -> (r: Vec<FileChange>)
    ensures
        r.len() == changes.len(),
        forall|i: int| 0 <= i < r.len() ==> crate::claude_tools::same_change(#[trigger] r@[i], changes@[i]),
{
    let mut out: Vec<FileChange> = Vec::new();
    let mut k: usize = 0;
    while k < changes.len()
        invariant
            k <= changes.len(),
            out.len() == k,
            forall|i: int| 0 <= i < k ==> crate::claude_tools::same_change(#[trigger] out@[i], changes@[i]),
        decreases changes.len() - k,
    {
        out.push(crate::claude_tools::clone_change(&changes[k]));
        k = k + 1;
    }
    out
}

/// A copy of the changes of a file keeps what they say of the file.
pub proof fn lemma_same_changes_ok(path: Seq<char>, c: CodexFileChange, w: Seq<char>, r: Seq<FileChange>, r2: Seq<FileChange>)
    requires
        file_changes_ok(path, c, w, r),
        r2.len() == r.len(),
        forall|i: int| 0 <= i < r.len() ==> crate::claude_tools::same_change(#[trigger] r2[i], r[i]),
    ensures
        file_changes_ok(path, c, w, r2),
{
    if r.len() > 0 {
        assert(crate::claude_tools::same_change(r2[0], r[0]));
    }
    if r.len() > 1 {
        assert(crate::claude_tools::same_change(r2[1], r[1]));
    }
}

} // verus!
