//! The records of the stream-JSON protocol of the agent family, as plain values.
//!
//! JSON payloads that the normalizer only carries through (tool inputs, unknown records) are
//! held as their JSON text.
use vstd::prelude::*;
use vstd::string::*;

verus! {

#[derive(Clone, Copy, Debug, PartialEq, Eq, Structural)]
pub enum HistoryStrategy {
    /// The agent's own format.
    Default,
    /// Amp threads, whose output repeats the earlier turns of the conversation.
    AmpResume,
}

#[derive(Clone, Debug, PartialEq)]
pub struct ClaudeTodoItem {
    pub id: Option<String>,
    pub content: String,
    pub status: String,
    pub priority: Option<String>,
}

#[derive(Clone, Debug, PartialEq)]
pub struct ClaudeEditItem {
    pub old_string: Option<String>,
    pub new_string: Option<String>,
}

/// The input of a tool call, by tool.
#[derive(Clone, Debug, PartialEq)]
pub enum ClaudeToolData {
    TodoWrite { todos: Vec<ClaudeTodoItem> },
    Task { subagent_type: Option<String>, description: Option<String>, prompt: Option<String> },
    Glob { pattern: String, path: Option<String>, limit: Option<u32> },
    LS { path: String },
    Read { file_path: String },
    Bash { command: String, description: Option<String> },
    Grep { pattern: String, output_mode: Option<String>, path: Option<String> },
    ExitPlanMode { plan: String },
    Edit { file_path: String, old_string: Option<String>, new_string: Option<String> },
    MultiEdit { file_path: String, edits: Vec<ClaudeEditItem> },
    Write { file_path: String, content: String },
    NotebookEdit {
        notebook_path: String,
        new_source: String,
        edit_mode: String,
        cell_id: Option<String>,
        /// The call's input as JSON text.
        input: Option<String>,
    },
    WebFetch { url: String, prompt: Option<String> },
    WebSearch { query: String, num_results: Option<u32> },
    /// `input` is the call's input as JSON text.
    Oracle { task: Option<String>, files: Option<Vec<String>>, context: Option<String>, input: Option<String> },
    /// `input` is the call's input as JSON text.
    Mermaid { code: String, input: Option<String> },
    CodebaseSearchAgent {
        query: Option<String>,
        path: Option<String>,
        included: Option<Vec<String>>,
        excluded: Option<Vec<String>>,
        limit: Option<u32>,
        /// The call's input as JSON text.
        input: Option<String>,
    },
    UndoEdit { path: Option<String>, steps: Option<u32> },
    TodoRead,
    /// Any other tool: its `name`, when it has one, and its `input` as JSON text.
    Unknown { name: Option<String>, input: Option<String> },
}

/// The content of a tool result, in the shapes that the normalizer reads.
#[derive(Clone, Debug, PartialEq)]
pub struct ToolResultContent {
    /// The content, when it is a JSON string.
    pub text: Option<String>,
    /// The `text` of each item, when the content is an array of `{"text": ...}` objects.
    pub text_items: Option<Vec<String>>,
    /// The content as JSON text.
    pub json: String,
    /// The content read as Amp's Bash result `{"output": ..., "exitCode": ...}`, when it is one:
    /// the string content itself, or else the JSON text, decoded.
    pub amp_bash: Option<AmpBashResult>,
}

/// Amp's Bash tool result.
#[derive(Clone, Debug, PartialEq)]
pub struct AmpBashResult {
    pub output: String,
    pub exit_code: i32,
}

#[derive(Clone, Debug, PartialEq)]
pub enum ClaudeContentItem {
    Text { text: String },
    Thinking { thinking: String },
    ToolUse { id: String, tool_data: ClaudeToolData },
    ToolResult { tool_use_id: String, content: ToolResultContent, is_error: Option<bool> },
}

#[derive(Clone, Debug, PartialEq)]
pub struct ClaudeMessage {
    pub id: Option<String>,
    pub message_type: Option<String>,
    pub role: String,
    pub model: Option<String>,
    pub content: Vec<ClaudeContentItem>,
    pub stop_reason: Option<String>,
}

#[derive(Clone, Debug, PartialEq)]
pub enum ClaudeContentBlockDelta {
    TextDelta { text: String },
    ThinkingDelta { thinking: String },
    Unknown,
}

#[derive(Clone, Debug, PartialEq, Default)]
pub struct ClaudeMessageDelta {
    pub stop_reason: Option<String>,
    pub stop_sequence: Option<String>,
}

#[derive(Clone, Debug, PartialEq, Default)]
pub struct ClaudeUsage {
    pub input_tokens: Option<u64>,
    pub output_tokens: Option<u64>,
    pub cache_creation_input_tokens: Option<u64>,
    pub cache_read_input_tokens: Option<u64>,
    pub service_tier: Option<String>,
}

#[derive(Clone, Debug, PartialEq)]
pub enum ClaudeStreamEvent {
    MessageStart { message: ClaudeMessage },
    ContentBlockStart { index: usize, content_block: ClaudeContentItem },
    ContentBlockDelta { index: usize, delta: ClaudeContentBlockDelta },
    ContentBlockStop { index: usize },
    MessageDelta { delta: Option<ClaudeMessageDelta>, usage: Option<ClaudeUsage> },
    MessageStop,
    Unknown,
}

/// One line of the agent's output.
#[derive(Clone, Debug, PartialEq)]
pub enum ClaudeJson {
    System {
        subtype: Option<String>,
        session_id: Option<String>,
        cwd: Option<String>,
        model: Option<String>,
        api_key_source: Option<String>,
    },
    Assistant { message: ClaudeMessage, session_id: Option<String> },
    User { message: ClaudeMessage, session_id: Option<String> },
    ToolUse { tool_name: String, tool_data: ClaudeToolData, session_id: Option<String> },
    /// `result` is JSON text.
    ToolResult { result: String, is_error: Option<bool>, session_id: Option<String> },
    StreamEvent {
        event: ClaudeStreamEvent,
        session_id: Option<String>,
        parent_tool_use_id: Option<String>,
        uuid: Option<String>,
    },
    Result {
        subtype: Option<String>,
        is_error: Option<bool>,
        duration_ms: Option<u64>,
        /// JSON text.
        result: Option<String>,
        error: Option<String>,
        num_turns: Option<u32>,
        session_id: Option<String>,
        /// The whole record as JSON text.
        raw: String,
    },
    /// A record of another type; `data` is the whole record as JSON text.
    Unknown { data: String },
}

/// The session id that a record carries.
pub open spec fn session_of(j: ClaudeJson) -> Option<String> {
    match j {
        ClaudeJson::System { session_id, .. } => session_id,
        ClaudeJson::Assistant { session_id, .. } => session_id,
        ClaudeJson::User { session_id, .. } => session_id,
        ClaudeJson::ToolUse { session_id, .. } => session_id,
        ClaudeJson::ToolResult { session_id, .. } => session_id,
        ClaudeJson::StreamEvent { session_id, .. } => session_id,
        ClaudeJson::Result { session_id, .. } => session_id,
        ClaudeJson::Unknown { .. } => None,
    }
}

impl ClaudeJson {
    /// The session id that this record carries, if any.
    pub fn extract_session_id(&self) -> (r: Option<String>)
        ensures
            r == session_of(*self),
    {
        let s = match self {
            ClaudeJson::System { session_id, .. } => session_id,
            ClaudeJson::Assistant { session_id, .. } => session_id,
            ClaudeJson::User { session_id, .. } => session_id,
            ClaudeJson::ToolUse { session_id, .. } => session_id,
            ClaudeJson::ToolResult { session_id, .. } => session_id,
            ClaudeJson::StreamEvent { session_id, .. } => session_id,
            ClaudeJson::Result { session_id, .. } => session_id,
            ClaudeJson::Unknown { .. } => {
                return None;
            },
        };
        crate::text::clone_opt(s)
    }
}

/// The name under which a tool is shown.
pub open spec fn tool_name(t: ClaudeToolData) -> Seq<char> {
    match t {
        ClaudeToolData::TodoWrite { .. } => "TodoWrite"@,
        ClaudeToolData::Task { .. } => "Task"@,
        ClaudeToolData::Glob { .. } => "Glob"@,
        ClaudeToolData::LS { .. } => "LS"@,
        ClaudeToolData::Read { .. } => "Read"@,
        ClaudeToolData::Bash { .. } => "Bash"@,
        ClaudeToolData::Grep { .. } => "Grep"@,
        ClaudeToolData::ExitPlanMode { .. } => "ExitPlanMode"@,
        ClaudeToolData::Edit { .. } => "Edit"@,
        ClaudeToolData::MultiEdit { .. } => "MultiEdit"@,
        ClaudeToolData::Write { .. } => "Write"@,
        ClaudeToolData::NotebookEdit { .. } => "NotebookEdit"@,
        ClaudeToolData::WebFetch { .. } => "WebFetch"@,
        ClaudeToolData::WebSearch { .. } => "WebSearch"@,
        ClaudeToolData::Oracle { .. } => "Oracle"@,
        ClaudeToolData::Mermaid { .. } => "Mermaid"@,
        ClaudeToolData::CodebaseSearchAgent { .. } => "CodebaseSearchAgent"@,
        ClaudeToolData::UndoEdit { .. } => "UndoEdit"@,
        ClaudeToolData::TodoRead => "TodoRead"@,
        ClaudeToolData::Unknown { name, .. } => match name {
            Some(n) => n@,
            None => "unknown"@,
        },
    }
}

impl ClaudeToolData {
    /// The name under which this tool is shown.
    pub fn get_name(&self) -> (r: String)
        ensures
            r@ == tool_name(*self),
    {
        let s: &str = match self {
            ClaudeToolData::TodoWrite { .. } => "TodoWrite",
            ClaudeToolData::Task { .. } => "Task",
            ClaudeToolData::Glob { .. } => "Glob",
            ClaudeToolData::LS { .. } => "LS",
            ClaudeToolData::Read { .. } => "Read",
            ClaudeToolData::Bash { .. } => "Bash",
            ClaudeToolData::Grep { .. } => "Grep",
            ClaudeToolData::ExitPlanMode { .. } => "ExitPlanMode",
            ClaudeToolData::Edit { .. } => "Edit",
            ClaudeToolData::MultiEdit { .. } => "MultiEdit",
            ClaudeToolData::Write { .. } => "Write",
            ClaudeToolData::NotebookEdit { .. } => "NotebookEdit",
            ClaudeToolData::WebFetch { .. } => "WebFetch",
            ClaudeToolData::WebSearch { .. } => "WebSearch",
            ClaudeToolData::Oracle { .. } => "Oracle",
            ClaudeToolData::Mermaid { .. } => "Mermaid",
            ClaudeToolData::CodebaseSearchAgent { .. } => "CodebaseSearchAgent",
            ClaudeToolData::UndoEdit { .. } => "UndoEdit",
            ClaudeToolData::TodoRead => "TodoRead",
            ClaudeToolData::Unknown { name, .. } => match name {
                Some(n) => {
                    return n.clone();
                },
                None => "unknown",
            },
        };
        String::from_str(s)
    }
}

} // verus!
