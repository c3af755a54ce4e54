use executors::claude::{
    ClaudeContentItem, ClaudeJson, ClaudeMessage, ClaudeToolData, ToolResultContent,
};
use executors::claude_log::{line_to_process, text_line_patches, ClaudeLogProcessor};
use executors::claude_tools::{extract_action_type, generate_concise_content};
use executors::entry::{ActionType, ConversationPatch, NormalizedEntry, NormalizedEntryType};
use executors::index::EntryIndexProvider;
use executors::lines::LineBuffer;
use executors::path::make_path_relative;
use executors::session::SessionIdSlot;

/// The product name of the agent under test, and the command that runs it.
const AGENT: &str = "Acme";
const AGENT_COMMAND: &str = "acme";

/// The billing warning for that agent.
const WARNING: &str =
    "Acme Code + ANTHROPIC_API_KEY detected. Usage will be billed via Anthropic pay-as-you-go instead of your Acme subscription.";

fn s(x: &str) -> String {
    x.to_string()
}

fn entries_of(patches: &[ConversationPatch]) -> Vec<NormalizedEntry> {
    patches
        .iter()
        .filter_map(|p| match p {
            ConversationPatch::Add { entry, .. } | ConversationPatch::Replace { entry, .. } => {
                Some(entry.clone())
            }
            ConversationPatch::Remove { .. } => None,
        })
        .collect()
}

fn normalize(json: &ClaudeJson, worktree: &str) -> Vec<NormalizedEntry> {
    let mut processor = ClaudeLogProcessor::new(s(AGENT));
    let mut provider = EntryIndexProvider::test_new();
    let patches = processor.normalize_entries(json, worktree, &mut provider);
    entries_of(&patches)
}

fn message(role: &str, model: Option<&str>, content: Vec<ClaudeContentItem>) -> ClaudeMessage {
    ClaudeMessage {
        id: None,
        message_type: None,
        role: s(role),
        model: model.map(s),
        content,
        stop_reason: None,
    }
}

fn assistant(content: Vec<ClaudeContentItem>) -> ClaudeJson {
    ClaudeJson::Assistant { message: message("assistant", None, content), session_id: None }
}

fn tool_use(id: &str, tool_data: ClaudeToolData) -> ClaudeContentItem {
    ClaudeContentItem::ToolUse { id: s(id), tool_data }
}

fn system(subtype: Option<&str>, session_id: Option<&str>, api_key_source: Option<&str>) -> ClaudeJson {
    ClaudeJson::System {
        subtype: subtype.map(s),
        session_id: session_id.map(s),
        cwd: None,
        model: None,
        api_key_source: api_key_source.map(s),
    }
}

fn text_content(t: &str) -> ToolResultContent {
    ToolResultContent {
        text: Some(s(t)),
        text_items: None,
        json: format!("{:?}", t),
        amp_bash: None,
    }
}

#[test]
fn test_claude_json_parsing() {
    let mut parsed = system(Some("init"), Some("abc123"), None);
    if let ClaudeJson::System { model, .. } = &mut parsed {
        *model = Some(s("sonnet-4"));
    }
    assert_eq!(parsed.extract_session_id(), Some("abc123".to_string()));

    let entries = normalize(&parsed, "");
    assert_eq!(entries.len(), 0);

    let parsed = ClaudeJson::Assistant {
        message: ClaudeMessage {
            id: None,
            message_type: Some(s("message")),
            role: s("assistant"),
            model: Some(s("sonnet-4-20250514")),
            content: vec![ClaudeContentItem::Text { text: s("Hi! I am the coding agent.") }],
            stop_reason: None,
        },
        session_id: None,
    };
    let entries = normalize(&parsed, "");

    assert_eq!(entries.len(), 2);
    assert!(matches!(entries[0].entry_type, NormalizedEntryType::SystemMessage));
    assert_eq!(entries[0].content, "System initialized with model: sonnet-4-20250514");
}

#[test]
fn test_assistant_message_parsing() {
    let parsed = ClaudeJson::Assistant {
        message: message("assistant", None, vec![ClaudeContentItem::Text { text: s("Hello world") }]),
        session_id: Some(s("abc123")),
    };

    let entries = normalize(&parsed, "");
    assert_eq!(entries.len(), 1);
    assert!(matches!(entries[0].entry_type, NormalizedEntryType::AssistantMessage));
    assert_eq!(entries[0].content, "Hello world");
}

#[test]
fn test_result_message_ignored() {
    let parsed = ClaudeJson::Result {
        subtype: Some(s("success")),
        is_error: Some(false),
        duration_ms: Some(6059),
        result: Some(s("\"Final result\"")),
        error: None,
        num_turns: None,
        session_id: None,
        raw: s(r#"{"type":"result","subtype":"success","is_error":false}"#),
    };

    let entries = normalize(&parsed, "");
    assert_eq!(entries.len(), 0);
}

#[test]
fn test_thinking_content() {
    let parsed = assistant(vec![ClaudeContentItem::Thinking { thinking: s("Let me think about this...") }]);

    let entries = normalize(&parsed, "");
    assert_eq!(entries.len(), 1);
    assert!(matches!(entries[0].entry_type, NormalizedEntryType::Thinking));
    assert_eq!(entries[0].content, "Let me think about this...");
}

#[test]
fn test_todo_tool_empty_list() {
    let empty_data = ClaudeToolData::TodoWrite { todos: vec![] };

    let action_type = extract_action_type(&empty_data, "/tmp/test-worktree");
    let result = generate_concise_content(&empty_data, &action_type, "/tmp/test-worktree");

    assert_eq!(result, "TODO list updated");
}

#[test]
fn test_glob_tool_content_extraction() {
    let glob_data = ClaudeToolData::Glob {
        pattern: s("**/*.ts"),
        path: Some(s("/tmp/test-worktree/src")),
        limit: None,
    };

    let action_type = extract_action_type(&glob_data, "/tmp/test-worktree");
    let result = generate_concise_content(&glob_data, &action_type, "/tmp/test-worktree");

    assert_eq!(result, "`**/*.ts`");
}

#[test]
fn test_glob_tool_pattern_only() {
    let glob_data = ClaudeToolData::Glob { pattern: s("*.js"), path: None, limit: None };

    let action_type = extract_action_type(&glob_data, "/tmp/test-worktree");
    let result = generate_concise_content(&glob_data, &action_type, "/tmp/test-worktree");

    assert_eq!(result, "`*.js`");
}

#[test]
fn test_ls_tool_content_extraction() {
    let ls_data = ClaudeToolData::LS { path: s("/tmp/test-worktree/components") };

    let action_type = extract_action_type(&ls_data, "/tmp/test-worktree");
    let result = generate_concise_content(&ls_data, &action_type, "/tmp/test-worktree");

    assert_eq!(result, "List directory: `components`");
}

#[test]
fn test_path_relative_conversion() {
    let relative_result = make_path_relative("src/main.rs", "/tmp/test-worktree");
    assert_eq!(relative_result, "src/main.rs");

    let test_worktree = "/tmp/test-worktree";
    let absolute_path = format!("{test_worktree}/src/main.rs");
    let absolute_result = make_path_relative(&absolute_path, test_worktree);
    assert_eq!(absolute_result, "src/main.rs");
}

#[test]
fn test_streaming_patch_generation() {
    let mut processor = ClaudeLogProcessor::new(s(AGENT));
    let mut provider = EntryIndexProvider::test_new();
    let mut session = SessionIdSlot::new();
    let mut buffer = LineBuffer::new();
    let mut patches = Vec::new();
    let mut announced = Vec::new();

    let records = vec![
        (
            r#"{"type":"system","subtype":"init","session_id":"test123"}"#,
            system(Some("init"), Some("test123"), None),
        ),
        (
            r#"{"type":"assistant","message":{"role":"assistant","content":[{"type":"text","text":"Hello"}]}}"#,
            assistant(vec![ClaudeContentItem::Text { text: s("Hello") }]),
        ),
    ];
    for (raw, record) in records {
        for line in buffer.push(&format!("{raw}\n")) {
            if line_to_process(&line, AGENT_COMMAND).is_none() {
                continue;
            }
            let (id, ps) = processor.handle_record(&record, &mut session, "/tmp/test-worktree", &mut provider);
            announced.extend(id);
            patches.extend(ps);
        }
    }
    patches.extend(text_line_patches("stray text", &mut provider));

    assert!(
        !patches.is_empty(),
        "Expected JsonPatch messages to be generated from streaming processing"
    );
    assert_eq!(announced, vec!["test123".to_string()]);
}

#[test]
fn test_session_id_extraction() {
    let parsed = system(None, Some("test-session-123"), None);
    assert_eq!(parsed.extract_session_id(), Some("test-session-123".to_string()));

    let parsed_tool = ClaudeJson::ToolUse {
        tool_name: s("read"),
        tool_data: ClaudeToolData::Unknown { name: None, input: Some(s("{}")) },
        session_id: Some(s("another-session")),
    };
    assert_eq!(parsed_tool.extract_session_id(), Some("another-session".to_string()));
}

#[test]
fn test_amp_tool_aliases_create_file_and_edit_file() {
    let parsed = assistant(vec![tool_use(
        "t1",
        ClaudeToolData::Write { file_path: s("/tmp/work/src/new.txt"), content: s("hello") },
    )]);
    let entries = normalize(&parsed, "/tmp/work");
    assert_eq!(entries.len(), 1);
    match &entries[0].entry_type {
        NormalizedEntryType::ToolUse { action_type, .. } => match action_type {
            ActionType::FileEdit { path, .. } => assert_eq!(path, "src/new.txt"),
            other => panic!("Expected FileEdit, got {other:?}"),
        },
        other => panic!("Expected ToolUse, got {other:?}"),
    }

    let parsed_edit = assistant(vec![tool_use(
        "t2",
        ClaudeToolData::Edit {
            file_path: s("/tmp/work/README.md"),
            old_string: Some(s("foo")),
            new_string: Some(s("bar")),
        },
    )]);
    let entries = normalize(&parsed_edit, "/tmp/work");
    assert_eq!(entries.len(), 1);
    match &entries[0].entry_type {
        NormalizedEntryType::ToolUse { action_type, .. } => match action_type {
            ActionType::FileEdit { path, .. } => assert_eq!(path, "README.md"),
            other => panic!("Expected FileEdit, got {other:?}"),
        },
        other => panic!("Expected ToolUse, got {other:?}"),
    }
}

#[test]
fn test_amp_tool_aliases_oracle_mermaid_codebase_undo() {
    let parsed = assistant(vec![tool_use(
        "t1",
        ClaudeToolData::Oracle {
            task: Some(s("Assess project status")),
            files: None,
            context: None,
            input: Some(s("{\"task\":\"Assess project status\"}")),
        },
    )]);
    let entries = normalize(&parsed, "/tmp/work");
    assert_eq!(entries.len(), 1);
    assert_eq!(entries[0].content, "Oracle: `Assess project status`");

    let parsed = assistant(vec![tool_use("t2", ClaudeToolData::Mermaid { code: s("graph TD; A-->B;"), input: None })]);
    let entries = normalize(&parsed, "/tmp/work");
    assert_eq!(entries.len(), 1);
    assert_eq!(entries[0].content, "Mermaid diagram");

    let parsed = assistant(vec![tool_use(
        "t3",
        ClaudeToolData::CodebaseSearchAgent {
            query: Some(s("TODO markers")),
            path: None,
            included: None,
            excluded: None,
            limit: None,
            input: None,
        },
    )]);
    let entries = normalize(&parsed, "/tmp/work");
    assert_eq!(entries.len(), 1);
    assert_eq!(entries[0].content, "Codebase search: `TODO markers`");

    let parsed = assistant(vec![tool_use("t4", ClaudeToolData::UndoEdit { path: Some(s("README.md")), steps: None })]);
    let entries = normalize(&parsed, "/tmp/work");
    assert_eq!(entries.len(), 1);
    assert_eq!(entries[0].content, "Undo edit: `README.md`");
}

#[test]
fn test_amp_bash_and_task_content() {
    let parsed = assistant(vec![tool_use("t1", ClaudeToolData::Bash { command: s("echo hello"), description: None })]);
    let entries = normalize(&parsed, "/tmp/work");
    assert_eq!(entries.len(), 1);
    assert_eq!(entries[0].content, "`echo hello`");

    let parsed = assistant(vec![tool_use(
        "t2",
        ClaudeToolData::Task {
            subagent_type: Some(s("Task")),
            description: None,
            prompt: Some(s("Add header to README")),
        },
    )]);
    let entries = normalize(&parsed, "/tmp/work");
    assert_eq!(entries.len(), 1);
    assert_eq!(entries[0].content, "Task: `Add header to README`");
}

#[test]
fn test_task_description_or_prompt_backticks() {
    let parsed = assistant(vec![tool_use(
        "t3",
        ClaudeToolData::Task {
            subagent_type: Some(s("Task")),
            description: Some(s("Primary description")),
            prompt: Some(s("Fallback prompt")),
        },
    )]);
    let entries = normalize(&parsed, "/tmp/work");
    assert_eq!(entries.len(), 1);
    assert_eq!(entries[0].content, "Task: `Primary description`");

    let parsed = assistant(vec![tool_use(
        "t4",
        ClaudeToolData::Task { subagent_type: Some(s("Task")), description: None, prompt: Some(s("Only prompt")) },
    )]);
    let entries = normalize(&parsed, "/tmp/work");
    assert_eq!(entries.len(), 1);
    assert_eq!(entries[0].content, "Task: `Only prompt`");
}

#[test]
fn test_tool_result_parsing_ignored() {
    let parsed = ClaudeJson::ToolResult {
        result: s("\"File content here\""),
        is_error: Some(false),
        session_id: Some(s("test123")),
    };

    assert_eq!(parsed.extract_session_id(), Some("test123".to_string()));

    let entries = normalize(&parsed, "");
    assert_eq!(entries.len(), 0);
}

#[test]
fn test_content_item_tool_result_ignored() {
    let parsed = assistant(vec![ClaudeContentItem::ToolResult {
        tool_use_id: s("tool_123"),
        content: text_content("Operation completed"),
        is_error: Some(false),
    }]);

    let entries = normalize(&parsed, "");
    assert_eq!(entries.len(), 0);
}

#[test]
fn test_api_key_source_warning() {
    let parsed = system(Some("init"), Some("test123"), Some("ANTHROPIC_API_KEY"));
    let entries = normalize(&parsed, "");

    assert_eq!(entries.len(), 1);
    assert!(matches!(entries[0].entry_type, NormalizedEntryType::ErrorMessage));
    assert_eq!(
        entries[0].content,
        WARNING
    );

    let parsed_managed = system(Some("init"), Some("test123"), Some("/login managed key"));
    let entries_managed = normalize(&parsed_managed, "");
    assert_eq!(entries_managed.len(), 0);

    let parsed_other = system(Some("init"), Some("test123"), Some("OTHER_KEY"));
    let entries_other = normalize(&parsed_other, "");
    assert_eq!(entries_other.len(), 0);

    let parsed_no_key = system(Some("init"), Some("test123"), None);
    let entries_no_key = normalize(&parsed_no_key, "");
    assert_eq!(entries_no_key.len(), 0);
}

#[test]
fn test_mixed_content_with_thinking_ignores_tool_result() {
    let parsed = assistant(vec![
        ClaudeContentItem::Thinking { thinking: s("I need to read the file first") },
        ClaudeContentItem::Text { text: s("I'll help you with that") },
        ClaudeContentItem::ToolResult {
            tool_use_id: s("tool_789"),
            content: text_content("Success"),
            is_error: Some(false),
        },
    ]);

    let entries = normalize(&parsed, "");
    assert_eq!(entries.len(), 2);

    assert!(matches!(entries[0].entry_type, NormalizedEntryType::Thinking));
    assert_eq!(entries[0].content, "I need to read the file first");

    assert!(matches!(entries[1].entry_type, NormalizedEntryType::AssistantMessage));
    assert_eq!(entries[1].content, "I'll help you with that");
}
