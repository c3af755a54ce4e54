use executors::approvals::{review_decision, ApprovalStatus, FeedbackQueue, ReviewDecision};
use executors::claude::{
    ClaudeContentBlockDelta, ClaudeContentItem, ClaudeJson, ClaudeMessage, ClaudeStreamEvent,
    ClaudeToolData, ToolResultContent,
};
use executors::claude_log::{line_to_process, ClaudeLogProcessor};
use executors::codex::{CodexEvent, ExecOutputStream};
use executors::codex_log::CodexLogState;
use executors::entry::{
    ActionType, CommandExitStatus, ConversationPatch, NormalizedEntryType, ToolStatus,
};
use executors::index::EntryIndexProvider;
use executors::session::SessionIdSlot;

/// The product name of the agent under test, and the command that runs it.
const AGENT: &str = "Acme";
const AGENT_COMMAND: &str = "acme";

/// The billing warning for that agent.
const WARNING: &str =
    "Acme Code + ANTHROPIC_API_KEY detected. Usage will be billed via Anthropic pay-as-you-go instead of your Acme subscription.";

fn s(x: &str) -> String {
    x.to_string()
}

fn message(role: &str, id: Option<&str>, model: Option<&str>, content: Vec<ClaudeContentItem>) -> ClaudeMessage {
    ClaudeMessage {
        id: id.map(s),
        message_type: None,
        role: s(role),
        model: model.map(s),
        content,
        stop_reason: None,
    }
}

fn stream(event: ClaudeStreamEvent) -> ClaudeJson {
    ClaudeJson::StreamEvent { event, session_id: None, parent_tool_use_id: None, uuid: None }
}

fn text_result(id: &str, text: &str, is_error: bool) -> ClaudeJson {
    ClaudeJson::User {
        message: message(
            "user",
            None,
            None,
            vec![ClaudeContentItem::ToolResult {
                tool_use_id: s(id),
                content: ToolResultContent {
                    text: Some(s(text)),
                    text_items: None,
                    json: format!("{:?}", text),
                    amp_bash: None,
                },
                is_error: Some(is_error),
            }],
        ),
        session_id: None,
    }
}

fn bash_call(id: &str, command: &str) -> ClaudeJson {
    ClaudeJson::Assistant {
        message: message(
            "assistant",
            None,
            None,
            vec![ClaudeContentItem::ToolUse {
                id: s(id),
                tool_data: ClaudeToolData::Bash { command: s(command), description: None },
            }],
        ),
        session_id: None,
    }
}

#[test]
fn claude_system_init_with_unmanaged_key() {
    let mut processor = ClaudeLogProcessor::new(s(AGENT));
    let mut provider = EntryIndexProvider::test_new();
    let mut session = SessionIdSlot::new();
    let record = ClaudeJson::System {
        subtype: Some(s("init")),
        session_id: Some(s("abc")),
        cwd: None,
        model: None,
        api_key_source: Some(s("ANTHROPIC_API_KEY")),
    };
    let (id, patches) = processor.handle_record(&record, &mut session, "", &mut provider);
    assert_eq!(id, Some(s("abc")));
    assert_eq!(patches.len(), 1);
    match &patches[0] {
        ConversationPatch::Add { index, entry } => {
            assert_eq!(*index, 0);
            assert_eq!(entry.entry_type, NormalizedEntryType::ErrorMessage);
            assert_eq!(
                entry.content,
                WARNING
            );
        }
        other => panic!("unexpected patch {other:?}"),
    }
}

#[test]
fn claude_model_announcement() {
    let mut processor = ClaudeLogProcessor::new(s(AGENT));
    let mut provider = EntryIndexProvider::test_new();
    let record = ClaudeJson::Assistant {
        message: message(
            "assistant",
            None,
            Some("sonnet-4-20250514"),
            vec![ClaudeContentItem::Text { text: s("Hi!") }],
        ),
        session_id: None,
    };
    let patches = processor.normalize_entries(&record, "", &mut provider);
    assert_eq!(patches.len(), 2);
    match (&patches[0], &patches[1]) {
        (ConversationPatch::Add { index: 0, entry: a }, ConversationPatch::Add { index: 1, entry: b }) => {
            assert_eq!(a.entry_type, NormalizedEntryType::SystemMessage);
            assert_eq!(a.content, "System initialized with model: sonnet-4-20250514");
            assert_eq!(b.entry_type, NormalizedEntryType::AssistantMessage);
            assert_eq!(b.content, "Hi!");
        }
        other => panic!("unexpected patches {other:?}"),
    }
}

#[test]
fn claude_bash_tool_round_trip() {
    let mut processor = ClaudeLogProcessor::new(s(AGENT));
    let mut provider = EntryIndexProvider::test_new();
    let patches = processor.normalize_entries(&bash_call("t1", "echo hi"), "", &mut provider);
    assert_eq!(patches.len(), 1);
    match &patches[0] {
        ConversationPatch::Add { index: 0, entry } => match &entry.entry_type {
            NormalizedEntryType::ToolUse { tool_name, action_type, status } => {
                assert_eq!(tool_name, "Bash");
                assert_eq!(*status, ToolStatus::Created);
                assert_eq!(action_type, &ActionType::CommandRun { command: s("echo hi"), result: None });
            }
            other => panic!("unexpected entry {other:?}"),
        },
        other => panic!("unexpected patch {other:?}"),
    }

    let patches = processor.normalize_entries(&text_result("t1", "hi\n", false), "", &mut provider);
    assert_eq!(patches.len(), 1);
    match &patches[0] {
        ConversationPatch::Replace { index: 0, entry } => match &entry.entry_type {
            NormalizedEntryType::ToolUse { status, action_type: ActionType::CommandRun { command, result: Some(r) }, .. } => {
                assert_eq!(command, "echo hi");
                assert_eq!(*status, ToolStatus::Success);
                assert_eq!(r.output, Some(s("hi\n")));
                assert_eq!(r.exit_status, Some(CommandExitStatus::Success { success: true }));
            }
            other => panic!("unexpected entry {other:?}"),
        },
        other => panic!("unexpected patch {other:?}"),
    }
}

#[test]
fn codex_exec_approval_denied_with_reason() {
    let mut state = CodexLogState::new();
    let mut provider = EntryIndexProvider::test_new();
    let event = CodexEvent::ExecApprovalRequest {
        call_id: s("c1"),
        command: vec![s("rm"), s("-rf"), s("/")],
        reason: None,
    };
    let (_, patches) = state.handle_event(&event, "", &mut provider);
    assert_eq!(patches.len(), 1);
    match &patches[0] {
        ConversationPatch::Add { index: 0, entry } => match &entry.entry_type {
            NormalizedEntryType::ToolUse { status, action_type: ActionType::CommandRun { command, .. }, .. } => {
                assert_eq!(command, "rm -rf /");
                assert_eq!(*status, ToolStatus::Created);
            }
            other => panic!("unexpected entry {other:?}"),
        },
        other => panic!("unexpected patch {other:?}"),
    }
    assert!(state.commands[0].1.awaiting_approval);

    let status = ApprovalStatus::Denied { reason: Some(s("too dangerous")) };
    let (decision, feedback) = review_decision(false, &status);
    assert_eq!(decision, ReviewDecision::Abort);
    assert_eq!(feedback, Some(s("too dangerous")));

    let mut queue = FeedbackQueue::new();
    queue.enqueue(feedback.unwrap());
    assert_eq!(queue.pending.len(), 1);
    let sent = queue.register_session(s("conversation-1"));
    assert_eq!(sent, vec![s("User feedback: too dangerous")]);
}

#[test]
fn claude_streaming_assistant_block() {
    let mut processor = ClaudeLogProcessor::new(s(AGENT));
    let mut provider = EntryIndexProvider::test_new();
    let mut all = Vec::new();
    let events = vec![
        ClaudeStreamEvent::MessageStart { message: message("assistant", Some("m1"), None, vec![]) },
        ClaudeStreamEvent::ContentBlockStart { index: 0, content_block: ClaudeContentItem::Text { text: s("") } },
        ClaudeStreamEvent::ContentBlockDelta { index: 0, delta: ClaudeContentBlockDelta::TextDelta { text: s("He") } },
        ClaudeStreamEvent::ContentBlockDelta { index: 0, delta: ClaudeContentBlockDelta::TextDelta { text: s("ll") } },
        ClaudeStreamEvent::ContentBlockDelta { index: 0, delta: ClaudeContentBlockDelta::TextDelta { text: s("o") } },
        ClaudeStreamEvent::MessageStop,
    ];
    for e in events {
        all.extend(processor.normalize_entries(&stream(e), "", &mut provider));
    }
    assert_eq!(all.len(), 3);
    assert!(matches!(&all[0], ConversationPatch::Add { index: 0, .. }));
    assert!(matches!(&all[1], ConversationPatch::Replace { index: 0, .. }));
    match &all[2] {
        ConversationPatch::Replace { index: 0, entry } => {
            assert_eq!(entry.entry_type, NormalizedEntryType::AssistantMessage);
            assert_eq!(entry.content, "Hello");
        }
        other => panic!("unexpected patch {other:?}"),
    }
}

#[test]
fn codex_command_with_streamed_output_and_non_zero_exit() {
    let mut state = CodexLogState::new();
    let mut provider = EntryIndexProvider::test_new();
    let events = vec![
        CodexEvent::ExecCommandBegin { call_id: s("c2"), command: vec![s("false")] },
        CodexEvent::ExecCommandOutputDelta { call_id: s("c2"), stream: ExecOutputStream::Stderr, chunk: s("oops\n") },
        CodexEvent::ExecCommandEnd { call_id: s("c2"), exit_code: 1, formatted_output: s("oops") },
    ];
    let mut all = Vec::new();
    for e in &events {
        all.extend(state.handle_event(e, "", &mut provider).1);
    }
    assert_eq!(all.len(), 3);
    match &all[1] {
        ConversationPatch::Replace { index: 0, entry } => match &entry.entry_type {
            NormalizedEntryType::ToolUse { action_type: ActionType::CommandRun { result: Some(r), .. }, .. } => {
                assert_eq!(r.output, Some(s("stderr:\noops")));
            }
            other => panic!("unexpected entry {other:?}"),
        },
        other => panic!("unexpected patch {other:?}"),
    }
    match &all[2] {
        ConversationPatch::Replace { index: 0, entry } => match &entry.entry_type {
            NormalizedEntryType::ToolUse { status, action_type: ActionType::CommandRun { result: Some(r), .. }, .. } => {
                assert_eq!(*status, ToolStatus::Failed);
                assert_eq!(r.exit_status, Some(CommandExitStatus::ExitCode { code: 1 }));
                assert_eq!(r.output, Some(s("oops")));
            }
            other => panic!("unexpected entry {other:?}"),
        },
        other => panic!("unexpected patch {other:?}"),
    }
}

#[test]
fn added_indices_are_dense_and_replacements_point_back() {
    let mut processor = ClaudeLogProcessor::new(s(AGENT));
    let mut provider = EntryIndexProvider::test_new();
    let mut all = Vec::new();
    all.extend(processor.normalize_entries(&bash_call("a", "ls"), "", &mut provider));
    all.extend(processor.normalize_entries(&bash_call("b", "pwd"), "", &mut provider));
    all.extend(processor.normalize_entries(&text_result("a", "x", false), "", &mut provider));
    all.extend(processor.normalize_entries(&text_result("b", "User feedback: no", true), "", &mut provider));
    let mut next = 0;
    for p in &all {
        match p {
            ConversationPatch::Add { index, .. } => {
                assert_eq!(*index, next);
                next += 1;
            }
            ConversationPatch::Replace { index, .. } | ConversationPatch::Remove { index } => assert!(*index < next),
        }
    }
    assert_eq!(next, 3);
    assert_eq!(provider.current(), 3);
}

#[test]
fn replaying_deltas_gives_the_same_text() {
    let run = || {
        let mut processor = ClaudeLogProcessor::new(s(AGENT));
        let mut provider = EntryIndexProvider::test_new();
        let mut last = String::new();
        let mut events = vec![ClaudeStreamEvent::MessageStart { message: message("assistant", Some("m"), None, vec![]) }];
        for t in ["a", "bc", "", "d"] {
            events.push(ClaudeStreamEvent::ContentBlockDelta {
                index: 3,
                delta: ClaudeContentBlockDelta::ThinkingDelta { thinking: s(t) },
            });
        }
        for e in events {
            for p in processor.normalize_entries(&stream(e), "", &mut provider) {
                if let ConversationPatch::Add { entry, .. } | ConversationPatch::Replace { entry, .. } = p {
                    assert_eq!(entry.entry_type, NormalizedEntryType::Thinking);
                    last = entry.content;
                }
            }
        }
        last
    };
    assert_eq!(run(), "abcd");
    assert_eq!(run(), run());
}

#[test]
fn session_id_is_announced_once() {
    let mut processor = ClaudeLogProcessor::new(s(AGENT));
    let mut provider = EntryIndexProvider::test_new();
    let mut session = SessionIdSlot::new();
    let first = ClaudeJson::System { subtype: Some(s("init")), session_id: Some(s("one")), cwd: None, model: None, api_key_source: None };
    let second = ClaudeJson::System { subtype: Some(s("init")), session_id: Some(s("two")), cwd: None, model: None, api_key_source: None };
    let (a, _) = processor.handle_record(&first, &mut session, "", &mut provider);
    let (b, _) = processor.handle_record(&second, &mut session, "", &mut provider);
    assert_eq!(a, Some(s("one")));
    assert_eq!(b, None);

    let mut state = CodexLogState::new();
    let configured = |id: &str| CodexEvent::SessionConfigured { session_id: s(id), model: s("gpt-5"), reasoning_effort: None };
    assert_eq!(state.handle_event(&configured("x"), "", &mut provider).0, Some(s("x")));
    assert_eq!(state.handle_event(&configured("y"), "", &mut provider).0, None);
}

#[test]
fn denial_feedback_follows_the_tool_entry() {
    let mut processor = ClaudeLogProcessor::new(s(AGENT));
    let mut provider = EntryIndexProvider::test_new();
    processor.normalize_entries(&bash_call("t9", "rm -rf /"), "", &mut provider);
    let patches = processor.normalize_entries(
        &text_result("t9", "Denied. User feedback:   please do not  \n", true),
        "",
        &mut provider,
    );
    assert_eq!(patches.len(), 2);
    assert!(matches!(&patches[0], ConversationPatch::Replace { index: 0, .. }));
    let feedback: Vec<_> = patches
        .iter()
        .filter(|p| matches!(p, ConversationPatch::Add { entry, .. } if matches!(entry.entry_type, NormalizedEntryType::UserFeedback { .. })))
        .collect();
    assert_eq!(feedback.len(), 1);
    match &patches[1] {
        ConversationPatch::Add { index: 1, entry } => {
            assert_eq!(entry.entry_type, NormalizedEntryType::UserFeedback { denied_tool: s("Bash") });
            assert_eq!(entry.content, "please do not");
        }
        other => panic!("unexpected patch {other:?}"),
    }
}

fn tool_call(id: &str, tool_data: ClaudeToolData) -> ClaudeJson {
    ClaudeJson::Assistant {
        message: message("assistant", None, None, vec![ClaudeContentItem::ToolUse { id: s(id), tool_data }]),
        session_id: None,
    }
}

#[test]
fn plain_tool_result_settles_the_entry() {
    let mut processor = ClaudeLogProcessor::new(s(AGENT));
    let mut provider = EntryIndexProvider::test_new();
    let created = processor.normalize_entries(&tool_call("r1", ClaudeToolData::Read { file_path: s("/w/a.rs") }), "/w", &mut provider);
    let patches = processor.normalize_entries(&text_result("r1", "fn main() {}", true), "/w", &mut provider);
    assert_eq!(patches.len(), 1);
    match (&created[0], &patches[0]) {
        (ConversationPatch::Add { entry: before, .. }, ConversationPatch::Replace { index: 0, entry }) => {
            assert_eq!(entry.content, before.content);
            match &entry.entry_type {
                NormalizedEntryType::ToolUse { status, action_type, tool_name } => {
                    assert_eq!(*status, ToolStatus::Failed);
                    assert_eq!(tool_name, "Read");
                    assert_eq!(action_type, &ActionType::FileRead { path: s("a.rs") });
                }
                other => panic!("unexpected entry {other:?}"),
            }
        }
        other => panic!("unexpected patches {other:?}"),
    }
}

#[test]
fn opaque_tool_result_carries_the_input() {
    let mut processor = ClaudeLogProcessor::new(s(AGENT));
    let mut provider = EntryIndexProvider::test_new();
    let oracle = ClaudeToolData::Oracle { task: Some(s("t")), files: None, context: None, input: Some(s("{\"task\":\"t\"}")) };
    processor.normalize_entries(&tool_call("o1", oracle), "", &mut provider);
    let patches = processor.normalize_entries(&text_result("o1", "{\"ok\":true}", false), "", &mut provider);
    match &patches[0] {
        ConversationPatch::Replace { index: 0, entry } => match &entry.entry_type {
            NormalizedEntryType::ToolUse { status, action_type: ActionType::Tool { tool_name, arguments, result: Some(r) }, .. } => {
                assert_eq!(*status, ToolStatus::Success);
                assert_eq!(tool_name, "Oracle");
                assert_eq!(arguments, &Some(s("{\"task\":\"t\"}")));
                assert_eq!(r.value, "{\"ok\":true}");
            }
            other => panic!("unexpected entry {other:?}"),
        },
        other => panic!("unexpected patch {other:?}"),
    }
}

#[test]
fn feedback_waits_for_a_conversation() {
    let mut queue = FeedbackQueue::new();
    queue.enqueue(s("not that"));
    assert!(queue.flush().is_empty());
    assert_eq!(queue.pending, vec![s("not that")]);
    assert_eq!(queue.register_session(s("c")), vec![s("User feedback: not that")]);
    assert!(queue.pending.is_empty());
}

#[test]
fn only_the_router_stop_message_is_filtered() {
    assert_eq!(line_to_process("  acme code router service has been successfully stopped  ", AGENT_COMMAND), None);
    assert_eq!(line_to_process("Service not running, starting service...", AGENT_COMMAND), None);
    assert_eq!(
        line_to_process("  router service has been successfully stopped  ", AGENT_COMMAND),
        Some(s("router service has been successfully stopped"))
    );
    assert_eq!(line_to_process("   ", AGENT_COMMAND), None);
}

#[test]
fn the_model_is_announced_once() {
    let mut processor = ClaudeLogProcessor::new(s(AGENT));
    let mut provider = EntryIndexProvider::test_new();
    let record = ClaudeJson::Assistant {
        message: message("assistant", None, Some("m-1"), vec![ClaudeContentItem::Text { text: s("Hi!") }]),
        session_id: None,
    };
    assert_eq!(processor.normalize_entries(&record, "", &mut provider).len(), 2);
    let again = processor.normalize_entries(&record, "", &mut provider);
    assert_eq!(again.len(), 1);
    assert!(matches!(&again[0], ConversationPatch::Add { index: 2, .. }));
}

#[test]
fn a_message_without_id_still_streams() {
    let mut processor = ClaudeLogProcessor::new(s(AGENT));
    let mut provider = EntryIndexProvider::test_new();
    let mut all = Vec::new();
    let events = vec![
        ClaudeStreamEvent::MessageStart { message: message("assistant", None, None, vec![]) },
        ClaudeStreamEvent::ContentBlockDelta { index: 0, delta: ClaudeContentBlockDelta::TextDelta { text: s("Hel") } },
        ClaudeStreamEvent::ContentBlockDelta { index: 0, delta: ClaudeContentBlockDelta::TextDelta { text: s("lo") } },
        ClaudeStreamEvent::MessageStop,
    ];
    for e in events {
        all.extend(processor.normalize_entries(&stream(e), "", &mut provider));
    }
    assert_eq!(all.len(), 2);
    assert!(matches!(&all[0], ConversationPatch::Add { index: 0, .. }));
    match &all[1] {
        ConversationPatch::Replace { index: 0, entry } => assert_eq!(entry.content, "Hello"),
        other => panic!("unexpected patch {other:?}"),
    }
}
