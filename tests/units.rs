use executors::approvals::{
    notification_action, settle_approval, Approval, ApprovalStatus, Error, NotificationAction,
};
use executors::claude::ToolResultContent;
use executors::codex::{
    build_command_output, format_todo_status, session_id_from_truncated_line, CodexFileChange, StepStatus,
};
use executors::codex_log::CodexLogState;
use executors::diff::{create_unified_diff, create_unified_diff_hunk, extract_unified_diff_hunks};
use executors::entry::{ConversationPatch, FileChange, NormalizedEntryType, ToolResultValueType};
use executors::executors::{
    base_command, config_path, copilot_line, create_watchkill_script, plain_text_line_patch,
    profiles_path, settings_json, stderr_line_patch, AgentProfile, AppendPrompt, ClaudeCode, CmdOverrides, CommandBuilder, Copilot,
    CopilotLine,
};
use executors::claude_tools::label_of_tool;
use executors::index::EntryIndexProvider;
use executors::lines::LineBuffer;
use executors::text::trim;
use executors::tool_result::{extract_denial_reason, normalize_claude_tool_result_value};

fn s(x: &str) -> String {
    x.to_string()
}

fn content(text: Option<&str>, items: Option<Vec<&str>>, json: &str) -> ToolResultContent {
    ToolResultContent {
        text: text.map(s),
        text_items: items.map(|v| v.into_iter().map(s).collect()),
        json: s(json),
        amp_bash: None,
    }
}

#[test]
fn tool_result_value_follows_json_inference() {
    let r = normalize_claude_tool_result_value(&content(Some("{\"a\": 1}"), None, "\"{\\\"a\\\": 1}\""));
    assert_eq!(r.value_type, ToolResultValueType::Json);
    assert_eq!(r.value, "{\"a\": 1}");
    let r = normalize_claude_tool_result_value(&content(Some("plain words"), None, "\"plain words\""));
    assert_eq!(r.value_type, ToolResultValueType::Markdown);
    assert_eq!(r.value, "plain words");
    let r = normalize_claude_tool_result_value(&content(None, Some(vec!["one", "two"]), "[]"));
    assert_eq!(r.value_type, ToolResultValueType::Markdown);
    assert_eq!(r.value, "one\n\ntwo");
    let r = normalize_claude_tool_result_value(&content(None, Some(vec!["[1,", "2]"]), "[]"));
    assert_eq!(r.value_type, ToolResultValueType::Json);
    assert_eq!(r.value, "[1,\n\n2]");
    let r = normalize_claude_tool_result_value(&content(None, None, "{\"k\":true}"));
    assert_eq!(r.value_type, ToolResultValueType::Json);
    assert_eq!(r.value, "{\"k\":true}");
}

#[test]
fn denial_reason_is_read_after_the_marker() {
    assert_eq!(extract_denial_reason(&content(Some("x User feedback:  stop  "), None, "")), Some(s("stop")));
    assert_eq!(extract_denial_reason(&content(Some("User feedback:   "), None, "")), None);
    assert_eq!(extract_denial_reason(&content(Some("no marker"), None, "")), None);
    assert_eq!(
        extract_denial_reason(&content(None, Some(vec!["denied", "User feedback: use git"]), "")),
        Some(s("use git"))
    );
}

#[test]
fn trim_follows_unicode_whitespace() {
    assert_eq!(trim("  a b \n\t"), "a b");
    assert_eq!(trim("\u{3000}x\u{a0}"), "x");
    assert_eq!(trim("   "), "");
}

#[test]
fn mcp_labels() {
    assert_eq!(label_of_tool("mcp__github__create_issue"), "mcp:github:create_issue");
    assert_eq!(label_of_tool("mcp__a__b__c"), "mcp:a:b");
    assert_eq!(label_of_tool("mcp__only"), "mcp__only");
    assert_eq!(label_of_tool("Bash"), "Bash");
}

#[test]
fn unified_diff_replaces_all_lines() {
    assert_eq!(create_unified_diff_hunk("foo", "bar\nbaz"), "@@ -1,1 +1,2 @@\n-foo\n+bar\n+baz\n");
    assert_eq!(create_unified_diff("a.txt", "", "x\n"), "--- a/a.txt\n+++ b/a.txt\n@@ -1,0 +1,1 @@\n+x\n");
    assert_eq!(extract_unified_diff_hunks("--- a/f\n+++ b/f\n@@ -1 +1 @@\n-a\n+b\n"), "@@ -1 +1 @@\n-a\n+b\n");
    assert_eq!(extract_unified_diff_hunks("no hunks"), "");
}

#[test]
fn command_output_sections() {
    assert_eq!(build_command_output(" out \n", ""), Some(s("stdout:\nout")));
    assert_eq!(build_command_output("o", "e"), Some(s("stdout:\no\n\nstderr:\ne")));
    assert_eq!(build_command_output(" ", "\n"), None);
    assert_eq!(format_todo_status(StepStatus::InProgress), "in_progress");
}

#[test]
fn line_buffer_keeps_partial_lines() {
    let mut b = LineBuffer::new();
    assert_eq!(b.push("a\nb"), vec![s("a")]);
    assert_eq!(b.push("c\n\nd"), vec![s("bc"), s("")]);
    assert_eq!(b.pending, "d");
}

#[test]
fn launch_error_and_approval_entries() {
    let e = Error::launch_error(s("spawn failed"));
    let entry = e.to_normalized_entry();
    assert_eq!(entry.entry_type, NormalizedEntryType::ErrorMessage);
    assert_eq!(entry.content, "spawn failed");

    let a = Approval::approval_response(s("c"), s("codex.exec_command"), ApprovalStatus::Denied { reason: None });
    let entry = a.to_normalized_entry_opt().unwrap();
    assert_eq!(entry.entry_type, NormalizedEntryType::UserFeedback { denied_tool: s("Exec Command") });
    assert_eq!(entry.content, "User denied this tool use request");

    let a = Approval::approval_response(s("c"), s("codex.apply_patch"), ApprovalStatus::TimedOut);
    assert_eq!(a.to_normalized_entry_opt().unwrap().content, "Approval timed out for tool Edit");
    let a = Approval::approval_response(s("c"), s("other"), ApprovalStatus::Approved);
    assert!(a.to_normalized_entry_opt().is_none());

    match settle_approval(false, None) {
        ApprovalStatus::Denied { reason } => assert_eq!(reason, Some(s("approval service error"))),
        other => panic!("unexpected {other:?}"),
    }
    assert_eq!(settle_approval(true, None), ApprovalStatus::Approved);
}

#[test]
fn notification_routing() {
    assert_eq!(notification_action("codex/event/turn_aborted"), NotificationAction::FlushFeedback);
    assert_eq!(notification_action("codex/event/task_complete"), NotificationAction::Finished);
    assert_eq!(notification_action("codex/event/agent_message"), NotificationAction::Ignore);
    assert_eq!(notification_action("sessionConfigured"), NotificationAction::Ignore);
}

#[test]
fn claude_command_line() {
    let mut claude = ClaudeCode {
        append_prompt: AppendPrompt::default(),
        claude_code_router: None,
        plan: None,
        approvals: None,
        model: Some(s("opus")),
        dangerously_skip_permissions: Some(true),
        cmd: CmdOverrides::default(),
    };
    let profile = AgentProfile {
        command: s("npx -y agent@2"),
        router_command: s("npx -y agent-router@1 code"),
        hook_script: s("$PROJECT/hooks/confirm.py"),
    };
    let line = claude.build_command_builder(&profile, None).build_initial();
    assert_eq!(
        line,
        "npx -y agent@2 -p --dangerously-skip-permissions --model opus --verbose --output-format=stream-json --include-partial-messages"
    );
    claude.plan = Some(true);
    claude.cmd.base_command_override = Some(s("agent"));
    claude.cmd.additional_params = Some(vec![s("--x")]);
    let b: CommandBuilder = claude.build_command_builder(&profile, Some(8080));
    assert_eq!(b.base, "agent");
    assert_eq!(b.params[1], "--permission-mode=plan");
    assert_eq!(b.params[2], "--settings");
    let settings = settings_json(true, 8080, "$PROJECT/hooks/confirm.py");
    assert_ne!(b.params[3], settings);
    assert_eq!(shlex::split(&b.params[3]), Some(vec![settings.clone()]));
    assert!(settings.contains("--backend-port 8080"));
    assert!(settings.contains("\"matcher\":\"^ExitPlanMode$\""));
    assert_eq!(
        settings,
        "{\"hooks\":{\"PreToolUse\":[{\"hooks\":[{\"command\":\"$PROJECT/hooks/confirm.py --timeout-seconds 305 --poll-interval 5 --backend-port 8080 --feedback-marker 'User feedback: '\",\"timeout\":310,\"type\":\"command\"}],\"matcher\":\"^ExitPlanMode$\"}]}}"
    );
    assert_eq!(b.params.last().unwrap(), "--x");
    assert_eq!(base_command(true, &profile), "npx -y agent-router@1 code");
    claude.cmd.base_command_override = None;
    claude.claude_code_router = Some(true);
    assert_eq!(claude.build_command_builder(&profile, None).base, "npx -y agent-router@1 code");
}

#[test]
fn watchkill_script_quotes_the_command() {
    let script = create_watchkill_script("npx agent -p");
    let quoted = shlex::try_quote("npx agent -p").unwrap();
    assert_ne!(quoted, "npx agent -p");
    assert!(script.contains(&format!("bash -lc {quoted} <&0 2>&1")));
    assert!(script.starts_with("#!/usr/bin/env bash\n"));
}

#[test]
fn copilot_command_line_and_session_marker() {
    let copilot = Copilot {
        append_prompt: AppendPrompt { text: Some(s(" please")) },
        model: None,
        allow_all_tools: Some(true),
        allow_tool: None,
        deny_tool: Some(s("shell")),
        add_dir: Some(vec![s("/a"), s("/b")]),
        disable_mcp_server: None,
        cmd: CmdOverrides::default(),
    };
    let line = copilot.build_command_builder("/logs").build_follow_up(&vec![s("--resume"), s("id")]);
    assert_eq!(
        line,
        "npx -y @github/copilot@0.0.337 --no-color --log-level debug --log-dir /logs --allow-all-tools --deny-tool shell --add-dir /a --add-dir /b --resume id"
    );
    assert_eq!(copilot.append_prompt.combine_prompt("do it"), "do it please");
    assert_eq!(copilot_line("[copilot-session] 1234 \n"), CopilotLine::SessionId(s("1234")));
    assert_eq!(copilot_line("hello"), CopilotLine::Text(s("hello")));
}

#[test]
fn plain_text_lines_lose_ansi_escapes() {
    let mut provider = EntryIndexProvider::test_new();
    match plain_text_line_patch("\x1b[32mfoo\x1b[m bar", &mut provider) {
        ConversationPatch::Add { index: 0, entry } => {
            assert_eq!(entry.entry_type, NormalizedEntryType::AssistantMessage);
            assert_eq!(entry.content, "foo bar");
        }
        other => panic!("unexpected {other:?}"),
    }
}

#[test]
fn asset_paths() {
    assert_eq!(config_path("/data/forge"), "/data/forge/config.json");
    assert_eq!(profiles_path("/data/forge/"), "/data/forge/profiles.json");
}

#[test]
fn index_provider_resumes_after_history() {
    let mut p = EntryIndexProvider::test_new();
    assert_eq!(p.next(), 0);
    assert_eq!(p.next(), 1);
    p.reset();
    assert_eq!(p.current(), 0);
    let history = vec![ConversationPatch::Remove { index: 4 }, ConversationPatch::Remove { index: 2 }];
    assert_eq!(EntryIndexProvider::start_from(&history).current(), 5);
    assert_eq!(EntryIndexProvider::start_from(&vec![]).current(), 0);
}

#[test]
fn codex_patch_approval_then_apply() {
    let mut state = CodexLogState::new();
    let mut provider = EntryIndexProvider::test_new();
    let changes = vec![(s("/w/a.txt"), CodexFileChange::Add { content: s("hi") })];
    let (_, first) = state.handle_event(
        &executors::codex::CodexEvent::ApplyPatchApprovalRequest { call_id: s("p"), changes: changes.clone() },
        "/w",
        &mut provider,
    );
    assert_eq!(first.len(), 1);
    let (_, again) = state.handle_event(
        &executors::codex::CodexEvent::ApplyPatchApprovalRequest { call_id: s("p"), changes: changes.clone() },
        "/w",
        &mut provider,
    );
    assert_eq!(again.len(), 2);
    assert!(matches!(again[0], ConversationPatch::Remove { index: 0 }));
    assert!(matches!(again[1], ConversationPatch::Add { index: 1, .. }));
    let (_, begin) = state.handle_event(&executors::codex::CodexEvent::PatchApplyBegin { call_id: s("p"), changes }, "/w", &mut provider);
    assert_eq!(begin.len(), 1);
    match &begin[0] {
        ConversationPatch::Replace { index: 1, entry } => match &entry.entry_type {
            NormalizedEntryType::ToolUse { action_type: executors::entry::ActionType::FileEdit { path, changes }, .. } => {
                assert_eq!(path, "a.txt");
                assert_eq!(changes, &vec![FileChange::Write { content: s("hi") }]);
            }
            other => panic!("unexpected {other:?}"),
        },
        other => panic!("unexpected {other:?}"),
    }
    let (_, end) = state.handle_event(&executors::codex::CodexEvent::PatchApplyEnd { call_id: s("p"), success: false }, "/w", &mut provider);
    assert_eq!(end.len(), 1);
}

#[test]
fn session_id_from_a_cut_line() {
    let head = "{\"method\":\"sessionConfigured\",\"params\":{\"sessionId\":\"";
    let line = format!("{head}0199a2b3-c4d5-7e6f-8a9b-0c1d2e3f4a5b\",\"model\":\"gpt");
    assert_eq!(session_id_from_truncated_line(&line), Some(s("0199a2b3-c4d5-7e6f-8a9b-0c1d2e3f4a5b")));
    let short = format!("{head}0199a2b3-c4d5-7e6f");
    assert_eq!(session_id_from_truncated_line(&short), None);
    let bad = format!("{head}0199a2b3_c4d5-7e6f-8a9b-0c1d2e3f4a5b");
    assert_eq!(session_id_from_truncated_line(&bad), None);
    assert_eq!(session_id_from_truncated_line("{\"method\":\"other\"}"), None);
}

#[test]
fn settings_escape_the_hook_command() {
    let settings = settings_json(false, 1, "say \"hi\"\\now");
    assert!(settings.starts_with("{\"hooks\":{\"PreToolUse\":[{\"hooks\":[{\"command\":\"say \\\"hi\\\"\\\\now --timeout-seconds 305"));
    assert!(settings.ends_with("\"matcher\":\"^(?!(Glob|Grep|NotebookRead|Read|Task|TodoWrite)$).*\"}]}}"));
}

#[test]
fn blank_error_lines_give_no_entry() {
    let mut provider = EntryIndexProvider::test_new();
    assert!(stderr_line_patch("  \t ", &mut provider).is_none());
    assert_eq!(provider.current(), 0);
    match stderr_line_patch("\x1b[31mboom\x1b[0m", &mut provider) {
        Some(ConversationPatch::Add { index: 0, entry }) => {
            assert_eq!(entry.entry_type, NormalizedEntryType::ErrorMessage);
            assert_eq!(entry.content, "boom");
        }
        other => panic!("unexpected {other:?}"),
    }
}
