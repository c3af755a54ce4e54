//! What a tool call of a stream-JSON agent does, and the one-line summary shown for it.
use vstd::prelude::*;
use vstd::string::*;
use crate::claude::{ClaudeEditItem, ClaudeTodoItem, ClaudeToolData, tool_name};
use crate::diff::{concatenate_diff_hunks, create_unified_diff, create_unified_diff_hunk, diff_header, hunk, joined};
use crate::entry::{ActionType, FileChange, TodoItem};
use crate::path::{make_path_relative, rel_path};
use crate::text::{backticked, chars_of, clone_opt, find_or_end, first_at, first_or_end, has_prefix, occurs_at, slice, starts_with};

verus! {

pub open spec fn ov(o: Option<String>) -> Option<Seq<char>> {
    match o {
        Some(s) => Some(s@),
        None => None,
    }
}

pub open spec fn or_empty(o: Option<String>) -> Seq<char> {
    match o {
        Some(s) => s@,
        None => Seq::empty(),
    }
}

/// The label of an MCP tool named `mcp__<server>__<tool>...`: `mcp:<server>:<tool>`, taking
/// the pieces between the separators `__` from left to right. Other names stand as they are.
pub open spec fn mcp_label(s: Seq<char>) -> Seq<char> {
    if has_prefix(s, "mcp__"@) && exists|k: int| first_at(s, "__"@, 5, k) {
        let k1 = first_or_end(s, "__"@, 5);
        let k2 = first_or_end(s, "__"@, k1 + 2);
        "mcp:"@ + s.subrange(5, k1) + ":"@ + s.subrange(k1 + 2, k2)
    } else {
        s
    }
}

pub fn label_of_tool(name: &str) -> (r: String)
    ensures
        r@ == mcp_label(name@),
{
    if !starts_with(name, "mcp__") {
        return String::from_str(name);
    }
    proof {
        reveal_strlit("mcp__");
        reveal_strlit("__");
    }
    let v = chars_of(name);
    let sep = chars_of("__");
    let k1 = find_or_end(&v, &sep, 5);
    if k1 == v.len() {
        return String::from_str(name);
    }
    let k2 = find_or_end(&v, &sep, k1 + 2);
    if k2 < v.len() {
        assert(occurs_at(name@, "__"@, k2 as int));
    }
    let mut s = String::from_str("mcp:");
    s.append(slice(name, 5, k1).as_str());
    s.append(":");
    s.append(slice(name, k1 + 2, k2).as_str());
    s
}

/// The hunks of a multi-edit: one for each edit that has an old or a new text.
pub open spec fn edit_hunks(edits: Seq<ClaudeEditItem>) -> Seq<Seq<char>>
    decreases edits.len(),
{
    if edits.len() == 0 {
        Seq::empty()
    } else {
        let e = edits.last();
        let rest = edit_hunks(edits.drop_last());
        if e.old_string is Some || e.new_string is Some {
            rest.push(hunk(or_empty(e.old_string), or_empty(e.new_string)))
        } else {
            rest
        }
    }
}

pub open spec fn todo_ok(r: TodoItem, t: ClaudeTodoItem) -> bool {
    r.content@ == t.content@ && r.status@ == t.status@ && ov(r.priority) == ov(t.priority)
}

/// `r` is the action of the tool call `t`, for the worktree `w`.
pub open spec fn action_ok(r: ActionType, t: ClaudeToolData, w: Seq<char>) -> bool {
    match t {
        ClaudeToolData::Read { file_path } => r matches ActionType::FileRead { path } && path@
            == rel_path(file_path@, w),
        ClaudeToolData::Edit { file_path, old_string, new_string } => {
            &&& r matches ActionType::FileEdit { path, changes }
            &&& path@ == rel_path(file_path@, w)
            &&& if old_string is Some || new_string is Some {
                &&& changes.len() == 1
                &&& changes[0] matches FileChange::Edit { unified_diff, has_line_numbers }
                &&& unified_diff@ == diff_header(file_path@) + hunk(
                    or_empty(old_string),
                    or_empty(new_string),
                )
                &&& !has_line_numbers
            } else {
                changes.len() == 0
            }
        },
        ClaudeToolData::MultiEdit { file_path, edits } => {
            &&& r matches ActionType::FileEdit { path, changes }
            &&& path@ == rel_path(file_path@, w)
            &&& changes.len() == 1
            &&& changes[0] matches FileChange::Edit { unified_diff, has_line_numbers }
            &&& unified_diff@ == diff_header(file_path@) + joined(edit_hunks(edits@))
            &&& !has_line_numbers
        },
        ClaudeToolData::Write { file_path, content } => {
            &&& r matches ActionType::FileEdit { path, changes }
            &&& path@ == rel_path(file_path@, w)
            &&& changes.len() == 1
            &&& changes[0] matches FileChange::Write { content: c }
            &&& c@ == content@
        },
        ClaudeToolData::Bash { command, .. } => r matches ActionType::CommandRun { command: c, result }
            && c@ == command@ && result is None,
        ClaudeToolData::Grep { pattern, .. } => r matches ActionType::Search { query } && query@
            == pattern@,
        ClaudeToolData::Glob { pattern, .. } => r matches ActionType::Search { query } && query@
            == pattern@,
        ClaudeToolData::WebFetch { url, .. } => r matches ActionType::WebFetch { url: u } && u@ == url@,
        ClaudeToolData::WebSearch { query, .. } => r matches ActionType::WebFetch { url } && url@
            == query@,
        ClaudeToolData::Task { description, prompt, .. } => r matches ActionType::TaskCreate {
            description: d,
        } && d@ == (if description is Some {
            or_empty(description)
        } else {
            or_empty(prompt)
        }),
        ClaudeToolData::ExitPlanMode { plan } => r matches ActionType::PlanPresentation { plan: p }
            && p@ == plan@,
        ClaudeToolData::NotebookEdit { input, .. } => {
            &&& r matches ActionType::Tool { tool_name, arguments, result }
            &&& tool_name@ == "NotebookEdit"@
            &&& arguments matches Some(a)
            &&& a@ == "{\"name\":\"NotebookEdit\",\"input\":"@ + (match input {
                Some(i) => i@,
                None => "null"@,
            }) + "}"@
            &&& result is None
        },
        ClaudeToolData::TodoWrite { todos } => r matches ActionType::TodoManagement {
            todos: items,
            operation,
        } && operation@ == "write"@ && items.len() == todos.len() && forall|i: int|
            0 <= i < items.len() ==> todo_ok(#[trigger] items@[i], todos@[i]),
        ClaudeToolData::TodoRead => r matches ActionType::TodoManagement { todos: items, operation }
            && operation@ == "read"@ && items.len() == 0,
        ClaudeToolData::LS { .. } => r matches ActionType::Other { description } && description@
            == "List directory"@,
        ClaudeToolData::Oracle { .. } => r matches ActionType::Other { description } && description@
            == "Oracle"@,
        ClaudeToolData::Mermaid { .. } => r matches ActionType::Other { description } && description@
            == "Mermaid diagram"@,
        ClaudeToolData::CodebaseSearchAgent { .. } => r matches ActionType::Other { description }
            && description@ == "Codebase search"@,
        ClaudeToolData::UndoEdit { .. } => r matches ActionType::Other { description } && description@
            == "Undo edit"@,
        ClaudeToolData::Unknown { input, .. } => if has_prefix(tool_name(t), "mcp__"@) {
            r matches ActionType::Tool { tool_name: n, arguments, result } && n@ == mcp_label(
                tool_name(t),
            ) && arguments is Some && arguments->0@ == (match input {
                Some(i) => i@,
                None => "null"@,
            }) && result is None
        } else {
            r matches ActionType::Other { description } && description@ == "Tool: "@ + tool_name(t)
        },
    }
}

fn text_of(o: &Option<String>) -> (r: String)
    ensures
        r@ == or_empty(*o),
{
    match o {
        Some(s) => s.clone(),
        None => String::new(),
    }
}

fn multi_edit_hunks(edits: &Vec<ClaudeEditItem>) -> (r: Vec<String>)
    ensures
        r@.map_values(|h: String| h@) == edit_hunks(edits@),
{
    let mut hunks: Vec<String> = Vec::new();
    let mut k: usize = 0;
    while k < edits.len()
        invariant
            k <= edits.len(),
            hunks@.map_values(|h: String| h@) == edit_hunks(edits@.subrange(0, k as int)),
        decreases edits.len() - k,
    {
        assert(edits@.subrange(0, k + 1).drop_last() =~= edits@.subrange(0, k as int));
        let e = &edits[k];
        if e.old_string.is_some() || e.new_string.is_some() {
            let h = create_unified_diff_hunk(text_of(&e.old_string).as_str(), text_of(&e.new_string).as_str());
            let ghost before = hunks@;
            hunks.push(h);
            assert(hunks@.map_values(|h: String| h@) =~= before.map_values(|h: String| h@).push(h@));
        }
        k = k + 1;
    }
    assert(edits@.subrange(0, k as int) =~= edits@);
    hunks
}

fn todo_items(todos: &Vec<ClaudeTodoItem>) -> (r: Vec<TodoItem>)
    ensures
        r.len() == todos.len(),
        forall|i: int| 0 <= i < r.len() ==> todo_ok(#[trigger] r@[i], todos@[i]),
{
    let mut items: Vec<TodoItem> = Vec::new();
    let mut k: usize = 0;
    while k < todos.len()
        invariant
            k <= todos.len(),
            items.len() == k,
            forall|i: int| 0 <= i < k ==> todo_ok(#[trigger] items@[i], todos@[i]),
        decreases todos.len() - k,
    {
        let t = &todos[k];
        items.push(
            TodoItem {
                content: t.content.clone(),
                status: t.status.clone(),
                priority: clone_opt(&t.priority),
            },
        );
        k = k + 1;
    }
    items
}

fn other(description: &str) -> (r: ActionType)
    ensures
        r matches ActionType::Other { description: d } && d@ == description@,
{
    ActionType::Other { description: String::from_str(description) }
}

/// The action of the tool call `tool_data`, with paths relative to `worktree_path`.
pub fn extract_action_type(tool_data: &ClaudeToolData, worktree_path: &str) -> (r: ActionType)
    ensures
        action_ok(r, *tool_data, worktree_path@),
{
    match tool_data {
        ClaudeToolData::Read { file_path } => ActionType::FileRead {
            path: make_path_relative(file_path.as_str(), worktree_path),
        },
        ClaudeToolData::Edit { file_path, old_string, new_string } => {
            let mut changes: Vec<FileChange> = Vec::new();
            if old_string.is_some() || new_string.is_some() {
                changes.push(
                    FileChange::Edit {
                        unified_diff: create_unified_diff(
                            file_path.as_str(),
                            text_of(old_string).as_str(),
                            text_of(new_string).as_str(),
                        ),
                        has_line_numbers: false,
                    },
                );
            }
            ActionType::FileEdit { path: make_path_relative(file_path.as_str(), worktree_path), changes }
        },
        ClaudeToolData::MultiEdit { file_path, edits } => {
            let hunks = multi_edit_hunks(edits);
            let mut changes: Vec<FileChange> = Vec::new();
            changes.push(
                FileChange::Edit {
                    unified_diff: concatenate_diff_hunks(file_path.as_str(), &hunks),
                    has_line_numbers: false,
                },
            );
            ActionType::FileEdit { path: make_path_relative(file_path.as_str(), worktree_path), changes }
        },
        ClaudeToolData::Write { file_path, content } => {
            let mut changes: Vec<FileChange> = Vec::new();
            changes.push(FileChange::Write { content: content.clone() });
            ActionType::FileEdit { path: make_path_relative(file_path.as_str(), worktree_path), changes }
        },
        ClaudeToolData::Bash { command, .. } => ActionType::CommandRun {
            command: command.clone(),
            result: None,
        },
        ClaudeToolData::Grep { pattern, .. } => ActionType::Search { query: pattern.clone() },
        ClaudeToolData::WebFetch { url, .. } => ActionType::WebFetch { url: url.clone() },
        ClaudeToolData::WebSearch { query, .. } => ActionType::WebFetch { url: query.clone() },
        ClaudeToolData::Task { description, prompt, .. } => {
            let d = if description.is_some() {
                text_of(description)
            } else {
                text_of(prompt)
            };
            ActionType::TaskCreate { description: d }
        },
        ClaudeToolData::ExitPlanMode { plan } => ActionType::PlanPresentation { plan: plan.clone() },
        ClaudeToolData::NotebookEdit { input, .. } => {
            let mut a = String::from_str("{\"name\":\"NotebookEdit\",\"input\":");
            match input {
                Some(i) => a.append(i.as_str()),
                None => a.append("null"),
            }
            a.append("}");
            ActionType::Tool { tool_name: String::from_str("NotebookEdit"), arguments: Some(a), result: None }
        },
        ClaudeToolData::TodoWrite { todos } => ActionType::TodoManagement {
            todos: todo_items(todos),
            operation: String::from_str("write"),
        },
        ClaudeToolData::TodoRead => ActionType::TodoManagement {
            todos: Vec::new(),
            operation: String::from_str("read"),
        },
        ClaudeToolData::Glob { pattern, .. } => ActionType::Search { query: pattern.clone() },
        ClaudeToolData::LS { .. } => other("List directory"),
        ClaudeToolData::Oracle { .. } => other("Oracle"),
        ClaudeToolData::Mermaid { .. } => other("Mermaid diagram"),
        ClaudeToolData::CodebaseSearchAgent { .. } => other("Codebase search"),
        ClaudeToolData::UndoEdit { .. } => other("Undo edit"),
        ClaudeToolData::Unknown { input, .. } => {
            let name = tool_data.get_name();
            if starts_with(name.as_str(), "mcp__") {
                let args = match input {
                    Some(i) => i.clone(),
                    None => String::from_str("null"),
                };
                ActionType::Tool {
                    tool_name: label_of_tool(name.as_str()),
                    arguments: Some(args),
                    result: None,
                }
            } else {
                let mut d = String::from_str("Tool: ");
                d.append(name.as_str());
                ActionType::Other { description: d }
            }
        },
    }
}

pub open spec fn bt(s: Seq<char>) -> Seq<char> {
    "`"@ + s + "`"@
}

/// The one-line summary of the tool call `t` whose action is `a`, for the worktree `w`.
pub open spec fn concise(t: ClaudeToolData, a: ActionType, w: Seq<char>) -> Seq<char> {
    match a {
        ActionType::FileRead { path } => bt(path@),
        ActionType::FileEdit { path, .. } => bt(path@),
        ActionType::CommandRun { command, .. } => bt(command@),
        ActionType::Search { query } => bt(query@),
        ActionType::WebFetch { url } => bt(url@),
        ActionType::TaskCreate { description } => if description@.len() == 0 {
            "Task"@
        } else {
            "Task: "@ + bt(description@)
        },
        ActionType::Tool { .. } => match t {
            ClaudeToolData::NotebookEdit { notebook_path, .. } => bt(rel_path(notebook_path@, w)),
            ClaudeToolData::Unknown { .. } => mcp_label(tool_name(t)),
            _ => tool_name(t),
        },
        ActionType::PlanPresentation { plan } => plan@,
        ActionType::TodoManagement { .. } => "TODO list updated"@,
        ActionType::Other { .. } => match t {
            ClaudeToolData::LS { path } => if rel_path(path@, w).len() == 0 {
                "List directory"@
            } else {
                "List directory: "@ + bt(rel_path(path@, w))
            },
            ClaudeToolData::Glob { pattern, path, .. } => match path {
                Some(p) => "Find files: "@ + bt(pattern@) + " in "@ + bt(rel_path(p@, w)),
                None => "Find files: "@ + bt(pattern@),
            },
            ClaudeToolData::Oracle { task, .. } => match task {
                Some(x) => "Oracle: "@ + bt(x@),
                None => "Oracle"@,
            },
            ClaudeToolData::Mermaid { .. } => "Mermaid diagram"@,
            ClaudeToolData::CodebaseSearchAgent { query, path, .. } => if query is Some
                && or_empty(query).len() > 0 {
                if path is Some && or_empty(path).len() > 0 {
                    "Codebase search: "@ + bt(or_empty(query)) + " in "@ + bt(
                        rel_path(or_empty(path), w),
                    )
                } else {
                    "Codebase search: "@ + bt(or_empty(query))
                }
            } else {
                "Codebase search"@
            },
            ClaudeToolData::UndoEdit { path, .. } => match path {
                Some(p) => if rel_path(p@, w).len() == 0 {
                    "Undo edit"@
                } else {
                    "Undo edit: "@ + bt(rel_path(p@, w))
                },
                None => "Undo edit"@,
            },
            _ => tool_name(t),
        },
    }
}

fn labelled(label: &str, s: &str) -> (r: String)
    ensures
        r@ == label@ + bt(s@),
{
    let mut out = String::from_str(label);
    out.append(backticked(s).as_str());
    out
}

fn labelled_in(label: &str, a: &str, b: &str) -> (r: String)
    ensures
        r@ == label@ + bt(a@) + " in "@ + bt(b@),
{
    let mut out = labelled(label, a);
    out.append(" in ");
    out.append(backticked(b).as_str());
    out
}

/// The one-line summary of a tool call, given its action.
pub fn generate_concise_content(
    tool_data: &ClaudeToolData,
    action_type: &ActionType,
    worktree_path: &str,
) -> (r: String)
    ensures
        r@ == concise(*tool_data, *action_type, worktree_path@),
{
    match action_type {
        ActionType::FileRead { path } => backticked(path.as_str()),
        ActionType::FileEdit { path, .. } => backticked(path.as_str()),
        ActionType::CommandRun { command, .. } => backticked(command.as_str()),
        ActionType::Search { query } => backticked(query.as_str()),
        ActionType::WebFetch { url } => backticked(url.as_str()),
        ActionType::TaskCreate { description } => {
            if description.as_str().unicode_len() == 0 {
                String::from_str("Task")
            } else {
                labelled("Task: ", description.as_str())
            }
        },
        ActionType::Tool { .. } => match tool_data {
            ClaudeToolData::NotebookEdit { notebook_path, .. } => backticked(
                make_path_relative(notebook_path.as_str(), worktree_path).as_str(),
            ),
            ClaudeToolData::Unknown { .. } => label_of_tool(tool_data.get_name().as_str()),
            _ => tool_data.get_name(),
        },
        ActionType::PlanPresentation { plan } => plan.clone(),
        ActionType::TodoManagement { .. } => String::from_str("TODO list updated"),
        ActionType::Other { .. } => match tool_data {
            ClaudeToolData::LS { path } => {
                let rel = make_path_relative(path.as_str(), worktree_path);
                if rel.as_str().unicode_len() == 0 {
                    String::from_str("List directory")
                } else {
                    labelled("List directory: ", rel.as_str())
                }
            },
            ClaudeToolData::Glob { pattern, path, .. } => match path {
                Some(p) => labelled_in(
                    "Find files: ",
                    pattern.as_str(),
                    make_path_relative(p.as_str(), worktree_path).as_str(),
                ),
                None => labelled("Find files: ", pattern.as_str()),
            },
            ClaudeToolData::Oracle { task, .. } => match task {
                Some(t) => labelled("Oracle: ", t.as_str()),
                None => String::from_str("Oracle"),
            },
            ClaudeToolData::Mermaid { .. } => String::from_str("Mermaid diagram"),
            ClaudeToolData::CodebaseSearchAgent { query, path, .. } => {
                match query {
                    Some(q) if q.as_str().unicode_len() > 0 => match path {
                        Some(p) if p.as_str().unicode_len() > 0 => labelled_in(
                            "Codebase search: ",
                            q.as_str(),
                            make_path_relative(p.as_str(), worktree_path).as_str(),
                        ),
                        _ => labelled("Codebase search: ", q.as_str()),
                    },
                    _ => String::from_str("Codebase search"),
                }
            },
            ClaudeToolData::UndoEdit { path, .. } => match path {
                Some(p) => {
                    let rel = make_path_relative(p.as_str(), worktree_path);
                    if rel.as_str().unicode_len() == 0 {
                        String::from_str("Undo edit")
                    } else {
                        labelled("Undo edit: ", rel.as_str())
                    }
                },
                None => String::from_str("Undo edit"),
            },
            _ => tool_data.get_name(),
        },
    }
}

} // verus!

verus! {

/// `r` is the entry for the content item `item` of a message from `role`, for the worktree
/// `w`: text only from the assistant, thinking, and tool calls; tool results give none.
pub open spec fn entry_for(
    item: crate::claude::ClaudeContentItem,
    role: Seq<char>,
    w: Seq<char>,
    r: Option<crate::entry::NormalizedEntry>,
) -> bool {
    match item {
        crate::claude::ClaudeContentItem::Text { text } => if role == "assistant"@ {
            r matches Some(e) && e.entry_type is AssistantMessage && e.content@ == text@
        } else {
            r is None
        },
        crate::claude::ClaudeContentItem::Thinking { thinking } => r matches Some(e)
            && e.entry_type is Thinking && e.content@ == thinking@,
        crate::claude::ClaudeContentItem::ToolUse { tool_data, .. } => r matches Some(e)
            && tool_entry_ok(e, tool_data, w),
        crate::claude::ClaudeContentItem::ToolResult { .. } => r is None,
    }
}

/// `e` is the freshly created entry of the tool call `t`.
pub open spec fn tool_entry_ok(e: crate::entry::NormalizedEntry, t: ClaudeToolData, w: Seq<char>) -> bool {
    &&& e.entry_type matches crate::entry::NormalizedEntryType::ToolUse { tool_name: n, action_type, status }
    &&& n@ == tool_name(t)
    &&& action_ok(action_type, t, w)
    &&& status == crate::entry::ToolStatus::Created
    &&& e.content@ == concise(t, action_type, w)
}

/// The entry of a freshly seen tool call.
pub fn tool_use_entry(tool_data: &ClaudeToolData, worktree_path: &str) -> (r: crate::entry::NormalizedEntry)
    ensures
        tool_entry_ok(r, *tool_data, worktree_path@),
{
    let action_type = extract_action_type(tool_data, worktree_path);
    let content = generate_concise_content(tool_data, &action_type, worktree_path);
    crate::entry::NormalizedEntry {
        entry_type: crate::entry::NormalizedEntryType::ToolUse {
            tool_name: tool_data.get_name(),
            action_type,
            status: crate::entry::ToolStatus::Created,
        },
        content,
    }
}

/// The entry for a content item of a message from `role`.
pub fn content_item_to_normalized_entry(
    content_item: &crate::claude::ClaudeContentItem,
    role: &str,
    worktree_path: &str,
) -> (r: Option<crate::entry::NormalizedEntry>)
    ensures
        entry_for(*content_item, role@, worktree_path@, r),
{
    match content_item {
        crate::claude::ClaudeContentItem::Text { text } => {
            if crate::text::same_text(role, "assistant") {
                Some(
                    crate::entry::NormalizedEntry {
                        entry_type: crate::entry::NormalizedEntryType::AssistantMessage,
                        content: text.clone(),
                    },
                )
            } else {
                None
            }
        },
        crate::claude::ClaudeContentItem::Thinking { thinking } => Some(
            crate::entry::NormalizedEntry {
                entry_type: crate::entry::NormalizedEntryType::Thinking,
                content: thinking.clone(),
            },
        ),
        crate::claude::ClaudeContentItem::ToolUse { tool_data, .. } => Some(
            tool_use_entry(tool_data, worktree_path),
        ),
        crate::claude::ClaudeContentItem::ToolResult { .. } => None,
    }
}

} // verus!

verus! {

pub open spec fn same_change(a: FileChange, b: FileChange) -> bool {
    match (a, b) {
        (FileChange::Write { content: x }, FileChange::Write { content: y }) => x@ == y@,
        (FileChange::Delete, FileChange::Delete) => true,
        (FileChange::Rename { new_path: x }, FileChange::Rename { new_path: y }) => x@ == y@,
        (FileChange::Edit { unified_diff: x, has_line_numbers: m }, FileChange::Edit { unified_diff: y, has_line_numbers: n }) => x@
            == y@ && m == n,
        _ => false,
    }
}

pub open spec fn rview(o: Option<crate::entry::ToolResult>) -> Option<(crate::entry::ToolResultValueType, Seq<char>)> {
    match o {
        Some(t) => Some((t.value_type, t.value@)),
        None => None,
    }
}

/// `a` and `b` are the same action, field by field.
pub open spec fn same_action(a: ActionType, b: ActionType) -> bool {
    match (a, b) {
        (ActionType::FileRead { path: x }, ActionType::FileRead { path: y }) => x@ == y@,
        (ActionType::FileEdit { path: x, changes: c }, ActionType::FileEdit { path: y, changes: d }) => x@ == y@
            && c.len() == d.len() && forall|i: int| 0 <= i < c.len() ==> same_change(#[trigger] c@[i], d@[i]),
        (ActionType::CommandRun { command: x, result: r }, ActionType::CommandRun { command: y, result: s }) => x@ == y@
            && match (r, s) {
                (Some(p), Some(q)) => p.exit_status == q.exit_status && ov(p.output) == ov(q.output),
                (None, None) => true,
                _ => false,
            },
        (ActionType::Search { query: x }, ActionType::Search { query: y }) => x@ == y@,
        (ActionType::WebFetch { url: x }, ActionType::WebFetch { url: y }) => x@ == y@,
        (ActionType::TaskCreate { description: x }, ActionType::TaskCreate { description: y }) => x@ == y@,
        (ActionType::PlanPresentation { plan: x }, ActionType::PlanPresentation { plan: y }) => x@ == y@,
        (ActionType::TodoManagement { todos: t, operation: o }, ActionType::TodoManagement { todos: u, operation: p }) => o@
            == p@ && t.len() == u.len() && forall|i: int| 0 <= i < t.len() ==> (#[trigger] t@[i]).content@ == u@[i].content@
            && t@[i].status@ == u@[i].status@ && ov(t@[i].priority) == ov(u@[i].priority),
        (ActionType::Tool { tool_name: x, arguments: a1, result: r1 }, ActionType::Tool { tool_name: y, arguments: a2, result: r2 }) => x@
            == y@ && ov(a1) == ov(a2) && rview(r1) == rview(r2),
        (ActionType::Other { description: x }, ActionType::Other { description: y }) => x@ == y@,
        _ => false,
    }
}

pub fn clone_change(c: &FileChange) -> (r: FileChange)
    ensures
        same_change(r, *c),
{
    match c {
        FileChange::Write { content } => FileChange::Write { content: content.clone() },
        FileChange::Delete => FileChange::Delete,
        FileChange::Rename { new_path } => FileChange::Rename { new_path: new_path.clone() },
        FileChange::Edit { unified_diff, has_line_numbers } => FileChange::Edit {
            unified_diff: unified_diff.clone(),
            has_line_numbers: *has_line_numbers,
        },
    }
}

/// A copy of an action.
pub fn clone_action(a: &ActionType) -> (r: ActionType)
    ensures
        same_action(r, *a),
{
    match a {
        ActionType::FileRead { path } => ActionType::FileRead { path: path.clone() },
        ActionType::FileEdit { path, changes } => {
            let mut out: Vec<FileChange> = Vec::new();
            let mut k: usize = 0;
            while k < changes.len()
                invariant
                    k <= changes.len(),
                    out.len() == k,
                    forall|i: int| 0 <= i < k ==> same_change(#[trigger] out@[i], changes@[i]),
                decreases changes.len() - k,
            {
                out.push(clone_change(&changes[k]));
                k = k + 1;
            }
            ActionType::FileEdit { path: path.clone(), changes: out }
        },
        ActionType::CommandRun { command, result } => ActionType::CommandRun {
            command: command.clone(),
            result: match result {
                Some(r) => Some(crate::entry::CommandRunResult { exit_status: r.exit_status, output: clone_opt(&r.output) }),
                None => None,
            },
        },
        ActionType::Search { query } => ActionType::Search { query: query.clone() },
        ActionType::WebFetch { url } => ActionType::WebFetch { url: url.clone() },
        ActionType::TaskCreate { description } => ActionType::TaskCreate { description: description.clone() },
        ActionType::PlanPresentation { plan } => ActionType::PlanPresentation { plan: plan.clone() },
        ActionType::TodoManagement { todos, operation } => {
            let mut out: Vec<TodoItem> = Vec::new();
            let mut k: usize = 0;
            while k < todos.len()
                invariant
                    k <= todos.len(),
                    out.len() == k,
                    forall|i: int| 0 <= i < k ==> (#[trigger] out@[i]).content@ == todos@[i].content@
                        && out@[i].status@ == todos@[i].status@ && ov(out@[i].priority) == ov(todos@[i].priority),
                decreases todos.len() - k,
            {
                let t = &todos[k];
                out.push(TodoItem { content: t.content.clone(), status: t.status.clone(), priority: clone_opt(&t.priority) });
                k = k + 1;
            }
            ActionType::TodoManagement { todos: out, operation: operation.clone() }
        },
        ActionType::Tool { tool_name, arguments, result } => ActionType::Tool {
            tool_name: tool_name.clone(),
            arguments: clone_opt(arguments),
            result: match result {
                Some(t) => Some(crate::entry::ToolResult { value_type: t.value_type, value: t.value.clone() }),
                None => None,
            },
        },
        ActionType::Other { description } => ActionType::Other { description: description.clone() },
    }
}

} // verus!
