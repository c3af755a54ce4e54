//! The stream-JSON normalizer: from the agent's records to conversation patches.
use vstd::prelude::*;
use vstd::string::*;
use crate::assoc::{put, take, find_last, lemma_lookup_n_in, lemma_lookup_push, lookup};
use crate::claude::{ClaudeContentItem, ClaudeJson, ClaudeMessage, ClaudeStreamEvent, ClaudeToolData, HistoryStrategy, ToolResultContent, tool_name};
use crate::claude_tools::{clone_action, same_action, content_item_to_normalized_entry, entry_for, label_of_tool, mcp_label, ov, tool_entry_ok, tool_use_entry};
use crate::entry::{settles_below, ActionType, ConversationPatch, NormalizedEntry, NormalizedEntryType, ToolStatus, indexed, lemma_indexed_push, upsert};
use crate::index::EntryIndexProvider;
use crate::session::{SessionIdSlot, announce, opt_view};
use crate::streaming::StreamingMessageState;
use crate::text::{contains, same_text, starts_with, trim, trimmed};
use crate::tool_result::{command_result, command_result_ok, denial_of, denial_text, extract_denial_reason, normalize_claude_tool_result_value, result_value};

verus! {

/// How a tool's result is shown once it arrives.
#[derive(Clone, Copy, Debug, PartialEq, Eq, Structural)]
pub enum ToolFamily {
    /// A shell command: its result becomes the command's output.
    Command,
    /// A tool whose result is shown as a value (MCP and other generic tools).
    Opaque,
    /// A tool whose result is not shown.
    Plain,
}

pub open spec fn family_of(t: ClaudeToolData) -> ToolFamily {
    match t {
        ClaudeToolData::Bash { .. } => ToolFamily::Command,
        ClaudeToolData::Unknown { .. } => ToolFamily::Opaque,
        ClaudeToolData::Oracle { .. } => ToolFamily::Opaque,
        ClaudeToolData::Mermaid { .. } => ToolFamily::Opaque,
        ClaudeToolData::CodebaseSearchAgent { .. } => ToolFamily::Opaque,
        ClaudeToolData::NotebookEdit { .. } => ToolFamily::Opaque,
        _ => ToolFamily::Plain,
    }
}

/// The JSON text of an input, `null` when there is none.
pub open spec fn input_text(input: Option<String>) -> Seq<char> {
    match input {
        Some(i) => i@,
        None => "null"@,
    }
}

/// The arguments shown with a tool's result: the JSON input of a tool whose result is shown
/// as a value.
pub open spec fn tool_arguments(t: ClaudeToolData) -> Option<Seq<char>> {
    match t {
        ClaudeToolData::Unknown { input, .. } => Some(input_text(input)),
        ClaudeToolData::Oracle { input, .. } => Some(input_text(input)),
        ClaudeToolData::Mermaid { input, .. } => Some(input_text(input)),
        ClaudeToolData::CodebaseSearchAgent { input, .. } => Some(input_text(input)),
        ClaudeToolData::NotebookEdit { input, .. } => Some(input_text(input)),
        _ => None,
    }
}

/// What the normalizer keeps of a tool call until its result arrives.
pub struct ClaudeToolCallInfo {
    pub entry_index: usize,
    pub tool_name: String,
    pub content: String,
    pub family: ToolFamily,
    pub arguments: Option<String>,
    /// The action that the call's entry shows.
    pub action: ActionType,
}

/// The action of a tool entry.
pub open spec fn action_of(e: NormalizedEntry) -> ActionType {
    match e.entry_type {
        NormalizedEntryType::ToolUse { action_type, .. } => action_type,
        _ => arbitrary(),
    }
}

/// The command of a command action; the summary `fallback` for another action.
pub open spec fn command_of(a: ActionType, fallback: Seq<char>) -> Seq<char> {
    match a {
        ActionType::CommandRun { command, .. } => command@,
        _ => fallback,
    }
}

/// `info` records the tool call `t`, shown at `idx` with the summary `content`.
pub open spec fn info_ok(info: ClaudeToolCallInfo, t: ClaudeToolData, idx: usize, content: Seq<char>) -> bool {
    &&& info.entry_index == idx
    &&& info.tool_name@ == tool_name(t)
    &&& info.family == family_of(t)
    &&& info.content@ == content
    &&& ov(info.arguments) == tool_arguments(t)
}

fn family(t: &ClaudeToolData) -> (r: ToolFamily)
    ensures
        r == family_of(*t),
{
    match t {
        ClaudeToolData::Bash { .. } => ToolFamily::Command,
        ClaudeToolData::Unknown { .. } => ToolFamily::Opaque,
        ClaudeToolData::Oracle { .. } => ToolFamily::Opaque,
        ClaudeToolData::Mermaid { .. } => ToolFamily::Opaque,
        ClaudeToolData::CodebaseSearchAgent { .. } => ToolFamily::Opaque,
        ClaudeToolData::NotebookEdit { .. } => ToolFamily::Opaque,
        _ => ToolFamily::Plain,
    }
}

fn arguments(t: &ClaudeToolData) -> (r: Option<String>)
    ensures
        ov(r) == tool_arguments(*t),
{
    let input = match t {
        ClaudeToolData::Unknown { input, .. } => input,
        ClaudeToolData::Oracle { input, .. } => input,
        ClaudeToolData::Mermaid { input, .. } => input,
        ClaudeToolData::CodebaseSearchAgent { input, .. } => input,
        ClaudeToolData::NotebookEdit { input, .. } => input,
        _ => {
            return None;
        },
    };
    match input {
        Some(i) => Some(i.clone()),
        None => Some(String::from_str("null")),
    }
}

/// The warning shown when the agent named `agent` bills through the `ANTHROPIC_API_KEY`
/// variable instead of a subscription.
pub open spec fn unmanaged_key_warning(agent: Seq<char>) -> Seq<char> {
    agent + " Code + ANTHROPIC_API_KEY detected. Usage will be billed via Anthropic pay-as-you-go instead of your "@
        + agent + " subscription."@
}

/// The warning entry, when the API key comes from the `ANTHROPIC_API_KEY` variable; `agent` is
/// the agent's product name.
pub fn warn_if_unmanaged_key(src: &Option<String>, agent: &String) -> (r: Option<NormalizedEntry>)
    ensures
        r is Some <==> (src matches Some(s) && s@ == "ANTHROPIC_API_KEY"@),
        r matches Some(e) ==> e.entry_type is ErrorMessage && e.content@ == unmanaged_key_warning(agent@),
{
    match src {
        Some(s) => {
            if same_text(s.as_str(), "ANTHROPIC_API_KEY") {
                let mut content = agent.clone();
                content.append(" Code + ANTHROPIC_API_KEY detected. Usage will be billed via Anthropic pay-as-you-go instead of your ");
                content.append(agent.as_str());
                content.append(" subscription.");
                Some(NormalizedEntry { entry_type: NormalizedEntryType::ErrorMessage, content })
            } else {
                None
            }
        },
        None => None,
    }
}

/// The entry that a patch adds or puts in place.
pub open spec fn patch_entry(p: ConversationPatch) -> Option<NormalizedEntry> {
    match p {
        ConversationPatch::Add { entry, .. } => Some(entry),
        ConversationPatch::Replace { entry, .. } => Some(entry),
        ConversationPatch::Remove { .. } => None,
    }
}

/// `p` adds, at the index `at`, an entry with the content `content`.
pub open spec fn adds(p: ConversationPatch, at: nat, content: Seq<char>) -> bool {
    p matches ConversationPatch::Add { index, entry } && index == at && entry.content@ == content
}

/// Whether a content item gives an entry in a message from `role`.
pub open spec fn makes_entry(item: ClaudeContentItem, role: Seq<char>) -> bool {
    match item {
        ClaudeContentItem::Text { .. } => role == "assistant"@,
        ClaudeContentItem::Thinking { .. } => true,
        ClaudeContentItem::ToolUse { .. } => true,
        ClaudeContentItem::ToolResult { .. } => false,
    }
}

/// The content items of a message from `role` that give entries, in order.
pub open spec fn producing(items: Seq<ClaudeContentItem>, role: Seq<char>) -> Seq<ClaudeContentItem>
    decreases items.len(),
{
    if items.len() == 0 {
        Seq::empty()
    } else {
        let p = producing(items.drop_last(), role);
        if makes_entry(items.last(), role) {
            p.push(items.last())
        } else {
            p
        }
    }
}

pub open spec fn tool_id(item: ClaudeContentItem) -> Option<Seq<char>> {
    match item {
        ClaudeContentItem::ToolUse { id, .. } => Some(id@),
        _ => None,
    }
}

/// No item after position `j` of `items` is a tool call with the id `id`.
pub open spec fn last_use(items: Seq<ClaudeContentItem>, j: int, id: Seq<char>) -> bool {
    forall|k: int| j < k < items.len() ==> #[trigger] tool_id(items[k]) != Some(id)
}

/// The texts of the text items, in order.
pub open spec fn texts(items: Seq<ClaudeContentItem>) -> Seq<Seq<char>>
    decreases items.len(),
{
    if items.len() == 0 {
        Seq::empty()
    } else {
        let t = texts(items.drop_last());
        match items.last() {
            ClaudeContentItem::Text { text } => t.push(text@),
            _ => t,
        }
    }
}

/// The patches in `bs`, one block after another.
pub open spec fn flat(bs: Seq<Seq<ConversationPatch>>) -> Seq<ConversationPatch>
    decreases bs.len(),
{
    if bs.len() == 0 {
        Seq::empty()
    } else {
        flat(bs.drop_last()) + bs.last()
    }
}

/// `e` is the entry of the tool call `info` once its result `content` has arrived.
pub open spec fn replaced_ok(info: ClaudeToolCallInfo, content: ToolResultContent, is_error: Option<bool>, e: NormalizedEntry) -> bool {
    &&& e.content@ == info.content@
    &&& e.entry_type matches NormalizedEntryType::ToolUse { tool_name, action_type, status }
    &&& status == (if is_error == Some(true) {
        ToolStatus::Failed
    } else {
        ToolStatus::Success
    })
    &&& info.family == ToolFamily::Command ==> {
        &&& tool_name@ == info.tool_name@
        &&& action_type matches ActionType::CommandRun { command, result }
        &&& command@ == command_of(info.action, info.content@)
        &&& result matches Some(res)
        &&& command_result_ok(res, content, is_error)
    }
    &&& info.family == ToolFamily::Plain ==> {
        &&& tool_name@ == info.tool_name@
        &&& same_action(action_type, info.action)
    }
    &&& info.family == ToolFamily::Opaque ==> {
        &&& tool_name@ == mcp_label(info.tool_name@)
        &&& action_type matches ActionType::Tool { tool_name: n, arguments, result }
        &&& n@ == mcp_label(info.tool_name@)
        &&& ov(arguments) == ov(info.arguments)
        &&& result matches Some(tr)
        &&& (tr.value_type, tr.value@) == result_value(content)
    }
}

/// `ps` are the patches for a tool result `(id, content, is_error)`, with the tool calls `m`
/// on record: the call's entry is replaced by its final state, then a user's reason for a
/// denial is added as feedback. A result for no recorded call gives nothing.
pub open spec fn result_block_ok(
    m: Seq<(String, ClaudeToolCallInfo)>,
    id: Seq<char>,
    content: ToolResultContent,
    is_error: Option<bool>,
    ps: Seq<ConversationPatch>,
) -> bool {
    match lookup(m, id) {
        None => ps.len() == 0,
        Some(info) => {
            let rep: int = 1;
            let denial = denial_of(denial_text(content));
            let fb: int = if is_error == Some(true) && denial is Some { 1 } else { 0 };
            &&& ps.len() == rep + fb
            &&& rep == 1 ==> (ps[0] matches ConversationPatch::Replace { index, entry } && index
                == info.entry_index && replaced_ok(info, content, is_error, entry))
            &&& fb == 1 ==> (ps[rep] matches ConversationPatch::Add { entry, .. }
                && entry.entry_type matches NormalizedEntryType::UserFeedback { denied_tool }
                && denied_tool@ == mcp_label(info.tool_name@) && entry.content@ == denial->0)
        },
    }
}

/// `ps` are the patches for the content item `item` of a user message.
pub open spec fn item_block_ok(m: Seq<(String, ClaudeToolCallInfo)>, item: ClaudeContentItem, ps: Seq<ConversationPatch>) -> bool {
    match item {
        ClaudeContentItem::ToolResult { tool_use_id, content, is_error } => result_block_ok(
            m,
            tool_use_id@,
            content,
            is_error,
            ps,
        ),
        _ => ps.len() == 0,
    }
}

/// The number of patches that a record can give at most.
pub open spec fn room_needed(j: ClaudeJson) -> int {
    match j {
        ClaudeJson::Assistant { message, .. } => 2 * message.content.len() + 2,
        ClaudeJson::User { message, .. } => 2 * message.content.len() + 2,
        _ => 2,
    }
}

/// Handles log records of one agent run and turns them into patches.
pub struct ClaudeLogProcessor {
    pub model_name: Option<String>,
    pub tool_map: Vec<(String, ClaudeToolCallInfo)>,
    pub strategy: HistoryStrategy,
    pub streaming_messages: Vec<(String, StreamingMessageState)>,
    pub streaming_message_id: Option<String>,
    /// The agent's product name, as its messages name it.
    pub agent_name: String,
}

impl ClaudeLogProcessor {
    /// Every entry index that the processor holds is below `n`.
    pub open spec fn wf(&self, n: nat) -> bool {
        &&& forall|i: int| 0 <= i < self.tool_map@.len() ==> (#[trigger] self.tool_map@[i]).1.entry_index < n
        &&& forall|i: int| 0 <= i < self.streaming_messages@.len() ==> (#[trigger] self.streaming_messages@[i]).1.indices_below(n)
        &&& crate::assoc::unique_keys(self.streaming_messages@)
    }

    pub proof fn lemma_wf_grow(&self, n: nat, m: nat)
        requires
            self.wf(n),
            n <= m,
        ensures
            self.wf(m),
    {
        assert forall|i: int| 0 <= i < self.streaming_messages@.len() implies (#[trigger] self.streaming_messages@[i]).1.indices_below(m) by {
            let st = self.streaming_messages@[i].1;
            assert(st.indices_below(n));
            assert forall|k: int| 0 <= k < st.contents@.len() implies ((#[trigger] st.contents@[k]).1.entry_index matches Some(x) ==> x < m) by {
            }
        }
    }

    /// A processor for the agent's own format; `agent_name` is the agent's product name.
    pub fn new(agent_name: String) -> (r: ClaudeLogProcessor)
        ensures
            r.strategy == HistoryStrategy::Default,
            r.tool_map@.len() == 0,
            r.model_name is None,
            r.streaming_messages@.len() == 0,
            r.streaming_message_id is None,
            r.agent_name == agent_name,
            r.wf(0),
    {
        Self::new_with_strategy(HistoryStrategy::Default, agent_name)
    }

    pub fn new_with_strategy(strategy: HistoryStrategy, agent_name: String) -> (r: ClaudeLogProcessor)
        ensures
            r.strategy == strategy,
            r.streaming_message_id is None,
            r.agent_name == agent_name,
            r.tool_map@.len() == 0,
            r.model_name is None,
            r.streaming_messages@.len() == 0,
            r.wf(0),
    {
        ClaudeLogProcessor {
            model_name: None,
            tool_map: Vec::new(),
            strategy,
            streaming_messages: Vec::new(),
            streaming_message_id: None,
            agent_name,
        }
    }

    /// Announces the model on the first message that names one.
    pub fn extract_model_name(
        &mut self,
        message: &ClaudeMessage,
        entry_index_provider: &mut EntryIndexProvider,
    ) -> (r: Option<ConversationPatch>)
        requires
            old(entry_index_provider).has_room(1),
        ensures
            r is Some <==> (old(self).model_name is None && message.model is Some),
            r matches Some(p) ==> adds(p, old(entry_index_provider).view_index(), "System initialized with model: "@ + message.model->0@)
                && patch_entry(p)->0.entry_type is SystemMessage,
            r is Some ==> final(self).model_name == message.model && final(entry_index_provider).view_index() == old(entry_index_provider).view_index() + 1,
            r is None ==> final(self).model_name == old(self).model_name && final(entry_index_provider).view_index() == old(entry_index_provider).view_index(),
            final(self).tool_map == old(self).tool_map,
            final(self).strategy == old(self).strategy,
            final(self).streaming_messages == old(self).streaming_messages,
            final(self).streaming_message_id == old(self).streaming_message_id,
    {
        if self.model_name.is_none() {
            if let Some(model) = &message.model {
                self.model_name = Some(model.clone());
                let mut content = String::from_str("System initialized with model: ");
                content.append(model.as_str());
                let id = entry_index_provider.next();
                return Some(
                    ConversationPatch::Add {
                        index: id,
                        entry: NormalizedEntry { entry_type: NormalizedEntryType::SystemMessage, content },
                    },
                );
            }
        }
        None
    }
}

} // verus!

verus! {

/// A patch sequence of one add.
proof fn lemma_one_add(lo: int, p: ConversationPatch)
    requires
        p is Add,
        p.index_of() == lo,
    ensures
        indexed(seq![p], lo, lo + 1),
{
    assert(indexed(Seq::<ConversationPatch>::empty(), lo, lo));
    lemma_indexed_push(Seq::empty(), lo, lo, p);
    assert(Seq::<ConversationPatch>::empty().push(p) =~= seq![p]);
}

fn add_entry(
    patches: &mut Vec<ConversationPatch>,
    entry: NormalizedEntry,
    entry_index_provider: &mut EntryIndexProvider,
    Ghost(lo): Ghost<int>,
)
    requires
        old(entry_index_provider).has_room(1),
        indexed(old(patches)@, lo, old(entry_index_provider).view_index() as int),
    ensures
        final(patches)@ == old(patches)@.push(
            ConversationPatch::Add { index: old(entry_index_provider).view_index() as usize, entry },
        ),
        final(entry_index_provider).view_index() == old(entry_index_provider).view_index() + 1,
        indexed(final(patches)@, lo, final(entry_index_provider).view_index() as int),
{
    let idx = entry_index_provider.next();
    let p = ConversationPatch::Add { index: idx, entry };
    proof {
        lemma_indexed_push(patches@, lo, idx as int, p);
    }
    patches.push(p);
}

/// The patches for a `system` record: the API-key warning when it applies, then a system
/// message unless the record is the `init` one.
pub fn system_patches(
    agent: &String,
    api_key_source: &Option<String>,
    subtype: &Option<String>,
    entry_index_provider: &mut EntryIndexProvider,
) -> (r: Vec<ConversationPatch>)
    requires
        old(entry_index_provider).has_room(2),
    ensures
        indexed(r@, old(entry_index_provider).view_index() as int, final(entry_index_provider).view_index() as int),
        system_ok(agent@, *api_key_source, *subtype, old(entry_index_provider).view_index(), r@),
{
    let ghost lo = entry_index_provider.view_index() as int;
    let mut patches: Vec<ConversationPatch> = Vec::new();
    if let Some(entry) = warn_if_unmanaged_key(api_key_source, agent) {
        add_entry(&mut patches, entry, entry_index_provider, Ghost(lo));
    }
    let content = match subtype {
        Some(t) => {
            if same_text(t.as_str(), "init") {
                return patches;
            }
            let mut c = String::from_str("System: ");
            c.append(t.as_str());
            c
        },
        None => String::from_str("System message"),
    };
    add_entry(
        &mut patches,
        NormalizedEntry { entry_type: NormalizedEntryType::SystemMessage, content },
        entry_index_provider,
        Ghost(lo),
    );
    patches
}

/// The patch for a record of an unknown type.
pub fn unknown_patches(data: &String, entry_index_provider: &mut EntryIndexProvider) -> (r: Vec<ConversationPatch>)
    requires
        old(entry_index_provider).has_room(1),
    ensures
        r@.len() == 1,
        adds(r@[0], old(entry_index_provider).view_index(), "Unrecognized JSON message: "@ + data@),
        patch_entry(r@[0])->0.entry_type is SystemMessage,
        indexed(r@, old(entry_index_provider).view_index() as int, final(entry_index_provider).view_index() as int),
{
    let ghost lo = entry_index_provider.view_index() as int;
    let mut patches: Vec<ConversationPatch> = Vec::new();
    let mut content = String::from_str("Unrecognized JSON message: ");
    content.append(data.as_str());
    add_entry(
        &mut patches,
        NormalizedEntry { entry_type: NormalizedEntryType::SystemMessage, content },
        entry_index_provider,
        Ghost(lo),
    );
    patches
}

/// The patch for a `tool_use` record: the tool call's entry.
pub fn tool_use_patches(
    tool_data: &ClaudeToolData,
    worktree_path: &str,
    entry_index_provider: &mut EntryIndexProvider,
) -> (r: Vec<ConversationPatch>)
    requires
        old(entry_index_provider).has_room(1),
    ensures
        r@.len() == 1,
        r@[0] matches ConversationPatch::Add { index, entry } && index == old(entry_index_provider).view_index()
            && tool_entry_ok(entry, *tool_data, worktree_path@),
        indexed(r@, old(entry_index_provider).view_index() as int, final(entry_index_provider).view_index() as int),
{
    let ghost lo = entry_index_provider.view_index() as int;
    let mut patches: Vec<ConversationPatch> = Vec::new();
    add_entry(&mut patches, tool_use_entry(tool_data, worktree_path), entry_index_provider, Ghost(lo));
    patches
}

impl ClaudeLogProcessor {
    /// The patches for a `result` record: with Amp's history format, a failed run is shown as an
    /// error carrying the whole record as JSON text.
    pub fn result_patches(
        &self,
        is_error: Option<bool>,
        raw: &String,
        entry_index_provider: &mut EntryIndexProvider,
    ) -> (r: Vec<ConversationPatch>)
        requires
            old(entry_index_provider).has_room(1),
        ensures
            (self.strategy == HistoryStrategy::AmpResume && is_error == Some(true)) ==> r@.len() == 1
                && adds(r@[0], old(entry_index_provider).view_index(), raw@) && patch_entry(r@[0])->0.entry_type is ErrorMessage,
            !(self.strategy == HistoryStrategy::AmpResume && is_error == Some(true)) ==> r@.len() == 0,
            indexed(r@, old(entry_index_provider).view_index() as int, final(entry_index_provider).view_index() as int),
    {
        let ghost lo = entry_index_provider.view_index() as int;
        let mut patches: Vec<ConversationPatch> = Vec::new();
        if self.strategy == HistoryStrategy::AmpResume && is_error == Some(true) {
            let content = raw.clone();
            add_entry(
                &mut patches,
                NormalizedEntry { entry_type: NormalizedEntryType::ErrorMessage, content },
                entry_index_provider,
                Ghost(lo),
            );
        }
        patches
    }

    /// The patches for one tool result of a user message.
    pub fn tool_result_patches(
        &self,
        tool_use_id: &String,
        content: &ToolResultContent,
        is_error: Option<bool>,
        entry_index_provider: &mut EntryIndexProvider,
    ) -> (r: Vec<ConversationPatch>)
        requires
            old(entry_index_provider).has_room(1),
            self.wf(old(entry_index_provider).view_index()),
        ensures
            result_block_ok(self.tool_map@, tool_use_id@, *content, is_error, r@),
            indexed(r@, old(entry_index_provider).view_index() as int, final(entry_index_provider).view_index() as int),
            forall|i: int| 0 <= i < r@.len() ==> (#[trigger] r@[i]) is Add || (r@[i] is Replace
                && lookup(self.tool_map@, tool_use_id@) is Some
                && r@[i].index_of() == lookup(self.tool_map@, tool_use_id@)->0.entry_index),
            final(entry_index_provider).view_index() <= old(entry_index_provider).view_index() + 1,
    {
        let ghost lo = entry_index_provider.view_index() as int;
        let mut patches: Vec<ConversationPatch> = Vec::new();
        let pos = match find_last(&self.tool_map, tool_use_id.as_str()) {
            Some(i) => i,
            None => {
                return patches;
            },
        };
        let info = &self.tool_map[pos].1;
        assert(info.entry_index < lo);
        let failed = is_error == Some(true);
        let status = if failed {
            ToolStatus::Failed
        } else {
            ToolStatus::Success
        };
        let label = label_of_tool(info.tool_name.as_str());
        if info.family == ToolFamily::Command {
            let entry = NormalizedEntry {
                entry_type: NormalizedEntryType::ToolUse {
                    tool_name: info.tool_name.clone(),
                    action_type: ActionType::CommandRun {
                        command: match &info.action {
                            ActionType::CommandRun { command, .. } => command.clone(),
                            _ => info.content.clone(),
                        },
                        result: Some(command_result(content, is_error)),
                    },
                    status,
                },
                content: info.content.clone(),
            };
            let p = ConversationPatch::Replace { index: info.entry_index, entry };
            proof {
                lemma_indexed_push(patches@, lo, lo, p);
            }
            patches.push(p);
        } else if info.family == ToolFamily::Opaque {
            let args = match &info.arguments {
                Some(a) => Some(a.clone()),
                None => None,
            };
            let entry = NormalizedEntry {
                entry_type: NormalizedEntryType::ToolUse {
                    tool_name: label_of_tool(info.tool_name.as_str()),
                    action_type: ActionType::Tool {
                        tool_name: label_of_tool(info.tool_name.as_str()),
                        arguments: args,
                        result: Some(normalize_claude_tool_result_value(content)),
                    },
                    status,
                },
                content: info.content.clone(),
            };
            let p = ConversationPatch::Replace { index: info.entry_index, entry };
            proof {
                lemma_indexed_push(patches@, lo, lo, p);
            }
            patches.push(p);
        } else {
            let entry = NormalizedEntry {
                entry_type: NormalizedEntryType::ToolUse {
                    tool_name: info.tool_name.clone(),
                    action_type: clone_action(&info.action),
                    status,
                },
                content: info.content.clone(),
            };
            let p = ConversationPatch::Replace { index: info.entry_index, entry };
            proof {
                lemma_indexed_push(patches@, lo, lo, p);
            }
            patches.push(p);
        }
        if failed {
            if let Some(reason) = extract_denial_reason(content) {
                add_entry(
                    &mut patches,
                    NormalizedEntry {
                        entry_type: NormalizedEntryType::UserFeedback { denied_tool: label },
                        content: reason,
                    },
                    entry_index_provider,
                    Ghost(lo),
                );
            }
        }
        patches
    }
}

} // verus!

verus! {

/// The tool call at position `j` of `prods`, when no later item reuses its id, is on record in
/// `m` with the index and summary of the patch `p` that shows it.
pub open spec fn registered(m: Seq<(String, ClaudeToolCallInfo)>, prods: Seq<ClaudeContentItem>, j: int, p: ConversationPatch) -> bool {
    match prods[j] {
        ClaudeContentItem::ToolUse { id, tool_data } => last_use(prods, j, id@) ==> (lookup(m, id@) matches Some(info)
            && info_ok(info, tool_data, p.index_of(), patch_entry(p)->0.content@)
            && same_action(info.action, action_of(patch_entry(p)->0))),
        _ => true,
    }
}

impl ClaudeLogProcessor {
    /// Takes out the streaming state of message `id`, if it has one.
    fn take_streaming(&mut self, id: &Option<String>, Ghost(n): Ghost<nat>) -> (r: Option<StreamingMessageState>)
        requires
            old(self).wf(n),
        ensures
            final(self).wf(n),
            r matches Some(st) ==> st.indices_below(n),
            final(self).tool_map == old(self).tool_map,
            final(self).model_name == old(self).model_name,
            final(self).strategy == old(self).strategy,
            final(self).streaming_message_id == old(self).streaming_message_id,
            r is Some <==> (*id matches Some(i) && lookup(old(self).streaming_messages@, i@) is Some),
    {
        match id {
            None => None,
            Some(id) => {
                let ghost before = self.streaming_messages@;
                let r = take(&mut self.streaming_messages, id.as_str());
                proof {
                    if r is Some {
                        crate::assoc::lemma_lookup_in(before, id@);
                        let q = choose|q: int| 0 <= q < before.len() && before[q].1 == r->0;
                        assert(before[q].1.indices_below(n));
                    }
                    assert forall|j: int| 0 <= j < self.streaming_messages@.len() implies (#[trigger] self.streaming_messages@[j]).1.indices_below(n) by {
                        let q = choose|q: int| 0 <= q < before.len() && self.streaming_messages@[j] == before[q];
                        assert(before[q].1.indices_below(n));
                    }
                }
                r
            },
        }
    }

    /// The patches for an assistant message: the model announcement, then one entry for each
    /// content item that gives one (reusing the entry that streaming gave it, if any), and a
    /// record of each tool call.
    pub fn assistant_patches(
        &mut self,
        message: &ClaudeMessage,
        worktree_path: &str,
        entry_index_provider: &mut EntryIndexProvider,
    ) -> (r: Vec<ConversationPatch>)
        requires
            old(self).wf(old(entry_index_provider).view_index()),
            old(entry_index_provider).has_room(message.content@.len() as int + 1),
        ensures
            final(self).wf(final(entry_index_provider).view_index()),
            final(self).strategy == old(self).strategy,
            indexed(r@, old(entry_index_provider).view_index() as int, final(entry_index_provider).view_index() as int),
            assistant_ok(*old(self), *final(self), *message, worktree_path@, old(entry_index_provider).view_index(), r@),
            settles_below(r@, old(entry_index_provider).view_index() as int),
    {
        let ghost lo = entry_index_provider.view_index();
        let ghost old_map = self.tool_map@;
        let mut patches: Vec<ConversationPatch> = Vec::new();
        let model_patch = self.extract_model_name(message, entry_index_provider);
        let ghost off: int = if model_patch is Some { 1 } else { 0 };
        if let Some(p) = model_patch {
            proof {
                lemma_one_add(lo as int, p);
                assert(Seq::<ConversationPatch>::empty().push(p) =~= seq![p]);
            }
            patches.push(p);
        }
        proof {
            self.lemma_wf_grow(lo, entry_index_provider.view_index());
        }
        let stream_state = self.take_streaming(&message.id, Ghost(lo));
        let items = &message.content;
        let role = message.role.as_str();
        let mut k: usize = 0;
        while k < items.len()
            invariant
                k <= items.len(),
                items == message.content,
                role@ == message.role@,
                off == (if old(self).model_name is None && message.model is Some { 1int } else { 0int }),
                patches@.len() == off + producing(items@.subrange(0, k as int), role@).len(),
                off == 1 ==> adds(patches@[0], lo, "System initialized with model: "@ + message.model->0@)
                    && patch_entry(patches@[0])->0.entry_type is SystemMessage,
                forall|j: int| 0 <= j < producing(items@.subrange(0, k as int), role@).len() ==> entry_for(
                    #[trigger] producing(items@.subrange(0, k as int), role@)[j], role@, worktree_path@, patch_entry(patches@[off + j])),
                forall|j: int| 0 <= j < producing(items@.subrange(0, k as int), role@).len() ==> #[trigger] registered(
                    self.tool_map@, producing(items@.subrange(0, k as int), role@), j, patches@[off + j]),
                forall|x: Seq<char>| (forall|j: int| 0 <= j < producing(items@.subrange(0, k as int), role@).len()
                    ==> #[trigger] tool_id(producing(items@.subrange(0, k as int), role@)[j]) != Some(x))
                    ==> #[trigger] lookup(self.tool_map@, x) == lookup(old_map, x),
                indexed(patches@, lo as int, entry_index_provider.view_index() as int),
                self.wf(entry_index_provider.view_index()),
                lo + off <= entry_index_provider.view_index() <= lo + off + k,
                lo + message.content@.len() + 1 <= usize::MAX,
                stream_state matches Some(st) ==> st.indices_below(lo),
                settles_below(patches@, lo as int),
                self.strategy == old(self).strategy,
                self.model_name == (if off == 1 { message.model } else { old(self).model_name }),
                stream_state is None ==> forall|j: int| 0 <= j < producing(items@.subrange(0, k as int), role@).len()
                    ==> (#[trigger] patches@[off + j]) is Add,
            decreases items.len() - k,
        {
            let ghost prods = producing(items@.subrange(0, k as int), role@);
            let ghost hi = entry_index_provider.view_index();
            assert(items@.subrange(0, k + 1).drop_last() =~= items@.subrange(0, k as int));
            assert(items@.subrange(0, k + 1).last() == items@[k as int]);
            let entry_index = match &stream_state {
                Some(st) => st.content_entry_index(k),
                None => None,
            };
            proof {
                if stream_state is Some {
                    let st = stream_state->0;
                    if st.block(k) is Some {
                        lemma_lookup_n_in(st.contents@, k);
                        let i = choose|i: int| 0 <= i < st.contents@.len() && st.contents@[i].1 == st.block(k)->0;
                        assert(st.contents@[i].1.entry_index matches Some(x) ==> x < lo);
                    }
                }
                assert(entry_index matches Some(x) ==> x < lo);
            }
            let item = &items[k];
            match item {
                ClaudeContentItem::ToolUse { id, tool_data } => {
                    let entry = tool_use_entry(tool_data, worktree_path);
                    let (idx, is_new) = match entry_index {
                        Some(i) => (i, false),
                        None => (entry_index_provider.next(), true),
                    };
                    let action = match &entry.entry_type {
                        NormalizedEntryType::ToolUse { action_type, .. } => clone_action(action_type),
                        _ => ActionType::Other { description: String::new() },
                    };
                    let info = ClaudeToolCallInfo {
                        entry_index: idx,
                        tool_name: tool_data.get_name(),
                        content: entry.content.clone(),
                        family: family(tool_data),
                        arguments: arguments(tool_data),
                        action,
                    };
                    let ghost map_before = self.tool_map@;
                    proof {
                        self.lemma_wf_grow(hi, entry_index_provider.view_index());
                    }
                    let key = id.clone();
                    proof {
                        lemma_lookup_push(map_before, key, info);
                    }
                    self.tool_map.push((key, info));
                    let p = upsert(idx, entry, is_new);
                    proof {
                        lemma_indexed_push(patches@, lo as int, hi as int, p);
                    }
                    patches.push(p);
                    proof {
                        let np = producing(items@.subrange(0, k + 1), role@);
                        assert(np == prods.push(*item));
                        assert forall|j: int| 0 <= j < np.len() implies entry_for(#[trigger] np[j], role@, worktree_path@, patch_entry(patches@[off + j])) by {
                            if j < prods.len() {
                                assert(np[j] == prods[j]);
                            }
                        }
                        assert forall|j: int| 0 <= j < np.len() implies #[trigger] registered(self.tool_map@, np, j, patches@[off + j]) by {
                            if j < prods.len() {
                                assert(np[j] == prods[j]);
                                assert(registered(map_before, prods, j, patches@[off + j]));
                                if let ClaudeContentItem::ToolUse { id: id2, .. } = prods[j] {
                                    if last_use(np, j, id2@) {
                                        assert(tool_id(np[np.len() - 1]) != Some(id2@));
                                        assert(id2@ != id@);
                                        assert forall|q: int| j < q < prods.len() implies #[trigger] tool_id(prods[q]) != Some(id2@) by {
                                            assert(np[q] == prods[q]);
                                        }
                                    }
                                }
                            }
                        }
                        assert forall|x: Seq<char>| (forall|j: int| 0 <= j < np.len() ==> #[trigger] tool_id(np[j]) != Some(x))
                            implies #[trigger] lookup(self.tool_map@, x) == lookup(old_map, x) by {
                            assert(tool_id(np[np.len() - 1]) != Some(x));
                            assert forall|j: int| 0 <= j < prods.len() implies #[trigger] tool_id(prods[j]) != Some(x) by {
                                assert(np[j] == prods[j]);
                            }
                        }
                        assert forall|i: int| 0 <= i < self.tool_map@.len() implies (#[trigger] self.tool_map@[i]).1.entry_index < entry_index_provider.view_index() by {
                            if i < map_before.len() {
                                assert(self.tool_map@[i] == map_before[i]);
                            }
                        }
                    }
                },
                ClaudeContentItem::ToolResult { .. } => {
                    proof {
                        assert(producing(items@.subrange(0, k + 1), role@) == prods);
                    }
                },
                _ => {
                    let entry_opt = content_item_to_normalized_entry(item, role, worktree_path);
                    if let Some(entry) = entry_opt {
                        let (idx, is_new) = match entry_index {
                            Some(i) => (i, false),
                            None => (entry_index_provider.next(), true),
                        };
                        let p = upsert(idx, entry, is_new);
                        proof {
                            lemma_indexed_push(patches@, lo as int, hi as int, p);
                        }
                        patches.push(p);
                        proof {
                            let np = producing(items@.subrange(0, k + 1), role@);
                            assert(np == prods.push(*item));
                            assert forall|j: int| 0 <= j < np.len() implies entry_for(#[trigger] np[j], role@, worktree_path@, patch_entry(patches@[off + j])) by {
                                if j < prods.len() {
                                    assert(np[j] == prods[j]);
                                }
                            }
                            assert forall|j: int| 0 <= j < np.len() implies #[trigger] registered(self.tool_map@, np, j, patches@[off + j]) by {
                                if j < prods.len() {
                                    assert(np[j] == prods[j]);
                                    assert(registered(self.tool_map@, prods, j, patches@[off + j]));
                                    if let ClaudeContentItem::ToolUse { id: id2, .. } = prods[j] {
                                        if last_use(np, j, id2@) {
                                            assert forall|q: int| j < q < prods.len() implies #[trigger] tool_id(prods[q]) != Some(id2@) by {
                                                assert(np[q] == prods[q]);
                                            }
                                        }
                                    }
                                }
                            }
                            assert forall|x: Seq<char>| (forall|j: int| 0 <= j < np.len() ==> #[trigger] tool_id(np[j]) != Some(x))
                                implies #[trigger] lookup(self.tool_map@, x) == lookup(old_map, x) by {
                                assert forall|j: int| 0 <= j < prods.len() implies #[trigger] tool_id(prods[j]) != Some(x) by {
                                    assert(np[j] == prods[j]);
                                }
                            }
                            self.lemma_wf_grow(hi, entry_index_provider.view_index());
                        }
                    } else {
                        proof {
                            assert(producing(items@.subrange(0, k + 1), role@) == prods);
                        }
                    }
                },
            }
            k = k + 1;
        }
        assert(items@.subrange(0, k as int) =~= items@);
        proof {
            let prods = producing(message.content@, message.role@);
            assert(self.model_name == (if off == 1 { message.model } else { old(self).model_name }));
            if !(message.id is Some && lookup(old(self).streaming_messages@, message.id->0@) is Some) {
                assert(stream_state is None);
                assert forall|j: int| 0 <= j < prods.len() implies (#[trigger] patches@[off + j]) is Add by {}
            }
        }
        patches
    }
}

} // verus!

verus! {

pub open spec fn has_text(items: Seq<ClaudeContentItem>) -> bool {
    exists|i: int| 0 <= i < items.len() && items[i] is Text
}

fn any_text(items: &Vec<ClaudeContentItem>) -> (r: bool)
    ensures
        r == has_text(items@),
{
    let mut k: usize = 0;
    while k < items.len()
        invariant
            k <= items.len(),
            forall|i: int| 0 <= i < k ==> !(items@[i] is Text),
        decreases items.len() - k,
    {
        if let ClaudeContentItem::Text { .. } = &items[k] {
            return true;
        }
        k = k + 1;
    }
    false
}

/// `r` are the patches for a user message `items` given to a processor with the strategy
/// `strategy`, the tool calls `m0` on record and `lo` indices handed out; `m` are the tool
/// calls on record afterwards.
///
/// With Amp's history format, a user message with text starts the conversation over: every
/// entry is removed, numbering starts again from zero and the tool calls are forgotten; the
/// message's texts then open the new conversation. Each tool result gives its block.
pub open spec fn user_ok(
    strategy: HistoryStrategy,
    m0: Seq<(String, ClaudeToolCallInfo)>,
    lo: nat,
    items: Seq<ClaudeContentItem>,
    m: Seq<(String, ClaudeToolCallInfo)>,
    hi: nat,
    r: Seq<ConversationPatch>,
) -> bool {
    if strategy == HistoryStrategy::AmpResume && has_text(items) {
        &&& m == (if lo > 0 { Seq::empty() } else { m0 })
        &&& user_body(lo as int, 0, texts(items), items, m, hi, r)
    } else {
        &&& m == m0
        &&& user_body(0, lo as int, Seq::empty(), items, m, hi, r)
    }
}

/// `user_ok`, once `nrem` removals, the numbering's new start `base` and the texts `ts` that open
/// the conversation are known.
pub open spec fn user_body(
    nrem: int,
    base: int,
    ts: Seq<Seq<char>>,
    items: Seq<ClaudeContentItem>,
    m: Seq<(String, ClaudeToolCallInfo)>,
    hi: nat,
    r: Seq<ConversationPatch>,
) -> bool {
    let rest = r.subrange(nrem, r.len() as int);
    &&& r.len() >= nrem + ts.len()
    &&& forall|i: int| 0 <= i < nrem ==> #[trigger] r[i] == (ConversationPatch::Remove { index: 0 })
    &&& indexed(rest, base, hi as int)
    &&& forall|t: int| 0 <= t < ts.len() ==> adds(#[trigger] rest[t], (base + t) as nat, ts[t])
        && patch_entry(rest[t])->0.entry_type is UserMessage
    &&& exists|bs: Seq<Seq<ConversationPatch>>| {
        &&& bs.len() == items.len()
        &&& flat(bs) == rest.subrange(ts.len() as int, rest.len() as int)
        &&& forall|i: int| 0 <= i < items.len() ==> item_block_ok(m, #[trigger] items[i], bs[i])
    }
}

impl ClaudeLogProcessor {
    /// The patches for a user message.
    pub fn user_patches(
        &mut self,
        message: &ClaudeMessage,
        entry_index_provider: &mut EntryIndexProvider,
    ) -> (r: Vec<ConversationPatch>)
        requires
            old(self).wf(old(entry_index_provider).view_index()),
            old(entry_index_provider).has_room(2 * message.content@.len() as int + 1),
        ensures
            final(self).wf(final(entry_index_provider).view_index()),
            final(self).strategy == old(self).strategy,
            final(self).model_name == old(self).model_name,
            user_ok(
                old(self).strategy,
                old(self).tool_map@,
                old(entry_index_provider).view_index(),
                message.content@,
                final(self).tool_map@,
                final(entry_index_provider).view_index(),
                r@,
            ),
            !(old(self).strategy == HistoryStrategy::AmpResume && has_text(message.content@)) ==> settles_below(
                r@,
                old(entry_index_provider).view_index() as int,
            ),
    {
        let ghost lo = entry_index_provider.view_index();
        let items = &message.content;
        let reset = self.strategy == HistoryStrategy::AmpResume && any_text(items);
        let mut patches: Vec<ConversationPatch> = Vec::new();
        let mut rest: Vec<ConversationPatch> = Vec::new();
        if reset {
            let cur = entry_index_provider.current();
            if cur > 0 {
                let mut i: usize = 0;
                while i < cur
                    invariant
                        i <= cur,
                        patches@.len() == i,
                        forall|q: int| 0 <= q < i ==> #[trigger] patches@[q] == (ConversationPatch::Remove { index: 0 }),
                    decreases cur - i,
                {
                    patches.push(ConversationPatch::Remove { index: 0 });
                    i = i + 1;
                }
                entry_index_provider.reset();
                self.tool_map.clear();
                self.streaming_messages.clear();
                self.streaming_message_id = None;
            }
        }
        let ghost base: int = if reset { 0 } else { lo as int };
        assert(entry_index_provider.view_index() == base);
        proof {
            if !reset {
                assert(self.wf(base as nat));
            }
        }
        let ghost m = self.tool_map@;
        if reset {
            let mut k: usize = 0;
            while k < items.len()
                invariant
                    k <= items.len(),
                    items == message.content,
                    rest@.len() == texts(items@.subrange(0, k as int)).len(),
                    entry_index_provider.view_index() == base + rest@.len(),
                    base == 0,
                    rest@.len() <= k,
                    lo + 2 * items@.len() + 1 <= usize::MAX,
                    indexed(rest@, base, entry_index_provider.view_index() as int),
                    forall|t: int| 0 <= t < rest@.len() ==> adds(#[trigger] rest@[t], (base + t) as nat, texts(items@.subrange(0, k as int))[t])
                        && patch_entry(rest@[t])->0.entry_type is UserMessage,
                    self.tool_map@ == m,
                    self.wf(entry_index_provider.view_index()),
                decreases items.len() - k,
            {
                let ghost ts = texts(items@.subrange(0, k as int));
                assert(items@.subrange(0, k + 1).drop_last() =~= items@.subrange(0, k as int));
                assert(items@.subrange(0, k + 1).last() == items@[k as int]);
                if let ClaudeContentItem::Text { text } = &items[k] {
                    let ghost before = rest@;
                    proof {
                        self.lemma_wf_grow(entry_index_provider.view_index(), entry_index_provider.view_index() + 1);
                    }
                    add_entry(
                        &mut rest,
                        NormalizedEntry { entry_type: NormalizedEntryType::UserMessage, content: text.clone() },
                        entry_index_provider,
                        Ghost(base),
                    );
                    assert forall|t: int| 0 <= t < rest@.len() implies adds(#[trigger] rest@[t], (base + t) as nat, texts(items@.subrange(0, k + 1))[t])
                        && patch_entry(rest@[t])->0.entry_type is UserMessage by {
                        if t < before.len() {
                            assert(rest@[t] == before[t]);
                        }
                    }
                }
                k = k + 1;
            }
            assert(items@.subrange(0, k as int) =~= items@);
        }
        let ghost tlen = rest@.len();
        proof {
            assert forall|i: int| 0 <= i < m.len() implies (#[trigger] m[i]).1.entry_index < lo by {
                if !reset {
                    assert(m[i] == old(self).tool_map@[i]);
                } else if lo == 0 {
                    assert(m[i] == old(self).tool_map@[i]);
                }
            }
        }
        let ghost mut bs: Seq<Seq<ConversationPatch>> = Seq::empty();
        assert(rest@.subrange(tlen as int, rest@.len() as int) =~= Seq::<ConversationPatch>::empty());
        let mut k: usize = 0;
        while k < items.len()
            invariant
                k <= items.len(),
                items == message.content,
                bs.len() == k,
                tlen <= rest@.len(),
                flat(bs) == rest@.subrange(tlen as int, rest@.len() as int),
                forall|i: int| 0 <= i < k ==> item_block_ok(m, #[trigger] items@[i], bs[i]),
                forall|t: int| 0 <= t < tlen ==> adds(#[trigger] rest@[t], (base + t) as nat, (if reset { texts(items@) } else { Seq::empty() })[t])
                    && patch_entry(rest@[t])->0.entry_type is UserMessage,
                tlen == (if reset { texts(items@) } else { Seq::<Seq<char>>::empty() }).len(),
                tlen <= items@.len(),
                indexed(rest@, base, entry_index_provider.view_index() as int),
                entry_index_provider.view_index() <= base + tlen + k,
                base <= lo,
                lo + 2 * items@.len() + 1 <= usize::MAX,
                self.tool_map@ == m,
                self.wf(entry_index_provider.view_index()),
                forall|i: int| 0 <= i < m.len() ==> (#[trigger] m[i]).1.entry_index < lo,
                !reset ==> settles_below(rest@, lo as int),
            decreases items.len() - k,
        {
            let ghost mid = entry_index_provider.view_index();
            let ghost before = rest@;
            let ghost bs_before = bs;
            if let ClaudeContentItem::ToolResult { tool_use_id, content, is_error } = &items[k] {
                let mut block = self.tool_result_patches(tool_use_id, content, *is_error, entry_index_provider);
                proof {
                    crate::entry::lemma_indexed_concat(before, block@, base, mid as int, entry_index_provider.view_index() as int);
                    crate::entry::lemma_indexed_bounds(block@, mid as int, entry_index_provider.view_index() as int);
                    bs = bs.push(block@);
                }
                let ghost bv = block@;
                rest.append(&mut block);
                proof {
                    if lookup(m, tool_use_id@) is Some {
                        crate::assoc::lemma_lookup_in(m, tool_use_id@);
                        let q = choose|q: int| 0 <= q < m.len() && m[q].1 == lookup(m, tool_use_id@)->0;
                        assert(m[q].1.entry_index < lo);
                    }
                    assert forall|i: int| 0 <= i < rest@.len() implies (#[trigger] rest@[i]) is Add || (rest@[i] is Replace
                        && rest@[i].index_of() < lo) || reset by {
                        if i >= before.len() {
                            assert(rest@[i] == bv[i - before.len()]);
                        } else {
                            assert(rest@[i] == before[i]);
                        }
                    }
                    self.lemma_wf_grow(mid, entry_index_provider.view_index());
                    assert(bs.drop_last() =~= bs_before);
                    assert(rest@.subrange(tlen as int, rest@.len() as int) =~= before.subrange(tlen as int, before.len() as int) + bs.last());
                }
            } else {
                proof {
                    bs = bs.push(Seq::empty());
                    assert(bs.drop_last() =~= bs_before);
                    assert(flat(bs) =~= flat(bs_before));
                }
            }
            assert forall|i: int| 0 <= i < k + 1 implies item_block_ok(m, #[trigger] items@[i], bs[i]) by {
                if i < k {
                    assert(bs[i] == bs_before[i]);
                }
            }
            assert forall|t: int| 0 <= t < tlen implies adds(#[trigger] rest@[t], (base + t) as nat, (if reset { texts(items@) } else { Seq::empty() })[t])
                && patch_entry(rest@[t])->0.entry_type is UserMessage by {
                assert(rest@[t] == before[t]);
            }
            k = k + 1;
        }
        let ghost nrem = patches@.len();
        let ghost rest_view = rest@;
        patches.append(&mut rest);
        proof {
            assert(patches@.subrange(nrem as int, patches@.len() as int) =~= rest_view);
            assert(nrem == (if reset { lo as int } else { 0 }));
            assert forall|i: int| 0 <= i < nrem implies #[trigger] patches@[i] == (ConversationPatch::Remove { index: 0 }) by {
            }
        }
        patches
    }
}

} // verus!

verus! {

/// `st2` and `r` are what a delta for block `index` makes of the streaming message `st`.
pub open spec fn delta_ok(
    st: StreamingMessageState,
    st2: StreamingMessageState,
    index: usize,
    delta: crate::claude::ClaudeContentBlockDelta,
    r: Seq<ConversationPatch>,
) -> bool {
    &&& st2.role == st.role
    &&& st.block(index) is None && delta is Unknown ==> r.len() == 0
    &&& !(st.block(index) is None && delta is Unknown) ==> (st2.block(index) matches Some(b)
        && b.kind == st.start_kind(index, delta)
        && b.buffer@ == crate::streaming::delta_step(b.kind, st.start_text(index), delta)
        && r.len() == (if b.kind == crate::streaming::StreamingContentKind::Thinking || st.role@ == "assistant"@ { 1int } else { 0int })
        && (st.start_entry(index) is Some ==> b.entry_index == st.start_entry(index))
        && (r.len() == 1 ==> crate::streaming::block_entry_ok(b.kind, b.buffer@, patch_entry(r[0])->0)
            && Some(r[0].index_of()) == b.entry_index
            && (r[0] is Add <==> st.start_entry(index) is None)))
}

/// What a `message_start` does: for an assistant message, the model announcement when it is
/// the first to name one, and a fresh stream under the message's id (the empty id when it has
/// none), which becomes the current one; for another role, nothing is streaming afterwards.
pub open spec fn message_start_ok(p: ClaudeLogProcessor, q: ClaudeLogProcessor, message: ClaudeMessage, lo: nat, r: Seq<ConversationPatch>) -> bool {
    if message.role@ == "assistant"@ {
        let key: Seq<char> = match message.id {
            Some(i) => i@,
            None => Seq::empty(),
        };
        let off: int = if p.model_name is None && message.model is Some { 1 } else { 0 };
        &&& r.len() == off
        &&& off == 1 ==> adds(r[0], lo, "System initialized with model: "@ + message.model->0@)
        &&& q.streaming_message_id matches Some(id)
        &&& id@ == key
        &&& lookup(q.streaming_messages@, key) matches Some(st)
        &&& st.role@ == message.role@
        &&& st.contents@.len() == 0
        &&& forall|k: Seq<char>| k != key ==> #[trigger] lookup(q.streaming_messages@, k) == lookup(p.streaming_messages@, k)
    } else {
        r.len() == 0 && q.streaming_message_id is None
    }
}

/// `r` is what a delta for block `index` of the current streaming message gives, taking the
/// processor from `p` to `q`: nothing when no message is streaming.
pub open spec fn delta_event_ok(
    p: ClaudeLogProcessor,
    q: ClaudeLogProcessor,
    index: usize,
    delta: crate::claude::ClaudeContentBlockDelta,
    r: Seq<ConversationPatch>,
) -> bool {
    match p.streaming_message_id {
        Some(id) => match lookup(p.streaming_messages@, id@) {
            Some(st) => match lookup(q.streaming_messages@, id@) {
                Some(st2) => delta_ok(st, st2, index, delta, r) && forall|k: Seq<char>| k != id@
                    ==> #[trigger] lookup(q.streaming_messages@, k) == lookup(p.streaming_messages@, k),
                None => false,
            },
            None => r.len() == 0 && q.streaming_messages == p.streaming_messages,
        },
        None => r.len() == 0 && q.streaming_messages == p.streaming_messages,
    }
}

impl ClaudeLogProcessor {
    /// Where the streaming message `id` stands in the list of streaming messages.
    fn streaming_position(&self, id: &String) -> (r: Option<usize>)
        ensures
            r matches Some(i) ==> crate::assoc::last_at(self.streaming_messages@, id@, i as int)
                && lookup(self.streaming_messages@, id@) == Some(self.streaming_messages@[i as int].1),
            r is None ==> lookup(self.streaming_messages@, id@) is None,
    {
        find_last(&self.streaming_messages, id.as_str())
    }

    /// The patches for a streaming event.
    pub fn stream_event_patches(
        &mut self,
        event: &ClaudeStreamEvent,
        worktree_path: &str,
        entry_index_provider: &mut EntryIndexProvider,
    ) -> (r: Vec<ConversationPatch>)
        requires
            old(self).wf(old(entry_index_provider).view_index()),
            old(entry_index_provider).has_room(1),
        ensures
            final(self).wf(final(entry_index_provider).view_index()),
            final(self).strategy == old(self).strategy,
            final(self).tool_map == old(self).tool_map,
            !(event is MessageStart) ==> final(self).model_name == old(self).model_name,
            indexed(r@, old(entry_index_provider).view_index() as int, final(entry_index_provider).view_index() as int),
            *event matches ClaudeStreamEvent::ContentBlockDelta { index, delta } ==> delta_event_ok(
                *old(self),
                *final(self),
                index,
                delta,
                r@,
            ),
            !(event is MessageStart || event is ContentBlockDelta) ==> r@.len() == 0,
            *event matches ClaudeStreamEvent::MessageStart { message } ==> message_start_ok(
                *old(self),
                *final(self),
                message,
                old(entry_index_provider).view_index(),
                r@,
            ),
            *event matches ClaudeStreamEvent::ContentBlockStart { index, content_block } ==> block_start_ok(
                *old(self),
                *final(self),
                index,
                content_block,
            ),
            event is MessageStop ==> message_stop_ok(*old(self), *final(self)),
            settles_below(r@, old(entry_index_provider).view_index() as int),
            !(event is MessageStart || event is MessageStop) ==> final(self).streaming_message_id
                == old(self).streaming_message_id,
            (event is ContentBlockStop || event is MessageDelta || event is Unknown) ==> final(self).streaming_messages
                == old(self).streaming_messages,
    {
        let ghost lo = entry_index_provider.view_index();
        let mut patches: Vec<ConversationPatch> = Vec::new();
        match event {
            ClaudeStreamEvent::MessageStart { message } => {
                if same_text(message.role.as_str(), "assistant") {
                    if let Some(p) = self.extract_model_name(message, entry_index_provider) {
                        proof {
                            lemma_one_add(lo as int, p);
                            assert(Seq::<ConversationPatch>::empty().push(p) =~= seq![p]);
                        }
                        patches.push(p);
                    }
                    proof {
                        self.lemma_wf_grow(lo, entry_index_provider.view_index());
                    }
                    let key = match &message.id {
                        Some(message_id) => message_id.clone(),
                        None => String::new(),
                    };
                    let state = StreamingMessageState::new(message.role.clone());
                    let ghost before = self.streaming_messages@;
                    put(&mut self.streaming_messages, key.clone(), state);
                    assert forall|i: int| 0 <= i < self.streaming_messages@.len() implies (#[trigger] self.streaming_messages@[i]).1.indices_below(entry_index_provider.view_index()) by {
                        if self.streaming_messages@[i].1 != state {
                            let q = choose|q: int| 0 <= q < before.len() && self.streaming_messages@[i] == before[q];
                            assert(before[q].1.indices_below(entry_index_provider.view_index()));
                        }
                    }
                    self.streaming_message_id = Some(key);
                } else {
                    self.streaming_message_id = None;
                }
            },
            ClaudeStreamEvent::ContentBlockStart { index, content_block } => {
                let block = match content_block {
                    ClaudeContentItem::Text { text } => Some(ClaudeContentItem::Text { text: text.clone() }),
                    ClaudeContentItem::Thinking { thinking } => Some(ClaudeContentItem::Thinking { thinking: thinking.clone() }),
                    _ => None,
                };
                if let Some(block) = block {
                    if let Some(id) = &self.streaming_message_id {
                        if let Some(pos) = self.streaming_position(id) {
                            let ghost before = self.streaming_messages@;
                            let (key, mut state) = self.streaming_messages.remove(pos);
                            assert(state == before[pos as int].1);
                            let ghost st = state;
                            state.content_block_start(*index, block);
                            self.streaming_messages.insert(pos, (key, state));
                            proof {
                                assert(self.streaming_messages@ =~= before.update(pos as int, (self.streaming_messages@[pos as int].0, state)));
                                assert(self.streaming_messages@[pos as int].0 == before[pos as int].0);
                                crate::assoc::lemma_lookup_update(before, id@, pos as int, self.streaming_messages@[pos as int].0, state);
                                assert forall|i: int| 0 <= i < self.streaming_messages@.len() implies (#[trigger] self.streaming_messages@[i]).1.indices_below(lo) by {
                                    if i != pos {
                                        assert(self.streaming_messages@[i] == before[i]);
                                    }
                                }
                                assert forall|a: int, b: int| 0 <= a < b < self.streaming_messages@.len() implies (#[trigger] self.streaming_messages@[a]).0@
                                    != (#[trigger] self.streaming_messages@[b]).0@ by {
                                    assert(self.streaming_messages@[a].0@ == before[a].0@);
                                    assert(self.streaming_messages@[b].0@ == before[b].0@);
                                }
                                assert(lookup(before, id@) == Some(st));
                            }
                        }
                    }
                }
            },
            ClaudeStreamEvent::ContentBlockDelta { index, delta } => {
                if let Some(id) = &self.streaming_message_id {
                    if let Some(pos) = self.streaming_position(id) {
                        let ghost before = self.streaming_messages@;
                        let (key, mut state) = self.streaming_messages.remove(pos);
                        assert(state == before[pos as int].1);
                        assert(state.indices_below(lo));
                        let ghost st = state;
                        let p = state.apply_content_block_delta(*index, delta, worktree_path, entry_index_provider);
                        self.streaming_messages.insert(pos, (key, state));
                        proof {
                            assert(self.streaming_messages@ =~= before.update(pos as int, (self.streaming_messages@[pos as int].0, state)));
                            assert(self.streaming_messages@[pos as int].0 == before[pos as int].0);
                            crate::assoc::lemma_lookup_update(before, id@, pos as int, self.streaming_messages@[pos as int].0, state);
                            assert forall|i: int| 0 <= i < self.streaming_messages@.len() implies (#[trigger] self.streaming_messages@[i]).1.indices_below(entry_index_provider.view_index()) by {
                                if i != pos {
                                    assert(self.streaming_messages@[i] == before[i]);
                                    let s2 = before[i].1;
                                    assert(s2.indices_below(lo));
                                    assert forall|q: int| 0 <= q < s2.contents@.len() implies ((#[trigger] s2.contents@[q]).1.entry_index matches Some(x) ==> x < entry_index_provider.view_index()) by {}
                                }
                            }
                            assert forall|a: int, b: int| 0 <= a < b < self.streaming_messages@.len() implies (#[trigger] self.streaming_messages@[a]).0@
                                != (#[trigger] self.streaming_messages@[b]).0@ by {
                                assert(self.streaming_messages@[a].0@ == before[a].0@);
                                assert(self.streaming_messages@[b].0@ == before[b].0@);
                            }
                            assert forall|i: int| 0 <= i < self.tool_map@.len() implies (#[trigger] self.tool_map@[i]).1.entry_index < entry_index_provider.view_index() by {}
                        }
                        let ghost pv = p;
                        if let Some(p) = p {
                            patches.push(p);
                            assert(patches@ =~= seq![p]);
                        }
                        proof {
                            assert(lookup(self.streaming_messages@, id@) == Some(state));
                            assert(lookup(before, id@) == Some(st));
                            if st.block(*index) is Some {
                                crate::assoc::lemma_lookup_n_in(st.contents@, *index);
                                let q = choose|q: int| 0 <= q < st.contents@.len() && st.contents@[q].1 == st.block(*index)->0;
                                assert(st.contents@[q].1.entry_index matches Some(x) ==> x < lo);
                            }
                            assert(patches@ == (match pv {
                                Some(p) => seq![p],
                                None => Seq::<ConversationPatch>::empty(),
                            }));
                            assert(delta_ok(st, state, *index, *delta, patches@));
                        }
                    }
                }
            },
            ClaudeStreamEvent::MessageStop => {
                if let Some(message_id) = &self.streaming_message_id {
                    let ghost before = self.streaming_messages@;
                    let _ = take(&mut self.streaming_messages, message_id.as_str());
                    assert forall|i: int| 0 <= i < self.streaming_messages@.len() implies (#[trigger] self.streaming_messages@[i]).1.indices_below(lo) by {
                        let q = choose|q: int| 0 <= q < before.len() && self.streaming_messages@[i] == before[q];
                        assert(before[q].1.indices_below(lo));
                    }
                }
                self.streaming_message_id = None;
            },
            _ => {},
        }
        patches
    }
}

/// What a `content_block_start` does: the current message's block `index` starts as the
/// announced text or thinking block, with no entry yet; its other blocks and the other
/// messages stay as they were. Other blocks, and a start without a current message, change
/// nothing.
pub open spec fn block_start_ok(p: ClaudeLogProcessor, q: ClaudeLogProcessor, index: usize, block: ClaudeContentItem) -> bool {
    &&& q.streaming_message_id == p.streaming_message_id
    &&& match p.streaming_message_id {
        Some(id) => match lookup(p.streaming_messages@, id@) {
            Some(st) => if block is Text || block is Thinking {
                &&& lookup(q.streaming_messages@, id@) matches Some(st2)
                &&& st2.role == st.role
                &&& block_started(st, st2, index, block)
                &&& forall|k: Seq<char>| k != id@ ==> #[trigger] lookup(q.streaming_messages@, k) == lookup(p.streaming_messages@, k)
            } else {
                q.streaming_messages == p.streaming_messages
            },
            None => q.streaming_messages == p.streaming_messages,
        },
        None => q.streaming_messages == p.streaming_messages,
    }
}

/// Block `index` of `st2` is the block `block` just started, and the other blocks are those of
/// `st`.
pub open spec fn block_started(st: StreamingMessageState, st2: StreamingMessageState, index: usize, block: ClaudeContentItem) -> bool {
    &&& forall|k: usize| k != index ==> #[trigger] st2.block(k) == st.block(k)
    &&& st2.block(index) matches Some(b)
    &&& b.entry_index is None
    &&& match block {
        ClaudeContentItem::Text { text } => b.kind == crate::streaming::StreamingContentKind::Text && b.buffer@ == text@,
        ClaudeContentItem::Thinking { thinking } => b.kind == crate::streaming::StreamingContentKind::Thinking
            && b.buffer@ == thinking@,
        _ => false,
    }
}

/// What a `message_stop` does: no message is current any more, and the one that was is
/// forgotten.
pub open spec fn message_stop_ok(p: ClaudeLogProcessor, q: ClaudeLogProcessor) -> bool {
    &&& q.streaming_message_id is None
    &&& p.streaming_message_id matches Some(id) ==> lookup(q.streaming_messages@, id@) is None
}

} // verus!

verus! {

/// `r` are the patches for an assistant message, taking the processor from `p` to `q`, with
/// `lo` indices handed out before.
pub open spec fn assistant_ok(
    p: ClaudeLogProcessor,
    q: ClaudeLogProcessor,
    message: ClaudeMessage,
    w: Seq<char>,
    lo: nat,
    r: Seq<ConversationPatch>,
) -> bool {
    assistant_body(p, q, message, w, lo, r, if p.model_name is None && message.model is Some { 1 } else { 0 })
}

/// `assistant_ok`, where `off` patches announce the model before the entries.
pub open spec fn assistant_body(
    p: ClaudeLogProcessor,
    q: ClaudeLogProcessor,
    message: ClaudeMessage,
    w: Seq<char>,
    lo: nat,
    r: Seq<ConversationPatch>,
    off: int,
) -> bool {
    let prods = producing(message.content@, message.role@);
    &&& q.model_name == (if off == 1 { message.model } else { p.model_name })
    &&& !(message.id matches Some(i) && lookup(p.streaming_messages@, i@) is Some) ==> forall|j: int|
        0 <= j < prods.len() ==> (#[trigger] r[off + j]) is Add
    &&& r.len() == off + prods.len()
    &&& off == 1 ==> adds(r[0], lo, "System initialized with model: "@ + message.model->0@)
        && patch_entry(r[0])->0.entry_type is SystemMessage
    &&& forall|j: int| 0 <= j < prods.len() ==> entry_for(#[trigger] prods[j], message.role@, w, patch_entry(r[off + j]))
    &&& forall|j: int| 0 <= j < prods.len() ==> #[trigger] registered(q.tool_map@, prods, j, r[off + j])
    &&& forall|x: Seq<char>| (forall|j: int| 0 <= j < prods.len() ==> #[trigger] tool_id(prods[j]) != Some(x))
        ==> #[trigger] lookup(q.tool_map@, x) == lookup(p.tool_map@, x)
}

/// `r` are the patches for a `system` record, with `lo` indices handed out before.
pub open spec fn system_ok(agent: Seq<char>, api_key_source: Option<String>, subtype: Option<String>, lo: nat, r: Seq<ConversationPatch>) -> bool {
    let w: int = if api_key_source matches Some(s) && s@ == "ANTHROPIC_API_KEY"@ { 1 } else { 0 };
    let s: int = if subtype matches Some(t) && t@ == "init"@ { 0 } else { 1 };
    &&& r.len() == w + s
    &&& w == 1 ==> adds(r[0], lo, unmanaged_key_warning(agent)) && patch_entry(r[0])->0.entry_type is ErrorMessage
    &&& s == 1 ==> adds(r[w], (lo + w) as nat, match subtype {
        Some(t) => "System: "@ + t@,
        None => "System message"@,
    }) && patch_entry(r[w])->0.entry_type is SystemMessage
}

/// The one case in which a record does not extend the conversation's numbering: with Amp's
/// history format, a user message with text starts the conversation over.
pub open spec fn restarts(strategy: HistoryStrategy, j: ClaudeJson) -> bool {
    strategy == HistoryStrategy::AmpResume && (j matches ClaudeJson::User { message, .. } && has_text(message.content@))
}

/// A record left the tool calls on record and the announced model as they were.
pub open spec fn unchanged_calls(p: ClaudeLogProcessor, q: ClaudeLogProcessor) -> bool {
    q.tool_map == p.tool_map && q.model_name == p.model_name
}

/// `r` are the patches for the record `j`, taking the processor from `p` to `q` and the index
/// provider from `lo` to `hi`.
pub open spec fn record_ok(
    p: ClaudeLogProcessor,
    q: ClaudeLogProcessor,
    j: ClaudeJson,
    w: Seq<char>,
    lo: nat,
    hi: nat,
    r: Seq<ConversationPatch>,
) -> bool {
    match j {
        ClaudeJson::System { subtype, api_key_source, .. } => system_ok(p.agent_name@, api_key_source, subtype, lo, r)
            && unchanged_calls(p, q),
        ClaudeJson::Assistant { message, .. } => assistant_ok(p, q, message, w, lo, r),
        ClaudeJson::User { message, .. } => user_ok(p.strategy, p.tool_map@, lo, message.content@, q.tool_map@, hi, r),
        ClaudeJson::ToolUse { tool_data, .. } => r.len() == 1 && (r[0] matches ConversationPatch::Add { index, entry }
            && index == lo && tool_entry_ok(entry, tool_data, w)) && unchanged_calls(p, q),
        ClaudeJson::ToolResult { .. } => r.len() == 0 && unchanged_calls(p, q),
        ClaudeJson::StreamEvent { event, .. } => (event matches ClaudeStreamEvent::ContentBlockDelta { index, delta }
            ==> delta_event_ok(p, q, index, delta, r)) && (!(event is MessageStart || event is ContentBlockDelta) ==> r.len() == 0)
            && (event matches ClaudeStreamEvent::MessageStart { message } ==> message_start_ok(p, q, message, lo, r))
            && (event matches ClaudeStreamEvent::ContentBlockStart { index, content_block } ==> block_start_ok(p, q, index, content_block))
            && (event is MessageStop ==> message_stop_ok(p, q))
            && (!(event is MessageStart || event is MessageStop) ==> q.streaming_message_id == p.streaming_message_id)
            && q.tool_map == p.tool_map && (!(event is MessageStart) ==> q.model_name == p.model_name),
        ClaudeJson::Result { is_error, raw, .. } => (if p.strategy == HistoryStrategy::AmpResume && is_error == Some(true) {
            r.len() == 1 && adds(r[0], lo, raw@) && patch_entry(r[0])->0.entry_type is ErrorMessage
        } else {
            r.len() == 0
        }) && unchanged_calls(p, q),
        ClaudeJson::Unknown { data } => r.len() == 1 && adds(r[0], lo, "Unrecognized JSON message: "@ + data@)
            && patch_entry(r[0])->0.entry_type is SystemMessage && unchanged_calls(p, q),
    }
}

impl ClaudeLogProcessor {
    /// Converts one record of the agent to conversation patches.
    pub fn normalize_entries(
        &mut self,
        claude_json: &ClaudeJson,
        worktree_path: &str,
        entry_index_provider: &mut EntryIndexProvider,
    ) -> (r: Vec<ConversationPatch>)
        requires
            old(self).wf(old(entry_index_provider).view_index()),
            old(entry_index_provider).has_room(room_needed(*claude_json)),
        ensures
            final(self).wf(final(entry_index_provider).view_index()),
            final(self).strategy == old(self).strategy,
            !restarts(old(self).strategy, *claude_json) ==> indexed(
                r@,
                old(entry_index_provider).view_index() as int,
                final(entry_index_provider).view_index() as int,
            ),
            !restarts(old(self).strategy, *claude_json) ==> settles_below(r@, old(entry_index_provider).view_index() as int),
            record_ok(
                *old(self),
                *final(self),
                *claude_json,
                worktree_path@,
                old(entry_index_provider).view_index(),
                final(entry_index_provider).view_index(),
                r@,
            ),
    {
        let ghost lo = entry_index_provider.view_index();
        match claude_json {
            ClaudeJson::System { subtype, api_key_source, .. } => {
                let r = system_patches(&self.agent_name, api_key_source, subtype, entry_index_provider);
                proof {
                    self.lemma_wf_grow(lo, entry_index_provider.view_index());
                }
                r
            },
            ClaudeJson::Assistant { message, .. } => self.assistant_patches(message, worktree_path, entry_index_provider),
            ClaudeJson::User { message, .. } => {
                let r = self.user_patches(message, entry_index_provider);
                proof {
                    assert(r@.subrange(0, r@.len() as int) =~= r@);
                }
                r
            },
            ClaudeJson::ToolUse { tool_data, .. } => {
                let r = tool_use_patches(tool_data, worktree_path, entry_index_provider);
                proof {
                    self.lemma_wf_grow(lo, entry_index_provider.view_index());
                }
                r
            },
            ClaudeJson::ToolResult { .. } => Vec::new(),
            ClaudeJson::StreamEvent { event, .. } => self.stream_event_patches(event, worktree_path, entry_index_provider),
            ClaudeJson::Result { is_error, raw, .. } => {
                let r = self.result_patches(*is_error, raw, entry_index_provider);
                proof {
                    crate::entry::lemma_indexed_bounds(r@, lo as int, entry_index_provider.view_index() as int);
                    self.lemma_wf_grow(lo, entry_index_provider.view_index());
                }
                r
            },
            ClaudeJson::Unknown { data } => {
                let r = unknown_patches(data, entry_index_provider);
                proof {
                    self.lemma_wf_grow(lo, entry_index_provider.view_index());
                }
                r
            },
        }
    }

    /// Handles one parsed record of the output: announces the run's session id the first time
    /// one appears, and converts the record.
    pub fn handle_record(
        &mut self,
        claude_json: &ClaudeJson,
        session: &mut SessionIdSlot,
        worktree_path: &str,
        entry_index_provider: &mut EntryIndexProvider,
    ) -> (r: (Option<String>, Vec<ConversationPatch>))
        requires
            old(self).wf(old(entry_index_provider).view_index()),
            old(entry_index_provider).has_room(room_needed(*claude_json)),
        ensures
            opt_view(r.0) == announce(old(session).emitted, opt_view(crate::claude::session_of(*claude_json))),
            final(session).emitted == (old(session).emitted || crate::claude::session_of(*claude_json) is Some),
            final(self).wf(final(entry_index_provider).view_index()),
            final(self).strategy == old(self).strategy,
            !restarts(old(self).strategy, *claude_json) ==> indexed(
                r.1@,
                old(entry_index_provider).view_index() as int,
                final(entry_index_provider).view_index() as int,
            ),
            !restarts(old(self).strategy, *claude_json) ==> settles_below(r.1@, old(entry_index_provider).view_index() as int),
            record_ok(
                *old(self),
                *final(self),
                *claude_json,
                worktree_path@,
                old(entry_index_provider).view_index(),
                final(entry_index_provider).view_index(),
                r.1@,
            ),
    {
        let announced = session.offer(claude_json.extract_session_id());
        let patches = self.normalize_entries(claude_json, worktree_path, entry_index_provider);
        (announced, patches)
    }
}

/// The message by which the code router of the agent whose command is `command` says that it
/// has stopped.
pub open spec fn router_stopped(command: Seq<char>) -> Seq<char> {
    command + " code router service has been successfully stopped"@
}

/// The line to read, trimmed; nothing for a blank line or a service message of the code router
/// that the agent (whose command is `command`) may run behind: one that starts the service, or
/// one that says it has stopped.
pub open spec fn line_kept(line: Seq<char>, command: Seq<char>) -> bool {
    let t = trimmed(line);
    &&& t.len() > 0
    &&& !crate::text::has_prefix(t, "Service not running, starting service"@)
    &&& !(exists|k: int| crate::text::occurs_at(t, router_stopped(command), k))
}

pub fn line_to_process(line: &str, agent_command: &str) -> (r: Option<String>)
    ensures
        r is Some <==> line_kept(line@, agent_command@),
        r matches Some(t) ==> t@ == trimmed(line@),
{
    let t = trim(line);
    if t.as_str().unicode_len() == 0 {
        return None;
    }
    let mut stopped = String::from_str(agent_command);
    stopped.append(" code router service has been successfully stopped");
    assert(stopped@ == router_stopped(agent_command@));
    if starts_with(t.as_str(), "Service not running, starting service") || contains(t.as_str(), stopped.as_str()) {
        return None;
    }
    Some(t)
}

/// The patch for output that is not a record: the text as a system message.
pub fn text_line_patches(text: &str, entry_index_provider: &mut EntryIndexProvider) -> (r: Vec<ConversationPatch>)
    requires
        old(entry_index_provider).has_room(1),
    ensures
        r@.len() == 1,
        adds(r@[0], old(entry_index_provider).view_index(), text@),
        patch_entry(r@[0])->0.entry_type is SystemMessage,
        indexed(r@, old(entry_index_provider).view_index() as int, final(entry_index_provider).view_index() as int),
{
    let ghost lo = entry_index_provider.view_index() as int;
    let mut patches: Vec<ConversationPatch> = Vec::new();
    add_entry(
        &mut patches,
        NormalizedEntry { entry_type: NormalizedEntryType::SystemMessage, content: String::from_str(text) },
        entry_index_provider,
        Ghost(lo),
    );
    patches
}

} // verus!

verus! {

pub open spec fn tool_data_of(item: ClaudeContentItem) -> ClaudeToolData {
    match item {
        ClaudeContentItem::ToolUse { tool_data, .. } => tool_data,
        _ => arbitrary(),
    }
}

/// A user's denial shown as feedback.
pub open spec fn is_feedback(p: ConversationPatch) -> bool {
    p matches ConversationPatch::Add { entry, .. } && entry.entry_type is UserFeedback
}

/// Tool-call round trip: when an assistant message calls a tool with id `x` (its last call with
/// that id), and a result for `x` then arrives while the record of calls is the one the message
/// left, the result replaces the entry of the call, at the index that showed it, with a final
/// status and the translated result (the output of a command, the value of an opaque tool; a
/// tool whose result is not shown keeps its action).
pub proof fn lemma_tool_round_trip(
    p: ClaudeLogProcessor,
    q: ClaudeLogProcessor,
    message: ClaudeMessage,
    w: Seq<char>,
    lo: nat,
    r: Seq<ConversationPatch>,
    j: int,
    x: Seq<char>,
    content: ToolResultContent,
    is_error: Option<bool>,
    ps: Seq<ConversationPatch>,
)
    requires
        assistant_ok(p, q, message, w, lo, r),
        0 <= j < producing(message.content@, message.role@).len(),
        tool_id(producing(message.content@, message.role@)[j]) == Some(x),
        last_use(producing(message.content@, message.role@), j, x),
        result_block_ok(q.tool_map@, x, content, is_error, ps),
    ensures
        ({
            let off: int = if p.model_name is None && message.model is Some { 1 } else { 0 };
            let t = tool_data_of(producing(message.content@, message.role@)[j]);
            &&& ps.len() >= 1
            &&& ps[0] matches ConversationPatch::Replace { index, entry }
            &&& index == r[off + j].index_of()
            &&& entry.content@ == patch_entry(r[off + j])->0.content@
            &&& entry.entry_type matches NormalizedEntryType::ToolUse { status, action_type, .. }
            &&& status == (if is_error == Some(true) { ToolStatus::Failed } else { ToolStatus::Success })
            &&& family_of(t) == ToolFamily::Command ==> (action_type matches ActionType::CommandRun { result, .. }
                && result matches Some(res) && command_result_ok(res, content, is_error))
            &&& family_of(t) == ToolFamily::Opaque ==> (action_type matches ActionType::Tool { result, .. }
                && result matches Some(tr) && (tr.value_type, tr.value@) == result_value(content))
            &&& family_of(t) == ToolFamily::Plain ==> same_action(action_type, lookup(q.tool_map@, x)->0.action)
        }),
{
    let prods = producing(message.content@, message.role@);
    let off: int = if p.model_name is None && message.model is Some { 1 } else { 0 };
    assert(registered(q.tool_map@, prods, j, r[off + j]));
    let info = lookup(q.tool_map@, x)->0;
    assert(info.family == family_of(tool_data_of(prods[j])));
}

/// Denial feedback routing: a failed tool result whose text carries the feedback marker
/// followed by a reason `reason` gives exactly one feedback entry, with that reason, right after
/// the final state of the call's entry.
pub proof fn lemma_denial_feedback(
    m: Seq<(String, ClaudeToolCallInfo)>,
    x: Seq<char>,
    content: ToolResultContent,
    ps: Seq<ConversationPatch>,
    reason: Seq<char>,
)
    requires
        lookup(m, x) is Some,
        result_block_ok(m, x, content, Some(true), ps),
        denial_of(denial_text(content)) == Some(reason),
    ensures
        ps.len() == 2,
        ps[0] matches ConversationPatch::Replace { index, .. } && index == lookup(m, x)->0.entry_index,
        !is_feedback(ps[0]),
        is_feedback(ps[1]),
        patch_entry(ps[1])->0.content@ == reason,
{
}

} // verus!

verus! {

/// The number of indices that a record can hand out at most, when it fits in a `usize`.
pub fn room_needed_for(claude_json: &ClaudeJson) -> (r: Option<usize>)
    ensures
        r matches Some(n) ==> n == room_needed(*claude_json),
        r is None ==> room_needed(*claude_json) > usize::MAX,
{
    let n = match claude_json {
        ClaudeJson::Assistant { message, .. } => message.content.len(),
        ClaudeJson::User { message, .. } => message.content.len(),
        _ => {
            return Some(2);
        },
    };
    if n > (usize::MAX - 2) / 2 {
        None
    } else {
        Some(2 * n + 2)
    }
}

} // verus!
