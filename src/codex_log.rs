//! The Codex-family normalizer: a state machine from Codex events to conversation patches.
use vstd::prelude::*;
use vstd::string::*;
use crate::assoc::{lookup, put, take, unique_keys};
use crate::codex::{CodexEvent, CodexFileChange, CommandState, ExecOutputStream, McpCallOutcome, McpContentBlock, McpInvocation, McpToolState, PatchEntry, PlanItem, WebSearchState, command_entry_ok, command_text, format_todo_status, model_params_entry, model_params_text, normalize_file_changes, ov, web_search_entry_ok};
use crate::entry::{ActionType, ConversationPatch, NormalizedEntry, NormalizedEntryType, TodoItem, ToolResult, ToolResultValueType, ToolStatus, indexed, lemma_indexed_push};
use crate::index::EntryIndexProvider;
use crate::path::{make_path_relative, rel_path};
use crate::codex::file_changes_ok;
use crate::session::{SessionIdSlot, announce, opt_view};
use crate::text::{backticked, trim, trimmed};
use crate::tool_result::{join_strings, join_with, views};

verus! {

/// The text of a streaming assistant or reasoning message, and its entry.
pub struct StreamingText {
    pub index: usize,
    pub content: String,
}

/// The files of one patch call.
pub struct PatchState {
    pub entries: Vec<PatchEntry>,
}

pub open spec fn below(o: Option<usize>, n: nat) -> bool {
    o matches Some(x) ==> x < n
}

/// The state of a Codex run's normalizer.
pub struct CodexLogState {
    pub assistant: Option<StreamingText>,
    pub thinking: Option<StreamingText>,
    pub commands: Vec<(String, CommandState)>,
    pub mcp_tools: Vec<(String, McpToolState)>,
    pub patches: Vec<(String, PatchState)>,
    pub web_searches: Vec<(String, WebSearchState)>,
    pub token_usage_info: Option<String>,
    pub session: SessionIdSlot,
}

fn emit_add(
    patches: &mut Vec<ConversationPatch>,
    entry: NormalizedEntry,
    entry_index_provider: &mut EntryIndexProvider,
    Ghost(lo): Ghost<int>,
) -> (idx: usize)
    requires
        old(entry_index_provider).has_room(1),
        indexed(old(patches)@, lo, old(entry_index_provider).view_index() as int),
    ensures
        idx == old(entry_index_provider).view_index(),
        final(patches)@ == old(patches)@.push(ConversationPatch::Add { index: idx, entry }),
        final(entry_index_provider).view_index() == old(entry_index_provider).view_index() + 1,
        indexed(final(patches)@, lo, final(entry_index_provider).view_index() as int),
{
    let idx = entry_index_provider.next();
    let p = ConversationPatch::Add { index: idx, entry };
    proof {
        lemma_indexed_push(patches@, lo, idx as int, p);
    }
    patches.push(p);
    idx
}

fn emit_replace(
    patches: &mut Vec<ConversationPatch>,
    idx: usize,
    entry: NormalizedEntry,
    Ghost(lo): Ghost<int>,
    Ghost(hi): Ghost<int>,
)
    requires
        idx < hi,
        indexed(old(patches)@, lo, hi),
    ensures
        final(patches)@ == old(patches)@.push(ConversationPatch::Replace { index: idx, entry }),
        indexed(final(patches)@, lo, hi),
{
    let p = ConversationPatch::Replace { index: idx, entry };
    proof {
        lemma_indexed_push(patches@, lo, hi, p);
    }
    patches.push(p);
}

fn emit_remove(patches: &mut Vec<ConversationPatch>, idx: usize, Ghost(lo): Ghost<int>, Ghost(hi): Ghost<int>)
    requires
        idx < hi,
        indexed(old(patches)@, lo, hi),
    ensures
        final(patches)@ == old(patches)@.push(ConversationPatch::Remove { index: idx }),
        indexed(final(patches)@, lo, hi),
{
    let p = ConversationPatch::Remove { index: idx };
    proof {
        lemma_indexed_push(patches@, lo, hi, p);
    }
    patches.push(p);
}

/// A command's words with single spaces between them.
pub fn join_command(words: &Vec<String>) -> (r: String)
    ensures
        r@ == command_text(words@),
{
    join_strings(words, " ")
}

pub open spec fn patch_state_below(p: PatchState, n: nat) -> bool {
    forall|j: int| 0 <= j < p.entries@.len() ==> below((#[trigger] p.entries@[j]).index, n)
}

/// The text that streaming gives after `delta` arrives, when the stream held `t`.
pub open spec fn appended(t: Option<StreamingText>, delta: Seq<char>) -> Seq<char> {
    match t {
        Some(s) => s.content@ + delta,
        None => delta,
    }
}

impl CodexLogState {
    /// Every entry index that the state holds is below `n`.
    pub open spec fn wf(&self, n: nat) -> bool {
        &&& self.assistant matches Some(t) ==> t.index < n
        &&& self.thinking matches Some(t) ==> t.index < n
        &&& forall|i: int| 0 <= i < self.commands@.len() ==> below((#[trigger] self.commands@[i]).1.index, n)
        &&& forall|i: int| 0 <= i < self.mcp_tools@.len() ==> below((#[trigger] self.mcp_tools@[i]).1.index, n)
        &&& forall|i: int| 0 <= i < self.web_searches@.len() ==> below((#[trigger] self.web_searches@[i]).1.index, n)
        &&& forall|i: int| 0 <= i < self.patches@.len() ==> patch_state_below((#[trigger] self.patches@[i]).1, n)
        &&& unique_keys(self.commands@)
        &&& unique_keys(self.mcp_tools@)
        &&& unique_keys(self.web_searches@)
        &&& unique_keys(self.patches@)
    }

    pub proof fn lemma_wf_grow(&self, n: nat, m: nat)
        requires
            self.wf(n),
            n <= m,
        ensures
            self.wf(m),
    {
        assert forall|i: int| 0 <= i < self.patches@.len() implies patch_state_below((#[trigger] self.patches@[i]).1, m) by {
            let p = self.patches@[i].1;
            assert(patch_state_below(p, n));
            assert forall|j: int| 0 <= j < p.entries@.len() implies below((#[trigger] p.entries@[j]).index, m) by {}
        }
    }

    pub fn new() -> (r: CodexLogState)
        ensures
            r.wf(0),
            !r.session.emitted,
            r.assistant is None,
            r.thinking is None,
            r.commands@.len() == 0,
            r.mcp_tools@.len() == 0,
            r.patches@.len() == 0,
            r.web_searches@.len() == 0,
            r.token_usage_info is None,
    {
        CodexLogState {
            assistant: None,
            thinking: None,
            commands: Vec::new(),
            mcp_tools: Vec::new(),
            patches: Vec::new(),
            web_searches: Vec::new(),
            token_usage_info: None,
            session: SessionIdSlot::new(),
        }
    }

    /// Appends to (or, with `set`, replaces) the streaming assistant text, or the reasoning text
    /// when `thinking`; gives the patch that shows it.
    pub fn streaming_text_update(
        &mut self,
        content: &String,
        thinking: bool,
        set: bool,
        patches: &mut Vec<ConversationPatch>,
        entry_index_provider: &mut EntryIndexProvider,
        Ghost(lo): Ghost<int>,
    )
        requires
            old(self).wf(old(entry_index_provider).view_index()),
            old(entry_index_provider).has_room(1),
            indexed(old(patches)@, lo, old(entry_index_provider).view_index() as int),
        ensures
            final(self).wf(final(entry_index_provider).view_index()),
            indexed(final(patches)@, lo, final(entry_index_provider).view_index() as int),
            final(patches)@.len() == old(patches)@.len() + 1,
            final(patches)@.subrange(0, old(patches)@.len() as int) == old(patches)@,
            ({
                let t = if thinking { old(self).thinking } else { old(self).assistant };
                let p = final(patches)@.last();
                let text = if set || t is None { content@ } else { appended(t, content@) };
                &&& p matches ConversationPatch::Add { index, entry } ==> t is None && entry.content@ == text
                    && index == old(entry_index_provider).view_index()
                &&& p matches ConversationPatch::Replace { index, entry } ==> t matches Some(s) && index == s.index
                    && entry.content@ == text
                &&& !(p is Remove)
                &&& thinking ==> patch_type(p) is Thinking
                &&& !thinking ==> patch_type(p) is AssistantMessage
                &&& thinking ==> (final(self).thinking matches Some(s) && s.content@ == text && s.index == p.index_of())
                    && final(self).assistant == old(self).assistant
                &&& !thinking ==> (final(self).assistant matches Some(s) && s.content@ == text && s.index == p.index_of())
                    && final(self).thinking == old(self).thinking
            }),
            final(self).commands == old(self).commands,
            final(self).mcp_tools == old(self).mcp_tools,
            final(self).patches == old(self).patches,
            final(self).web_searches == old(self).web_searches,
            final(self).session == old(self).session,
    {
        let hi0 = entry_index_provider.current();
        let current = if thinking { &self.thinking } else { &self.assistant };
        let (text, index, is_new) = match current {
            Some(t) => {
                let text = if set {
                    content.clone()
                } else {
                    let mut c = t.content.clone();
                    c.append(content.as_str());
                    c
                };
                (text, t.index, false)
            },
            None => (content.clone(), entry_index_provider.next(), true),
        };
        let entry_type = if thinking {
            NormalizedEntryType::Thinking
        } else {
            NormalizedEntryType::AssistantMessage
        };
        let entry = NormalizedEntry { entry_type, content: text.clone() };
        let p = if is_new {
            ConversationPatch::Add { index, entry }
        } else {
            ConversationPatch::Replace { index, entry }
        };
        proof {
            lemma_indexed_push(patches@, lo, hi0 as int, p);
            self.lemma_wf_grow(hi0 as nat, entry_index_provider.view_index());
        }
        patches.push(p);
        assert(patches@.subrange(0, patches@.len() - 1) =~= old(patches)@);
        if thinking {
            self.thinking = Some(StreamingText { index, content: text });
        } else {
            self.assistant = Some(StreamingText { index, content: text });
        }
    }
}

/// The entry type of the entry that a patch shows.
pub open spec fn patch_type(p: ConversationPatch) -> NormalizedEntryType {
    match p {
        ConversationPatch::Add { entry, .. } => entry.entry_type,
        ConversationPatch::Replace { entry, .. } => entry.entry_type,
        ConversationPatch::Remove { .. } => NormalizedEntryType::SystemMessage,
    }
}

} // verus!

verus! {

/// The text shown for a command that asks for approval: its words, or else the reason given,
/// or else `command execution`.
pub open spec fn approval_command_text(command: Seq<String>, reason: Option<String>) -> Seq<char> {
    if command.len() > 0 {
        command_text(command)
    } else {
        match reason {
            Some(r) => if r@.len() > 0 { r@ } else { "command execution"@ },
            None => "command execution"@,
        }
    }
}

/// The command `c` on record, which was `o`, awaits approval, shown by `p`; a command that had
/// no text takes `text`.
pub open spec fn command_approval_ok(o: Option<CommandState>, c: Option<CommandState>, text: Seq<char>, p: ConversationPatch) -> bool {
    &&& c matches Some(c)
    &&& c.awaiting_approval
    &&& c.index == Some(p.index_of())
    &&& command_entry_ok(c, patch_entry_of(p))
    &&& c.command@ == (match o {
        Some(o) => if o.command@.len() > 0 { o.command@ } else { text },
        None => text,
    })
    &&& c.status == (match o {
        Some(o) => o.status,
        None => ToolStatus::Created,
    })
    &&& o is None ==> c.exit_code is None && c.formatted_output is None && c.stdout@.len() == 0 && c.stderr@.len() == 0
}

impl CodexLogState {
    /// A command asks for approval: its entry is shown (or updated) as awaiting the decision.
    pub fn exec_approval_request(
        &mut self,
        call_id: &String,
        command: &Vec<String>,
        reason: &Option<String>,
        patches: &mut Vec<ConversationPatch>,
        entry_index_provider: &mut EntryIndexProvider,
        Ghost(lo): Ghost<int>,
    )
        requires
            old(self).wf(old(entry_index_provider).view_index()),
            old(entry_index_provider).has_room(1),
            indexed(old(patches)@, lo, old(entry_index_provider).view_index() as int),
        ensures
            final(self).session == old(self).session,
            final(self).wf(final(entry_index_provider).view_index()),
            indexed(final(patches)@, lo, final(entry_index_provider).view_index() as int),
            final(patches)@.len() == old(patches)@.len() + 1,
            final(patches)@.subrange(0, old(patches)@.len() as int) == old(patches)@,
            command_approval_ok(
                lookup(old(self).commands@, call_id@),
                lookup(final(self).commands@, call_id@),
                approval_command_text(command@, *reason),
                final(patches)@.last(),
            ),
            final(patches)@.last() is Add <==> (match lookup(old(self).commands@, call_id@) {
                Some(o) => o.index is None,
                None => true,
            }),
            final(self).assistant is None,
            final(self).thinking is None,
    {
        let ghost hi = entry_index_provider.view_index();
        self.assistant = None;
        self.thinking = None;
        let text = if command.len() > 0 {
            join_command(command)
        } else {
            match reason {
                Some(r) => {
                    if r.as_str().unicode_len() > 0 {
                        r.clone()
                    } else {
                        String::from_str("command execution")
                    }
                },
                None => String::from_str("command execution"),
            }
        };
        let ghost before = self.commands@;
        let mut state = match take(&mut self.commands, call_id.as_str()) {
            Some(s) => s,
            None => CommandState {
                index: None,
                command: String::new(),
                stdout: String::new(),
                stderr: String::new(),
                formatted_output: None,
                status: ToolStatus::Created,
                exit_code: None,
                awaiting_approval: false,
                call_id: String::new(),
            },
        };
        proof {
            if lookup(before, call_id@) is Some {
                crate::assoc::lemma_lookup_in(before, call_id@);
            }
        }
        assert(below(state.index, hi));
        if state.command.as_str().unicode_len() == 0 {
            state.command = text;
        }
        state.awaiting_approval = true;
        let entry = state.to_normalized_entry();
        match state.index {
            Some(i) => {
                emit_replace(patches, i, entry, Ghost(lo), Ghost(hi as int));
            },
            None => {
                let i = emit_add(patches, entry, entry_index_provider, Ghost(lo));
                state.index = Some(i);
            },
        }
        assert(patches@.subrange(0, patches@.len() - 1) =~= old(patches)@);
        let ghost mid = self.commands@;
        proof {
            self.lemma_wf_grow(hi, entry_index_provider.view_index());
        }
        put(&mut self.commands, call_id.clone(), state);
        assert forall|i: int| 0 <= i < self.commands@.len() implies below((#[trigger] self.commands@[i]).1.index, entry_index_provider.view_index()) by {
            if self.commands@[i].1 != state {
                let j = choose|j: int| 0 <= j < mid.len() && self.commands@[i] == mid[j];
                assert(below(mid[j].1.index, entry_index_provider.view_index()));
            }
        }
    }
}

} // verus!

verus! {

/// The entry that a patch shows (an arbitrary one for a removal).
pub open spec fn patch_entry_of(p: ConversationPatch) -> NormalizedEntry {
    match p {
        ConversationPatch::Add { entry, .. } => entry,
        ConversationPatch::Replace { entry, .. } => entry,
        ConversationPatch::Remove { .. } => arbitrary(),
    }
}

} // verus!

verus! {

/// The command `c` on record has just begun with the words `command`, shown by `p`.
pub open spec fn command_begin_ok(c: Option<CommandState>, command: Seq<String>, p: ConversationPatch) -> bool {
    &&& c matches Some(c)
    &&& c.index == Some(p.index_of())
    &&& c.command@ == command_text(command)
    &&& c.status == ToolStatus::Created
    &&& c.exit_code is None
    &&& c.formatted_output is None
    &&& c.stdout@.len() == 0
    &&& c.stderr@.len() == 0
    &&& command_entry_ok(c, patch_entry_of(p))
}

/// The command `c` on record, which was `o`, has taken the chunk `chunk` of its `stream`,
/// shown by `p`.
pub open spec fn command_delta_ok(o: Option<CommandState>, c: Option<CommandState>, stream: ExecOutputStream, chunk: Seq<char>, p: ConversationPatch) -> bool {
    &&& c matches Some(c)
    &&& o matches Some(o)
    &&& c.stdout@ == (if stream == ExecOutputStream::Stdout { o.stdout@ + chunk } else { o.stdout@ })
    &&& c.stderr@ == (if stream == ExecOutputStream::Stderr { o.stderr@ + chunk } else { o.stderr@ })
    &&& o.index == c.index
    &&& c.command == o.command
    &&& c.status == o.status
    &&& c.formatted_output == o.formatted_output
    &&& c.exit_code == o.exit_code
    &&& c.awaiting_approval == o.awaiting_approval
    &&& c.index == Some(p.index_of())
    &&& p is Replace
    &&& command_entry_ok(c, patch_entry_of(p))
}

/// `p` shows the final state of the command `o`, which ended with `exit_code` and the output
/// `out`.
pub open spec fn command_end_ok(o: CommandState, exit_code: i32, out: Seq<char>, p: ConversationPatch) -> bool {
    &&& p matches ConversationPatch::Replace { index, entry }
    &&& Some(index) == o.index
    &&& entry.content@ == "`"@ + o.command@ + "`"@
    &&& entry.entry_type matches NormalizedEntryType::ToolUse { tool_name, status, action_type }
    &&& tool_name@ == "bash"@
    &&& status == (if exit_code == 0 { ToolStatus::Success } else { ToolStatus::Failed })
    &&& action_type matches ActionType::CommandRun { command, result }
    &&& command@ == o.command@
    &&& result matches Some(res)
    &&& res.exit_status == Some(crate::entry::CommandExitStatus::ExitCode { code: exit_code })
    &&& res.output matches Some(x)
    &&& x@ == out
}

impl CodexLogState {
    /// A command starts: its entry is added, unless its text is empty.
    pub fn exec_command_begin(
        &mut self,
        call_id: &String,
        command: &Vec<String>,
        patches: &mut Vec<ConversationPatch>,
        entry_index_provider: &mut EntryIndexProvider,
        Ghost(lo): Ghost<int>,
    )
        requires
            old(self).wf(old(entry_index_provider).view_index()),
            old(entry_index_provider).has_room(1),
            indexed(old(patches)@, lo, old(entry_index_provider).view_index() as int),
        ensures
            final(self).session == old(self).session,
            final(self).wf(final(entry_index_provider).view_index()),
            indexed(final(patches)@, lo, final(entry_index_provider).view_index() as int),
            command_text(command@).len() == 0 ==> final(patches)@ == old(patches)@,
            command_text(command@).len() > 0 ==> final(patches)@.len() == old(patches)@.len() + 1
                && final(patches)@.subrange(0, old(patches)@.len() as int) == old(patches)@
                && final(patches)@.last() is Add
                && command_begin_ok(lookup(final(self).commands@, call_id@), command@, final(patches)@.last()),
            final(self).assistant is None,
            final(self).thinking is None,
    {
        let ghost hi = entry_index_provider.view_index();
        self.assistant = None;
        self.thinking = None;
        let text = join_command(command);
        if text.as_str().unicode_len() == 0 {
            return;
        }
        let mut state = CommandState {
            index: None,
            command: text,
            stdout: String::new(),
            stderr: String::new(),
            formatted_output: None,
            status: ToolStatus::Created,
            exit_code: None,
            awaiting_approval: false,
            call_id: call_id.clone(),
        };
        let entry = state.to_normalized_entry();
        let i = emit_add(patches, entry, entry_index_provider, Ghost(lo));
        state.index = Some(i);
        assert(patches@.subrange(0, patches@.len() - 1) =~= old(patches)@);
        let ghost mid = self.commands@;
        proof {
            self.lemma_wf_grow(hi, entry_index_provider.view_index());
        }
        put(&mut self.commands, call_id.clone(), state);
        assert forall|k: int| 0 <= k < self.commands@.len() implies below((#[trigger] self.commands@[k]).1.index, entry_index_provider.view_index()) by {
            if self.commands@[k].1 != state {
                let j = choose|j: int| 0 <= j < mid.len() && self.commands@[k] == mid[j];
                assert(below(mid[j].1.index, entry_index_provider.view_index()));
            }
        }
    }

    /// Output of a running command arrives: it is added to the command's output, and its entry
    /// updated.
    pub fn exec_command_output_delta(
        &mut self,
        call_id: &String,
        stream: ExecOutputStream,
        chunk: &String,
        patches: &mut Vec<ConversationPatch>,
        Ghost(lo): Ghost<int>,
        Ghost(hi): Ghost<nat>,
    )
        requires
            old(self).wf(hi as nat),
            indexed(old(patches)@, lo, hi as int),
        ensures
            final(self).session == old(self).session,
            final(self).wf(hi as nat),
            indexed(final(patches)@, lo, hi as int),
            final(patches)@.len() <= old(patches)@.len() + 1,
            final(patches)@.subrange(0, old(patches)@.len() as int) == old(patches)@,
            final(patches)@.len() == old(patches)@.len() + 1 <==> (lookup(old(self).commands@, call_id@) matches Some(o)
                && o.index is Some && chunk@.len() > 0),
            final(patches)@.len() == old(patches)@.len() + 1 ==> command_delta_ok(
                lookup(old(self).commands@, call_id@),
                lookup(final(self).commands@, call_id@),
                stream,
                chunk@,
                final(patches)@.last(),
            ),
    {
        if chunk.as_str().unicode_len() == 0 {
            return;
        }
        let ghost before = self.commands@;
        let mut state = match take(&mut self.commands, call_id.as_str()) {
            Some(s) => s,
            None => {
                return;
            },
        };
        proof {
            crate::assoc::lemma_lookup_in(before, call_id@);
            let q = choose|q: int| 0 <= q < before.len() && before[q].1 == state;
            assert(below(before[q].1.index, hi as nat));
        }
        match stream {
            ExecOutputStream::Stdout => state.stdout.append(chunk.as_str()),
            ExecOutputStream::Stderr => state.stderr.append(chunk.as_str()),
        }
        if let Some(i) = state.index {
            let entry = state.to_normalized_entry();
            emit_replace(patches, i, entry, Ghost(lo), Ghost(hi as int));
        }
        assert(patches@.subrange(0, old(patches)@.len() as int) =~= old(patches)@);
        let ghost mid = self.commands@;
        put(&mut self.commands, call_id.clone(), state);
        assert forall|k: int| 0 <= k < self.commands@.len() implies below((#[trigger] self.commands@[k]).1.index, hi as nat) by {
            if self.commands@[k].1 != state {
                let j = choose|j: int| 0 <= j < mid.len() && self.commands@[k] == mid[j];
                assert(exists|q: int| 0 <= q < before.len() && mid[j] == before[q]);
            }
        }
        assert forall|k: int| 0 <= k < self.commands@.len() implies below((#[trigger] self.commands@[k]).1.index, hi as nat) by {
            if self.commands@[k].1 != state {
                let j = choose|j: int| 0 <= j < mid.len() && self.commands@[k] == mid[j];
                let q = choose|q: int| 0 <= q < before.len() && mid[j] == before[q];
                assert(below(before[q].1.index, hi as nat));
            }
        }
    }

    /// A command ends: its entry gets the exit code, the output and a final status (success
    /// exactly when the exit code is 0), and the command is forgotten.
    pub fn exec_command_end(
        &mut self,
        call_id: &String,
        exit_code: i32,
        formatted_output: &String,
        patches: &mut Vec<ConversationPatch>,
        Ghost(lo): Ghost<int>,
        Ghost(hi): Ghost<nat>,
    )
        requires
            old(self).wf(hi as nat),
            indexed(old(patches)@, lo, hi as int),
        ensures
            final(self).session == old(self).session,
            final(self).wf(hi as nat),
            indexed(final(patches)@, lo, hi as int),
            final(patches)@.subrange(0, old(patches)@.len() as int) == old(patches)@,
            match lookup(old(self).commands@, call_id@) {
                Some(o) => if o.index is Some {
                    final(patches)@.len() == old(patches)@.len() + 1 && command_end_ok(o, exit_code, formatted_output@, final(patches)@.last())
                } else {
                    final(patches)@ == old(patches)@
                },
                None => final(patches)@ == old(patches)@,
            },
            lookup(final(self).commands@, call_id@) is None,
    {
        let ghost before = self.commands@;
        let mut state = match take(&mut self.commands, call_id.as_str()) {
            Some(s) => s,
            None => {
                return;
            },
        };
        proof {
            crate::assoc::lemma_lookup_in(before, call_id@);
            let q = choose|q: int| 0 <= q < before.len() && before[q].1 == state;
            assert(below(before[q].1.index, hi as nat));
        }
        state.formatted_output = Some(formatted_output.clone());
        state.exit_code = Some(exit_code);
        state.awaiting_approval = false;
        state.status = if exit_code == 0 {
            ToolStatus::Success
        } else {
            ToolStatus::Failed
        };
        if let Some(i) = state.index {
            let entry = state.to_normalized_entry();
            emit_replace(patches, i, entry, Ghost(lo), Ghost(hi as int));
        }
        assert(patches@.subrange(0, old(patches)@.len() as int) =~= old(patches)@);
        assert forall|k: int| 0 <= k < self.commands@.len() implies below((#[trigger] self.commands@[k]).1.index, hi as nat) by {
            let q = choose|q: int| 0 <= q < before.len() && self.commands@[k] == before[q];
            assert(below(before[q].1.index, hi as nat));
        }
    }
}

} // verus!

verus! {

/// Whether every block of an MCP result is text.
pub open spec fn all_text(blocks: Seq<McpContentBlock>) -> bool {
    forall|i: int| 0 <= i < blocks.len() ==> #[trigger] blocks[i] is Text
}

pub open spec fn block_texts(blocks: Seq<McpContentBlock>) -> Seq<Seq<char>>
    decreases blocks.len(),
{
    if blocks.len() == 0 {
        Seq::empty()
    } else {
        let t = block_texts(blocks.drop_last());
        match blocks.last() {
            McpContentBlock::Text { text } => t.push(text@),
            McpContentBlock::Other { .. } => t,
        }
    }
}

/// The status and result value of an MCP call that ended with `outcome`: text blocks are
/// joined by line breaks as Markdown; other content is JSON, the structured content when there
/// is one; an error is Markdown and fails the call.
pub open spec fn mcp_outcome(outcome: McpCallOutcome) -> (ToolStatus, ToolResultValueType, Seq<char>) {
    match outcome {
        McpCallOutcome::Completed { value } => {
            let status = if value.is_error == Some(true) { ToolStatus::Failed } else { ToolStatus::Success };
            if all_text(value.content@) {
                (status, ToolResultValueType::Markdown, join_with(block_texts(value.content@), "\n"@))
            } else {
                (status, ToolResultValueType::Json, match value.structured_content {
                    Some(s) => s@,
                    None => value.content_json@,
                })
            }
        },
        McpCallOutcome::Failed { error } => (ToolStatus::Failed, ToolResultValueType::Markdown, error@),
    }
}

fn text_blocks(blocks: &Vec<McpContentBlock>) -> (r: Option<Vec<String>>)
    ensures
        r is Some <==> all_text(blocks@),
        r matches Some(v) ==> views(v@) == block_texts(blocks@),
{
    let mut out: Vec<String> = Vec::new();
    let mut k: usize = 0;
    while k < blocks.len()
        invariant
            k <= blocks.len(),
            all_text(blocks@.subrange(0, k as int)),
            views(out@) == block_texts(blocks@.subrange(0, k as int)),
        decreases blocks.len() - k,
    {
        assert(blocks@.subrange(0, k + 1).drop_last() =~= blocks@.subrange(0, k as int));
        match &blocks[k] {
            McpContentBlock::Text { text } => {
                let ghost before = out@;
                out.push(text.clone());
                assert(views(out@) =~= views(before).push(text@));
                assert forall|i: int| 0 <= i < k + 1 implies #[trigger] blocks@.subrange(0, k + 1)[i] is Text by {
                    if i < k {
                        assert(blocks@.subrange(0, k + 1)[i] == blocks@.subrange(0, k as int)[i]);
                    }
                }
            },
            McpContentBlock::Other { .. } => {
                assert(!(blocks@[k as int] is Text));
                return None;
            },
        }
        k = k + 1;
    }
    assert(blocks@.subrange(0, k as int) =~= blocks@);
    Some(out)
}

/// The status and result of an MCP call that ended with `outcome`.
pub fn mcp_result(outcome: &McpCallOutcome) -> (r: (ToolStatus, ToolResult))
    ensures
        (r.0, r.1.value_type, r.1.value@) == mcp_outcome(*outcome),
{
    match outcome {
        McpCallOutcome::Completed { value } => {
            let status = if value.is_error == Some(true) {
                ToolStatus::Failed
            } else {
                ToolStatus::Success
            };
            match text_blocks(&value.content) {
                Some(texts) => (
                    status,
                    ToolResult { value_type: ToolResultValueType::Markdown, value: join_strings(&texts, "\n") },
                ),
                None => {
                    let v = match &value.structured_content {
                        Some(s) => s.clone(),
                        None => value.content_json.clone(),
                    };
                    (status, ToolResult { value_type: ToolResultValueType::Json, value: v })
                },
            }
        },
        McpCallOutcome::Failed { error } => (
            ToolStatus::Failed,
            ToolResult { value_type: ToolResultValueType::Markdown, value: error.clone() },
        ),
    }
}

fn clone_invocation(i: &McpInvocation) -> (r: McpInvocation)
    ensures
        r.server@ == i.server@,
        r.tool@ == i.tool@,
        ov(r.arguments) == ov(i.arguments),
{
    McpInvocation {
        server: i.server.clone(),
        tool: i.tool.clone(),
        arguments: crate::text::clone_opt(&i.arguments),
    }
}

impl CodexLogState {
    /// An MCP tool call starts: its entry is added.
    pub fn mcp_begin(
        &mut self,
        call_id: &String,
        invocation: &McpInvocation,
        patches: &mut Vec<ConversationPatch>,
        entry_index_provider: &mut EntryIndexProvider,
        Ghost(lo): Ghost<int>,
    )
        requires
            old(self).wf(old(entry_index_provider).view_index()),
            old(entry_index_provider).has_room(1),
            indexed(old(patches)@, lo, old(entry_index_provider).view_index() as int),
        ensures
            final(self).session == old(self).session,
            final(self).wf(final(entry_index_provider).view_index()),
            indexed(final(patches)@, lo, final(entry_index_provider).view_index() as int),
            final(patches)@.len() == old(patches)@.len() + 1,
            final(patches)@.subrange(0, old(patches)@.len() as int) == old(patches)@,
            final(patches)@.last() is Add,
            mcp_begin_ok(lookup(final(self).mcp_tools@, call_id@), *invocation, final(patches)@.last()),
    {
        let ghost hi = entry_index_provider.view_index();
        self.assistant = None;
        self.thinking = None;
        let mut state = McpToolState {
            index: None,
            invocation: clone_invocation(invocation),
            result: None,
            status: ToolStatus::Created,
        };
        let i = emit_add(patches, state.to_normalized_entry(), entry_index_provider, Ghost(lo));
        state.index = Some(i);
        assert(patches@.subrange(0, patches@.len() - 1) =~= old(patches)@);
        let ghost mid = self.mcp_tools@;
        proof {
            self.lemma_wf_grow(hi, entry_index_provider.view_index());
        }
        put(&mut self.mcp_tools, call_id.clone(), state);
        assert forall|k: int| 0 <= k < self.mcp_tools@.len() implies below((#[trigger] self.mcp_tools@[k]).1.index, entry_index_provider.view_index()) by {
            if self.mcp_tools@[k].1 != state {
                let j = choose|j: int| 0 <= j < mid.len() && self.mcp_tools@[k] == mid[j];
                assert(below(mid[j].1.index, entry_index_provider.view_index()));
            }
        }
    }

    /// An MCP tool call ends: its entry gets the status and result, and the call is forgotten.
    pub fn mcp_end(
        &mut self,
        call_id: &String,
        outcome: &McpCallOutcome,
        patches: &mut Vec<ConversationPatch>,
        Ghost(lo): Ghost<int>,
        Ghost(hi): Ghost<nat>,
    )
        requires
            old(self).wf(hi),
            indexed(old(patches)@, lo, hi as int),
        ensures
            final(self).session == old(self).session,
            final(self).wf(hi),
            indexed(final(patches)@, lo, hi as int),
            final(patches)@.subrange(0, old(patches)@.len() as int) == old(patches)@,
            final(patches)@.len() <= old(patches)@.len() + 1,
            final(patches)@.len() == old(patches)@.len() + 1 <==> (lookup(old(self).mcp_tools@, call_id@) matches Some(m)
                && m.index is Some),
            lookup(final(self).mcp_tools@, call_id@) is None,
            final(patches)@.len() == old(patches)@.len() + 1 ==> (lookup(old(self).mcp_tools@, call_id@) matches Some(m)
                && Some(final(patches)@.last().index_of()) == m.index
                && mcp_end_ok(m, outcome_status(*outcome), mcp_outcome(*outcome), patch_entry_of(final(patches)@.last()))),
    {
        let ghost before = self.mcp_tools@;
        let mut state = match take(&mut self.mcp_tools, call_id.as_str()) {
            Some(s) => s,
            None => {
                return;
            },
        };
        proof {
            crate::assoc::lemma_lookup_in(before, call_id@);
            let q = choose|q: int| 0 <= q < before.len() && before[q].1 == state;
            assert(below(before[q].1.index, hi));
        }
        let (status, result) = mcp_result(outcome);
        state.status = status;
        state.result = Some(result);
        if let Some(i) = state.index {
            emit_replace(patches, i, state.to_normalized_entry(), Ghost(lo), Ghost(hi as int));
        }
        assert(patches@.subrange(0, old(patches)@.len() as int) =~= old(patches)@);
        assert forall|k: int| 0 <= k < self.mcp_tools@.len() implies below((#[trigger] self.mcp_tools@[k]).1.index, hi) by {
            let q = choose|q: int| 0 <= q < before.len() && self.mcp_tools@[k] == before[q];
            assert(below(before[q].1.index, hi));
        }
    }
}

pub open spec fn outcome_status(o: McpCallOutcome) -> ToolStatus {
    mcp_outcome(o).0
}

/// The MCP call `m` on record has just begun with `invocation`, shown by the added `p`.
pub open spec fn mcp_begin_ok(m: Option<McpToolState>, invocation: McpInvocation, p: ConversationPatch) -> bool {
    &&& m matches Some(m)
    &&& m.status == ToolStatus::Created
    &&& m.result is None
    &&& m.index == Some(p.index_of())
    &&& p is Add
    &&& m.invocation.server@ == invocation.server@
    &&& m.invocation.tool@ == invocation.tool@
    &&& ov(m.invocation.arguments) == ov(invocation.arguments)
    &&& crate::codex::mcp_entry_ok(m, patch_entry_of(p))
}

/// The web search `w` on record has just begun, shown by the added `p`.
pub open spec fn web_begin_ok(w: Option<WebSearchState>, p: ConversationPatch) -> bool {
    &&& w matches Some(w)
    &&& w.query is None
    &&& w.status == ToolStatus::Created
    &&& w.index == Some(p.index_of())
    &&& p is Add
    &&& web_search_entry_ok(w, patch_entry_of(p))
}

/// The stream `t` after `r`, the patch for a streamed text `text` that was `before`.
pub open spec fn streamed_ok(before: Option<StreamingText>, after: Option<StreamingText>, text: Seq<char>, p: ConversationPatch) -> bool {
    &&& after matches Some(s)
    &&& s.content@ == text
    &&& s.index == p.index_of()
    &&& (p is Add <==> before is None)
    &&& (before matches Some(b) ==> b.index == p.index_of())
}

/// `e` shows the MCP call `m` finished with `status` and the result value `v`.
pub open spec fn mcp_end_ok(m: McpToolState, status: ToolStatus, v: (ToolStatus, ToolResultValueType, Seq<char>), e: NormalizedEntry) -> bool {
    &&& e.content@ == m.invocation.tool@
    &&& e.entry_type matches NormalizedEntryType::ToolUse { status: s, action_type, .. }
    &&& s == status
    &&& action_type matches ActionType::Tool { result, .. }
    &&& result matches Some(tr)
    &&& tr.value_type == v.1
    &&& tr.value@ == v.2
}

} // verus!

verus! {

impl CodexLogState {
    /// A web search starts: its entry is added with placeholders.
    pub fn web_search_begin(
        &mut self,
        call_id: &String,
        patches: &mut Vec<ConversationPatch>,
        entry_index_provider: &mut EntryIndexProvider,
        Ghost(lo): Ghost<int>,
    )
        requires
            old(self).wf(old(entry_index_provider).view_index()),
            old(entry_index_provider).has_room(1),
            indexed(old(patches)@, lo, old(entry_index_provider).view_index() as int),
        ensures
            final(self).session == old(self).session,
            final(self).wf(final(entry_index_provider).view_index()),
            indexed(final(patches)@, lo, final(entry_index_provider).view_index() as int),
            final(patches)@.len() == old(patches)@.len() + 1,
            final(patches)@.subrange(0, old(patches)@.len() as int) == old(patches)@,
            web_begin_ok(lookup(final(self).web_searches@, call_id@), final(patches)@.last()),
    {
        let ghost hi = entry_index_provider.view_index();
        self.assistant = None;
        self.thinking = None;
        let mut state = WebSearchState::new();
        let i = emit_add(patches, state.to_normalized_entry(), entry_index_provider, Ghost(lo));
        state.index = Some(i);
        assert(patches@.subrange(0, patches@.len() - 1) =~= old(patches)@);
        let ghost mid = self.web_searches@;
        proof {
            self.lemma_wf_grow(hi, entry_index_provider.view_index());
        }
        put(&mut self.web_searches, call_id.clone(), state);
        assert forall|k: int| 0 <= k < self.web_searches@.len() implies below((#[trigger] self.web_searches@[k]).1.index, entry_index_provider.view_index()) by {
            if self.web_searches@[k].1 != state {
                let j = choose|j: int| 0 <= j < mid.len() && self.web_searches@[k] == mid[j];
                assert(below(mid[j].1.index, entry_index_provider.view_index()));
            }
        }
    }

    /// A web search ends: its entry shows the query and succeeds, and the search is forgotten.
    pub fn web_search_end(
        &mut self,
        call_id: &String,
        query: &String,
        patches: &mut Vec<ConversationPatch>,
        Ghost(lo): Ghost<int>,
        Ghost(hi): Ghost<nat>,
    )
        requires
            old(self).wf(hi),
            indexed(old(patches)@, lo, hi as int),
        ensures
            final(self).session == old(self).session,
            final(self).wf(hi),
            indexed(final(patches)@, lo, hi as int),
            final(patches)@.subrange(0, old(patches)@.len() as int) == old(patches)@,
            final(patches)@.len() <= old(patches)@.len() + 1,
            final(patches)@.len() == old(patches)@.len() + 1 <==> (lookup(old(self).web_searches@, call_id@) matches Some(w)
                && w.index is Some),
            lookup(final(self).web_searches@, call_id@) is None,
            final(patches)@.len() == old(patches)@.len() + 1 ==> final(patches)@.last() is Replace
                && Some(final(patches)@.last().index_of()) == lookup(old(self).web_searches@, call_id@)->0.index
                && web_search_end_ok(query@, patch_entry_of(final(patches)@.last())),
    {
        self.assistant = None;
        self.thinking = None;
        let ghost before = self.web_searches@;
        let mut state = match take(&mut self.web_searches, call_id.as_str()) {
            Some(s) => s,
            None => {
                return;
            },
        };
        proof {
            crate::assoc::lemma_lookup_in(before, call_id@);
            let q = choose|q: int| 0 <= q < before.len() && before[q].1 == state;
            assert(below(before[q].1.index, hi));
        }
        state.status = ToolStatus::Success;
        state.query = Some(query.clone());
        if let Some(i) = state.index {
            emit_replace(patches, i, state.to_normalized_entry(), Ghost(lo), Ghost(hi as int));
        }
        assert(patches@.subrange(0, old(patches)@.len() as int) =~= old(patches)@);
        assert forall|k: int| 0 <= k < self.web_searches@.len() implies below((#[trigger] self.web_searches@[k]).1.index, hi) by {
            let q = choose|q: int| 0 <= q < before.len() && self.web_searches@[k] == before[q];
            assert(below(before[q].1.index, hi));
        }
    }
}

/// `e` shows a finished web search for `query`.
pub open spec fn web_search_end_ok(query: Seq<char>, e: NormalizedEntry) -> bool {
    &&& e.content@ == query
    &&& e.entry_type matches NormalizedEntryType::ToolUse { status, action_type, .. }
    &&& status == ToolStatus::Success
    &&& action_type matches ActionType::WebFetch { url }
    &&& url@ == query
}

fn new_patch_entry(path: String, changes: Vec<crate::entry::FileChange>, awaiting_approval: bool, call_id: &String) -> (r: PatchEntry)
    ensures
        r.index is None,
        r.status == ToolStatus::Created,
        r.path == path,
        r.awaiting_approval == awaiting_approval,
        r.changes == changes,
{
    PatchEntry { index: None, path, changes, status: ToolStatus::Created, awaiting_approval, call_id: call_id.clone() }
}

/// The files that a patch call has on record.
pub open spec fn previews(st: Option<PatchState>) -> Seq<PatchEntry> {
    match st {
        Some(s) => s.entries@,
        None => Seq::empty(),
    }
}

/// `ps` remove, in order, the entries of the files `es` that have one.
pub open spec fn removes_of(es: Seq<PatchEntry>, ps: Seq<ConversationPatch>) -> bool
    decreases es.len(),
{
    if es.len() == 0 {
        ps.len() == 0
    } else {
        match es.last().index {
            Some(x) => ps.len() > 0 && ps.last() == (ConversationPatch::Remove { index: x }) && removes_of(es.drop_last(), ps.drop_last()),
            None => removes_of(es.drop_last(), ps),
        }
    }
}

/// The file `e` of a patch call stands for the change `c`, relative to the worktree `w`.
pub open spec fn files_entry_ok(e: PatchEntry, c: (String, CodexFileChange), w: Seq<char>, awaiting: bool) -> bool {
    &&& e.path@ == rel_path(c.0@, w)
    &&& file_changes_ok(c.0@, c.1, w, e.changes@)
    &&& e.awaiting_approval == awaiting
    &&& e.status == ToolStatus::Created
    &&& e.index is Some
}

/// The files `es` stand, one for one, for the changes `cs`.
pub open spec fn files_ok(es: Seq<PatchEntry>, cs: Seq<(String, CodexFileChange)>, w: Seq<char>, awaiting: bool) -> bool {
    &&& es.len() == cs.len()
    &&& forall|k: int| 0 <= k < es.len() ==> files_entry_ok(#[trigger] es[k], cs[k], w, awaiting)
}

/// `p` adds the entry of the file `e`, at the index on record for it.
pub open spec fn shown_as_added(e: PatchEntry, p: ConversationPatch) -> bool {
    &&& p is Add
    &&& e.index == Some(p.index_of())
    &&& crate::codex::patch_entry_ok(e, patch_entry_of(p))
}

impl CodexLogState {
    /// A patch asks for approval: earlier previews of the same call are removed and each file
    /// is shown afresh, awaiting the decision.
    pub fn apply_patch_approval_request(
        &mut self,
        call_id: &String,
        changes: &Vec<(String, CodexFileChange)>,
        worktree_path: &str,
        patches: &mut Vec<ConversationPatch>,
        entry_index_provider: &mut EntryIndexProvider,
        Ghost(lo): Ghost<int>,
    )
        requires
            old(self).wf(old(entry_index_provider).view_index()),
            old(entry_index_provider).has_room(changes@.len() as int),
            indexed(old(patches)@, lo, old(entry_index_provider).view_index() as int),
        ensures
            final(self).session == old(self).session,
            final(self).wf(final(entry_index_provider).view_index()),
            indexed(final(patches)@, lo, final(entry_index_provider).view_index() as int),
            final(entry_index_provider).view_index() == old(entry_index_provider).view_index() + changes@.len(),
            final(patches)@.subrange(0, old(patches)@.len() as int) == old(patches)@,
            final(patches)@.len() >= old(patches)@.len() + changes@.len(),
            ({
                let n1 = final(patches)@.len() - changes@.len();
                &&& removes_of(previews(lookup(old(self).patches@, call_id@)), final(patches)@.subrange(old(patches)@.len() as int, n1))
                &&& lookup(final(self).patches@, call_id@) matches Some(st2)
                &&& files_ok(st2.entries@, changes@, worktree_path@, true)
                &&& forall|k: int| 0 <= k < changes@.len() ==> shown_as_added(st2.entries@[k], #[trigger] final(patches)@[n1 + k])
            }),
            final(self).assistant is None,
            final(self).thinking is None,
    {
        self.assistant = None;
        self.thinking = None;
        let normalized = normalize_file_changes(worktree_path, changes);
        let ghost hi0 = entry_index_provider.view_index();
        let ghost before = self.patches@;
        let ghost n0 = patches@.len();
        let old_state = take(&mut self.patches, call_id.as_str());
        assert(patches@.subrange(n0 as int, n0 as int) =~= Seq::<ConversationPatch>::empty());
        proof {
            if old_state is None {
                assert(previews(lookup(before, call_id@)) =~= Seq::<PatchEntry>::empty());
            }
        }
        if let Some(st) = &old_state {
            assert(st.entries@.subrange(0, 0) =~= Seq::<PatchEntry>::empty());
            proof {
                crate::assoc::lemma_lookup_in(before, call_id@);
                let q = choose|q: int| 0 <= q < before.len() && before[q].1 == *st;
                assert(patch_state_below(before[q].1, hi0));
            }
            let mut j: usize = 0;
            while j < st.entries.len()
                invariant
                    j <= st.entries.len(),
                    patch_state_below(*st, hi0),
                    indexed(patches@, lo, hi0 as int),
                    entry_index_provider.view_index() == hi0,
                    n0 == old(patches)@.len(),
                    n0 <= patches@.len(),
                    patches@.subrange(0, n0 as int) == old(patches)@,
                    removes_of(st.entries@.subrange(0, j as int), patches@.subrange(n0 as int, patches@.len() as int)),
                decreases st.entries.len() - j,
            {
                let ghost pv = patches@;
                assert(st.entries@.subrange(0, j + 1).drop_last() =~= st.entries@.subrange(0, j as int));
                assert(st.entries@.subrange(0, j + 1).last() == st.entries@[j as int]);
                if let Some(i) = st.entries[j].index {
                    assert(below(st.entries@[j as int].index, hi0));
                    emit_remove(patches, i, Ghost(lo), Ghost(hi0 as int));
                    assert(patches@.subrange(n0 as int, patches@.len() as int).drop_last() =~= pv.subrange(n0 as int, pv.len() as int));
                    assert(patches@.subrange(0, n0 as int) =~= pv.subrange(0, n0 as int));
                }
                j = j + 1;
            }
            assert(st.entries@.subrange(0, j as int) =~= st.entries@);
        }
        let ghost n1 = patches@.len();
        let mut state = PatchState { entries: Vec::new() };
        let mut k: usize = 0;
        while k < normalized.len()
            invariant
                k <= normalized.len(),
                normalized.len() == changes.len(),
                entry_index_provider.view_index() == hi0 + k,
                hi0 + changes@.len() <= usize::MAX,
                indexed(patches@, lo, entry_index_provider.view_index() as int),
                patch_state_below(state, entry_index_provider.view_index()),
                n0 == old(patches)@.len(),
                n0 <= n1,
                patches@.len() == n1 + k,
                state.entries@.len() == k,
                patches@.subrange(0, n0 as int) == old(patches)@,
                removes_of(previews(lookup(before, call_id@)), patches@.subrange(n0 as int, n1 as int)),
                files_ok(state.entries@, changes@.subrange(0, k as int), worktree_path@, true),
                forall|q: int| 0 <= q < normalized@.len() ==> (#[trigger] normalized@[q]).0@ == rel_path(changes@[q].0@, worktree_path@)
                    && file_changes_ok(changes@[q].0@, changes@[q].1, worktree_path@, normalized@[q].1@),
                forall|q: int| 0 <= q < k ==> shown_as_added(state.entries@[q], #[trigger] patches@[n1 + q]),
            decreases normalized.len() - k,
        {
            let ghost pv = patches@;
            let (path, file_changes) = (&normalized[k].0, &normalized[k].1);
            let copied = crate::codex::copy_changes(file_changes);
            proof {
                crate::codex::lemma_same_changes_ok(changes@[k as int].0@, changes@[k as int].1, worktree_path@, file_changes@, copied@);
            }
            let mut entry = new_patch_entry(path.clone(), copied, true, call_id);
            let i = emit_add(patches, entry.to_normalized_entry(), entry_index_provider, Ghost(lo));
            entry.index = Some(i);
            let ghost es = state.entries@;
            state.entries.push(entry);
            assert forall|q: int| 0 <= q < state.entries@.len() implies below((#[trigger] state.entries@[q]).index, entry_index_provider.view_index()) by {
                if q < es.len() {
                    assert(state.entries@[q] == es[q]);
                }
            }
            proof {
                assert(patches@.subrange(0, n0 as int) =~= pv.subrange(0, n0 as int));
                assert(patches@.subrange(n0 as int, n1 as int) =~= pv.subrange(n0 as int, n1 as int));
                assert forall|q: int| 0 <= q < k + 1 implies shown_as_added(state.entries@[q], #[trigger] patches@[n1 + q]) by {
                    if q < k {
                        assert(state.entries@[q] == es[q]);
                        assert(patches@[n1 + q] == pv[n1 + q]);
                    }
                }
                assert forall|q: int| 0 <= q < k + 1 implies files_entry_ok(#[trigger] state.entries@[q], changes@.subrange(0, k + 1)[q], worktree_path@, true) by {
                    if q < k {
                        assert(state.entries@[q] == es[q]);
                        assert(changes@.subrange(0, k + 1)[q] == changes@.subrange(0, k as int)[q]);
                    } else {
                        assert(changes@.subrange(0, k + 1)[q] == changes@[k as int]);
                        assert(normalized@[k as int].0@ == rel_path(changes@[k as int].0@, worktree_path@));
                        assert(state.entries@[q] == entry);
                    }
                }
            }
            k = k + 1;
        }
        assert(changes@.subrange(0, k as int) =~= changes@);
        let ghost mid = self.patches@;
        proof {
            assert forall|q: int| 0 <= q < mid.len() implies patch_state_below((#[trigger] mid[q]).1, entry_index_provider.view_index()) by {
                let z = choose|z: int| 0 <= z < before.len() && mid[q] == before[z];
                let p = before[z].1;
                assert(patch_state_below(p, hi0));
                assert forall|e: int| 0 <= e < p.entries@.len() implies below((#[trigger] p.entries@[e]).index, entry_index_provider.view_index()) by {}
            }
            self.lemma_wf_grow(hi0, hi0);
        }
        put(&mut self.patches, call_id.clone(), state);
        assert forall|q: int| 0 <= q < self.patches@.len() implies patch_state_below((#[trigger] self.patches@[q]).1, entry_index_provider.view_index()) by {
            if self.patches@[q].1 != state {
                let z = choose|z: int| 0 <= z < mid.len() && self.patches@[q] == mid[z];
                assert(patch_state_below(mid[z].1, entry_index_provider.view_index()));
            }
        }
        proof {
            assert forall|i: int| 0 <= i < self.commands@.len() implies below((#[trigger] self.commands@[i]).1.index, entry_index_provider.view_index()) by {
                assert(below(old(self).commands@[i].1.index, hi0));
            }
            assert forall|i: int| 0 <= i < self.mcp_tools@.len() implies below((#[trigger] self.mcp_tools@[i]).1.index, entry_index_provider.view_index()) by {
                assert(below(old(self).mcp_tools@[i].1.index, hi0));
            }
            assert forall|i: int| 0 <= i < self.web_searches@.len() implies below((#[trigger] self.web_searches@[i]).1.index, entry_index_provider.view_index()) by {
                assert(below(old(self).web_searches@[i].1.index, hi0));
            }
        }
    }
}

} // verus!

verus! {

/// `p` replaces a file's entry of a patch call by its final state.
pub open spec fn settled(p: ConversationPatch, success: bool) -> bool {
    &&& p is Replace
    &&& patch_type(p) matches NormalizedEntryType::ToolUse { status, .. }
    &&& status == (if success { ToolStatus::Success } else { ToolStatus::Failed })
}

/// The file at position `q` of a patch call that starts to apply, which had the files `olds`
/// on record and now reports the changes `cs`: no longer awaiting approval, taking the path and
/// the changes now reported (a file beyond them keeps its path).
pub open spec fn begun_entry_ok(e: PatchEntry, q: int, olds: Seq<PatchEntry>, cs: Seq<(String, CodexFileChange)>, w: Seq<char>) -> bool {
    &&& e.status == ToolStatus::Created
    &&& !e.awaiting_approval
    &&& e.index is Some
    &&& q < cs.len() ==> e.path@ == rel_path(cs[q].0@, w) && file_changes_ok(cs[q].0@, cs[q].1, w, e.changes@)
    &&& q >= cs.len() ==> e.path@ == olds[q].path@
}

/// `p` shows the file `e`: it replaces the entry that the file `old_e` had, or adds one.
pub open spec fn shown_at(e: PatchEntry, p: ConversationPatch, old_e: Option<PatchEntry>) -> bool {
    &&& e.index == Some(p.index_of())
    &&& crate::codex::patch_entry_ok(e, patch_entry_of(p))
    &&& match old_e {
        Some(o) => match o.index {
            Some(x) => p is Replace && p.index_of() == x,
            None => p is Add,
        },
        None => p is Add,
    }
}

/// What a patch call that starts to apply does: one patch per file, each showing the file as it
/// now stands, and the call keeps all of them on record.
pub open spec fn begin_ok(
    olds: Seq<PatchEntry>,
    st: Option<PatchState>,
    cs: Seq<(String, CodexFileChange)>,
    w: Seq<char>,
    ps: Seq<ConversationPatch>,
) -> bool {
    let m: int = if olds.len() < cs.len() { cs.len() as int } else { olds.len() as int };
    &&& ps.len() == m
    &&& st matches Some(st)
    &&& st.entries@.len() == m
    &&& forall|q: int| 0 <= q < m ==> begun_entry_ok(#[trigger] st.entries@[q], q, olds, cs, w)
        && shown_at(st.entries@[q], ps[q], if q < olds.len() { Some(olds[q]) } else { None })
}

/// How many entries a patch call has on record.
pub open spec fn patch_count(s: CodexLogState, call_id: Seq<char>) -> int {
    match lookup(s.patches@, call_id) {
        Some(p) => p.entries@.len() as int,
        None => 0,
    }
}

impl CodexLogState {
    /// A patch starts to apply: the files of its preview no longer await approval (and take
    /// the paths and changes now reported), and files not previewed are added.
    pub fn patch_apply_begin(
        &mut self,
        call_id: &String,
        changes: &Vec<(String, CodexFileChange)>,
        worktree_path: &str,
        patches: &mut Vec<ConversationPatch>,
        entry_index_provider: &mut EntryIndexProvider,
        Ghost(lo): Ghost<int>,
    )
        requires
            old(self).wf(old(entry_index_provider).view_index()),
            old(entry_index_provider).has_room(patch_count(*old(self), call_id@) + changes@.len()),
            indexed(old(patches)@, lo, old(entry_index_provider).view_index() as int),
        ensures
            final(self).session == old(self).session,
            final(self).wf(final(entry_index_provider).view_index()),
            indexed(final(patches)@, lo, final(entry_index_provider).view_index() as int),
            final(entry_index_provider).view_index() <= old(entry_index_provider).view_index() + patch_count(*old(self), call_id@) + changes@.len(),
            final(patches)@.subrange(0, old(patches)@.len() as int) == old(patches)@,
            begin_ok(
                previews(lookup(old(self).patches@, call_id@)),
                lookup(final(self).patches@, call_id@),
                changes@,
                worktree_path@,
                final(patches)@.subrange(old(patches)@.len() as int, final(patches)@.len() as int),
            ),
            final(self).assistant is None,
            final(self).thinking is None,
    {
        self.assistant = None;
        self.thinking = None;
        let normalized = normalize_file_changes(worktree_path, changes);
        let ghost hi0 = entry_index_provider.view_index();
        let ghost before = self.patches@;
        let ghost n0 = patches@.len();
        let old_state = take(&mut self.patches, call_id.as_str());
        let empty: Vec<PatchEntry> = Vec::new();
        let old_entries = match &old_state {
            Some(st) => &st.entries,
            None => &empty,
        };
        proof {
            if old_state is Some {
                crate::assoc::lemma_lookup_in(before, call_id@);
                let q = choose|q: int| 0 <= q < before.len() && before[q].1 == old_state->0;
                assert(patch_state_below(before[q].1, hi0));
            }
        }
        assert(forall|q: int| 0 <= q < old_entries@.len() ==> below((#[trigger] old_entries@[q]).index, hi0));
        let ghost olds = previews(lookup(before, call_id@));
        assert(old_entries@ == olds);
        let mut state = PatchState { entries: Vec::new() };
        let mut j: usize = 0;
        while j < old_entries.len()
            invariant
                j <= old_entries.len(),
                old_entries@.len() == patch_count(*old(self), call_id@),
                forall|q: int| 0 <= q < old_entries@.len() ==> below((#[trigger] old_entries@[q]).index, hi0),
                hi0 <= entry_index_provider.view_index() <= hi0 + j,
                hi0 + old_entries@.len() + changes@.len() <= usize::MAX,
                indexed(patches@, lo, entry_index_provider.view_index() as int),
                patch_state_below(state, entry_index_provider.view_index()),
                old_entries@ == olds,
                n0 == old(patches)@.len(),
                patches@.len() == n0 + j,
                state.entries@.len() == j,
                patches@.subrange(0, n0 as int) == old(patches)@,
                normalized.len() == changes.len(),
                forall|q: int| 0 <= q < normalized@.len() ==> (#[trigger] normalized@[q]).0@ == rel_path(changes@[q].0@, worktree_path@)
                    && file_changes_ok(changes@[q].0@, changes@[q].1, worktree_path@, normalized@[q].1@),
                forall|q: int| 0 <= q < j ==> begun_entry_ok(#[trigger] state.entries@[q], q, olds, changes@, worktree_path@)
                    && shown_at(state.entries@[q], patches@[n0 + q], Some(olds[q])),
            decreases old_entries.len() - j,
        {
            let ghost pv = patches@;
            let e = &old_entries[j];
            let (path, file_changes) = if j < normalized.len() {
                let copied = crate::codex::copy_changes(&normalized[j].1);
                proof {
                    crate::codex::lemma_same_changes_ok(changes@[j as int].0@, changes@[j as int].1, worktree_path@, normalized@[j as int].1@, copied@);
                }
                (normalized[j].0.clone(), copied)
            } else {
                (e.path.clone(), crate::codex::clone_changes(&e.changes))
            };
            let mut entry = new_patch_entry(path, file_changes, false, call_id);
            let ghost now = entry_index_provider.view_index();
            match e.index {
                Some(i) => {
                    emit_replace(patches, i, entry.to_normalized_entry(), Ghost(lo), Ghost(now as int));
                    entry.index = Some(i);
                },
                None => {
                    let i = emit_add(patches, entry.to_normalized_entry(), entry_index_provider, Ghost(lo));
                    entry.index = Some(i);
                },
            }
            let ghost es = state.entries@;
            state.entries.push(entry);
            assert forall|q: int| 0 <= q < state.entries@.len() implies below((#[trigger] state.entries@[q]).index, entry_index_provider.view_index()) by {
                if q < es.len() {
                    assert(state.entries@[q] == es[q]);
                }
            }
            proof {
                assert(patches@.subrange(0, n0 as int) =~= pv.subrange(0, n0 as int));
                assert forall|q: int| 0 <= q < j + 1 implies begun_entry_ok(#[trigger] state.entries@[q], q, olds, changes@, worktree_path@)
                    && shown_at(state.entries@[q], patches@[n0 + q], Some(olds[q])) by {
                    if q < j {
                        assert(state.entries@[q] == es[q]);
                        assert(patches@[n0 + q] == pv[n0 + q]);
                    } else {
                        assert(state.entries@[q] == entry);
                    }
                }
            }
            j = j + 1;
        }
        let mut k: usize = if old_entries.len() < normalized.len() {
            old_entries.len()
        } else {
            normalized.len()
        };
        while k < normalized.len()
            invariant
                k <= normalized.len(),
                normalized.len() == changes.len(),
                old_entries@.len() == patch_count(*old(self), call_id@),
                hi0 <= entry_index_provider.view_index() <= hi0 + old_entries@.len() + k,
                hi0 + old_entries@.len() + changes@.len() <= usize::MAX,
                indexed(patches@, lo, entry_index_provider.view_index() as int),
                patch_state_below(state, entry_index_provider.view_index()),
                old_entries@ == olds,
                n0 == old(patches)@.len(),
                k >= olds.len() || k == normalized.len(),
                state.entries@.len() == (if k < olds.len() { olds.len() as int } else { k as int }),
                patches@.len() == n0 + state.entries@.len(),
                patches@.subrange(0, n0 as int) == old(patches)@,
                forall|q: int| 0 <= q < normalized@.len() ==> (#[trigger] normalized@[q]).0@ == rel_path(changes@[q].0@, worktree_path@)
                    && file_changes_ok(changes@[q].0@, changes@[q].1, worktree_path@, normalized@[q].1@),
                forall|q: int| 0 <= q < state.entries@.len() ==> begun_entry_ok(#[trigger] state.entries@[q], q, olds, changes@, worktree_path@)
                    && shown_at(state.entries@[q], patches@[n0 + q], if q < olds.len() { Some(olds[q]) } else { None }),
            decreases normalized.len() - k,
        {
            let ghost pv = patches@;
            let ghost es0 = state.entries@;
            let copied = crate::codex::copy_changes(&normalized[k].1);
            proof {
                crate::codex::lemma_same_changes_ok(changes@[k as int].0@, changes@[k as int].1, worktree_path@, normalized@[k as int].1@, copied@);
            }
            let mut entry = new_patch_entry(normalized[k].0.clone(), copied, false, call_id);
            let i = emit_add(patches, entry.to_normalized_entry(), entry_index_provider, Ghost(lo));
            entry.index = Some(i);
            let ghost es = state.entries@;
            state.entries.push(entry);
            assert forall|q: int| 0 <= q < state.entries@.len() implies below((#[trigger] state.entries@[q]).index, entry_index_provider.view_index()) by {
                if q < es.len() {
                    assert(state.entries@[q] == es[q]);
                }
            }
            proof {
                assert(patches@.subrange(0, n0 as int) =~= pv.subrange(0, n0 as int));
                assert forall|q: int| 0 <= q < state.entries@.len() implies begun_entry_ok(#[trigger] state.entries@[q], q, olds, changes@, worktree_path@)
                    && shown_at(state.entries@[q], patches@[n0 + q], if q < olds.len() { Some(olds[q]) } else { None }) by {
                    if q < es.len() {
                        assert(state.entries@[q] == es[q]);
                        assert(patches@[n0 + q] == pv[n0 + q]);
                    } else {
                        assert(state.entries@[q] == entry);
                    }
                }
            }
            k = k + 1;
        }
        let ghost hi = entry_index_provider.view_index();
        assert(state.entries@.len() == (if olds.len() < changes@.len() { changes@.len() as int } else { olds.len() as int }));
        let ghost mid = self.patches@;
        proof {
            assert forall|q: int| 0 <= q < mid.len() implies patch_state_below((#[trigger] mid[q]).1, hi) by {
                let z = choose|z: int| 0 <= z < before.len() && mid[q] == before[z];
                let p = before[z].1;
                assert(patch_state_below(p, hi0));
                assert forall|e: int| 0 <= e < p.entries@.len() implies below((#[trigger] p.entries@[e]).index, hi) by {}
            }
        }
        put(&mut self.patches, call_id.clone(), state);
        assert forall|q: int| 0 <= q < self.patches@.len() implies patch_state_below((#[trigger] self.patches@[q]).1, hi) by {
            if self.patches@[q].1 != state {
                let z = choose|z: int| 0 <= z < mid.len() && self.patches@[q] == mid[z];
                assert(patch_state_below(mid[z].1, hi));
            }
        }
        proof {
            assert forall|i: int| 0 <= i < self.commands@.len() implies below((#[trigger] self.commands@[i]).1.index, hi) by {
                assert(below(old(self).commands@[i].1.index, hi0));
            }
            assert forall|i: int| 0 <= i < self.mcp_tools@.len() implies below((#[trigger] self.mcp_tools@[i]).1.index, hi) by {
                assert(below(old(self).mcp_tools@[i].1.index, hi0));
            }
            assert forall|i: int| 0 <= i < self.web_searches@.len() implies below((#[trigger] self.web_searches@[i]).1.index, hi) by {
                assert(below(old(self).web_searches@[i].1.index, hi0));
            }
        }
    }

    /// A patch has been applied: each file's entry succeeds or fails with it, and the call is
    /// forgotten.
    pub fn patch_apply_end(
        &mut self,
        call_id: &String,
        success: bool,
        patches: &mut Vec<ConversationPatch>,
        Ghost(lo): Ghost<int>,
        Ghost(hi): Ghost<nat>,
    )
        requires
            old(self).wf(hi),
            indexed(old(patches)@, lo, hi as int),
        ensures
            final(self).session == old(self).session,
            final(self).wf(hi),
            indexed(final(patches)@, lo, hi as int),
            forall|i: int| old(patches)@.len() <= i < final(patches)@.len() ==> settled(#[trigger] final(patches)@[i], success),
            match lookup(old(self).patches@, call_id@) {
                Some(st) => settled_all(
                    st.entries@,
                    final(patches)@.subrange(old(patches)@.len() as int, final(patches)@.len() as int),
                    success,
                ),
                None => final(patches)@ == old(patches)@,
            },
            lookup(final(self).patches@, call_id@) is None,
    {
        let ghost before = self.patches@;
        let ghost n0 = patches@.len();
        let st = match take(&mut self.patches, call_id.as_str()) {
            Some(s) => s,
            None => {
                return;
            },
        };
        assert(patches@.subrange(n0 as int, n0 as int) =~= Seq::<ConversationPatch>::empty());
        assert(st.entries@.subrange(0, 0) =~= Seq::<PatchEntry>::empty());
        proof {
            crate::assoc::lemma_lookup_in(before, call_id@);
            let q = choose|q: int| 0 <= q < before.len() && before[q].1 == st;
            assert(patch_state_below(before[q].1, hi));
        }
        let status = if success {
            ToolStatus::Success
        } else {
            ToolStatus::Failed
        };
        let mut j: usize = 0;
        while j < st.entries.len()
            invariant
                j <= st.entries.len(),
                patch_state_below(st, hi),
                indexed(patches@, lo, hi as int),
                old(patches)@.len() <= patches@.len(),
                status == (if success { ToolStatus::Success } else { ToolStatus::Failed }),
                forall|i: int| old(patches)@.len() <= i < patches@.len() ==> settled(#[trigger] patches@[i], success),
                forall|i: int| 0 <= i < old(patches)@.len() ==> #[trigger] patches@[i] == old(patches)@[i],
                n0 == old(patches)@.len(),
                settled_all(st.entries@.subrange(0, j as int), patches@.subrange(n0 as int, patches@.len() as int), success),
            decreases st.entries.len() - j,
        {
            let ghost pv = patches@;
            assert(st.entries@.subrange(0, j + 1).drop_last() =~= st.entries@.subrange(0, j as int));
            assert(st.entries@.subrange(0, j + 1).last() == st.entries@[j as int]);
            let e = &st.entries[j];
            if let Some(i) = e.index {
                assert(below(st.entries@[j as int].index, hi));
                let entry = PatchEntry {
                    index: e.index,
                    path: e.path.clone(),
                    changes: crate::codex::clone_changes(&e.changes),
                    status,
                    awaiting_approval: e.awaiting_approval,
                    call_id: e.call_id.clone(),
                };
                emit_replace(patches, i, entry.to_normalized_entry(), Ghost(lo), Ghost(hi as int));
                assert(patches@.subrange(n0 as int, patches@.len() as int).drop_last() =~= pv.subrange(n0 as int, pv.len() as int));
            }
            j = j + 1;
        }
        assert forall|k: int| 0 <= k < self.patches@.len() implies patch_state_below((#[trigger] self.patches@[k]).1, hi) by {
            let q = choose|q: int| 0 <= q < before.len() && self.patches@[k] == before[q];
            assert(patch_state_below(before[q].1, hi));
        }
        assert(st.entries@.subrange(0, j as int) =~= st.entries@);
    }
}

/// `ps` settle the files `entries` of a patch call, in order: one replace for each file that
/// has an entry, showing the file with its final status.
pub open spec fn settled_all(entries: Seq<PatchEntry>, ps: Seq<ConversationPatch>, success: bool) -> bool
    decreases entries.len(),
{
    if entries.len() == 0 {
        ps.len() == 0
    } else {
        let e = entries.last();
        match e.index {
            Some(x) => {
                &&& ps.len() > 0
                &&& ps.last().index_of() == x
                &&& settled(ps.last(), success)
                &&& patch_entry_of(ps.last()).content@ == e.path@
                &&& settled_all(entries.drop_last(), ps.drop_last(), success)
            },
            None => settled_all(entries.drop_last(), ps, success),
        }
    }
}

} // verus!

verus! {

/// The session id that an event announces.
pub open spec fn event_session(e: CodexEvent) -> Option<Seq<char>> {
    match e {
        CodexEvent::SessionConfigured { session_id, .. } => Some(session_id@),
        _ => None,
    }
}

/// The number of indices that an event can hand out at most.
pub open spec fn event_room(s: CodexLogState, e: CodexEvent) -> int {
    match e {
        CodexEvent::ApplyPatchApprovalRequest { changes, .. } => changes@.len() as int + 1,
        CodexEvent::PatchApplyBegin { call_id, changes } => patch_count(s, call_id@) + changes@.len() + 1,
        _ => 1,
    }
}

/// The summary of a plan update: its explanation, trimmed, when there is one; else the number
/// of steps.
pub open spec fn plan_summary(n: nat, explanation: Option<String>) -> Seq<char> {
    let e = match explanation {
        Some(x) => trimmed(x@),
        None => Seq::empty(),
    };
    if e.len() > 0 {
        e
    } else if n == 0 {
        "Plan updated"@
    } else {
        "Plan updated ("@ + crate::diff::decimal(n) + " steps)"@
    }
}

/// `r` adds one entry, at `lo`, with the content `content`.
pub open spec fn adds_one(r: Seq<ConversationPatch>, lo: nat, content: Seq<char>) -> bool {
    &&& r.len() == 1
    &&& r[0] matches ConversationPatch::Add { index, entry }
    &&& index == lo
    &&& entry.content@ == content
}

/// What the event `e` does, taking the state from `p` to `q` and the index provider from
/// `lo` to `hi`, with the patches `r`.
pub open spec fn event_ok(
    p: CodexLogState,
    q: CodexLogState,
    e: CodexEvent,
    w: Seq<char>,
    lo: nat,
    hi: nat,
    r: Seq<ConversationPatch>,
) -> bool {
    match e {
        CodexEvent::SessionConfigured { model, reasoning_effort, .. } => adds_one(r, lo, model_params_text(model@, ov(reasoning_effort)))
            && patch_type(r[0]) is SystemMessage,
        CodexEvent::AgentMessageDelta { delta } => r.len() == 1 && patch_type(r[0]) is AssistantMessage
            && patch_entry_of(r[0]).content@ == appended(p.assistant, delta@) && q.thinking is None
            && streamed_ok(p.assistant, q.assistant, appended(p.assistant, delta@), r[0]),
        CodexEvent::AgentReasoningDelta { delta } => r.len() == 1 && patch_type(r[0]) is Thinking
            && patch_entry_of(r[0]).content@ == appended(p.thinking, delta@) && q.assistant is None
            && streamed_ok(p.thinking, q.thinking, appended(p.thinking, delta@), r[0]),
        CodexEvent::AgentMessage { message } => r.len() == 1 && patch_type(r[0]) is AssistantMessage
            && patch_entry_of(r[0]).content@ == message@ && q.assistant is None && q.thinking is None
            && (r[0] is Add <==> p.assistant is None) && (p.assistant matches Some(b) ==> b.index == r[0].index_of()),
        CodexEvent::AgentReasoning { text } => r.len() == 1 && patch_type(r[0]) is Thinking
            && patch_entry_of(r[0]).content@ == text@ && q.assistant is None && q.thinking is None
            && (r[0] is Add <==> p.thinking is None) && (p.thinking matches Some(b) ==> b.index == r[0].index_of()),
        CodexEvent::AgentReasoningSectionBreak => r.len() == 0 && q.assistant is None && q.thinking is None,
        CodexEvent::ExecApprovalRequest { call_id, command, reason } => r.len() == 1 && command_approval_ok(
            lookup(p.commands@, call_id@),
            lookup(q.commands@, call_id@),
            approval_command_text(command@, reason),
            r[0],
        ),
        CodexEvent::ExecCommandBegin { call_id, command } => if command_text(command@).len() == 0 {
            r.len() == 0
        } else {
            r.len() == 1 && r[0] is Add && command_begin_ok(lookup(q.commands@, call_id@), command@, r[0])
        },
        CodexEvent::ExecCommandOutputDelta { call_id, stream, chunk } => r.len() <= 1 && (r.len() == 1 <==> (lookup(p.commands@, call_id@) matches Some(o)
            && o.index is Some && chunk@.len() > 0)) && (r.len() == 1 ==> command_delta_ok(
            lookup(p.commands@, call_id@),
            lookup(q.commands@, call_id@),
            stream,
            chunk@,
            r[0],
        )),
        CodexEvent::ExecCommandEnd { call_id, exit_code, formatted_output } => (match lookup(p.commands@, call_id@) {
            Some(o) => if o.index is Some {
                r.len() == 1 && command_end_ok(o, exit_code, formatted_output@, r[0])
            } else {
                r.len() == 0
            },
            None => r.len() == 0,
        }) && lookup(q.commands@, call_id@) is None,
        CodexEvent::BackgroundEvent { message } => adds_one(r, lo, "Background event: "@ + message@)
            && patch_type(r[0]) is SystemMessage,
        CodexEvent::StreamError { message } => adds_one(r, lo, "Stream error: "@ + message@)
            && patch_type(r[0]) is ErrorMessage,
        CodexEvent::Error { message } => adds_one(r, lo, message@) && patch_type(r[0]) is ErrorMessage,
        CodexEvent::McpToolCallBegin { call_id, invocation } => r.len() == 1 && mcp_begin_ok(lookup(q.mcp_tools@, call_id@), invocation, r[0]),
        CodexEvent::WebSearchBegin { call_id } => r.len() == 1 && web_begin_ok(lookup(q.web_searches@, call_id@), r[0]),
        CodexEvent::ApplyPatchApprovalRequest { call_id, changes } => {
            let n1 = r.len() - changes@.len();
            &&& r.len() >= changes@.len()
            &&& removes_of(previews(lookup(p.patches@, call_id@)), r.subrange(0, n1))
            &&& lookup(q.patches@, call_id@) matches Some(st2)
            &&& files_ok(st2.entries@, changes@, w, true)
            &&& forall|k: int| 0 <= k < changes@.len() ==> shown_as_added(st2.entries@[k], #[trigger] r[n1 + k])
        },
        CodexEvent::PatchApplyBegin { call_id, changes } => begin_ok(
            previews(lookup(p.patches@, call_id@)),
            lookup(q.patches@, call_id@),
            changes@,
            w,
            r,
        ),
        CodexEvent::McpToolCallEnd { call_id, result } => (r.len() == 1 <==> (lookup(p.mcp_tools@, call_id@) matches Some(m)
            && m.index is Some)) && lookup(q.mcp_tools@, call_id@) is None
            && r.len() <= 1 && (r.len() == 1 ==> (lookup(p.mcp_tools@, call_id@) matches Some(m)
            && Some(r[0].index_of()) == m.index
            && mcp_end_ok(m, outcome_status(result), mcp_outcome(result), patch_entry_of(r[0])))),
        CodexEvent::PatchApplyEnd { call_id, success } => (match lookup(p.patches@, call_id@) {
            Some(st) => settled_all(st.entries@, r, success),
            None => r.len() == 0,
        }) && lookup(q.patches@, call_id@) is None,
        CodexEvent::WebSearchEnd { call_id, query } => (r.len() == 1 <==> (lookup(p.web_searches@, call_id@) matches Some(x)
            && x.index is Some)) && lookup(q.web_searches@, call_id@) is None && r.len() <= 1 && (r.len() == 1 ==> r[0] is Replace
            && Some(r[0].index_of()) == lookup(p.web_searches@, call_id@)->0.index
            && web_search_end_ok(query@, patch_entry_of(r[0]))),
        CodexEvent::ViewImageToolCall { path } => {
            &&& adds_one(r, lo, "`"@ + rel_path(path@, w) + "`"@)
            &&& patch_type(r[0]) matches NormalizedEntryType::ToolUse { tool_name, action_type, status }
            &&& tool_name@ == "view_image"@
            &&& status == ToolStatus::Success
            &&& action_type matches ActionType::FileRead { path: rp }
            &&& rp@ == rel_path(path@, w)
        },
        CodexEvent::PlanUpdate { plan, explanation } => {
            &&& adds_one(r, lo, plan_summary(plan@.len(), explanation))
            &&& patch_type(r[0]) matches NormalizedEntryType::ToolUse { tool_name, action_type, status }
            &&& tool_name@ == "plan"@
            &&& status == ToolStatus::Success
            &&& action_type matches ActionType::TodoManagement { todos, operation }
            &&& operation@ == "update"@
            &&& todos.len() == plan.len()
        },
        CodexEvent::TokenCount { .. } => r.len() == 0,
        CodexEvent::TurnAborted => r.len() == 0,
        CodexEvent::Other => r.len() == 0,
    }
}

fn add_message(
    patches: &mut Vec<ConversationPatch>,
    entry_type: NormalizedEntryType,
    label: &str,
    message: &String,
    entry_index_provider: &mut EntryIndexProvider,
    Ghost(lo): Ghost<int>,
)
    requires
        old(entry_index_provider).has_room(1),
        old(patches)@.len() == 0,
        lo == old(entry_index_provider).view_index(),
    ensures
        adds_one(final(patches)@, old(entry_index_provider).view_index(), label@ + message@),
        patch_type(final(patches)@[0]) == entry_type,
        final(entry_index_provider).view_index() == old(entry_index_provider).view_index() + 1,
        indexed(final(patches)@, lo, final(entry_index_provider).view_index() as int),
{
    let mut content = String::from_str(label);
    content.append(message.as_str());
    emit_add(patches, NormalizedEntry { entry_type, content }, entry_index_provider, Ghost(lo));
}

fn plan_todos(plan: &Vec<PlanItem>) -> (r: Vec<TodoItem>)
    ensures
        r.len() == plan.len(),
{
    let mut todos: Vec<TodoItem> = Vec::new();
    let mut k: usize = 0;
    while k < plan.len()
        invariant
            k <= plan.len(),
            todos.len() == k,
        decreases plan.len() - k,
    {
        todos.push(TodoItem { content: plan[k].step.clone(), status: format_todo_status(plan[k].status), priority: None });
        k = k + 1;
    }
    todos
}

fn plan_summary_text(n: usize, explanation: &Option<String>) -> (r: String)
    ensures
        r@ == plan_summary(n as nat, *explanation),
{
    if let Some(x) = explanation {
        let t = trim(x.as_str());
        if t.as_str().unicode_len() > 0 {
            return t;
        }
    }
    if n == 0 {
        String::from_str("Plan updated")
    } else {
        let mut s = String::from_str("Plan updated (");
        s.append(crate::diff::format_decimal(n).as_str());
        s.append(" steps)");
        s
    }
}

} // verus!

verus! {

impl CodexLogState {
    /// Handles one Codex event: announces the run's session id the first time one appears and
    /// gives the patches that the event makes.
    pub fn handle_event(
        &mut self,
        event: &CodexEvent,
        worktree_path: &str,
        entry_index_provider: &mut EntryIndexProvider,
    ) -> (r: (Option<String>, Vec<ConversationPatch>))
        requires
            old(self).wf(old(entry_index_provider).view_index()),
            old(entry_index_provider).has_room(event_room(*old(self), *event)),
        ensures
            final(self).wf(final(entry_index_provider).view_index()),
            indexed(r.1@, old(entry_index_provider).view_index() as int, final(entry_index_provider).view_index() as int),
            opt_view(r.0) == announce(old(self).session.emitted, event_session(*event)),
            final(self).session.emitted == (old(self).session.emitted || event_session(*event) is Some),
            event_ok(
                *old(self),
                *final(self),
                *event,
                worktree_path@,
                old(entry_index_provider).view_index(),
                final(entry_index_provider).view_index(),
                r.1@,
            ),
    {
        let ghost lo = entry_index_provider.view_index();
        let ghost lo_i = lo as int;
        let mut patches: Vec<ConversationPatch> = Vec::new();
        let mut announced: Option<String> = None;
        match event {
            CodexEvent::SessionConfigured { session_id, model, reasoning_effort } => {
                announced = self.session.offer(Some(session_id.clone()));
                emit_add(&mut patches, model_params_entry(model.as_str(), reasoning_effort), entry_index_provider, Ghost(lo_i));
                proof {
                    self.lemma_wf_grow(lo, entry_index_provider.view_index());
                }
            },
            CodexEvent::AgentMessageDelta { delta } => {
                self.thinking = None;
                self.streaming_text_update(delta, false, false, &mut patches, entry_index_provider, Ghost(lo_i));
            },
            CodexEvent::AgentReasoningDelta { delta } => {
                self.assistant = None;
                self.streaming_text_update(delta, true, false, &mut patches, entry_index_provider, Ghost(lo_i));
            },
            CodexEvent::AgentMessage { message } => {
                self.thinking = None;
                self.streaming_text_update(message, false, true, &mut patches, entry_index_provider, Ghost(lo_i));
                self.assistant = None;
            },
            CodexEvent::AgentReasoning { text } => {
                self.assistant = None;
                self.streaming_text_update(text, true, true, &mut patches, entry_index_provider, Ghost(lo_i));
                self.thinking = None;
            },
            CodexEvent::AgentReasoningSectionBreak => {
                self.assistant = None;
                self.thinking = None;
            },
            CodexEvent::ExecApprovalRequest { call_id, command, reason } => {
                self.exec_approval_request(call_id, command, reason, &mut patches, entry_index_provider, Ghost(lo_i));
            },
            CodexEvent::ApplyPatchApprovalRequest { call_id, changes } => {
                self.apply_patch_approval_request(call_id, changes, worktree_path, &mut patches, entry_index_provider, Ghost(lo_i));
            },
            CodexEvent::ExecCommandBegin { call_id, command } => {
                self.exec_command_begin(call_id, command, &mut patches, entry_index_provider, Ghost(lo_i));
            },
            CodexEvent::ExecCommandOutputDelta { call_id, stream, chunk } => {
                self.exec_command_output_delta(call_id, *stream, chunk, &mut patches, Ghost(lo_i), Ghost(lo));
            },
            CodexEvent::ExecCommandEnd { call_id, exit_code, formatted_output } => {
                self.exec_command_end(call_id, *exit_code, formatted_output, &mut patches, Ghost(lo_i), Ghost(lo));
            },
            CodexEvent::BackgroundEvent { message } => {
                add_message(&mut patches, NormalizedEntryType::SystemMessage, "Background event: ", message, entry_index_provider, Ghost(lo_i));
                proof {
                    self.lemma_wf_grow(lo, entry_index_provider.view_index());
                }
            },
            CodexEvent::StreamError { message } => {
                add_message(&mut patches, NormalizedEntryType::ErrorMessage, "Stream error: ", message, entry_index_provider, Ghost(lo_i));
                proof {
                    self.lemma_wf_grow(lo, entry_index_provider.view_index());
                }
            },
            CodexEvent::Error { message } => {
                add_message(&mut patches, NormalizedEntryType::ErrorMessage, "", message, entry_index_provider, Ghost(lo_i));
                proof {
                    reveal_strlit("");
                    assert(""@ + message@ =~= message@);
                    self.lemma_wf_grow(lo, entry_index_provider.view_index());
                }
            },
            CodexEvent::McpToolCallBegin { call_id, invocation } => {
                self.mcp_begin(call_id, invocation, &mut patches, entry_index_provider, Ghost(lo_i));
            },
            CodexEvent::McpToolCallEnd { call_id, result } => {
                self.mcp_end(call_id, result, &mut patches, Ghost(lo_i), Ghost(lo));
            },
            CodexEvent::PatchApplyBegin { call_id, changes } => {
                self.patch_apply_begin(call_id, changes, worktree_path, &mut patches, entry_index_provider, Ghost(lo_i));
            },
            CodexEvent::PatchApplyEnd { call_id, success } => {
                self.patch_apply_end(call_id, *success, &mut patches, Ghost(lo_i), Ghost(lo));
            },
            CodexEvent::WebSearchBegin { call_id } => {
                self.web_search_begin(call_id, &mut patches, entry_index_provider, Ghost(lo_i));
            },
            CodexEvent::WebSearchEnd { call_id, query } => {
                self.web_search_end(call_id, query, &mut patches, Ghost(lo_i), Ghost(lo));
            },
            CodexEvent::ViewImageToolCall { path } => {
                self.assistant = None;
                self.thinking = None;
                let relative = make_path_relative(path.as_str(), worktree_path);
                let entry = NormalizedEntry {
                    entry_type: NormalizedEntryType::ToolUse {
                        tool_name: String::from_str("view_image"),
                        action_type: ActionType::FileRead { path: relative.clone() },
                        status: ToolStatus::Success,
                    },
                    content: backticked(relative.as_str()),
                };
                emit_add(&mut patches, entry, entry_index_provider, Ghost(lo_i));
                proof {
                    self.lemma_wf_grow(lo, entry_index_provider.view_index());
                }
            },
            CodexEvent::PlanUpdate { plan, explanation } => {
                let entry = NormalizedEntry {
                    entry_type: NormalizedEntryType::ToolUse {
                        tool_name: String::from_str("plan"),
                        action_type: ActionType::TodoManagement {
                            todos: plan_todos(plan),
                            operation: String::from_str("update"),
                        },
                        status: ToolStatus::Success,
                    },
                    content: plan_summary_text(plan.len(), explanation),
                };
                emit_add(&mut patches, entry, entry_index_provider, Ghost(lo_i));
                proof {
                    self.lemma_wf_grow(lo, entry_index_provider.view_index());
                }
            },
            CodexEvent::TokenCount { info } => {
                if let Some(i) = info {
                    self.token_usage_info = Some(i.clone());
                }
            },
            CodexEvent::TurnAborted => {},
            CodexEvent::Other => {},
        }
        assert(patches@.subrange(0, patches@.len() as int) =~= patches@);
        (announced, patches)
    }
}

} // verus!
