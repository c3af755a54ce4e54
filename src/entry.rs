//! The canonical conversation entry and the patches that build a conversation.
use vstd::prelude::*;

verus! {

#[derive(Clone, Copy, Debug, PartialEq, Eq, Structural)]
pub enum ToolStatus {
    Created,
    Success,
    Failed,
}

#[derive(Clone, Copy, Debug, PartialEq, Eq, Structural)]
pub enum CommandExitStatus {
    ExitCode { code: i32 },
    Success { success: bool },
}

#[derive(Clone, Debug, PartialEq)]
pub struct CommandRunResult {
    pub exit_status: Option<CommandExitStatus>,
    pub output: Option<String>,
}

#[derive(Clone, Copy, Debug, PartialEq, Eq, Structural)]
pub enum ToolResultValueType {
    Markdown,
    Json,
}

/// A tool's result. A `Json` value is held as its JSON text.
#[derive(Clone, Debug, PartialEq)]
pub struct ToolResult {
    pub value_type: ToolResultValueType,
    pub value: String,
}

#[derive(Clone, Debug, PartialEq)]
pub struct TodoItem {
    pub content: String,
    pub status: String,
    pub priority: Option<String>,
}

#[derive(Clone, Debug, PartialEq)]
pub enum FileChange {
    Write { content: String },
    Delete,
    Rename { new_path: String },
    Edit { unified_diff: String, has_line_numbers: bool },
}

/// What a tool invocation does. Tool arguments are held as JSON text.
#[derive(Clone, Debug, PartialEq)]
pub enum ActionType {
    FileRead { path: String },
    FileEdit { path: String, changes: Vec<FileChange> },
    CommandRun { command: String, result: Option<CommandRunResult> },
    Search { query: String },
    WebFetch { url: String },
    TaskCreate { description: String },
    PlanPresentation { plan: String },
    TodoManagement { todos: Vec<TodoItem>, operation: String },
    Tool { tool_name: String, arguments: Option<String>, result: Option<ToolResult> },
    Other { description: String },
}

#[derive(Clone, Debug, PartialEq)]
pub enum NormalizedEntryType {
    SystemMessage,
    UserMessage,
    UserFeedback { denied_tool: String },
    AssistantMessage,
    Thinking,
    ErrorMessage,
    ToolUse { tool_name: String, action_type: ActionType, status: ToolStatus },
}

/// One line of the canonical conversation.
#[derive(Clone, Debug, PartialEq)]
pub struct NormalizedEntry {
    pub entry_type: NormalizedEntryType,
    pub content: String,
}

/// One change to the conversation's entry list.
#[derive(Clone, Debug, PartialEq)]
pub enum ConversationPatch {
    Add { index: usize, entry: NormalizedEntry },
    Replace { index: usize, entry: NormalizedEntry },
    Remove { index: usize },
}

impl NormalizedEntry {
    pub fn new(entry_type: NormalizedEntryType, content: String) -> (r: NormalizedEntry)
        ensures
            r.entry_type == entry_type,
            r.content == content,
    {
        NormalizedEntry { entry_type, content }
    }
}

impl ConversationPatch {
    pub open spec fn index_of(self) -> usize {
        match self {
            ConversationPatch::Add { index, .. } => index,
            ConversationPatch::Replace { index, .. } => index,
            ConversationPatch::Remove { index } => index,
        }
    }
}

/// A patch that adds `entry` at `index` when `is_new`, else replaces the entry there.
pub fn upsert(index: usize, entry: NormalizedEntry, is_new: bool) -> (r: ConversationPatch)
    ensures
        is_new ==> r == (ConversationPatch::Add { index, entry }),
        !is_new ==> r == (ConversationPatch::Replace { index, entry }),
{
    if is_new {
        ConversationPatch::Add { index, entry }
    } else {
        ConversationPatch::Replace { index, entry }
    }
}

/// `ps`, applied in order to a conversation whose next free index is `lo`, adds entries at
/// `lo`, `lo + 1`, ... up to `hi - 1`, each once and in that order, and every replace or
/// remove targets an index that was handed out before it.
pub open spec fn indexed(ps: Seq<ConversationPatch>, lo: int, hi: int) -> bool
    decreases ps.len(),
{
    if ps.len() == 0 {
        lo == hi
    } else {
        match ps.last() {
            ConversationPatch::Add { index, .. } => {
                &&& index == hi - 1
                &&& lo <= index
                &&& indexed(ps.drop_last(), lo, hi - 1)
            },
            ConversationPatch::Replace { index, .. } => index < hi && indexed(
                ps.drop_last(),
                lo,
                hi,
            ),
            ConversationPatch::Remove { index } => index < hi && indexed(ps.drop_last(), lo, hi),
        }
    }
}

/// Every patch of `ps` adds an entry, or replaces one whose index is below `lo` (handed out
/// before the patches began); none removes.
pub open spec fn settles_below(ps: Seq<ConversationPatch>, lo: int) -> bool {
    forall|i: int| 0 <= i < ps.len() ==> (#[trigger] ps[i]) is Add || (ps[i] is Replace && ps[i].index_of() < lo)
}

/// The indices at which `ps` adds entries.
pub open spec fn added(ps: Seq<ConversationPatch>) -> Set<int> {
    Set::new(|i: int| exists|k: int| 0 <= k < ps.len() && ps[k] is Add && #[trigger] ps[k].index_of() == i)
}

pub proof fn lemma_indexed_push(ps: Seq<ConversationPatch>, lo: int, hi: int, p: ConversationPatch)
    requires
        indexed(ps, lo, hi),
    ensures
        p is Add && p.index_of() == hi ==> indexed(ps.push(p), lo, hi + 1),
        !(p is Add) && p.index_of() < hi ==> indexed(ps.push(p), lo, hi),
{
    lemma_indexed_bounds(ps, lo, hi);
    assert(ps.push(p).drop_last() =~= ps);
}

pub proof fn lemma_indexed_bounds(ps: Seq<ConversationPatch>, lo: int, hi: int)
    requires
        indexed(ps, lo, hi),
    ensures
        lo <= hi,
        forall|k: int| 0 <= k < ps.len() ==> #[trigger] ps[k].index_of() < hi,
        forall|k: int| 0 <= k < ps.len() && ps[k] is Add ==> lo <= #[trigger] ps[k].index_of(),
    decreases ps.len(),
{
    if ps.len() > 0 {
        let last = ps.last();
        let h2: int = if last is Add { hi - 1 } else { hi };
        lemma_indexed_bounds(ps.drop_last(), lo, h2);
        assert forall|k: int| 0 <= k < ps.len() implies #[trigger] ps[k].index_of() < hi by {
            if k < ps.len() - 1 {
                assert(ps[k] == ps.drop_last()[k]);
            }
        }
        assert forall|k: int| 0 <= k < ps.len() && ps[k] is Add implies lo
            <= #[trigger] ps[k].index_of() by {
            if k < ps.len() - 1 {
                assert(ps[k] == ps.drop_last()[k]);
            }
        }
    }
}

/// Index stability: a stream made of well-indexed pieces, each starting where the last one
/// stopped, is well-indexed as a whole.
pub proof fn lemma_indexed_concat(a: Seq<ConversationPatch>, b: Seq<ConversationPatch>, lo: int, mid: int, hi: int)
    requires
        indexed(a, lo, mid),
        indexed(b, mid, hi),
    ensures
        indexed(a + b, lo, hi),
    decreases b.len(),
{
    if b.len() == 0 {
        assert(a + b =~= a);
    } else {
        let last = b.last();
        let h2: int = if last is Add { hi - 1 } else { hi };
        lemma_indexed_bounds(a, lo, mid);
        lemma_indexed_bounds(b.drop_last(), mid, h2);
        lemma_indexed_concat(a, b.drop_last(), lo, mid, h2);
        assert((a + b).drop_last() =~= a + b.drop_last());
        assert((a + b).last() == b.last());
    }
}

/// Index stability: in a well-indexed stream the added indices are exactly `lo .. hi`, and no
/// index is added twice.
pub proof fn lemma_indexed_adds(ps: Seq<ConversationPatch>, lo: int, hi: int)
    requires
        indexed(ps, lo, hi),
    ensures
        added(ps) == Set::new(|i: int| lo <= i < hi),
        forall|j: int, k: int|
            0 <= j < k < ps.len() && ps[j] is Add && ps[k] is Add ==> #[trigger] ps[j].index_of()
                < #[trigger] ps[k].index_of(),
    decreases ps.len(),
{
    if ps.len() == 0 {
        assert(added(ps) =~= Set::new(|i: int| lo <= i < hi));
    } else {
        let last = ps.last();
        let init = ps.drop_last();
        let h2: int = if last is Add { hi - 1 } else { hi };
        lemma_indexed_adds(init, lo, h2);
        lemma_indexed_bounds(init, lo, h2);
        assert forall|k: int| 0 <= k < init.len() implies #[trigger] ps[k] == init[k] by {}
        assert forall|i: int| added(ps).contains(i) <==> lo <= i < hi by {
            if lo <= i < hi {
                if last is Add && i == hi - 1 {
                    assert(ps[ps.len() - 1].index_of() == i);
                } else {
                    assert(added(init).contains(i));
                    let k = choose|k: int| 0 <= k < init.len() && init[k] is Add && #[trigger] init[k].index_of() == i;
                    assert(ps[k] == init[k]);
                }
            }
            if added(ps).contains(i) {
                let k = choose|k: int| 0 <= k < ps.len() && ps[k] is Add && #[trigger] ps[k].index_of() == i;
                if k < init.len() {
                    assert(init[k] == ps[k]);
                    assert(added(init).contains(i));
                }
            }
        }
        assert(added(ps) =~= Set::new(|i: int| lo <= i < hi));
    }
}

} // verus!
