//! Partial assistant and thinking blocks, rebuilt from the agent's streaming deltas.
use vstd::prelude::*;
use vstd::string::*;
use crate::assoc::{find_last_n, lemma_lookup_push_n, lemma_lookup_update_n, lookup_n};
use crate::claude::{ClaudeContentBlockDelta, ClaudeContentItem};
use crate::claude_tools::{content_item_to_normalized_entry};
use crate::entry::{ConversationPatch, NormalizedEntry, indexed};
use crate::index::EntryIndexProvider;

verus! {

#[derive(Clone, Copy, Debug, PartialEq, Eq, Structural)]
pub enum StreamingContentKind {
    Text,
    Thinking,
}

/// One streaming block: what its deltas have built so far, and its entry once it has one.
pub struct StreamingContentState {
    pub kind: StreamingContentKind,
    pub buffer: String,
    pub entry_index: Option<usize>,
}

/// The block text after `d` is applied to `buf`: a delta of the block's kind appends its text,
/// any other delta is dropped.
pub open spec fn delta_step(kind: StreamingContentKind, buf: Seq<char>, d: ClaudeContentBlockDelta) -> Seq<char> {
    match d {
        ClaudeContentBlockDelta::TextDelta { text } => if kind == StreamingContentKind::Text {
            buf + text@
        } else {
            buf
        },
        ClaudeContentBlockDelta::ThinkingDelta { thinking } => if kind
            == StreamingContentKind::Thinking {
            buf + thinking@
        } else {
            buf
        },
        ClaudeContentBlockDelta::Unknown => buf,
    }
}

/// The block text after the deltas `ds`, in order.
pub open spec fn replay(kind: StreamingContentKind, buf: Seq<char>, ds: Seq<ClaudeContentBlockDelta>) -> Seq<char>
    decreases ds.len(),
{
    if ds.len() == 0 {
        buf
    } else {
        delta_step(kind, replay(kind, buf, ds.drop_last()), ds.last())
    }
}

/// The text that a delta adds to a block of kind `kind`.
pub open spec fn delta_text(kind: StreamingContentKind, d: ClaudeContentBlockDelta) -> Seq<char> {
    delta_step(kind, Seq::empty(), d)
}

/// The texts of `ds` that a block of kind `kind` takes, one after the other.
pub open spec fn delta_texts(kind: StreamingContentKind, ds: Seq<ClaudeContentBlockDelta>) -> Seq<char>
    decreases ds.len(),
{
    if ds.len() == 0 {
        Seq::empty()
    } else {
        delta_texts(kind, ds.drop_last()) + delta_text(kind, ds.last())
    }
}

/// Streaming idempotence: a block's final text is its starting text followed by the texts of
/// its deltas, so the same deltas always give the same text.
pub proof fn lemma_replay_appends(kind: StreamingContentKind, buf: Seq<char>, ds: Seq<ClaudeContentBlockDelta>)
    ensures
        replay(kind, buf, ds) == buf + delta_texts(kind, ds),
    decreases ds.len(),
{
    if ds.len() == 0 {
        assert(buf + Seq::<char>::empty() =~= buf);
    } else {
        lemma_replay_appends(kind, buf, ds.drop_last());
        let d = ds.last();
        match d {
            ClaudeContentBlockDelta::TextDelta { text } => {
                assert(Seq::<char>::empty() + text@ =~= text@);
            },
            ClaudeContentBlockDelta::ThinkingDelta { thinking } => {
                assert(Seq::<char>::empty() + thinking@ =~= thinking@);
            },
            ClaudeContentBlockDelta::Unknown => {},
        }
        assert(buf + delta_texts(kind, ds.drop_last()) + delta_text(kind, d) =~= buf + delta_texts(
            kind,
            ds,
        ));
    }
}

/// Streaming idempotence: replaying `a` and then `b` gives what replaying `a + b` gives.
pub proof fn lemma_replay_concat(
    kind: StreamingContentKind,
    buf: Seq<char>,
    a: Seq<ClaudeContentBlockDelta>,
    b: Seq<ClaudeContentBlockDelta>,
)
    ensures
        replay(kind, buf, a + b) == replay(kind, replay(kind, buf, a), b),
    decreases b.len(),
{
    if b.len() == 0 {
        assert(a + b =~= a);
    } else {
        lemma_replay_concat(kind, buf, a, b.drop_last());
        assert((a + b).drop_last() =~= a + b.drop_last());
        assert((a + b).last() == b.last());
    }
}

/// The block text that a block of `kind` shows as an entry, when `role` lets it show.
pub open spec fn block_entry_ok(kind: StreamingContentKind, buf: Seq<char>, e: NormalizedEntry) -> bool {
    &&& e.content@ == buf
    &&& kind == StreamingContentKind::Text ==> e.entry_type is AssistantMessage
    &&& kind == StreamingContentKind::Thinking ==> e.entry_type is Thinking
}

impl StreamingContentState {
    /// The block that a `content_block_start` announces: text and thinking blocks only.
    pub fn from_content_block(content_block: ClaudeContentItem) -> (r: Option<StreamingContentState>)
        ensures
            content_block matches ClaudeContentItem::Text { text } ==> (r matches Some(s) && s.kind
                == StreamingContentKind::Text && s.buffer == text && s.entry_index is None),
            content_block matches ClaudeContentItem::Thinking { thinking } ==> (r matches Some(s)
                && s.kind == StreamingContentKind::Thinking && s.buffer == thinking
                && s.entry_index is None),
            content_block is ToolUse || content_block is ToolResult ==> r is None,
    {
        match content_block {
            ClaudeContentItem::Text { text } => Some(
                StreamingContentState {
                    kind: StreamingContentKind::Text,
                    buffer: text,
                    entry_index: None,
                },
            ),
            ClaudeContentItem::Thinking { thinking } => Some(
                StreamingContentState {
                    kind: StreamingContentKind::Thinking,
                    buffer: thinking,
                    entry_index: None,
                },
            ),
            _ => None,
        }
    }

    /// An empty block of the kind of a delta that arrives unannounced.
    pub fn from_delta(delta: &ClaudeContentBlockDelta) -> (r: Option<StreamingContentState>)
        ensures
            delta is TextDelta ==> (r matches Some(s) && s.kind == StreamingContentKind::Text
                && s.buffer@.len() == 0 && s.entry_index is None),
            delta is ThinkingDelta ==> (r matches Some(s) && s.kind == StreamingContentKind::Thinking
                && s.buffer@.len() == 0 && s.entry_index is None),
            delta is Unknown ==> r is None,
    {
        match delta {
            ClaudeContentBlockDelta::TextDelta { .. } => Some(
                StreamingContentState {
                    kind: StreamingContentKind::Text,
                    buffer: String::new(),
                    entry_index: None,
                },
            ),
            ClaudeContentBlockDelta::ThinkingDelta { .. } => Some(
                StreamingContentState {
                    kind: StreamingContentKind::Thinking,
                    buffer: String::new(),
                    entry_index: None,
                },
            ),
            ClaudeContentBlockDelta::Unknown => None,
        }
    }

    /// Applies one delta to the block.
    pub fn apply_content_delta(&mut self, delta: &ClaudeContentBlockDelta)
        ensures
            final(self).buffer@ == delta_step(old(self).kind, old(self).buffer@, *delta),
            final(self).kind == old(self).kind,
            final(self).entry_index == old(self).entry_index,
    {
        match delta {
            ClaudeContentBlockDelta::TextDelta { text } => {
                if self.kind == StreamingContentKind::Text {
                    self.buffer.append(text.as_str());
                }
            },
            ClaudeContentBlockDelta::ThinkingDelta { thinking } => {
                if self.kind == StreamingContentKind::Thinking {
                    self.buffer.append(thinking.as_str());
                }
            },
            ClaudeContentBlockDelta::Unknown => {},
        }
    }

    /// The block as a content item.
    pub fn to_content_item(&self) -> (r: ClaudeContentItem)
        ensures
            self.kind == StreamingContentKind::Text ==> (r matches ClaudeContentItem::Text { text }
                && text@ == self.buffer@),
            self.kind == StreamingContentKind::Thinking ==> (r matches ClaudeContentItem::Thinking {
                thinking,
            } && thinking@ == self.buffer@),
    {
        match self.kind {
            StreamingContentKind::Text => ClaudeContentItem::Text { text: self.buffer.clone() },
            StreamingContentKind::Thinking => ClaudeContentItem::Thinking {
                thinking: self.buffer.clone(),
            },
        }
    }
}

/// One streaming message: its role and its blocks, by block index.
pub struct StreamingMessageState {
    pub role: String,
    pub contents: Vec<(usize, StreamingContentState)>,
}

impl StreamingMessageState {
    /// Every entry index that a block holds is below `n`.
    pub open spec fn indices_below(&self, n: nat) -> bool {
        forall|i: int|
            0 <= i < self.contents@.len() ==> ((#[trigger] self.contents@[i]).1.entry_index matches Some(
                x,
            ) ==> x < n)
    }

    /// The block at `index`.
    pub open spec fn block(&self, index: usize) -> Option<StreamingContentState> {
        lookup_n(self.contents@, index)
    }

    pub fn new(role: String) -> (r: StreamingMessageState)
        ensures
            r.role == role,
            r.contents@.len() == 0,
    {
        StreamingMessageState { role, contents: Vec::new() }
    }

    /// Registers the block that a `content_block_start` announces.
    pub fn content_block_start(&mut self, index: usize, content_block: ClaudeContentItem)
        ensures
            final(self).role == old(self).role,
            forall|n: nat| old(self).indices_below(n) ==> final(self).indices_below(n),
            content_block matches ClaudeContentItem::Text { text } ==> (final(self).block(index) matches Some(s)
                && s.entry_index is None && s.kind == StreamingContentKind::Text && s.buffer == text),
            content_block matches ClaudeContentItem::Thinking { thinking } ==> (final(self).block(index) matches Some(s)
                && s.entry_index is None && s.kind == StreamingContentKind::Thinking && s.buffer == thinking),
            content_block is ToolUse || content_block is ToolResult ==> final(self).contents
                == old(self).contents,
            forall|k: usize| k != index ==> #[trigger] final(self).block(k) == old(self).block(k),
    {
        if let Some(state) = StreamingContentState::from_content_block(content_block) {
            proof {
                lemma_lookup_push_n(self.contents@, index, state);
            }
            self.contents.push((index, state));
        }
    }

    /// The entry index of block `content_index`, once it has one.
    pub fn content_entry_index(&self, content_index: usize) -> (r: Option<usize>)
        ensures
            r == (match self.block(content_index) {
                Some(s) => s.entry_index,
                None => None,
            }),
    {
        match find_last_n(&self.contents, content_index) {
            Some(i) => self.contents[i].1.entry_index,
            None => None,
        }
    }

    /// The kind that block `index` has, or takes from `d` when `d` opens it.
    pub open spec fn start_kind(&self, index: usize, d: ClaudeContentBlockDelta) -> StreamingContentKind {
        match self.block(index) {
            Some(s) => s.kind,
            None => if d is TextDelta {
                StreamingContentKind::Text
            } else {
                StreamingContentKind::Thinking
            },
        }
    }

    /// The text of block `index` so far.
    pub open spec fn start_text(&self, index: usize) -> Seq<char> {
        match self.block(index) {
            Some(s) => s.buffer@,
            None => Seq::empty(),
        }
    }

    /// The entry index of block `index` so far.
    pub open spec fn start_entry(&self, index: usize) -> Option<usize> {
        match self.block(index) {
            Some(s) => s.entry_index,
            None => None,
        }
    }

    /// Applies a delta to block `index` (opening the block when the delta is the first word of
    /// it), and gives the patch that shows the block's text: an add the first time, a replace
    /// of the same entry afterwards.
    pub fn apply_content_block_delta(
        &mut self,
        index: usize,
        delta: &ClaudeContentBlockDelta,
        worktree_path: &str,
        entry_index_provider: &mut EntryIndexProvider,
    ) -> (r: Option<ConversationPatch>)
        requires
            old(entry_index_provider).has_room(1),
            old(self).indices_below(old(entry_index_provider).view_index()),
        ensures
            final(self).role == old(self).role,
            final(self).indices_below(final(entry_index_provider).view_index()),
            old(entry_index_provider).view_index() <= final(entry_index_provider).view_index(),
            indexed(
                match r {
                    Some(p) => seq![p],
                    None => Seq::empty(),
                },
                old(entry_index_provider).view_index() as int,
                final(entry_index_provider).view_index() as int,
            ),
            forall|k: usize| k != index ==> #[trigger] final(self).block(k) == old(self).block(k),
            old(self).block(index) is None && delta is Unknown ==> r is None && final(self).contents
                == old(self).contents,
            !(old(self).block(index) is None && delta is Unknown) ==> (final(self).block(index) matches Some(s)
                && s.kind == old(self).start_kind(index, *delta)
                && s.buffer@ == delta_step(s.kind, old(self).start_text(index), *delta)
                && ((s.kind == StreamingContentKind::Thinking || old(self).role@ == "assistant"@) <==> r is Some)
                && (r is None ==> s.entry_index == old(self).start_entry(index))
                && (old(self).start_entry(index) is Some ==> s.entry_index == old(self).start_entry(index))
                && (r matches Some(p) ==> (s.entry_index matches Some(x) && p.index_of() == x)
                    && (p is Add <==> old(self).start_entry(index) is None)
                    && match p {
                        ConversationPatch::Add { entry, .. } => block_entry_ok(s.kind, s.buffer@, entry),
                        ConversationPatch::Replace { entry, .. } => block_entry_ok(s.kind, s.buffer@, entry),
                        ConversationPatch::Remove { .. } => false,
                    })),
    {
        let pos = match find_last_n(&self.contents, index) {
            Some(i) => i,
            None => {
                let fresh = StreamingContentState::from_delta(delta);
                match fresh {
                    None => {
                        return None;
                    },
                    Some(state) => {
                        proof {
                            lemma_lookup_push_n(self.contents@, index, state);
                        }
                        self.contents.push((index, state));
                        self.contents.len() - 1
                    },
                }
            },
        };
        let ghost before = self.contents@;
        assert(crate::assoc::last_at_n(before, index, pos as int));
        assert(before[pos as int].1.entry_index matches Some(x) ==> x < entry_index_provider.view_index());
        assert forall|i: int| 0 <= i < before.len() implies ((#[trigger] before[i]).1.entry_index matches Some(x)
            ==> x < entry_index_provider.view_index()) by {
            if i < old(self).contents@.len() {
                assert(before[i] == old(self).contents@[i]);
            }
        }
        let cur = &self.contents[pos].1;
        let mut st = StreamingContentState {
            kind: cur.kind,
            buffer: cur.buffer.clone(),
            entry_index: cur.entry_index,
        };
        st.apply_content_delta(delta);
        let item = st.to_content_item();
        let entry_opt = content_item_to_normalized_entry(&item, self.role.as_str(), worktree_path);
        let r = match entry_opt {
            None => None,
            Some(entry) => match st.entry_index {
                Some(ei) => Some(ConversationPatch::Replace { index: ei, entry }),
                None => {
                    let ei = entry_index_provider.next();
                    st.entry_index = Some(ei);
                    Some(ConversationPatch::Add { index: ei, entry })
                },
            },
        };
        proof {
            lemma_lookup_update_n(before, index, pos as int, st);
            let lo = old(entry_index_provider).view_index() as int;
            assert(indexed(Seq::<ConversationPatch>::empty(), lo, lo));
            if r is Some {
                crate::entry::lemma_indexed_push(Seq::empty(), lo, lo, r->0);
                assert(Seq::<ConversationPatch>::empty().push(r->0) =~= seq![r->0]);
            }
        }
        self.contents.set(pos, (index, st));
        assert(self.contents@ == before.update(pos as int, (index, st)));
        r
    }
}

} // verus!
