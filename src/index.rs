//! A monotonic allocator of entry indices.
use vstd::prelude::*;
use crate::entry::ConversationPatch;

verus! {

/// Hands out the indices of new conversation entries, in increasing order.
#[derive(Clone, Debug)]
pub struct EntryIndexProvider {
    next_index: usize,
}

/// One more than the largest index that `ps` touches, or 0 when it is empty.
pub open spec fn resume_point(ps: Seq<ConversationPatch>) -> int
    decreases ps.len(),
{
    if ps.len() == 0 {
        0
    } else {
        let rest = resume_point(ps.drop_last());
        let here = ps.last().index_of() + 1;
        if here > rest {
            here
        } else {
            rest
        }
    }
}

impl EntryIndexProvider {
    /// The index that the next call of `next` returns.
    pub closed spec fn view_index(&self) -> nat {
        self.next_index as nat
    }

    /// Whether `n` more indices can be handed out.
    pub open spec fn has_room(&self, n: int) -> bool {
        self.view_index() + n <= usize::MAX
    }

    /// A provider that starts at zero.
    pub fn test_new() -> (r: EntryIndexProvider)
        ensures
            r.view_index() == 0,
    {
        EntryIndexProvider { next_index: 0 }
    }

    /// A provider that resumes after every index that `history` touches.
    pub fn start_from(history: &Vec<ConversationPatch>) -> (r: EntryIndexProvider)
        requires
            forall|k: int| 0 <= k < history.len() ==> #[trigger] history@[k].index_of() < usize::MAX,
        ensures
            r.view_index() == resume_point(history@),
    {
        let mut next: usize = 0;
        let mut k: usize = 0;
        while k < history.len()
            invariant
                k <= history.len(),
                forall|j: int| 0 <= j < history.len() ==> #[trigger] history@[j].index_of() < usize::MAX,
                next == resume_point(history@.subrange(0, k as int)),
            decreases history.len() - k,
        {
            let i = match &history[k] {
                ConversationPatch::Add { index, .. } => *index,
                ConversationPatch::Replace { index, .. } => *index,
                ConversationPatch::Remove { index } => *index,
            };
            assert(history@.subrange(0, k + 1).drop_last() =~= history@.subrange(0, k as int));
            assert(i == history@[k as int].index_of());
            if i + 1 > next {
                next = i + 1;
            }
            k = k + 1;
        }
        assert(history@.subrange(0, k as int) =~= history@);
        EntryIndexProvider { next_index: next }
    }

    /// Hands out the next index.
    pub fn next(&mut self) -> (r: usize)
        requires
            old(self).has_room(1),
        ensures
            r == old(self).view_index(),
            final(self).view_index() == old(self).view_index() + 1,
    {
        let r = self.next_index;
        self.next_index = self.next_index + 1;
        r
    }

    /// The index that the next call of `next` returns.
    pub fn current(&self) -> (r: usize)
        ensures
            r == self.view_index(),
    {
        self.next_index
    }

    /// Starts again from zero.
    pub fn reset(&mut self)
        ensures
            final(self).view_index() == 0,
    {
        self.next_index = 0;
    }
}

} // verus!
