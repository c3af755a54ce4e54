//! The session id of a run, announced once.
use vstd::prelude::*;

verus! {

/// Remembers whether the run's session id has been announced.
pub struct SessionIdSlot {
    pub emitted: bool,
}

/// What offering `id` to a slot in state `emitted` announces.
pub open spec fn announce(emitted: bool, id: Option<Seq<char>>) -> Option<Seq<char>> {
    if !emitted && id is Some {
        id
    } else {
        None
    }
}

/// The ids announced while the ids `ids` are offered in order, starting from `emitted`.
pub open spec fn announced(emitted: bool, ids: Seq<Option<Seq<char>>>) -> Seq<Seq<char>>
    decreases ids.len(),
{
    if ids.len() == 0 {
        Seq::empty()
    } else {
        let before = announced(emitted, ids.drop_last());
        let now_emitted = emitted || exists|i: int| 0 <= i < ids.len() - 1 && ids[i] is Some;
        match announce(now_emitted, ids.last()) {
            Some(x) => before.push(x),
            None => before,
        }
    }
}

/// Session broadcast uniqueness: over a run, at most one id is announced, and it is the first
/// id offered.
pub proof fn lemma_announced_once(ids: Seq<Option<Seq<char>>>)
    ensures
        announced(false, ids).len() <= 1,
        (exists|i: int| 0 <= i < ids.len() && ids[i] is Some) ==> announced(false, ids) == seq![
            ids[first_some(ids)]->0,
        ],
        !(exists|i: int| 0 <= i < ids.len() && ids[i] is Some) ==> announced(false, ids).len() == 0,
    decreases ids.len(),
{
    if ids.len() > 0 {
        let init = ids.drop_last();
        lemma_announced_once(init);
        assert forall|i: int| 0 <= i < init.len() implies init[i] == ids[i] by {}
        if exists|i: int| 0 <= i < init.len() && init[i] is Some {
            let f = first_some(init);
            lemma_first_some(init);
            lemma_first_some(ids);
            assert(ids[f] is Some);
            assert(first_some(ids) == f) by {
                let g = first_some(ids);
                if g < f {
                    assert(init[g] is Some);
                }
            }
        } else {
            if ids.last() is Some {
                lemma_first_some(ids);
                let g = first_some(ids);
                if g < ids.len() - 1 {
                    assert(init[g] is Some);
                }
                assert(announced(false, ids) =~= seq![ids.last()->0]);
            }
        }
    }
}

/// The position of the first id offered, when one is.
pub open spec fn first_some(ids: Seq<Option<Seq<char>>>) -> int {
    choose|i: int| 0 <= i < ids.len() && ids[i] is Some && forall|j: int| 0 <= j < i ==> ids[j] is None
}

pub proof fn lemma_first_some(ids: Seq<Option<Seq<char>>>)
    requires
        exists|i: int| 0 <= i < ids.len() && ids[i] is Some,
    ensures
        0 <= first_some(ids) < ids.len(),
        ids[first_some(ids)] is Some,
        forall|j: int| 0 <= j < first_some(ids) ==> ids[j] is None,
{
    let w = choose|i: int| 0 <= i < ids.len() && ids[i] is Some;
    lemma_least_some(ids, w);
}

proof fn lemma_least_some(ids: Seq<Option<Seq<char>>>, w: int)
    requires
        0 <= w < ids.len(),
        ids[w] is Some,
    ensures
        exists|i: int| 0 <= i < ids.len() && ids[i] is Some && forall|j: int| 0 <= j < i ==> ids[j] is None,
    decreases w,
{
    if exists|j: int| 0 <= j < w && ids[j] is Some {
        let j = choose|j: int| 0 <= j < w && ids[j] is Some;
        lemma_least_some(ids, j);
    }
}

pub open spec fn opt_view(o: Option<String>) -> Option<Seq<char>> {
    match o {
        Some(s) => Some(s@),
        None => None,
    }
}

impl SessionIdSlot {
    pub fn new() -> (r: SessionIdSlot)
        ensures
            !r.emitted,
    {
        SessionIdSlot { emitted: false }
    }

    /// Offers a session id; gives it back when it is the first one of the run.
    pub fn offer(&mut self, id: Option<String>) -> (r: Option<String>)
        ensures
            opt_view(r) == announce(old(self).emitted, opt_view(id)),
            final(self).emitted == (old(self).emitted || id is Some),
    {
        if self.emitted {
            return None;
        }
        match id {
            Some(s) => {
                self.emitted = true;
                Some(s)
            },
            None => None,
        }
    }
}

} // verus!
