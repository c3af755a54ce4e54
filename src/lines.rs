//! Splitting chunked output into complete lines.
use vstd::prelude::*;
use vstd::string::*;
use crate::text::chars_of;

verus! {

/// The lines of `ls`, each followed by a line break.
pub open spec fn with_breaks(ls: Seq<Seq<char>>) -> Seq<char>
    decreases ls.len(),
{
    if ls.len() == 0 {
        Seq::empty()
    } else {
        with_breaks(ls.drop_last()) + ls.last() + seq!['\n']
    }
}

pub open spec fn no_break(s: Seq<char>) -> bool {
    forall|i: int| 0 <= i < s.len() ==> s[i] != '\n'
}

pub open spec fn views(v: Seq<String>) -> Seq<Seq<char>> {
    v.map_values(|s: String| s@)
}

/// Output that has arrived but does not yet end a line.
pub struct LineBuffer {
    pub pending: String,
}

impl LineBuffer {
    pub fn new() -> (r: LineBuffer)
        ensures
            r.pending@.len() == 0,
    {
        LineBuffer { pending: String::new() }
    }

    /// Takes a chunk of output and gives the lines it completes, without their line breaks;
    /// the rest waits for the next chunk.
    pub fn push(&mut self, chunk: &str) -> (r: Vec<String>)
        requires
            no_break(old(self).pending@),
        ensures
            old(self).pending@ + chunk@ == with_breaks(views(r@)) + final(self).pending@,
            no_break(final(self).pending@),
            forall|i: int| 0 <= i < r@.len() ==> no_break(#[trigger] r@[i]@),
    {
        let mut all = self.pending.clone();
        all.append(chunk);
        let v = chars_of(all.as_str());
        let mut lines: Vec<String> = Vec::new();
        let mut start: usize = 0;
        let mut i: usize = 0;
        while i < v.len()
            invariant
                v@ == all@,
                start <= i <= v.len(),
                all@.subrange(0, start as int) == with_breaks(views(lines@)),
                no_break(all@.subrange(start as int, i as int)),
                forall|q: int| 0 <= q < lines@.len() ==> no_break(#[trigger] lines@[q]@),
            decreases v.len() - i,
        {
            if v[i] == '\n' {
                let line = String::from_str(all.as_str().substring_char(start, i));
                let ghost before = lines@;
                lines.push(line);
                proof {
                    assert(views(lines@).drop_last() =~= views(before));
                    assert(views(lines@).last() == line@);
                    assert(all@.subrange(0, i + 1) =~= all@.subrange(0, start as int) + line@ + seq!['\n']);
                    assert forall|q: int| 0 <= q < lines@.len() implies no_break(#[trigger] lines@[q]@) by {
                        if q < before.len() {
                            assert(lines@[q] == before[q]);
                        }
                    }
                }
                start = i + 1;
                assert(all@.subrange(start as int, start as int) =~= Seq::<char>::empty());
            } else {
                assert(all@.subrange(start as int, i + 1) =~= all@.subrange(start as int, i as int).push(v@[i as int]));
            }
            i = i + 1;
        }
        let rest = String::from_str(all.as_str().substring_char(start, v.len()));
        assert(all@ =~= all@.subrange(0, start as int) + rest@);
        self.pending = rest;
        lines
    }
}

} // verus!
