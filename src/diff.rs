//! Unified diffs for edits that agents report as old and new text.
use vstd::prelude::*;
use vstd::string::*;
use crate::text::{chars_of, find_from, first_at, occurs_at};

verus! {

pub open spec fn digit(d: int) -> Seq<char> {
    if d == 0 { "0"@ } else if d == 1 { "1"@ } else if d == 2 { "2"@ } else if d == 3 { "3"@ }
    else if d == 4 { "4"@ } else if d == 5 { "5"@ } else if d == 6 { "6"@ } else if d == 7 { "7"@ }
    else if d == 8 { "8"@ } else { "9"@ }
}

/// The decimal digits of `n`.
pub open spec fn decimal(n: nat) -> Seq<char>
    decreases n,
{
    if n < 10 {
        digit(n as int)
    } else {
        decimal(n / 10) + digit((n % 10) as int)
    }
}

fn digit_str(d: usize) -> (r: &'static str)
    requires
        d < 10,
    ensures
        r@ == digit(d as int),
{
    if d == 0 { "0" } else if d == 1 { "1" } else if d == 2 { "2" } else if d == 3 { "3" }
    else if d == 4 { "4" } else if d == 5 { "5" } else if d == 6 { "6" } else if d == 7 { "7" }
    else if d == 8 { "8" } else { "9" }
}

pub fn format_decimal(n: usize) -> (r: String)
    ensures
        r@ == decimal(n as nat),
    decreases n,
{
    if n < 10 {
        String::from_str(digit_str(n))
    } else {
        let mut s = format_decimal(n / 10);
        s.append(digit_str(n % 10));
        s
    }
}

/// The number of line breaks in `t`.
pub open spec fn line_count(t: Seq<char>) -> nat
    decreases t.len(),
{
    if t.len() == 0 {
        0
    } else {
        line_count(t.drop_last()) + if t.last() == '\n' { 1nat } else { 0nat }
    }
}

/// `t` with `sign` put in front of each of its lines.
pub open spec fn marked(sign: Seq<char>, t: Seq<char>) -> Seq<char>
    decreases t.len(),
{
    if t.len() == 0 {
        Seq::empty()
    } else {
        let starts_line = t.len() == 1 || t[t.len() - 2] == '\n';
        marked(sign, t.drop_last()) + (if starts_line { sign } else { Seq::empty() }) + seq![t.last()]
    }
}

/// `t`, ended by a line break unless it is empty or already ends with one.
pub open spec fn closed_text(t: Seq<char>) -> Seq<char> {
    if t.len() == 0 || t.last() == '\n' {
        t
    } else {
        t + "\n"@
    }
}

/// A hunk that removes every line of `old` and adds every line of `new`.
pub open spec fn hunk(old: Seq<char>, new: Seq<char>) -> Seq<char> {
    "@@ -1,"@ + decimal(line_count(closed_text(old))) + " +1,"@ + decimal(
        line_count(closed_text(new)),
    ) + " @@\n"@ + marked("-"@, closed_text(old)) + marked("+"@, closed_text(new))
}

/// The two header lines of a diff of `path`.
pub open spec fn diff_header(path: Seq<char>) -> Seq<char> {
    "--- a/"@ + path + "\n+++ b/"@ + path + "\n"@
}

/// The concatenation of `hunks`.
pub open spec fn joined(hunks: Seq<Seq<char>>) -> Seq<char>
    decreases hunks.len(),
{
    if hunks.len() == 0 {
        Seq::empty()
    } else {
        joined(hunks.drop_last()) + hunks.last()
    }
}

fn close_text(t: &str) -> (r: String)
    ensures
        r@ == closed_text(t@),
{
    let n = t.unicode_len();
    let mut s = String::from_str(t);
    if n > 0 && t.get_char(n - 1) != '\n' {
        s.append("\n");
    }
    s
}

fn count_lines(v: &Vec<char>) -> (r: usize)
    ensures
        r == line_count(v@),
{
    let mut count: usize = 0;
    let mut i: usize = 0;
    while i < v.len()
        invariant
            i <= v.len(),
            count == line_count(v@.subrange(0, i as int)),
            count <= i,
        decreases v.len() - i,
    {
        assert(v@.subrange(0, i + 1).drop_last() =~= v@.subrange(0, i as int));
        if v[i] == '\n' {
            count = count + 1;
        }
        i = i + 1;
    }
    assert(v@.subrange(0, i as int) =~= v@);
    count
}

fn mark_lines(sign: &str, t: &str) -> (r: String)
    ensures
        r@ == marked(sign@, t@),
{
    let v = chars_of(t);
    let mut out = String::new();
    let mut i: usize = 0;
    while i < v.len()
        invariant
            i <= v.len(),
            v@ == t@,
            out@ == marked(sign@, t@.subrange(0, i as int)),
        decreases v.len() - i,
    {
        let ghost pre = t@.subrange(0, i as int);
        let ghost next = t@.subrange(0, i + 1);
        assert(next.drop_last() =~= pre);
        if i == 0 || v[i - 1] == '\n' {
            out.append(sign);
        }
        let c = t.substring_char(i, i + 1);
        assert(c@ =~= seq![next.last()]);
        out.append(c);
        i = i + 1;
    }
    assert(t@.subrange(0, i as int) =~= t@);
    out
}

/// One hunk that replaces all of `old` by all of `new`.
pub fn create_unified_diff_hunk(old: &str, new: &str) -> (r: String)
    ensures
        r@ == hunk(old@, new@),
{
    let o = close_text(old);
    let n = close_text(new);
    let oc = count_lines(&chars_of(o.as_str()));
    let nc = count_lines(&chars_of(n.as_str()));
    let mut s = String::from_str("@@ -1,");
    s.append(format_decimal(oc).as_str());
    s.append(" +1,");
    s.append(format_decimal(nc).as_str());
    s.append(" @@\n");
    s.append(mark_lines("-", o.as_str()).as_str());
    s.append(mark_lines("+", n.as_str()).as_str());
    s
}

/// A diff of `path` made of `hunks`, in order.
pub fn concatenate_diff_hunks(path: &str, hunks: &Vec<String>) -> (r: String)
    ensures
        r@ == diff_header(path@) + joined(hunks@.map_values(|h: String| h@)),
{
    let mut s = String::from_str("--- a/");
    s.append(path);
    s.append("\n+++ b/");
    s.append(path);
    s.append("\n");
    let ghost head = s@;
    let mut k: usize = 0;
    while k < hunks.len()
        invariant
            k <= hunks.len(),
            head == diff_header(path@),
            s@ == head + joined(hunks@.map_values(|h: String| h@).subrange(0, k as int)),
        decreases hunks.len() - k,
    {
        let ghost views = hunks@.map_values(|h: String| h@);
        assert(views.subrange(0, k + 1).drop_last() =~= views.subrange(0, k as int));
        s.append(hunks[k].as_str());
        k = k + 1;
    }
    assert(hunks@.map_values(|h: String| h@).subrange(0, k as int) =~= hunks@.map_values(|h: String| h@));
    s
}

/// A diff of `path` that replaces all of `old` by all of `new`.
pub fn create_unified_diff(path: &str, old: &str, new: &str) -> (r: String)
    ensures
        r@ == diff_header(path@) + hunk(old@, new@),
{
    let mut s = String::from_str("--- a/");
    s.append(path);
    s.append("\n+++ b/");
    s.append(path);
    s.append("\n");
    s.append(create_unified_diff_hunk(old, new).as_str());
    s
}

/// The hunks of a unified diff: everything from its first line that opens with `@@`, or
/// nothing when no line does.
pub open spec fn hunks_of(d: Seq<char>) -> Seq<char> {
    if occurs_at(d, "@@"@, 0) {
        d
    } else if exists|k: int| first_at(d, "\n@@"@, 0, k) {
        let k = choose|k: int| first_at(d, "\n@@"@, 0, k);
        d.subrange(k + 1, d.len() as int)
    } else {
        Seq::empty()
    }
}

pub fn extract_unified_diff_hunks(d: &str) -> (r: String)
    ensures
        r@ == hunks_of(d@),
{
    let v = chars_of(d);
    let at = chars_of("@@");
    if crate::text::matches_at(&v, &at, 0) {
        return String::from_str(d);
    }
    let nl_at = chars_of("\n@@");
    match find_from(&v, &nl_at, 0) {
        Some(k) => {
            proof {
                reveal_strlit("\n@@");
                assert forall|j: int| first_at(d@, "\n@@"@, 0, j) implies j == k by {
                    if j < k {
                        assert(!occurs_at(d@, "\n@@"@, j));
                    }
                    if k < j {
                        assert(!occurs_at(d@, "\n@@"@, k as int));
                    }
                }
            }
            assert(nl_at@.len() == 3);
            assert(k + 3 <= v.len());
            let out = d.substring_char(k + 1, v.len());
            String::from_str(out)
        },
        None => {
            assert(!exists|k: int| first_at(d@, "\n@@"@, 0, k));
            String::new()
        },
    }
}

} // verus!
