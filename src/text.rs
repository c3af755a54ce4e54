//! Verified helpers on text: scanning, searching and trimming.
use vstd::prelude::*;
use vstd::string::*;

verus! {

/// Rust's `char::is_whitespace`: the Unicode `White_Space` property.
pub open spec fn is_ws(c: char) -> bool {
    ||| c == '\t' || c == '\n' || c == '\x0B' || c == '\x0C' || c == '\r' || c == ' '
    ||| c == '\u{85}' || c == '\u{A0}' || c == '\u{1680}'
    ||| ('\u{2000}' <= c && c <= '\u{200A}')
    ||| c == '\u{2028}' || c == '\u{2029}' || c == '\u{202F}' || c == '\u{205F}' || c == '\u{3000}'
}

pub fn is_whitespace(c: char) -> (r: bool)
    ensures
        r == is_ws(c),
{
    c == '\t' || c == '\n' || c == '\x0B' || c == '\x0C' || c == '\r' || c == ' ' || c == '\u{85}'
        || c == '\u{A0}' || c == '\u{1680}' || ('\u{2000}' <= c && c <= '\u{200A}') || c
        == '\u{2028}' || c == '\u{2029}' || c == '\u{202F}' || c == '\u{205F}' || c == '\u{3000}'
}

/// `s` without its leading whitespace.
pub open spec fn trim_front(s: Seq<char>) -> Seq<char>
    decreases s.len(),
{
    if s.len() > 0 && is_ws(s[0]) {
        trim_front(s.subrange(1, s.len() as int))
    } else {
        s
    }
}

/// `s` without its trailing whitespace.
pub open spec fn trim_back(s: Seq<char>) -> Seq<char>
    decreases s.len(),
{
    if s.len() > 0 && is_ws(s.last()) {
        trim_back(s.drop_last())
    } else {
        s
    }
}

/// What `str::trim` returns.
pub open spec fn trimmed(s: Seq<char>) -> Seq<char> {
    trim_back(trim_front(s))
}

/// `s` holds `p` at position `k`.
pub open spec fn occurs_at(s: Seq<char>, p: Seq<char>, k: int) -> bool {
    0 <= k && k + p.len() <= s.len() && s.subrange(k, k + p.len()) == p
}

pub open spec fn has_prefix(s: Seq<char>, p: Seq<char>) -> bool {
    occurs_at(s, p, 0)
}

pub open spec fn has_suffix(s: Seq<char>, p: Seq<char>) -> bool {
    occurs_at(s, p, s.len() - p.len())
}

/// The first position at or after `from` where `p` occurs in `s`.
pub open spec fn first_at(s: Seq<char>, p: Seq<char>, from: int, k: int) -> bool {
    &&& from <= k
    &&& occurs_at(s, p, k)
    &&& forall|j: int| from <= j < k ==> !#[trigger] occurs_at(s, p, j)
}

/// `p` occurs nowhere at or after `from` in `s`.
pub open spec fn absent_from(s: Seq<char>, p: Seq<char>, from: int) -> bool {
    forall|j: int| from <= j ==> !#[trigger] occurs_at(s, p, j)
}

/// The characters of `s`, one per element.
pub fn chars_of(s: &str) -> (r: Vec<char>)
    ensures
        r@ == s@,
{
    let n = s.unicode_len();
    let mut v: Vec<char> = Vec::new();
    let mut i: usize = 0;
    while i < n
        invariant
            n == s@.len(),
            i <= n,
            v@ == s@.subrange(0, i as int),
        decreases n - i,
    {
        v.push(s.get_char(i));
        i = i + 1;
    }
    v
}

/// Whether `p` stands in `s` at position `k`.
pub fn matches_at(s: &Vec<char>, p: &Vec<char>, k: usize) -> (r: bool)
    ensures
        r == occurs_at(s@, p@, k as int),
{
    if k > s.len() || p.len() > s.len() - k {
        return false;
    }
    let mut i: usize = 0;
    while i < p.len()
        invariant
            k + p.len() <= s.len(),
            i <= p.len(),
            forall|j: int| 0 <= j < i ==> s@[k + j] == p@[j],
        decreases p.len() - i,
    {
        if s[k + i] != p[i] {
            assert(s@.subrange(k as int, k + p.len())[i as int] != p@[i as int]);
            return false;
        }
        i = i + 1;
    }
    assert(s@.subrange(k as int, k + p.len()) =~= p@);
    true
}

/// The first position at or after `from` where `p` occurs in `s`.
pub fn find_from(s: &Vec<char>, p: &Vec<char>, from: usize) -> (r: Option<usize>)
    ensures
        r matches Some(k) ==> first_at(s@, p@, from as int, k as int),
        r is None ==> absent_from(s@, p@, from as int),
{
    let mut k: usize = from;
    while k < s.len()
        invariant
            from <= k,
            forall|j: int| from <= j < k ==> !#[trigger] occurs_at(s@, p@, j),
        decreases s.len() - k,
    {
        if matches_at(s, p, k) {
            return Some(k);
        }
        k = k + 1;
    }
    if matches_at(s, p, k) {
        return Some(k);
    }
    assert forall|j: int| from <= j implies !#[trigger] occurs_at(s@, p@, j) by {
        if j > k {
            assert(j + p@.len() > s@.len());
        }
    }
    None
}

/// Whether `s` begins with `p`.
pub fn starts_with(s: &str, p: &str) -> (r: bool)
    ensures
        r == has_prefix(s@, p@),
{
    let sv = chars_of(s);
    let pv = chars_of(p);
    matches_at(&sv, &pv, 0)
}

/// Whether `s` ends with `p`.
pub fn ends_with(s: &str, p: &str) -> (r: bool)
    ensures
        r == has_suffix(s@, p@),
{
    let sv = chars_of(s);
    let pv = chars_of(p);
    if pv.len() > sv.len() {
        return false;
    }
    matches_at(&sv, &pv, sv.len() - pv.len())
}

/// Whether `p` occurs anywhere in `s`.
pub fn contains(s: &str, p: &str) -> (r: bool)
    ensures
        r == exists|k: int| occurs_at(s@, p@, k),
{
    let sv = chars_of(s);
    let pv = chars_of(p);
    match find_from(&sv, &pv, 0) {
        Some(k) => true,
        None => {
            assert forall|k: int| !occurs_at(s@, p@, k) by {
                if k >= 0 {
                    assert(!occurs_at(sv@, pv@, k));
                }
            }
            false
        },
    }
}

proof fn lemma_trim_front_step(s: Seq<char>, i: int)
    requires
        0 <= i < s.len(),
        is_ws(s[i]),
    ensures
        trim_front(s.subrange(i, s.len() as int)) == trim_front(s.subrange(i + 1, s.len() as int)),
{
    let t = s.subrange(i, s.len() as int);
    assert(t.subrange(1, t.len() as int) =~= s.subrange(i + 1, s.len() as int));
}

proof fn lemma_trim_back_step(s: Seq<char>, i: int, j: int)
    requires
        0 <= i < j <= s.len(),
        is_ws(s[j - 1]),
    ensures
        trim_back(s.subrange(i, j)) == trim_back(s.subrange(i, j - 1)),
{
    let t = s.subrange(i, j);
    assert(t.drop_last() =~= s.subrange(i, j - 1));
}

/// `s` without leading and trailing whitespace, as `str::trim` gives it.
pub fn trim(s: &str) -> (r: String)
    ensures
        r@ == trimmed(s@),
{
    let v = chars_of(s);
    let n = v.len();
    let mut i: usize = 0;
    assert(s@.subrange(0, n as int) =~= s@);
    while i < n && is_whitespace(v[i])
        invariant
            n == s@.len(),
            v@ == s@,
            i <= n,
            trim_front(s@) == trim_front(s@.subrange(i as int, n as int)),
        decreases n - i,
    {
        proof {
            lemma_trim_front_step(s@, i as int);
        }
        i = i + 1;
    }
    assert(trim_front(s@) == s@.subrange(i as int, n as int));
    let mut j: usize = n;
    while j > i && is_whitespace(v[j - 1])
        invariant
            n == s@.len(),
            v@ == s@,
            i <= j <= n,
            trim_front(s@) == s@.subrange(i as int, n as int),
            trimmed(s@) == trim_back(s@.subrange(i as int, j as int)),
        decreases j - i,
    {
        proof {
            lemma_trim_back_step(s@, i as int, j as int);
        }
        j = j - 1;
    }
    let out = s.substring_char(i, j);
    String::from_str(out)
}

} // verus!

verus! {

pub proof fn lemma_first_unique(s: Seq<char>, p: Seq<char>, from: int, a: int, b: int)
    requires
        first_at(s, p, from, a),
        first_at(s, p, from, b),
    ensures
        a == b,
{
    if a < b {
        assert(!occurs_at(s, p, a));
    }
    if b < a {
        assert(!occurs_at(s, p, b));
    }
}

/// The first position at or after `from` where `p` occurs in `s`, or `s.len()` when none does.
pub open spec fn first_or_end(s: Seq<char>, p: Seq<char>, from: int) -> int {
    if exists|k: int| first_at(s, p, from, k) {
        choose|k: int| first_at(s, p, from, k)
    } else {
        s.len() as int
    }
}

/// `find_from`, with the answer stated through `first_or_end`.
pub fn find_or_end(s: &Vec<char>, p: &Vec<char>, from: usize) -> (r: usize)
    ensures
        r == first_or_end(s@, p@, from as int),
        (exists|k: int| first_at(s@, p@, from as int, k)) ==> first_at(s@, p@, from as int, r as int),
        !(exists|k: int| first_at(s@, p@, from as int, k)) ==> r == s.len(),
{
    match find_from(s, p, from) {
        Some(k) => {
            proof {
                let c = choose|c: int| first_at(s@, p@, from as int, c);
                lemma_first_unique(s@, p@, from as int, c, k as int);
            }
            k
        },
        None => {
            assert(!exists|k: int| first_at(s@, p@, from as int, k));
            s.len()
        },
    }
}

/// `s` with the characters from `a` up to `b`.
pub fn slice(s: &str, a: usize, b: usize) -> (r: String)
    requires
        a <= b <= s@.len(),
    ensures
        r@ == s@.subrange(a as int, b as int),
{
    String::from_str(s.substring_char(a, b))
}

/// The concatenation of `a`, `b` and `c`.
pub fn concat3(a: &str, b: &str, c: &str) -> (r: String)
    ensures
        r@ == a@ + b@ + c@,
{
    let mut s = String::from_str(a);
    s.append(b);
    s.append(c);
    s
}

/// `s` between backticks.
pub fn backticked(s: &str) -> (r: String)
    ensures
        r@ == "`"@ + s@ + "`"@,
{
    concat3("`", s, "`")
}

pub fn clone_opt(o: &Option<String>) -> (r: Option<String>)
    ensures
        r == *o,
{
    match o {
        Some(s) => Some(s.clone()),
        None => None,
    }
}

} // verus!

verus! {

/// Whether `a` and `b` hold the same characters.
pub fn same_text(a: &str, b: &str) -> (r: bool)
    ensures
        r == (a@ == b@),
{
    let av = chars_of(a);
    let bv = chars_of(b);
    if av.len() != bv.len() {
        return false;
    }
    assert(av@.subrange(0, bv@.len() as int) =~= av@);
    matches_at(&av, &bv, 0)
}

} // verus!
