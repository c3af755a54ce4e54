//! Association lists keyed by text or by number; a later binding hides an earlier one.
use vstd::prelude::*;

verus! {

/// The value bound to `k` in `m`: the last binding of `k`.
pub open spec fn lookup<V>(m: Seq<(String, V)>, k: Seq<char>) -> Option<V>
    decreases m.len(),
{
    if m.len() == 0 {
        None
    } else if m.last().0@ == k {
        Some(m.last().1)
    } else {
        lookup(m.drop_last(), k)
    }
}

/// The value bound to `k` in `m`: the last binding of `k`.
pub open spec fn lookup_n<V>(m: Seq<(usize, V)>, k: usize) -> Option<V>
    decreases m.len(),
{
    if m.len() == 0 {
        None
    } else if m.last().0 == k {
        Some(m.last().1)
    } else {
        lookup_n(m.drop_last(), k)
    }
}

/// `i` is the position of the last binding of `k` in `m`.
pub open spec fn last_at<V>(m: Seq<(String, V)>, k: Seq<char>, i: int) -> bool {
    0 <= i < m.len() && m[i].0@ == k && forall|j: int| i < j < m.len() ==> #[trigger] m[j].0@ != k
}

pub open spec fn last_at_n<V>(m: Seq<(usize, V)>, k: usize, i: int) -> bool {
    0 <= i < m.len() && m[i].0 == k && forall|j: int| i < j < m.len() ==> #[trigger] m[j].0 != k
}

pub proof fn lemma_lookup_at<V>(m: Seq<(String, V)>, k: Seq<char>, i: int)
    requires
        last_at(m, k, i),
    ensures
        lookup(m, k) == Some(m[i].1),
    decreases m.len(),
{
    if i < m.len() - 1 {
        assert(m.last() == m[m.len() - 1]);
        assert(last_at(m.drop_last(), k, i)) by {
            assert forall|j: int| i < j < m.drop_last().len() implies #[trigger] m.drop_last()[j].0@
                != k by {
                assert(m.drop_last()[j] == m[j]);
            }
        }
        lemma_lookup_at(m.drop_last(), k, i);
    }
}

pub proof fn lemma_lookup_none<V>(m: Seq<(String, V)>, k: Seq<char>)
    requires
        forall|j: int| 0 <= j < m.len() ==> #[trigger] m[j].0@ != k,
    ensures
        lookup(m, k) is None,
    decreases m.len(),
{
    if m.len() > 0 {
        assert(m.last() == m[m.len() - 1]);
        assert forall|j: int| 0 <= j < m.drop_last().len() implies #[trigger] m.drop_last()[j].0@
            != k by {
            assert(m.drop_last()[j] == m[j]);
        }
        lemma_lookup_none(m.drop_last(), k);
    }
}

pub proof fn lemma_lookup_at_n<V>(m: Seq<(usize, V)>, k: usize, i: int)
    requires
        last_at_n(m, k, i),
    ensures
        lookup_n(m, k) == Some(m[i].1),
    decreases m.len(),
{
    if i < m.len() - 1 {
        assert(m.last() == m[m.len() - 1]);
        assert(last_at_n(m.drop_last(), k, i)) by {
            assert forall|j: int| i < j < m.drop_last().len() implies #[trigger] m.drop_last()[j].0
                != k by {
                assert(m.drop_last()[j] == m[j]);
            }
        }
        lemma_lookup_at_n(m.drop_last(), k, i);
    }
}

pub proof fn lemma_lookup_none_n<V>(m: Seq<(usize, V)>, k: usize)
    requires
        forall|j: int| 0 <= j < m.len() ==> #[trigger] m[j].0 != k,
    ensures
        lookup_n(m, k) is None,
    decreases m.len(),
{
    if m.len() > 0 {
        assert(m.last() == m[m.len() - 1]);
        assert forall|j: int| 0 <= j < m.drop_last().len() implies #[trigger] m.drop_last()[j].0
            != k by {
            assert(m.drop_last()[j] == m[j]);
        }
        lemma_lookup_none_n(m.drop_last(), k);
    }
}

/// Setting the last binding of `k` rebinds `k` and keeps every other key.
pub proof fn lemma_lookup_update_n<V>(m: Seq<(usize, V)>, k: usize, i: int, v: V)
    requires
        last_at_n(m, k, i),
    ensures
        lookup_n(m.update(i, (k, v)), k) == Some(v),
        forall|k2: usize| k2 != k ==> #[trigger] lookup_n(m.update(i, (k, v)), k2) == lookup_n(m, k2),
    decreases m.len(),
{
    let m2 = m.update(i, (k, v));
    assert(last_at_n(m2, k, i));
    lemma_lookup_at_n(m2, k, i);
    assert forall|k2: usize| k2 != k implies #[trigger] lookup_n(m2, k2) == lookup_n(m, k2) by {
        lemma_lookup_other_n(m, k, i, v, k2);
    }
}

proof fn lemma_lookup_other_n<V>(m: Seq<(usize, V)>, k: usize, i: int, v: V, k2: usize)
    requires
        0 <= i < m.len(),
        m[i].0 == k,
        k2 != k,
    ensures
        lookup_n(m.update(i, (k, v)), k2) == lookup_n(m, k2),
    decreases m.len(),
{
    let m2 = m.update(i, (k, v));
    if m.len() > 0 {
        if i == m.len() - 1 {
            assert(m2.drop_last() =~= m.drop_last());
        } else {
            assert(m2.drop_last() =~= m.drop_last().update(i, (k, v)));
            lemma_lookup_other_n(m.drop_last(), k, i, v, k2);
        }
    }
}

/// Setting the last binding of `k` rebinds `k` and keeps every other key.
pub proof fn lemma_lookup_update<V>(m: Seq<(String, V)>, k: Seq<char>, i: int, key: String, v: V)
    requires
        last_at(m, k, i),
        key@ == k,
    ensures
        lookup(m.update(i, (key, v)), k) == Some(v),
        forall|k2: Seq<char>| k2 != k ==> #[trigger] lookup(m.update(i, (key, v)), k2) == lookup(m, k2),
{
    let m2 = m.update(i, (key, v));
    assert(last_at(m2, k, i));
    lemma_lookup_at(m2, k, i);
    assert forall|k2: Seq<char>| k2 != k implies #[trigger] lookup(m2, k2) == lookup(m, k2) by {
        lemma_lookup_other(m, k, i, key, v, k2);
    }
}

proof fn lemma_lookup_other<V>(m: Seq<(String, V)>, k: Seq<char>, i: int, key: String, v: V, k2: Seq<char>)
    requires
        0 <= i < m.len(),
        m[i].0@ == k,
        key@ == k,
        k2 != k,
    ensures
        lookup(m.update(i, (key, v)), k2) == lookup(m, k2),
    decreases m.len(),
{
    let m2 = m.update(i, (key, v));
    if i == m.len() - 1 {
        assert(m2.drop_last() =~= m.drop_last());
    } else {
        assert(m2.drop_last() =~= m.drop_last().update(i, (key, v)));
        lemma_lookup_other(m.drop_last(), k, i, key, v, k2);
    }
}

/// The position of the last binding of `k`, if any.
pub fn find_last<V>(m: &Vec<(String, V)>, k: &str) -> (r: Option<usize>)
    ensures
        r matches Some(i) ==> last_at(m@, k@, i as int) && lookup(m@, k@) == Some(m@[i as int].1),
        r is None ==> lookup(m@, k@) is None,
{
    let mut i: usize = m.len();
    while i > 0
        invariant
            i <= m.len(),
            forall|j: int| i <= j < m.len() ==> #[trigger] m@[j].0@ != k@,
        decreases i,
    {
        let key: &str = m[i - 1].0.as_str();
        if crate::text::same_text(key, k) {
            proof {
                lemma_lookup_at(m@, k@, i - 1);
            }
            return Some(i - 1);
        }
        i = i - 1;
    }
    proof {
        lemma_lookup_none(m@, k@);
    }
    None
}

/// The position of the last binding of `k`, if any.
pub fn find_last_n<V>(m: &Vec<(usize, V)>, k: usize) -> (r: Option<usize>)
    ensures
        r matches Some(i) ==> last_at_n(m@, k, i as int) && lookup_n(m@, k) == Some(m@[i as int].1),
        r is None ==> lookup_n(m@, k) is None,
{
    let mut i: usize = m.len();
    while i > 0
        invariant
            i <= m.len(),
            forall|j: int| i <= j < m.len() ==> #[trigger] m@[j].0 != k,
        decreases i,
    {
        if m[i - 1].0 == k {
            proof {
                lemma_lookup_at_n(m@, k, i - 1);
            }
            return Some(i - 1);
        }
        i = i - 1;
    }
    proof {
        lemma_lookup_none_n(m@, k);
    }
    None
}

pub proof fn lemma_lookup_push<V>(m: Seq<(String, V)>, key: String, v: V)
    ensures
        lookup(m.push((key, v)), key@) == Some(v),
        forall|k2: Seq<char>| k2 != key@ ==> #[trigger] lookup(m.push((key, v)), k2) == lookup(m, k2),
{
    assert(m.push((key, v)).drop_last() =~= m);
}

pub proof fn lemma_lookup_push_n<V>(m: Seq<(usize, V)>, key: usize, v: V)
    ensures
        lookup_n(m.push((key, v)), key) == Some(v),
        forall|k2: usize| k2 != key ==> #[trigger] lookup_n(m.push((key, v)), k2) == lookup_n(m, k2),
{
    assert(m.push((key, v)).drop_last() =~= m);
}

} // verus!

verus! {

/// A value that `lookup_n` finds stands in the list.
pub proof fn lemma_lookup_n_in<V>(m: Seq<(usize, V)>, k: usize)
    requires
        lookup_n(m, k) is Some,
    ensures
        exists|i: int| 0 <= i < m.len() && m[i].1 == lookup_n(m, k)->0,
    decreases m.len(),
{
    if m.last().0 == k {
        assert(m[m.len() - 1] == m.last());
    } else {
        lemma_lookup_n_in(m.drop_last(), k);
        let i = choose|i: int| 0 <= i < m.drop_last().len() && m.drop_last()[i].1 == lookup_n(m.drop_last(), k)->0;
        assert(m[i] == m.drop_last()[i]);
    }
}

} // verus!

verus! {

/// Binds `k` to `v`: in place of the last binding of `k`, or as a new binding.
pub fn put<V>(m: &mut Vec<(String, V)>, k: String, v: V)
    ensures
        lookup(final(m)@, k@) == Some(v),
        unique_keys(old(m)@) ==> unique_keys(final(m)@),
        forall|k2: Seq<char>| k2 != k@ ==> #[trigger] lookup(final(m)@, k2) == lookup(old(m)@, k2),
        forall|i: int| 0 <= i < final(m)@.len() ==> (#[trigger] final(m)@[i]).1 == v || exists|j: int| 0 <= j < old(m)@.len() && final(m)@[i] == old(m)@[j],
{
    match find_last(m, k.as_str()) {
        Some(i) => {
            let ghost before = m@;
            proof {
                lemma_lookup_update(before, k@, i as int, k, v);
            }
            m.set(i, (k, v));
            assert forall|q: int| 0 <= q < m@.len() implies (#[trigger] m@[q]).1 == v || exists|j: int| 0 <= j < before.len() && m@[q] == before[j] by {
                if q != i {
                    assert(m@[q] == before[q]);
                }
            }
            assert forall|q: int| 0 <= q < m@.len() implies (#[trigger] m@[q]).0@ == before[q].0@ by {}
        },
        None => {
            let ghost before = m@;
            proof {
                lemma_lookup_push(before, k, v);
                lemma_lookup_none_inv(before, k@);
            }
            m.push((k, v));
            assert forall|q: int| 0 <= q < m@.len() implies (#[trigger] m@[q]).1 == v || exists|j: int| 0 <= j < before.len() && m@[q] == before[j] by {
                if q < before.len() {
                    assert(m@[q] == before[q]);
                }
            }
        },
    }
}

/// Takes out the last binding of `k`.
pub fn take<V>(m: &mut Vec<(String, V)>, k: &str) -> (r: Option<V>)
    ensures
        r == lookup(old(m)@, k@),
        unique_keys(old(m)@) ==> unique_keys(final(m)@) && lookup(final(m)@, k@) is None,
        forall|i: int| 0 <= i < final(m)@.len() ==> exists|j: int| 0 <= j < old(m)@.len() && #[trigger] final(m)@[i] == old(m)@[j],
{
    match find_last(m, k) {
        Some(i) => {
            let ghost before = m@;
            let (_, v) = m.remove(i);
            assert forall|q: int| 0 <= q < m@.len() implies exists|j: int| 0 <= j < before.len() && #[trigger] m@[q] == before[j] by {
                if q < i {
                    assert(m@[q] == before[q]);
                } else {
                    assert(m@[q] == before[q + 1]);
                }
            }
            proof {
                if unique_keys(before) {
                    assert forall|q: int| 0 <= q < m@.len() implies #[trigger] m@[q].0@ != k@ by {
                        if q < i {
                            assert(m@[q] == before[q]);
                        } else {
                            assert(m@[q] == before[q + 1]);
                        }
                    }
                    lemma_lookup_none(m@, k@);
                    assert forall|a: int, b: int| 0 <= a < b < m@.len() implies (#[trigger] m@[a]).0@ != (#[trigger] m@[b]).0@ by {
                        let a2 = if a < i { a } else { a + 1 };
                        let b2 = if b < i { b } else { b + 1 };
                        assert(m@[a] == before[a2]);
                        assert(m@[b] == before[b2]);
                    }
                }
            }
            Some(v)
        },
        None => {
            proof {
                if unique_keys(m@) {
                    lemma_lookup_none_inv(m@, k@);
                }
            }
            None
        },
    }
}

} // verus!

verus! {

/// A value that `lookup` finds stands in the list.
pub proof fn lemma_lookup_in<V>(m: Seq<(String, V)>, k: Seq<char>)
    requires
        lookup(m, k) is Some,
    ensures
        exists|i: int| 0 <= i < m.len() && m[i].1 == lookup(m, k)->0,
    decreases m.len(),
{
    if m.last().0@ == k {
        assert(m[m.len() - 1] == m.last());
    } else {
        lemma_lookup_in(m.drop_last(), k);
        let i = choose|i: int| 0 <= i < m.drop_last().len() && m.drop_last()[i].1 == lookup(m.drop_last(), k)->0;
        assert(m[i] == m.drop_last()[i]);
    }
}

} // verus!

verus! {

/// No key is bound twice.
pub open spec fn unique_keys<V>(m: Seq<(String, V)>) -> bool {
    forall|a: int, b: int| 0 <= a < b < m.len() ==> (#[trigger] m[a]).0@ != (#[trigger] m[b]).0@
}

/// A key that `lookup` does not find is bound nowhere.
pub proof fn lemma_lookup_none_inv<V>(m: Seq<(String, V)>, k: Seq<char>)
    requires
        lookup(m, k) is None,
    ensures
        forall|j: int| 0 <= j < m.len() ==> #[trigger] m[j].0@ != k,
    decreases m.len(),
{
    if m.len() > 0 {
        lemma_lookup_none_inv(m.drop_last(), k);
        assert forall|j: int| 0 <= j < m.len() implies #[trigger] m[j].0@ != k by {
            if j < m.len() - 1 {
                assert(m[j] == m.drop_last()[j]);
            }
        }
    }
}

} // verus!
