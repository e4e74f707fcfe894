//! Object members as an ordered list of `(name, value)` pairs, shared by
//! the JSON and TOML document trees: lookup of the first member with a
//! name, replacement, insertion and removal.

use vstd::prelude::*;
use crate::text::str_eq;

verus! {

/// Index of the first member of `m` named `key`.
pub open spec fn find_key<V>(m: Seq<(String, V)>, key: Seq<char>) -> Option<int>
    decreases m.len(),
{
    if m.len() == 0 {
        None
    } else {
        match find_key(m.drop_last(), key) {
            Some(i) => Some(i),
            None => if m.last().0@ == key { Some(m.len() - 1) } else { None },
        }
    }
}


pub proof fn lemma_find_key_bounds<V>(m: Seq<(String, V)>, key: Seq<char>)
    ensures
        find_key(m, key) matches Some(i) ==> 0 <= i < m.len() && m[i].0@ == key,
        find_key(m, key) is None ==> forall|j: int| 0 <= j < m.len() ==> m[j].0@ != key,
    decreases m.len(),
{
    if m.len() > 0 {
        lemma_find_key_bounds(m.drop_last(), key);
        if find_key(m, key) is None {
            assert forall|j: int| 0 <= j < m.len() implies m[j].0@ != key by {
                if j < m.len() - 1 {
                    assert(m.drop_last()[j] == m[j]);
                }
            }
        }
    }
}

/// The member at `j` is the first one named `key` when no earlier member
/// has that name.
pub proof fn lemma_find_key_at<V>(m: Seq<(String, V)>, j: int, key: Seq<char>)
    requires
        0 <= j < m.len(),
        m[j].0@ == key,
        forall|i: int| 0 <= i < j ==> m[i].0@ != key,
    ensures
        find_key(m, key) == Some(j),
    decreases m.len(),
{
    lemma_find_key_bounds(m.drop_last(), key);
    if j < m.len() - 1 {
        assert forall|i: int| 0 <= i < j implies m.drop_last()[i].0@ != key by {
            assert(m.drop_last()[i] == m[i]);
        }
        assert(m.drop_last()[j] == m[j]);
        lemma_find_key_at(m.drop_last(), j, key);
    } else {
        match find_key(m.drop_last(), key) {
            Some(i) => {
                assert(m.drop_last()[i] == m[i]);
            },
            None => {},
        }
    }
}

/// No member has the name `key`.
pub proof fn lemma_find_key_absent<V>(m: Seq<(String, V)>, key: Seq<char>)
    requires
        forall|i: int| 0 <= i < m.len() ==> m[i].0@ != key,
    ensures
        find_key(m, key) is None,
{
    lemma_find_key_bounds(m, key);
}

/// Position of the first member named `key`.
pub fn position_of<V>(m: &Vec<(String, V)>, key: &str) -> (r: Option<usize>)
    ensures
        r matches Some(i) ==> find_key(m@, key@) == Some(i as int),
        r is None ==> find_key(m@, key@) is None,
{
    let mut i: usize = 0;
    while i < m.len()
        invariant
            i <= m@.len(),
            find_key(m@.take(i as int), key@) is None,
        decreases m@.len() - i,
    {
        proof {
            assert(m@.take(i as int + 1).drop_last() =~= m@.take(i as int));
        }
        if str_eq(m[i].0.as_str(), key) {
            proof {
                lemma_find_prefix(m@, key@, i as int + 1);
            }
            return Some(i);
        }
        i += 1;
    }
    proof {
        assert(m@.take(m@.len() as int) =~= m@);
    }
    None
}

proof fn lemma_find_prefix<V>(m: Seq<(String, V)>, key: Seq<char>, n: int)
    requires
        0 < n <= m.len(),
        find_key(m.take(n), key) matches Some(i) && i == n - 1,
    ensures
        find_key(m, key) == Some(n - 1),
    decreases m.len(),
{
    if n < m.len() {
        assert(m.drop_last().take(n) =~= m.take(n));
        lemma_find_prefix(m.drop_last(), key, n);
    } else {
        assert(m.take(n) =~= m);
    }
}


/// Removes the first member named `key` and hands its value out.
pub fn take_member<V>(m: &mut Vec<(String, V)>, key: &str) -> (r: Option<V>)
    ensures
        final(m)@ == without_member(old(m)@, key@),
        r == (match find_key(old(m)@, key@) {
            Some(i) => Some(old(m)@[i].1),
            None => None,
        }),
{
    match position_of(m, key) {
        Some(i) => {
            proof {
                lemma_find_key_bounds(old(m)@, key@);
            }
            let (_, v) = m.remove(i);
            Some(v)
        },
        None => None,
    }
}

/// The members of `m` after setting `key` to `v`: an existing member of
/// that name (the first one) is replaced in place, otherwise the member is
/// appended.
pub open spec fn with_member<V>(m: Seq<(String, V)>, key: String, v: V) -> Seq<(String, V)> {
    match find_key(m, key@) {
        Some(i) => m.update(i, (key, v)),
        None => m.push((key, v)),
    }
}

/// The members of `m` without the first member named `key`.
pub open spec fn without_member<V>(m: Seq<(String, V)>, key: Seq<char>) -> Seq<(String, V)> {
    match find_key(m, key) {
        Some(i) => m.remove(i),
        None => m,
    }
}

/// Looking up `key` after setting it gives `v`; every other name is unaffected.
pub proof fn lemma_with_member<V>(m: Seq<(String, V)>, key: String, v: V, other: Seq<char>)
    ensures
        find_key(with_member(m, key, v), key@) matches Some(i) && with_member(m, key, v)[i].1 == v,
        other != key@ ==> find_key(with_member(m, key, v), other) == find_key(m, other),
        other != key@ ==> (find_key(m, other) matches Some(i) ==> with_member(m, key, v)[i] == m[i]),
{
    lemma_find_key_bounds(m, key@);
    lemma_find_key_bounds(m, other);
    match find_key(m, key@) {
        Some(i) => {
            lemma_find_key_update(m, i, (key, v), key@);
            lemma_find_key_update(m, i, (key, v), other);
        },
        None => {
            lemma_find_key_push(m, (key, v), key@);
            lemma_find_key_push(m, (key, v), other);
        },
    }
}

/// Removing `key` leaves every lookup of another name unaffected.
pub proof fn lemma_without_member<V>(m: Seq<(String, V)>, key: Seq<char>, other: Seq<char>)
    ensures
        other != key ==> (match find_key(without_member(m, key), other) {
            Some(j) => find_key(m, other) matches Some(i) && m[i] == without_member(m, key)[j],
            None => find_key(m, other) is None,
        }),
        find_key(m, key) is None ==> without_member(m, key) == m,
{
    lemma_find_key_bounds(m, key);
    lemma_find_key_bounds(m, other);
    if let Some(i) = find_key(m, key) {
        if other != key {
            lemma_find_key_remove(m, i, other);
        }
    }
}

pub proof fn lemma_find_key_push<V>(m: Seq<(String, V)>, e: (String, V), key: Seq<char>)
    ensures
        find_key(m.push(e), key) == (match find_key(m, key) {
            Some(i) => Some(i),
            None => if e.0@ == key { Some(m.len() as int) } else { None },
        }),
{
    assert(m.push(e).drop_last() =~= m);
}

/// Replacing a member by one of the same name keeps every lookup's position.
pub proof fn lemma_find_key_update<V>(m: Seq<(String, V)>, i: int, e: (String, V), key: Seq<char>)
    requires
        0 <= i < m.len(),
        e.0@ == m[i].0@,
    ensures
        find_key(m.update(i, e), key) == find_key(m, key),
    decreases m.len(),
{
    if i == m.len() - 1 {
        assert(m.update(i, e).drop_last() =~= m.drop_last());
    } else {
        assert(m.update(i, e).drop_last() =~= m.drop_last().update(i, e));
        lemma_find_key_update(m.drop_last(), i, e, key);
    }
}

/// Removing the first member named `k` moves the first member of any other
/// name to a position holding the same member.
pub proof fn lemma_find_key_remove<V>(m: Seq<(String, V)>, i: int, key: Seq<char>)
    requires
        0 <= i < m.len(),
        m[i].0@ != key,
    ensures
        match find_key(m.remove(i), key) {
            Some(j) => find_key(m, key) matches Some(k) && m[k] == m.remove(i)[j],
            None => find_key(m, key) is None,
        },
    decreases m.len(),
{
    lemma_find_key_bounds(m, key);
    lemma_find_key_bounds(m.remove(i), key);
    if i == m.len() - 1 {
        assert(m.remove(i) =~= m.drop_last());
    } else {
        assert(m.remove(i).drop_last() =~= m.drop_last().remove(i));
        lemma_find_key_remove(m.drop_last(), i, key);
        lemma_find_key_bounds(m.drop_last(), key);
        lemma_find_key_bounds(m.drop_last().remove(i), key);
    }
}

/// Sets member `key` of an object's member list to `v`.
pub fn set_member<V>(m: &mut Vec<(String, V)>, key: String, v: V)
    ensures
        final(m)@ == with_member(old(m)@, key, v),
{
    match position_of(m, key.as_str()) {
        Some(i) => {
            proof {
                lemma_find_key_bounds(old(m)@, key@);
            }
            m.remove(i);
            m.insert(i, (key, v));
            proof {
                assert(m@ =~= old(m)@.update(i as int, (key, v)));
            }
        },
        None => {
            m.push((key, v));
        },
    }
}

/// Removes the first member named `key` from an object's member list;
/// `true` when there was one.
pub fn remove_member<V>(m: &mut Vec<(String, V)>, key: &str) -> (r: bool)
    ensures
        final(m)@ == without_member(old(m)@, key@),
        r == (find_key(old(m)@, key@) is Some),
{
    match position_of(m, key) {
        Some(i) => {
            proof {
                lemma_find_key_bounds(old(m)@, key@);
            }
            m.remove(i);
            true
        },
        None => false,
    }
}


} // verus!
