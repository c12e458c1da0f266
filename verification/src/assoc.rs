//! Small maps keyed by interface or bond name, held as lists of
//! `(name, value)` pairs with distinct names.

use vstd::prelude::*;

use crate::text::str_eq;

verus! {

/// The names of the entries, in order.
pub open spec fn keys<V>(l: Seq<(String, V)>) -> Seq<Seq<char>> {
    l.map_values(|e: (String, V)| e.0@)
}

/// No name occurs twice.
pub open spec fn unique_keys<V>(l: Seq<(String, V)>) -> bool {
    forall|i: int, j: int| 0 <= i < l.len() && 0 <= j < l.len() && i != j ==> l[i].0@ != l[j].0@
}

/// The map the list stands for (a later entry wins over an earlier one
/// with the same name, which a list with distinct names never has).
pub open spec fn as_map<V>(l: Seq<(String, V)>) -> Map<Seq<char>, V>
    decreases l.len(),
{
    if l.len() == 0 {
        Map::empty()
    } else {
        as_map(l.drop_last()).insert(l.last().0@, l.last().1)
    }
}

/// The map's names are the list's names.
pub proof fn lemma_as_map_dom<V>(l: Seq<(String, V)>, k: Seq<char>)
    ensures
        as_map(l).dom().contains(k) <==> exists|i: int| 0 <= i < l.len() && l[i].0@ == k,
    decreases l.len(),
{
    if l.len() > 0 {
        lemma_as_map_dom(l.drop_last(), k);
        if exists|i: int| 0 <= i < l.len() && l[i].0@ == k {
            let i = choose|i: int| 0 <= i < l.len() && l[i].0@ == k;
            if i < l.len() - 1 {
                assert(l.drop_last()[i] == l[i]);
            }
        }
        if exists|i: int| 0 <= i < l.drop_last().len() && l.drop_last()[i].0@ == k {
            let i = choose|i: int| 0 <= i < l.drop_last().len() && l.drop_last()[i].0@ == k;
            assert(l[i] == l.drop_last()[i]);
        }
    }
}

/// In a list with distinct names, each entry is what the map holds for
/// its name.
pub proof fn lemma_as_map_index<V>(l: Seq<(String, V)>, i: int)
    requires
        unique_keys(l),
        0 <= i < l.len(),
    ensures
        as_map(l).dom().contains(l[i].0@),
        as_map(l)[l[i].0@] == l[i].1,
    decreases l.len(),
{
    if i < l.len() - 1 {
        let d = l.drop_last();
        assert(unique_keys(d)) by {
            assert forall|a: int, b: int| 0 <= a < d.len() && 0 <= b < d.len() && a != b implies d[a].0@ != d[b].0@ by {
                assert(d[a] == l[a] && d[b] == l[b]);
            }
        }
        assert(d[i] == l[i]);
        lemma_as_map_index(d, i);
        assert(l[i].0@ != l[l.len() - 1].0@);
    }
}

/// The position of the entry named `k`.
pub fn find_key<V>(l: &Vec<(String, V)>, k: &str) -> (r: Option<usize>)
    ensures
        match r {
            Some(i) => i < l@.len() && l@[i as int].0@ == k@,
            None => !as_map(l@).dom().contains(k@),
        },
{
    let mut i: usize = 0;
    while i < l.len()
        invariant
            i <= l@.len(),
            forall|j: int| 0 <= j < i ==> l@[j].0@ != k@,
        decreases l.len() - i,
    {
        if str_eq(l[i].0.as_str(), k) {
            return Some(i);
        }
        i = i + 1;
    }
    proof {
        lemma_as_map_dom(l@, k@);
    }
    None
}

/// Sets the value for `k`, adding an entry when there is none.
pub fn set_key<V>(l: &mut Vec<(String, V)>, k: &str, v: V)
    requires
        unique_keys(old(l)@),
    ensures
        unique_keys(final(l)@),
        as_map(final(l)@) == as_map(old(l)@).insert(k@, v),
{
    match find_key(l, k) {
        Some(i) => {
            let name = l[i].0.clone();
            let ghost old_l = l@;
            l.set(i, (name, v));
            proof {
                assert(forall|j: int| 0 <= j < l@.len() ==> #[trigger] l@[j].0@ == old_l[j].0@);
                lemma_update_map(old_l, l@, i as int);
            }
        },
        None => {
            let ghost old_l = l@;
            l.push((String::from_str(k), v));
            proof {
                assert(l@.drop_last() =~= old_l);
                lemma_as_map_dom(old_l, k@);
                assert forall|a: int, b: int| 0 <= a < l@.len() && 0 <= b < l@.len() && a != b implies l@[a].0@
                    != l@[b].0@ by {
                    if a == l@.len() - 1 {
                        assert(old_l[b] == l@[b]);
                    } else if b == l@.len() - 1 {
                        assert(old_l[a] == l@[a]);
                    } else {
                        assert(old_l[a] == l@[a] && old_l[b] == l@[b]);
                    }
                }
            }
        },
    }
}

/// Changing the value at one position changes the map at that name only.
proof fn lemma_update_map<V>(l: Seq<(String, V)>, l2: Seq<(String, V)>, i: int)
    requires
        unique_keys(l),
        0 <= i < l.len(),
        l2.len() == l.len(),
        l2[i].0@ == l[i].0@,
        forall|j: int| 0 <= j < l.len() && j != i ==> l2[j] == l[j],
    ensures
        unique_keys(l2),
        as_map(l2) == as_map(l).insert(l[i].0@, l2[i].1),
{
    assert(unique_keys(l2)) by {
        assert forall|a: int, b: int| 0 <= a < l2.len() && 0 <= b < l2.len() && a != b implies l2[a].0@ != l2[b].0@ by {
            assert(l2[a].0@ == l[a].0@ && l2[b].0@ == l[b].0@);
        }
    }
    let k = l[i].0@;
    assert forall|x: Seq<char>| #[trigger] as_map(l2).dom().contains(x) <==> as_map(l).insert(k, l2[i].1).dom().contains(x) by {
        lemma_as_map_dom(l2, x);
        lemma_as_map_dom(l, x);
        if exists|j: int| 0 <= j < l.len() && l[j].0@ == x {
            let j = choose|j: int| 0 <= j < l.len() && l[j].0@ == x;
            assert(l2[j].0@ == x);
        }
        if exists|j: int| 0 <= j < l2.len() && l2[j].0@ == x {
            let j = choose|j: int| 0 <= j < l2.len() && l2[j].0@ == x;
            assert(l[j].0@ == x);
        }
    }
    assert forall|x: Seq<char>| #[trigger] as_map(l2).dom().contains(x) implies as_map(l2)[x] == as_map(l).insert(
        k,
        l2[i].1,
    )[x] by {
        lemma_as_map_dom(l2, x);
        let j = choose|j: int| 0 <= j < l2.len() && l2[j].0@ == x;
        lemma_as_map_index(l2, j);
        if j != i {
            lemma_as_map_index(l, j);
        }
    }
    assert(as_map(l2) =~= as_map(l).insert(k, l2[i].1));
}

/// Removes the entry for `k`, if any.
pub fn remove_key<V>(l: &mut Vec<(String, V)>, k: &str)
    requires
        unique_keys(old(l)@),
    ensures
        unique_keys(final(l)@),
        as_map(final(l)@) == as_map(old(l)@).remove(k@),
{
    match find_key(l, k) {
        Some(i) => {
            let ghost old_l = l@;
            let _ = l.remove(i);
            proof {
                lemma_remove_map(old_l, i as int);
            }
        },
        None => {
            proof {
                assert(as_map(l@).remove(k@) =~= as_map(l@));
            }
        },
    }
}

/// Removes the entry for `k` and returns its value, if any.
pub fn take_key<V>(l: &mut Vec<(String, V)>, k: &str) -> (r: Option<V>)
    requires
        unique_keys(old(l)@),
    ensures
        unique_keys(final(l)@),
        as_map(final(l)@) == as_map(old(l)@).remove(k@),
        r == if as_map(old(l)@).dom().contains(k@) { Some(as_map(old(l)@)[k@]) } else { None },
{
    match find_key(l, k) {
        Some(i) => {
            let ghost old_l = l@;
            proof {
                lemma_as_map_index(old_l, i as int);
            }
            let (_, v) = l.remove(i);
            proof {
                lemma_remove_map(old_l, i as int);
            }
            Some(v)
        },
        None => {
            proof {
                assert(as_map(l@).remove(k@) =~= as_map(l@));
            }
            None
        },
    }
}

/// The value for `k`, if any.
pub fn get_key<'a, V>(l: &'a Vec<(String, V)>, k: &str) -> (r: Option<&'a V>)
    requires
        unique_keys(l@),
    ensures
        match r {
            Some(v) => as_map(l@).dom().contains(k@) && *v == as_map(l@)[k@],
            None => !as_map(l@).dom().contains(k@),
        },
{
    match find_key(l, k) {
        Some(i) => {
            proof {
                lemma_as_map_index(l@, i as int);
            }
            Some(&l[i].1)
        },
        None => None,
    }
}

/// A list with distinct names stands for a finite map with one name per
/// entry.
pub proof fn lemma_unique_map_len<V>(l: Seq<(String, V)>)
    requires
        unique_keys(l),
    ensures
        as_map(l).dom().finite(),
        as_map(l).len() == l.len(),
    decreases l.len(),
{
    if l.len() > 0 {
        let d = l.drop_last();
        assert(unique_keys(d)) by {
            assert forall|a: int, b: int| 0 <= a < d.len() && 0 <= b < d.len() && a != b implies d[a].0@ != d[b].0@ by {
                assert(d[a] == l[a] && d[b] == l[b]);
            }
        }
        lemma_unique_map_len(d);
        lemma_as_map_dom(d, l.last().0@);
        if as_map(d).dom().contains(l.last().0@) {
            let i = choose|i: int| 0 <= i < d.len() && d[i].0@ == l.last().0@;
            assert(l[i] == d[i]);
            assert(l[l.len() - 1] == l.last());
        }
    }
}

/// Removing one entry removes its name from the map.
proof fn lemma_remove_map<V>(l: Seq<(String, V)>, i: int)
    requires
        unique_keys(l),
        0 <= i < l.len(),
    ensures
        unique_keys(l.remove(i)),
        as_map(l.remove(i)) == as_map(l).remove(l[i].0@),
{
    let l2 = l.remove(i);
    let k = l[i].0@;
    assert(forall|j: int| 0 <= j < i ==> l2[j] == l[j]);
    assert(forall|j: int| i <= j < l2.len() ==> l2[j] == l[j + 1]);
    assert(unique_keys(l2)) by {
        assert forall|a: int, b: int| 0 <= a < l2.len() && 0 <= b < l2.len() && a != b implies l2[a].0@ != l2[b].0@ by {
            let a1 = if a < i { a } else { a + 1 };
            let b1 = if b < i { b } else { b + 1 };
            assert(l2[a] == l[a1] && l2[b] == l[b1]);
        }
    }
    assert forall|x: Seq<char>| #[trigger] as_map(l2).dom().contains(x) <==> as_map(l).remove(k).dom().contains(x) by {
        lemma_as_map_dom(l2, x);
        lemma_as_map_dom(l, x);
        if exists|j: int| 0 <= j < l.len() && l[j].0@ == x && x != k {
            let j = choose|j: int| 0 <= j < l.len() && l[j].0@ == x && x != k;
            assert(j != i);
            let j2 = if j < i { j } else { j - 1 };
            assert(l2[j2] == l[j]);
        }
        if exists|j: int| 0 <= j < l2.len() && l2[j].0@ == x {
            let j = choose|j: int| 0 <= j < l2.len() && l2[j].0@ == x;
            let j1 = if j < i { j } else { j + 1 };
            assert(l2[j] == l[j1]);
            assert(j1 != i);
        }
    }
    assert forall|x: Seq<char>| #[trigger] as_map(l2).dom().contains(x) implies as_map(l2)[x] == as_map(l).remove(
        k,
    )[x] by {
        lemma_as_map_dom(l2, x);
        let j = choose|j: int| 0 <= j < l2.len() && l2[j].0@ == x;
        let j1 = if j < i { j } else { j + 1 };
        assert(l2[j] == l[j1]);
        lemma_as_map_index(l2, j);
        lemma_as_map_index(l, j1);
    }
    assert(as_map(l2) =~= as_map(l).remove(k));
}

} // verus!
