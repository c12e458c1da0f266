//! Rolling buffers: queues that keep only their newest items.

use std::collections::VecDeque;

use vstd::prelude::*;

verus! {

/// The last `n` items of `s` (all of them when there are fewer).
pub open spec fn keep_last<A>(s: Seq<A>, n: nat) -> Seq<A> {
    if s.len() > n {
        s.subrange(s.len() - n, s.len() as int)
    } else {
        s
    }
}

/// Appends `x` and drops from the front until at most `cap` remain.
pub fn push_bounded<A>(q: &mut VecDeque<A>, x: A, cap: usize)
    ensures
        final(q)@ == keep_last(old(q)@.push(x), cap as nat),
{
    q.push_back(x);
    let ghost full = q@;
    while q.len() > cap
        invariant
            q@.len() <= full.len(),
            q@ == full.subrange(full.len() - q@.len(), full.len() as int),
            q@.len() >= cap || q@.len() == full.len(),
        decreases q@.len(),
    {
        let _ = q.pop_front();
    }
    proof {
        if q@.len() == full.len() {
            assert(q@ =~= full);
        } else {
            assert(q@ =~= keep_last(full, cap as nat));
        }
    }
}

/// Pushing into a bounded buffer that already held at most its last `n`
/// items keeps the last `n` of everything pushed.
pub proof fn lemma_keep_last_push<A>(s: Seq<A>, x: A, n: nat)
    ensures
        keep_last(keep_last(s, n).push(x), n) == keep_last(s.push(x), n),
{
    assert(keep_last(keep_last(s, n).push(x), n) =~= keep_last(s.push(x), n));
}

/// Appends every item of `xs`, in order, keeping at most `cap`; with no
/// items the buffer is left as it is.
pub fn push_all_bounded<A>(q: &mut VecDeque<A>, xs: Vec<A>, cap: usize)
    ensures
        final(q)@ == if xs@.len() == 0 { old(q)@ } else { keep_last(old(q)@ + xs@, cap as nat) },
{
    let ghost start = q@;
    let ghost items = xs@;
    let mut rest = xs;
    let ghost mut k: int = 0;
    while rest.len() > 0
        invariant
            0 <= k <= items.len(),
            rest@ == items.subrange(k, items.len() as int),
            k == 0 ==> q@ == start,
            k > 0 ==> q@ == keep_last(start + items.take(k), cap as nat),
        decreases rest@.len(),
    {
        let x = rest.remove(0);
        proof {
            assert(x == items[k]);
            assert((start + items.take(k)).push(x) =~= start + items.take(k + 1));
            if k > 0 {
                lemma_keep_last_push(start + items.take(k), x, cap as nat);
            } else {
                assert(start + items.take(k) =~= start);
            }
        }
        push_bounded(q, x, cap);
        proof {
            k = k + 1;
        }
        assert(rest@ =~= items.subrange(k, items.len() as int));
    }
    assert(items.take(k) =~= items);
}

/// A rolling buffer holds at most its capacity, and the newest items in
/// order.
pub proof fn lemma_keep_last_bounded<A>(s: Seq<A>, n: nat)
    ensures
        keep_last(s, n).len() <= n || keep_last(s, n) == s,
        keep_last(s, n).len() == if s.len() > n { n } else { s.len() },
        forall|i: int|
            0 <= i < keep_last(s, n).len() ==> #[trigger] keep_last(s, n)[i] == s[s.len() - keep_last(
                s,
                n,
            ).len() + i],
{
}

} // verus!
