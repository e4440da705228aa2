//! Small facts about sequences viewed as sets, shared by the sync
//! proofs.

use vstd::prelude::*;

verus! {

/// Taking one more element of a sequence adds exactly that element to
/// the set of elements taken so far.
pub proof fn lemma_take_one_more_to_set<A>(s: Seq<A>, i: int)
    requires
        0 <= i < s.len(),
    ensures
        s.take(i + 1).to_set() == s.take(i).to_set().insert(s[i]),
{
    let prev = s.take(i);
    let next = s.take(i + 1);
    assert forall|a: A| next.to_set().contains(a) implies prev.to_set().insert(s[i]).contains(
        a,
    ) by {
        let k = choose|k: int| 0 <= k < next.len() && #[trigger] next[k] == a;
        if k < i {
            assert(prev[k] == a);
            assert(prev.contains(a));
        }
    }
    assert forall|a: A| prev.to_set().insert(s[i]).contains(a) implies next.to_set().contains(
        a,
    ) by {
        if a == s[i] {
            assert(next[i] == a);
            assert(next.contains(a));
        } else {
            let k = choose|k: int| 0 <= k < prev.len() && #[trigger] prev[k] == a;
            assert(next[k] == a);
            assert(next.contains(a));
        }
    }
    assert(s.take(i + 1).to_set() =~= s.take(i).to_set().insert(s[i]));
}

/// A sequence taken whole has exactly its own elements.
pub proof fn lemma_take_all_to_set<A>(s: Seq<A>)
    ensures
        s.take(s.len() as int) == s,
{
    assert(s.take(s.len() as int) =~= s);
}

/// The order-keeping removal of repeats: of every run of equal
/// elements, the first stays.
pub open spec fn spec_dedup<A>(s: Seq<A>) -> Seq<A>
    decreases s.len(),
{
    if s.len() == 0 {
        Seq::empty()
    } else if s.drop_last().contains(s.last()) {
        spec_dedup(s.drop_last())
    } else {
        spec_dedup(s.drop_last()).push(s.last())
    }
}

/// Removing repeats keeps exactly the elements that were there.
pub proof fn lemma_dedup_same_elements<A>(s: Seq<A>)
    ensures
        forall|x: A| spec_dedup(s).contains(x) == s.contains(x),
    decreases s.len(),
{
    if s.len() > 0 {
        lemma_dedup_same_elements(s.drop_last());
        assert forall|x: A| s.contains(x) implies spec_dedup(s).contains(x) by {
            let k = choose|k: int| 0 <= k < s.len() && s[k] == x;
            if k < s.len() - 1 {
                assert(s.drop_last()[k] == x);
                assert(s.drop_last().contains(x));
                if !s.drop_last().contains(s.last()) {
                    let j = choose|j: int|
                        0 <= j < spec_dedup(s.drop_last()).len() && spec_dedup(s.drop_last())[j]
                            == x;
                    assert(spec_dedup(s)[j] == x);
                }
            } else {
                if s.drop_last().contains(s.last()) {
                    assert(spec_dedup(s.drop_last()).contains(x));
                } else {
                    assert(spec_dedup(s).last() == x);
                }
            }
        }
        assert forall|x: A| spec_dedup(s).contains(x) implies s.contains(x) by {
            if s.drop_last().contains(s.last()) {
                assert(s.drop_last().contains(x));
                let k = choose|k: int|
                    0 <= k < s.drop_last().len() && #[trigger] s.drop_last()[k] == x;
                assert(s.drop_last()[k] == s[k]);
                assert(s[k] == x);
            } else {
                let j = choose|j: int|
                    0 <= j < spec_dedup(s).len() && #[trigger] spec_dedup(s)[j] == x;
                if j < spec_dedup(s).len() - 1 {
                    assert(spec_dedup(s.drop_last())[j] == x);
                    assert(spec_dedup(s.drop_last()).contains(x));
                    assert(s.drop_last().contains(x));
                    let k = choose|k: int|
                        0 <= k < s.drop_last().len() && #[trigger] s.drop_last()[k] == x;
                    assert(s.drop_last()[k] == s[k]);
                    assert(s[k] == x);
                } else {
                    assert(x == s.last());
                    assert(s[s.len() - 1] == x);
                }
            }
        }
    }
}

/// Removing repeats leaves no repeats.
pub proof fn lemma_dedup_no_duplicates<A>(s: Seq<A>)
    ensures
        spec_dedup(s).no_duplicates(),
    decreases s.len(),
{
    if s.len() > 0 {
        lemma_dedup_no_duplicates(s.drop_last());
        lemma_dedup_same_elements(s.drop_last());
        if !s.drop_last().contains(s.last()) {
            let d = spec_dedup(s.drop_last()).push(s.last());
            assert forall|i: int, j: int|
                0 <= i < d.len() && 0 <= j < d.len() && i != j implies d[i] != d[j] by {
                if i < d.len() - 1 && j < d.len() - 1 {
                    assert(spec_dedup(s.drop_last())[i] == d[i]);
                    assert(spec_dedup(s.drop_last())[j] == d[j]);
                } else if i == d.len() - 1 {
                    assert(spec_dedup(s.drop_last())[j] == d[j]);
                    assert(spec_dedup(s.drop_last()).contains(d[j]));
                } else {
                    assert(spec_dedup(s.drop_last())[i] == d[i]);
                    assert(spec_dedup(s.drop_last()).contains(d[i]));
                }
            }
        }
    }
}

/// Putting an element before a sequence adds exactly it to the set of
/// elements.
pub proof fn lemma_cons_to_set<A>(x: A, t: Seq<A>)
    ensures
        (seq![x] + t).to_set() == t.to_set().insert(x),
{
    let s = seq![x] + t;
    assert forall|a: A| s.to_set().contains(a) implies t.to_set().insert(x).contains(a) by {
        let k = choose|k: int| 0 <= k < s.len() && #[trigger] s[k] == a;
        if k > 0 {
            assert(t[k - 1] == a);
            assert(t.contains(a));
        }
    }
    assert forall|a: A| t.to_set().insert(x).contains(a) implies s.to_set().contains(a) by {
        if a == x {
            assert(s[0] == a);
            assert(s.contains(a));
        } else {
            let k = choose|k: int| 0 <= k < t.len() && #[trigger] t[k] == a;
            assert(s[k + 1] == a);
            assert(s.contains(a));
        }
    }
    assert((seq![x] + t).to_set() =~= t.to_set().insert(x));
}

/// One step of removing repeats, stated from the front: what the next
/// element adds.
pub proof fn lemma_dedup_take_step<A>(s: Seq<A>, i: int)
    requires
        0 <= i < s.len(),
    ensures
        spec_dedup(s.take(i + 1)) == if s.take(i).contains(s[i]) {
            spec_dedup(s.take(i))
        } else {
            spec_dedup(s.take(i)).push(s[i])
        },
{
    assert(s.take(i + 1).drop_last() =~= s.take(i));
    assert(s.take(i + 1).last() == s[i]);
}

} // verus!
