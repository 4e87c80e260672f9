//! Sorting by a key, the stable way: what a sorted sequence is, and the
//! facts about it that the rest of the crate leans on.

use vstd::prelude::*;

verus! {

/// Keys never fall from one element to the next.
pub open spec fn ordered<A>(s: Seq<A>, key: spec_fn(A) -> int) -> bool {
    forall|i: int, j: int| 0 <= i < j < s.len() ==> key(s[i]) <= key(s[j])
}

/// The elements whose key is at most `k`.
pub open spec fn upto<A>(key: spec_fn(A) -> int, k: int) -> spec_fn(A) -> bool {
    |a: A| key(a) <= k
}

/// The elements whose key is more than `k`.
pub open spec fn beyond<A>(key: spec_fn(A) -> int, k: int) -> spec_fn(A) -> bool {
    |a: A| key(a) > k
}

/// `s` with `a` put behind the elements whose key is not larger than its
/// own, and before the others.
pub open spec fn placed<A>(s: Seq<A>, a: A, key: spec_fn(A) -> int) -> Seq<A> {
    s.filter(upto(key, key(a))).push(a) + s.filter(beyond(key, key(a)))
}

/// `s` sorted by `key`, elements with equal keys in the order they had.
pub open spec fn sorted<A>(s: Seq<A>, key: spec_fn(A) -> int) -> Seq<A>
    decreases s.len(),
{
    if s.len() == 0 {
        Seq::empty()
    } else {
        placed(sorted(s.drop_last(), key), s.last(), key)
    }
}

/// A filter that every element passes keeps the sequence.
pub proof fn lemma_filter_keeps<A>(s: Seq<A>, pred: spec_fn(A) -> bool)
    requires
        forall|i: int| 0 <= i < s.len() ==> pred(s[i]),
    ensures
        s.filter(pred) == s,
    decreases s.len(),
{
    reveal(Seq::filter);
    if s.len() > 0 {
        lemma_filter_keeps(s.drop_last(), pred);
        assert(s.drop_last().push(s.last()) =~= s);
    }
}

/// A filter that no element passes leaves nothing.
pub proof fn lemma_filter_drops<A>(s: Seq<A>, pred: spec_fn(A) -> bool)
    requires
        forall|i: int| 0 <= i < s.len() ==> !pred(s[i]),
    ensures
        s.filter(pred) == Seq::<A>::empty(),
    decreases s.len(),
{
    reveal(Seq::filter);
    if s.len() > 0 {
        lemma_filter_drops(s.drop_last(), pred);
    }
}

/// Where every element before `pos` has a key of at most that of `a` and
/// every element from `pos` on a larger one, `a` is placed at `pos`.
pub proof fn lemma_placed_at<A>(s: Seq<A>, a: A, key: spec_fn(A) -> int, pos: int)
    requires
        0 <= pos <= s.len(),
        forall|j: int| 0 <= j < pos ==> key(s[j]) <= key(a),
        forall|j: int| pos <= j < s.len() ==> key(s[j]) > key(a),
    ensures
        placed(s, a, key) == s.insert(pos, a),
{
    let head = s.take(pos);
    let tail = s.skip(pos);
    assert(s =~= head + tail);
    lemma_filter_keeps(head, upto(key, key(a)));
    lemma_filter_drops(head, beyond(key, key(a)));
    lemma_filter_drops(tail, upto(key, key(a)));
    lemma_filter_keeps(tail, beyond(key, key(a)));
    Seq::filter_distributes_over_add(head, tail, upto(key, key(a)));
    Seq::filter_distributes_over_add(head, tail, beyond(key, key(a)));
    assert(placed(s, a, key) =~= s.insert(pos, a));
}

/// How many elements of `s` have a key of at most `k`, counted from the
/// front up to the first that has a larger one.
pub open spec fn reach<A>(s: Seq<A>, key: spec_fn(A) -> int, k: int) -> int
    decreases s.len(),
{
    if s.len() == 0 || key(s[0]) > k {
        0
    } else {
        1 + reach(s.drop_first(), key, k)
    }
}

/// In an ordered sequence `reach` is where the keys pass `k`.
pub proof fn lemma_reach<A>(s: Seq<A>, key: spec_fn(A) -> int, k: int)
    requires
        ordered(s, key),
    ensures
        0 <= reach(s, key, k) <= s.len(),
        forall|j: int| 0 <= j < reach(s, key, k) ==> key(s[j]) <= k,
        forall|j: int| reach(s, key, k) <= j < s.len() ==> key(s[j]) > k,
    decreases s.len(),
{
    if s.len() > 0 && key(s[0]) <= k {
        let rest = s.drop_first();
        assert forall|i: int, j: int| 0 <= i < j < rest.len() implies key(rest[i]) <= key(
            rest[j],
        ) by {
            assert(rest[i] == s[i + 1] && rest[j] == s[j + 1]);
        }
        lemma_reach(rest, key, k);
        assert forall|j: int| 0 <= j < reach(s, key, k) implies key(s[j]) <= k by {
            if j > 0 {
                assert(s[j] == rest[j - 1]);
            }
        }
        assert forall|j: int| reach(s, key, k) <= j < s.len() implies key(s[j]) > k by {
            assert(s[j] == rest[j - 1]);
        }
    } else if s.len() > 0 {
        assert forall|j: int| 0 <= j < s.len() implies key(s[j]) > k by {
            if j > 0 {
                assert(key(s[0]) <= key(s[j]));
            }
        }
    }
}

/// Placing an element in an ordered sequence leaves it ordered, one longer,
/// and with the same elements beside the new one.
pub proof fn lemma_placed<A>(s: Seq<A>, a: A, key: spec_fn(A) -> int)
    requires
        ordered(s, key),
    ensures
        ordered(placed(s, a, key), key),
        placed(s, a, key).len() == s.len() + 1,
        placed(s, a, key).to_multiset() == s.to_multiset().insert(a),
{
    let pos = reach(s, key, key(a));
    lemma_reach(s, key, key(a));
    lemma_placed_at(s, a, key, pos);
    let out = s.insert(pos, a);
    assert forall|i: int, j: int| 0 <= i < j < out.len() implies key(out[i]) <= key(out[j]) by {
        if i < pos && j > pos {
            assert(out[i] == s[i] && out[j] == s[j - 1]);
        } else if i < pos && j < pos {
            assert(out[i] == s[i] && out[j] == s[j]);
        } else if i > pos {
            assert(out[i] == s[i - 1] && out[j] == s[j - 1]);
        }
    }
    vstd::seq_lib::to_multiset_insert(s, pos, a);
}

/// A sorted sequence is ordered, and holds what the sequence held, each
/// element as often.
pub proof fn lemma_sorted<A>(s: Seq<A>, key: spec_fn(A) -> int)
    ensures
        ordered(sorted(s, key), key),
        sorted(s, key).len() == s.len(),
        sorted(s, key).to_multiset() == s.to_multiset(),
    decreases s.len(),
{
    if s.len() > 0 {
        lemma_sorted(s.drop_last(), key);
        lemma_placed(sorted(s.drop_last(), key), s.last(), key);
        vstd::seq_lib::to_multiset_build(s.drop_last(), s.last());
        assert(s.drop_last().push(s.last()) =~= s);
    } else {
        assert(s =~= Seq::<A>::empty());
    }
}

/// Sorting a sequence that is ordered already changes nothing.
pub proof fn lemma_sorted_of_ordered<A>(s: Seq<A>, key: spec_fn(A) -> int)
    requires
        ordered(s, key),
    ensures
        sorted(s, key) == s,
    decreases s.len(),
{
    if s.len() > 0 {
        let init = s.drop_last();
        assert forall|i: int, j: int| 0 <= i < j < init.len() implies key(init[i]) <= key(
            init[j],
        ) by {
            assert(init[i] == s[i] && init[j] == s[j]);
        }
        lemma_sorted_of_ordered(init, key);
        assert forall|j: int| 0 <= j < init.len() implies key(init[j]) <= key(s.last()) by {
            assert(init[j] == s[j]);
        }
        lemma_placed_at(init, s.last(), key, init.len() as int);
        assert(init.insert(init.len() as int, s.last()) =~= s);
    }
}

/// What can be sorted: a value whose view carries a number to sort by.
pub trait Keyed: View + Sized {
    /// The number that a view is sorted by.
    spec fn key_of(v: Self::V) -> int;

    /// The number that this value is sorted by.
    fn key(&self) -> (k: u128)
        ensures
            k == Self::key_of(self@),
    ;
}

/// The views of a sequence of values.
pub open spec fn views_of<T: View>(items: Seq<T>) -> Seq<T::V> {
    items.map_values(|t: T| t@)
}

/// The key by which views of `T` are sorted.
pub open spec fn key_fn<T: Keyed>() -> spec_fn(T::V) -> int {
    |v: T::V| T::key_of(v)
}

/// Puts `item` into `out`, behind the items whose key is not larger than
/// its own and before the others.
pub fn place<T: Keyed>(out: &mut Vec<T>, item: T)
    requires
        ordered(views_of(old(out)@), key_fn::<T>()),
    ensures
        views_of(final(out)@) == placed(views_of(old(out)@), item@, key_fn::<T>()),
        ordered(views_of(final(out)@), key_fn::<T>()),
        final(out).len() == old(out).len() + 1,
{
    let ghost before = views_of(out@);
    let k = item.key();
    let mut i: usize = 0;
    while i < out.len() && out[i].key() <= k
        invariant
            i <= out.len(),
            out@ == old(out)@,
            before == views_of(out@),
            k == T::key_of(item@),
            forall|j: int| 0 <= j < i ==> key_fn::<T>()(before[j]) <= k,
        decreases out.len() - i,
    {
        i += 1;
    }
    proof {
        assert forall|j: int| i <= j < before.len() implies key_fn::<T>()(before[j]) > k by {
            if j > i {
                assert(key_fn::<T>()(before[i as int]) <= key_fn::<T>()(before[j]));
            }
        }
        lemma_placed_at(before, item@, key_fn::<T>(), i as int);
        lemma_placed(before, item@, key_fn::<T>());
        assert(views_of(out@.insert(i as int, item)) =~= before.insert(i as int, item@));
    }
    out.insert(i, item);
}

/// Sorts `items` by their keys; items with equal keys keep their order.
pub fn sort<T: Keyed>(items: Vec<T>) -> (out: Vec<T>)
    ensures
        views_of(out@) == sorted(views_of(items@), key_fn::<T>()),
        ordered(views_of(out@), key_fn::<T>()),
{
    let ghost all = views_of(items@);
    let mut rest = items;
    let mut out: Vec<T> = Vec::new();
    assert(views_of(out@) =~= sorted(all.take(0), key_fn::<T>()));
    while rest.len() > 0
        invariant
            out.len() + rest.len() == all.len(),
            views_of(out@) == sorted(all.take(out.len() as int), key_fn::<T>()),
            ordered(views_of(out@), key_fn::<T>()),
            views_of(rest@) == all.skip(out.len() as int),
        decreases rest.len(),
    {
        let ghost done = out.len() as int;
        let ghost left = views_of(rest@);
        let item = rest.remove(0);
        proof {
            assert(left[0] == item@);
            assert(all.take(done + 1).drop_last() =~= all.take(done));
            assert(all.take(done + 1).last() == item@);
            assert forall|k: int| 0 <= k < rest.len() implies (#[trigger] rest@[k])@ == all[done
                + 1 + k] by {
                assert(left[k + 1] == all.skip(done)[k + 1]);
            }
            assert(views_of(rest@) =~= all.skip(done + 1));
        }
        place(&mut out, item);
    }
    assert(all.take(all.len() as int) =~= all);
    out
}

} // verus!
