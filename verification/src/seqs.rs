//! Facts about sequences that loops over vectors lean on.

use vstd::prelude::*;

verus! {

/// One step of a pass that reads `b` from the front while it rewrites `a`
/// in place: the part of `a` from `i` on is still the part of `b` from `k`
/// on, and the step looks at the element at the head of both.
pub proof fn lemma_pass_step<T>(a: Seq<T>, i: int, b: Seq<T>, k: int)
    requires
        0 <= i < a.len(),
        0 <= k <= b.len(),
        a.skip(i) == b.skip(k),
    ensures
        k < b.len(),
        a[i] == b[k],
        a.skip(i + 1) == b.skip(k + 1),
        a.remove(i).skip(i) == b.skip(k + 1),
        a.remove(i).take(i) == a.take(i),
        a.take(i + 1) == a.take(i).push(a[i]),
        b.take(k + 1).drop_last() == b.take(k),
        b.take(k + 1).last() == b[k],
        forall|value: T| (#[trigger] a.update(i, value)).skip(i + 1) == b.skip(k + 1),
        forall|value: T| (#[trigger] a.update(i, value)).take(i) == a.take(i),
{
    assert(a.skip(i).len() == a.len() - i);
    assert(b.skip(k).len() == b.len() - k);
    assert(k < b.len());
    assert(a[i] == a.skip(i)[0]);
    assert(b[k] == b.skip(k)[0]);
    assert(a.skip(i + 1) =~= a.skip(i).skip(1));
    assert(b.skip(k + 1) =~= b.skip(k).skip(1));
    assert(a.remove(i).skip(i) =~= a.skip(i + 1));
    assert(a.remove(i).take(i) =~= a.take(i));
    assert(a.take(i + 1) =~= a.take(i).push(a[i]));
    assert(b.take(k + 1).drop_last() =~= b.take(k));
    assert forall|value: T| (#[trigger] a.update(i, value)).skip(i + 1) == b.skip(k + 1) by {
        assert(a.update(i, value).skip(i + 1) =~= a.skip(i + 1));
    }
    assert forall|value: T| (#[trigger] a.update(i, value)).take(i) == a.take(i) by {
        assert(a.update(i, value).take(i) =~= a.take(i));
    }
}

/// Where a pass starts: nothing is done and everything is left.
pub proof fn lemma_pass_start<T>(a: Seq<T>)
    ensures
        a.take(0) == Seq::<T>::empty(),
        a.skip(0) == a,
{
    assert(a.take(0) =~= Seq::<T>::empty());
    assert(a.skip(0) =~= a);
}

/// Where a pass ends: everything is done and nothing is left.
pub proof fn lemma_pass_end<T>(a: Seq<T>, i: int, b: Seq<T>, k: int)
    requires
        i == a.len(),
        0 <= k <= b.len(),
        a.skip(i) == b.skip(k),
    ensures
        k == b.len(),
        a.take(i) == a,
        b.take(k) == b,
{
    assert(a.skip(i).len() == a.len() - i);
    assert(b.skip(k).len() == b.len() - k);
    assert(a.take(i) =~= a);
    assert(b.take(k) =~= b);
}

} // verus!
