//! Sorting.

use vstd::prelude::*;
use vstd::seq_lib::{lemma_multiset_commutative, to_multiset_contains, to_multiset_len};

verus! {

/// Values with a total order in which two values may stand level.
pub trait Ranked: Copy {
    /// Whether `self` may stand before `other`.
    spec fn before(self, other: Self) -> bool;

    proof fn total(a: Self, b: Self)
        ensures
            a.before(b) || b.before(a),
    ;

    proof fn transitive(a: Self, b: Self, c: Self)
        requires
            a.before(b),
            b.before(c),
        ensures
            a.before(c),
    ;

    fn may_precede(&self, other: &Self) -> (r: bool)
        ensures
            r == self.before(*other),
    ;
}

/// Each value may stand before all that follow it.
pub open spec fn in_order<T: Ranked>(s: Seq<T>) -> bool {
    forall|i: int, j: int| 0 <= i < j < s.len() ==> (#[trigger] s[i]).before(#[trigger] s[j])
}

/// Merges two sorted lists into one.
fn merge<T: Ranked>(a: &Vec<T>, b: &Vec<T>) -> (r: Vec<T>)
    requires
        in_order(a@),
        in_order(b@),
    ensures
        in_order(r@),
        r@.to_multiset() == a@.to_multiset().add(b@.to_multiset()),
{
    broadcast use vstd::seq_lib::group_to_multiset_ensures;

    let mut out: Vec<T> = Vec::new();
    let mut i: usize = 0;
    let mut j: usize = 0;
    proof {
        assert(a@.take(0) =~= Seq::<T>::empty());
        assert(b@.take(0) =~= Seq::<T>::empty());
        assert(out@.to_multiset() =~= a@.take(0).to_multiset().add(b@.take(0).to_multiset()));
    }
    while i < a.len() || j < b.len()
        invariant
            i <= a@.len(),
            j <= b@.len(),
            in_order(a@),
            in_order(b@),
            in_order(out@),
            out@.to_multiset() == a@.take(i as int).to_multiset().add(
                b@.take(j as int).to_multiset(),
            ),
            forall|k: int, l: int|
                0 <= k < out@.len() && i <= l < a@.len() ==> (#[trigger] out@[k]).before(
                    #[trigger] a@[l],
                ),
            forall|k: int, l: int|
                0 <= k < out@.len() && j <= l < b@.len() ==> (#[trigger] out@[k]).before(
                    #[trigger] b@[l],
                ),
        decreases a@.len() - i + b@.len() - j,
    {
        broadcast use vstd::seq_lib::group_to_multiset_ensures;

        let from_a: bool = if i >= a.len() {
            false
        } else if j >= b.len() {
            true
        } else {
            a[i].may_precede(&b[j])
        };
        let ghost before = out@;
        if from_a {
            let item: T = a[i];
            proof {
                assert(a@.take(i + 1) =~= a@.take(i as int).push(item));
                assert(before.push(item).to_multiset() =~= a@.take(i + 1).to_multiset().add(
                    b@.take(j as int).to_multiset(),
                ));
                T::total(item, item);
                assert forall|l: int| j <= l < b@.len() implies item.before(#[trigger] b@[l]) by {
                    if l > j {
                        T::transitive(item, b@[j as int], b@[l]);
                    }
                }
            }
            out.push(item);
            i += 1;
        } else {
            let item: T = b[j];
            proof {
                assert(b@.take(j + 1) =~= b@.take(j as int).push(item));
                assert(before.push(item).to_multiset() =~= a@.take(i as int).to_multiset().add(
                    b@.take(j + 1).to_multiset(),
                ));
                assert forall|l: int| i <= l < a@.len() implies item.before(#[trigger] a@[l]) by {
                    T::total(item, a@[i as int]);
                    if l > i {
                        T::transitive(item, a@[i as int], a@[l]);
                    }
                }
            }
            out.push(item);
            j += 1;
        }
        assert forall|k: int, l: int| 0 <= k < l < out@.len() implies (#[trigger] out@[k]).before(
            #[trigger] out@[l],
        ) by {
            if l == before.len() {
                assert(before[k] == out@[k]);
            }
        }
    }
    assert(a@.take(i as int) =~= a@);
    assert(b@.take(j as int) =~= b@);
    out
}

/// The same values, sorted.
pub fn sorted<T: Ranked>(items: &Vec<T>) -> (r: Vec<T>)
    ensures
        in_order(r@),
        r@.to_multiset() == items@.to_multiset(),
    decreases items@.len(),
{
    let total: usize = items.len();
    if total < 2 {
        let mut out: Vec<T> = Vec::new();
        if total == 1 {
            out.push(items[0]);
        }
        assert(out@ =~= items@);
        return out;
    }
    let half: usize = total / 2;
    let left = part(items, 0, half);
    let right = part(items, half, total);
    proof {
        lemma_multiset_commutative(left@, right@);
        assert(left@ + right@ =~= items@);
    }
    merge(&sorted(&left), &sorted(&right))
}

/// The values `items[from..to]`.
fn part<T: Ranked>(items: &Vec<T>, from: usize, to: usize) -> (r: Vec<T>)
    requires
        from <= to <= items@.len(),
    ensures
        r@ == items@.subrange(from as int, to as int),
{
    let mut out: Vec<T> = Vec::new();
    let mut i: usize = from;
    while i < to
        invariant
            from <= i <= to <= items@.len(),
            out@ == items@.subrange(from as int, i as int),
        decreases to - i,
    {
        out.push(items[i]);
        i += 1;
        assert(out@ =~= items@.subrange(from as int, i as int));
    }
    out
}

/// Lists with the same values have the same members, and as many; where one
/// repeats none, neither does the other.
pub proof fn same_values<T>(a: Seq<T>, b: Seq<T>)
    requires
        a.to_multiset() == b.to_multiset(),
    ensures
        a.len() == b.len(),
        forall|x: T| #[trigger] a.contains(x) <==> b.contains(x),
        b.no_duplicates() ==> a.no_duplicates(),
{
    to_multiset_len(a);
    to_multiset_len(b);
    assert forall|x: T| #[trigger] a.contains(x) <==> b.contains(x) by {
        to_multiset_contains(a, x);
        to_multiset_contains(b, x);
    }
    if b.no_duplicates() {
        b.lemma_multiset_has_no_duplicates();
        a.lemma_multiset_has_no_duplicates_conv();
    }
}

} // verus!
