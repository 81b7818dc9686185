//! A stable sort.

use vstd::prelude::*;

verus! {

/// Values with an order in which different values may have the same place.
pub trait Ranked: Sized {
    /// `self` may stand before `other`.
    spec fn rank_le(&self, other: &Self) -> bool;

    /// Of two values one may stand before the other.
    proof fn rank_total(&self, other: &Self)
        ensures
            self.rank_le(other) || other.rank_le(self),
    ;

    /// What may stand before what may stand before a value, may stand before it.
    proof fn rank_transitive(&self, mid: &Self, other: &Self)
        requires
            self.rank_le(mid),
            mid.rank_le(other),
        ensures
            self.rank_le(other),
    ;

    /// Whether `self` may stand before `other`.
    fn may_precede(&self, other: &Self) -> (r: bool)
        ensures
            r == self.rank_le(other),
    ;
}

/// `a` and `b` have the same place.
pub open spec fn same_rank<T: Ranked>(a: T, b: T) -> bool {
    a.rank_le(&b) && b.rank_le(&a)
}

/// Every value may stand before those after it.
pub open spec fn in_order<T: Ranked>(s: Seq<T>) -> bool {
    forall|i: int, j: int|
        #![trigger s[i], s[j]]
        0 <= i <= j < s.len() ==> s[i].rank_le(&s[j])
}

/// The values of `s` that have the same place as `x`.
pub open spec fn class_of<T: Ranked>(s: Seq<T>, x: T) -> Seq<T> {
    s.filter(|y: T| same_rank(x, y))
}

/// `sorted` is `s` in order; values with the same place stand as they did in `s`.
pub open spec fn stably_sorted<T: Ranked>(s: Seq<T>, sorted: Seq<T>) -> bool {
    &&& sorted.len() == s.len()
    &&& in_order(sorted)
    &&& forall|x: T| #[trigger] class_of(sorted, x) == class_of(s, x)
}

/// The values of a sequence that was put together.
proof fn class_of_parts<T: Ranked>(a: Seq<T>, b: Seq<T>, x: T)
    ensures
        class_of(a + b, x) == class_of(a, x) + class_of(b, x),
{
    Seq::filter_distributes_over_add(a, b, |y: T| same_rank(x, y));
}

/// The values of a single one.
proof fn class_of_one<T: Ranked>(y: T, x: T)
    ensures
        class_of(seq![y], x) == if same_rank(x, y) {
            seq![y]
        } else {
            Seq::empty()
        },
{
    let s = seq![y];
    assert(s.drop_last() =~= Seq::empty());
    reveal_with_fuel(Seq::filter, 2);
    assert(class_of(s, x) =~= if same_rank(x, y) {
        seq![y]
    } else {
        Seq::empty()
    });
}

/// No value with the place of `x` is in a sequence that has none.
proof fn class_of_others<T: Ranked>(s: Seq<T>, x: T)
    requires
        forall|i: int| 0 <= i < s.len() ==> !same_rank(x, #[trigger] s[i]),
    ensures
        class_of(s, x) == Seq::<T>::empty(),
    decreases s.len(),
{
    reveal_with_fuel(Seq::filter, 2);
    if s.len() > 0 {
        class_of_others(s.drop_last(), x);
    }
    assert(class_of(s, x) =~= Seq::empty());
}

/// The values with the place of `x` are values of the sequence.
proof fn class_is_part<T: Ranked>(s: Seq<T>, x: T, k: int)
    requires
        0 <= k < class_of(s, x).len(),
    ensures
        s.contains(class_of(s, x)[k]),
    decreases s.len(),
{
    reveal(Seq::filter);
    let shorter = s.drop_last();
    let z = class_of(s, x)[k];
    if k < class_of(shorter, x).len() {
        class_is_part(shorter, x, k);
        let i = choose|i: int| 0 <= i < shorter.len() && shorter[i] == z;
        assert(s[i] == z);
    } else {
        assert(s[s.len() - 1] == z);
    }
}

/// A value that goes behind all that may stand before it comes last among those with its place.
proof fn class_after_insert<T: Ranked>(s: Seq<T>, pos: int, x: T, y: T)
    requires
        0 <= pos <= s.len(),
        forall|i: int| pos <= i < s.len() ==> !(#[trigger] s[i]).rank_le(&x),
    ensures
        class_of(s.insert(pos, x), y) == class_of(s.push(x), y),
{
    let a = s.take(pos);
    let b = s.skip(pos);
    assert(s =~= a + b);
    assert(s.insert(pos, x) =~= a + seq![x] + b);
    assert(s.push(x) =~= a + b + seq![x]);
    class_of_parts(a + seq![x], b, y);
    class_of_parts(a, seq![x], y);
    class_of_parts(a + b, seq![x], y);
    class_of_parts(a, b, y);
    class_of_one(x, y);
    if same_rank(y, x) {
        assert forall|i: int| 0 <= i < b.len() implies !same_rank(y, #[trigger] b[i]) by {
            assert(b[i] == s[pos + i]);
            if same_rank(y, b[i]) {
                b[i].rank_transitive(&y, &x);
            }
        }
        class_of_others(b, y);
    }
    assert(class_of(s.insert(pos, x), y) =~= class_of(s.push(x), y));
}

/// Sorts values; those with the same place keep their order.
pub fn sort<T: Ranked>(values: Vec<T>) -> (r: Vec<T>)
    ensures
        stably_sorted(values@, r@),
{
    let mut rest = values;
    let mut out: Vec<T> = Vec::new();
    let ghost all = rest@;
    let ghost mut done: int = 0;
    assert(all.take(0) =~= out@);
    while rest.len() > 0
        invariant
            0 <= done <= all.len(),
            rest@ == all.skip(done),
            stably_sorted(all.take(done), out@),
        decreases rest.len(),
    {
        let ghost before = out@;
        let x = rest.remove(0);
        assert(x == all[done]);
        let mut pos = out.len();
        while pos > 0 && !out[pos - 1].may_precede(&x)
            invariant
                pos <= out@.len(),
                out@ == before,
                forall|i: int| pos <= i < out@.len() ==> !(#[trigger] out@[i]).rank_le(&x),
            decreases pos,
        {
            pos -= 1;
        }
        out.insert(pos, x);
        proof {
            let taken = all.take(done);
            assert(all.take(done + 1) =~= taken.push(x));
            assert forall|y: T| #[trigger] class_of(out@, y) == class_of(taken.push(x), y) by {
                class_after_insert(before, pos as int, x, y);
                class_of_parts(before, seq![x], y);
                class_of_parts(taken, seq![x], y);
                assert(before.push(x) =~= before + seq![x]);
                assert(taken.push(x) =~= taken + seq![x]);
                assert(class_of(before, y) == class_of(taken, y));
            }
            assert forall|i: int, j: int|
                #![trigger out@[i], out@[j]]
                0 <= i <= j < out@.len() implies out@[i].rank_le(&out@[j]) by {
                let (p, q) = (
                    if i < pos {
                        i
                    } else {
                        i - 1
                    },
                    if j < pos {
                        j
                    } else {
                        j - 1
                    },
                );
                x.rank_total(&x);
                if i != pos && j != pos {
                    assert(before[p].rank_le(&before[q]));
                } else if i == pos && j != pos {
                    assert(!before[q].rank_le(&x));
                    x.rank_total(&before[q]);
                } else if i != pos {
                    assert(before[p].rank_le(&before[pos - 1]));
                    before[p].rank_transitive(&before[pos - 1], &x);
                }
            }
            assert(rest@ =~= all.skip(done + 1));
            done = done + 1;
        }
    }
    assert(all.take(done) =~= all);
    out
}

/// A stable sort leaves nothing open: two sorted forms of one sequence are the same.
pub proof fn stably_sorted_is_unique<T: Ranked>(s: Seq<T>, a: Seq<T>, b: Seq<T>)
    requires
        stably_sorted(s, a),
        stably_sorted(s, b),
    ensures
        a == b,
{
    classes_determine(a, b);
}

/// Two sequences in order with the same values in each place are the same.
proof fn classes_determine<T: Ranked>(a: Seq<T>, b: Seq<T>)
    requires
        a.len() == b.len(),
        in_order(a),
        in_order(b),
        forall|x: T| #[trigger] class_of(a, x) == class_of(b, x),
    ensures
        a == b,
    decreases a.len(),
{
    if a.len() == 0 {
        assert(a =~= b);
    } else {
        let (x, y) = (a.last(), b.last());
        let (a1, b1) = (a.drop_last(), b.drop_last());
        x.rank_total(&x);
        y.rank_total(&y);
        assert(a =~= a1 + seq![x]);
        assert(b =~= b1 + seq![y]);
        class_of_parts(a1, seq![x], x);
        class_of_one(x, x);
        class_of_parts(b1, seq![y], y);
        class_of_one(y, y);
        // Each last value is in the other sequence, so neither stands before the other.
        assert(class_of(b, x).last() == x && class_of(b, x).len() > 0);
        class_is_part(b, x, class_of(b, x).len() - 1);
        let i = choose|i: int| 0 <= i < b.len() && b[i] == x;
        assert(b[i].rank_le(&b[b.len() - 1]));
        class_is_part(a, y, class_of(a, y).len() - 1);
        let j = choose|j: int| 0 <= j < a.len() && a[j] == y;
        assert(a[j].rank_le(&a[a.len() - 1]));
        assert(same_rank(x, y));
        class_of_parts(b1, seq![y], x);
        class_of_one(y, x);
        assert(class_of(b, x).last() == y);
        assert forall|z: T| #[trigger] class_of(a1, z) == class_of(b1, z) by {
            class_of_parts(a1, seq![x], z);
            class_of_parts(b1, seq![x], z);
            class_of_one(x, z);
            assert(class_of(a, z) == class_of(b, z));
            assert(class_of(a1, z) =~= class_of(b1, z)) by {
                let t = class_of(seq![x], z);
                assert(class_of(a1, z) + t == class_of(b1, z) + t);
                assert((class_of(a1, z) + t).len() == (class_of(b1, z) + t).len());
                assert forall|k: int| 0 <= k < class_of(a1, z).len() implies class_of(a1, z)[k]
                    == class_of(b1, z)[k] by {
                    assert((class_of(a1, z) + t)[k] == (class_of(b1, z) + t)[k]);
                }
            }
        }
        classes_determine(a1, b1);
        assert(a =~= b);
    }
}

/// Sorting neither adds nor loses values.
pub proof fn sorting_keeps_every_value<T: Ranked>(s: Seq<T>, sorted: Seq<T>, i: int)
    requires
        stably_sorted(s, sorted),
        0 <= i < s.len(),
    ensures
        sorted.len() == s.len(),
        sorted.contains(s[i]),
        s.contains(sorted[i]),
{
    value_is_kept(s, sorted, i);
    value_is_kept(sorted, s, i);
}

/// A value of one sequence is one of the other, if both have the same values in each place.
proof fn value_is_kept<T: Ranked>(a: Seq<T>, b: Seq<T>, i: int)
    requires
        0 <= i < a.len(),
        forall|x: T| #[trigger] class_of(a, x) == class_of(b, x),
    ensures
        b.contains(a[i]),
{
    let x = a[i];
    x.rank_total(&x);
    let k = class_has(a, x, i);
    assert(class_of(b, x)[k] == x);
    class_is_part(b, x, k);
}

/// Where among the values with its place a value stands.
proof fn class_has<T: Ranked>(s: Seq<T>, x: T, i: int) -> (k: int)
    requires
        0 <= i < s.len(),
        same_rank(x, s[i]),
    ensures
        0 <= k < class_of(s, x).len(),
        class_of(s, x)[k] == s[i],
    decreases s.len(),
{
    reveal(Seq::filter);
    if i == s.len() - 1 {
        class_of(s, x).len() - 1
    } else {
        class_has(s.drop_last(), x, i)
    }
}

/// After sorting, no value stands before one that may not stand after it.
pub proof fn sorted_values_ascend<T: Ranked>(s: Seq<T>, sorted: Seq<T>, i: int, j: int)
    requires
        stably_sorted(s, sorted),
        0 <= i < j < sorted.len(),
    ensures
        sorted[i].rank_le(&sorted[j]),
{
}

} // verus!
