use vstd::prelude::*;
use vstd::seq_lib::*;

verus! {

/// A total order under which a list of values has exactly one sorted
/// arrangement.
pub trait CanonicalOrder: Sized + Copy {
    spec fn spec_le(self, other: Self) -> bool;

    proof fn lemma_total_order(a: Self, b: Self, c: Self)
        ensures
            a.spec_le(b) || b.spec_le(a),
            a.spec_le(b) && b.spec_le(a) ==> a == b,
            a.spec_le(b) && b.spec_le(c) ==> a.spec_le(c),
    ;

    fn le(&self, other: &Self) -> (r: bool)
        ensures
            r == self.spec_le(*other),
    ;
}

pub open spec fn is_sorted<T: CanonicalOrder>(s: Seq<T>) -> bool {
    forall|i: int, j: int| 0 <= i < j < s.len() ==> (#[trigger] s[i]).spec_le(#[trigger] s[j])
}

/// Sorts by insertion into a growing sorted list.
pub fn sort_canonical<T: CanonicalOrder>(v: &Vec<T>) -> (r: Vec<T>)
    ensures
        r@.to_multiset() == v@.to_multiset(),
        is_sorted(r@),
{
    let mut r: Vec<T> = Vec::new();
    let mut k: usize = 0;
    assert(v@.take(0) =~= r@);
    while k < v.len()
        invariant
            k <= v@.len(),
            is_sorted(r@),
            r@.to_multiset() == v@.take(k as int).to_multiset(),
        decreases v@.len() - k,
    {
        let x = v[k];
        let mut pos: usize = 0;
        while pos < r.len() && r[pos].le(&x)
            invariant
                pos <= r@.len(),
                forall|i: int| 0 <= i < pos ==> (#[trigger] r@[i]).spec_le(x),
            decreases r@.len() - pos,
        {
            pos = pos + 1;
        }
        let ghost old_r = r@;
        proof {
            if pos < old_r.len() {
                T::lemma_total_order(x, old_r[pos as int], x);
                assert forall|j: int| pos <= j < old_r.len() implies x.spec_le(#[trigger] old_r[j]) by {
                    if j > pos {
                        T::lemma_total_order(x, old_r[pos as int], old_r[j]);
                    }
                }
            }
        }
        r.insert(pos, x);
        proof {
            old_r.insert_ensures(pos as int, x);
            assert forall|i: int, j: int| 0 <= i < j < r@.len() implies (#[trigger] r@[i]).spec_le(
                #[trigger] r@[j],
            ) by {
                if j < pos {
                } else if j == pos {
                } else if i < pos {
                    T::lemma_total_order(r@[i], x, r@[j]);
                } else if i == pos {
                } else {
                }
            }
            assert(v@.take(k as int + 1) =~= v@.take(k as int).push(x));
            to_multiset_insert(old_r, pos as int, x);
            to_multiset_build(v@.take(k as int), x);
        }
        k = k + 1;
    }
    assert(v@.take(v@.len() as int) =~= v@);
    r
}

/// Two sorted lists with the same elements are equal.
pub proof fn lemma_sorted_unique<T: CanonicalOrder>(a: Seq<T>, b: Seq<T>)
    requires
        is_sorted(a),
        is_sorted(b),
        a.to_multiset() == b.to_multiset(),
    ensures
        a == b,
    decreases a.len(),
{
    broadcast use to_multiset_remove, to_multiset_contains, to_multiset_len;

    if a.len() == 0 {
        assert(b.to_multiset().len() == 0);
        assert(b =~= a);
    } else {
        assert(a.to_multiset().count(a[0]) > 0);
        assert(b.contains(a[0]));
        assert(a.to_multiset().count(b[0]) > 0 ==> a.contains(b[0]));
        assert(b.to_multiset().count(b[0]) > 0);
        let i = choose|i: int| 0 <= i < b.len() && b[i] == a[0];
        let j = choose|j: int| 0 <= j < a.len() && a[j] == b[0];
        T::lemma_total_order(a[0], b[0], a[0]);
        if j > 0 {
            assert(a[0].spec_le(a[j]));
        }
        if i > 0 {
            assert(b[0].spec_le(b[i]));
        }
        assert(a[0] == b[0]);
        assert(a.remove(0) =~= a.drop_first());
        assert(b.remove(0) =~= b.drop_first());
        assert(a.drop_first().to_multiset() == b.drop_first().to_multiset());
        assert forall|p: int, q: int|
            0 <= p < q < a.drop_first().len() implies (#[trigger] a.drop_first()[p]).spec_le(
            #[trigger] a.drop_first()[q],
        ) by {
            assert(a[p + 1].spec_le(a[q + 1]));
        }
        assert forall|p: int, q: int|
            0 <= p < q < b.drop_first().len() implies (#[trigger] b.drop_first()[p]).spec_le(
            #[trigger] b.drop_first()[q],
        ) by {
            assert(b[p + 1].spec_le(b[q + 1]));
        }
        lemma_sorted_unique(a.drop_first(), b.drop_first());
        assert(a =~= seq![a[0]] + a.drop_first());
        assert(b =~= seq![b[0]] + b.drop_first());
    }
}

} // verus!
