//! Stable ordering of Hub entries by their size in bytes.
use vstd::prelude::*;

verus! {

/// An entry that is ordered by a size in bytes.
pub trait SizedEntry: Sized {
    spec fn size_spec(&self) -> u64;

    fn size(&self) -> (s: u64)
        ensures
            s == self.size_spec(),
    ;
}

/// `x` inserted into `sorted` after every entry that is not larger than it.
pub open spec fn insert_by_size<T: SizedEntry>(sorted: Seq<T>, x: T) -> Seq<T>
    decreases sorted.len(),
{
    if sorted.len() == 0 {
        seq![x]
    } else if x.size_spec() < sorted.last().size_spec() {
        insert_by_size(sorted.drop_last(), x).push(sorted.last())
    } else {
        sorted.push(x)
    }
}

/// What a stable sort by size (`sort_by_key`) makes of `s`.
pub open spec fn sorted_by_size<T: SizedEntry>(s: Seq<T>) -> Seq<T>
    decreases s.len(),
{
    if s.len() == 0 {
        Seq::empty()
    } else {
        insert_by_size(sorted_by_size(s.drop_last()), s.last())
    }
}

/// Sizes never decrease along `s`.
pub open spec fn nondecreasing<T: SizedEntry>(s: Seq<T>) -> bool {
    forall|i: int, j: int| 0 <= i <= j < s.len() ==> #[trigger] s[i].size_spec() <= #[trigger] s[j].size_spec()
}

/// The entries of `s` of the given size, in their order.
pub open spec fn of_size<T: SizedEntry>(s: Seq<T>, size: u64) -> Seq<T> {
    s.filter(|x: T| x.size_spec() == size)
}

proof fn lemma_insert_at<T: SizedEntry>(s: Seq<T>, x: T, j: int)
    requires
        0 <= j <= s.len(),
        j == 0 || s[j - 1].size_spec() <= x.size_spec(),
        forall|m: int| j <= m < s.len() ==> x.size_spec() < #[trigger] s[m].size_spec(),
    ensures
        insert_by_size(s, x) == s.insert(j, x),
    decreases s.len(),
{
    if s.len() == 0 {
        assert(s.insert(j, x) =~= seq![x]);
    } else if j == s.len() {
        assert(s.insert(j, x) =~= s.push(x));
    } else {
        let t = s.drop_last();
        assert(x.size_spec() < s[s.len() - 1].size_spec());
        lemma_insert_at(t, x, j);
        assert(t.insert(j, x).push(s.last()) =~= s.insert(j, x));
    }
}

proof fn lemma_insert_keeps_order<T: SizedEntry>(s: Seq<T>, x: T)
    requires
        nondecreasing(s),
    ensures
        nondecreasing(insert_by_size(s, x)),
        insert_by_size(s, x).to_multiset() == s.to_multiset().insert(x),
        forall|k: u64| #[trigger] of_size(insert_by_size(s, x), k) == if x.size_spec() == k {
            of_size(s, k).push(x)
        } else {
            of_size(s, k)
        },
    decreases s.len(),
{
    broadcast use vstd::seq_lib::group_to_multiset_ensures;
    broadcast use Seq::lemma_filter_push;

    if s.len() == 0 {
        assert(seq![x] =~= Seq::<T>::empty().push(x));
        assert forall|k: u64| #[trigger] of_size(insert_by_size(s, x), k) == if x.size_spec() == k {
            of_size(s, k).push(x)
        } else {
            of_size(s, k)
        } by {
            assert(of_size(Seq::<T>::empty(), k) =~= Seq::<T>::empty());
        }
    } else if x.size_spec() < s.last().size_spec() {
        let t = s.drop_last();
        let last = s.last();
        assert(nondecreasing(t));
        lemma_insert_keeps_order(t, x);
        let r = insert_by_size(t, x);
        assert(r.push(last) == insert_by_size(s, x));
        assert(t.push(last) =~= s);
        assert forall|k: u64| #[trigger] of_size(insert_by_size(s, x), k) == if x.size_spec() == k {
            of_size(s, k).push(x)
        } else {
            of_size(s, k)
        } by {
            assert(of_size(r.push(last), k) == if last.size_spec() == k {
                of_size(r, k).push(last)
            } else {
                of_size(r, k)
            });
            assert(of_size(t.push(last), k) == if last.size_spec() == k {
                of_size(t, k).push(last)
            } else {
                of_size(t, k)
            });
        }
        assert forall|i: int, j: int| 0 <= i <= j < r.push(last).len() implies #[trigger] r.push(
            last,
        )[i].size_spec() <= #[trigger] r.push(last)[j].size_spec() by {
            if j == r.len() && i < j {
                assert(r.to_multiset().count(r[i]) > 0);
                assert(r[i] == x || t.to_multiset().count(r[i]) > 0);
                if r[i] != x {
                    assert(t.contains(r[i]));
                    let m = choose|m: int| 0 <= m < t.len() && t[m] == r[i];
                    assert(s[m] == t[m]);
                    assert(s[m].size_spec() <= s[s.len() - 1].size_spec());
                }
            }
        }
    } else {
        assert forall|k: u64| #[trigger] of_size(insert_by_size(s, x), k) == if x.size_spec() == k {
            of_size(s, k).push(x)
        } else {
            of_size(s, k)
        } by {
            assert(insert_by_size(s, x) == s.push(x));
            assert(of_size(s.push(x), k) == if x.size_spec() == k {
                of_size(s, k).push(x)
            } else {
                of_size(s, k)
            });
        }
        assert forall|i: int, j: int| 0 <= i <= j < s.push(x).len() implies #[trigger] s.push(
            x,
        )[i].size_spec() <= #[trigger] s.push(x)[j].size_spec() by {
            if j == s.len() && i < j {
                assert(s[i].size_spec() <= s[s.len() - 1].size_spec());
            }
        }
    }
}

/// A stable sort by size keeps every entry, orders the sizes, and keeps the
/// order of entries of equal size.
pub proof fn lemma_sorted_by_size<T: SizedEntry>(s: Seq<T>)
    ensures
        nondecreasing(sorted_by_size(s)),
        sorted_by_size(s).to_multiset() == s.to_multiset(),
        forall|k: u64| #[trigger] of_size(sorted_by_size(s), k) == of_size(s, k),
    decreases s.len(),
{
    broadcast use vstd::seq_lib::group_to_multiset_ensures;
    broadcast use Seq::lemma_filter_push;

    if s.len() > 0 {
        let t = s.drop_last();
        lemma_sorted_by_size(t);
        lemma_insert_keeps_order(sorted_by_size(t), s.last());
        assert(t.push(s.last()) =~= s);
    } else {
        assert forall|k: u64| #[trigger] of_size(sorted_by_size(s), k) == of_size(s, k) by {
            assert(sorted_by_size(s) =~= s);
        }
    }
}

/// Sorts entries by size, keeping the order of entries of equal size.
pub fn sort_by_size<T: SizedEntry>(items: Vec<T>) -> (out: Vec<T>)
    ensures
        out@ == sorted_by_size(items@),
{
    let ghost all = items@;
    let mut rest = items;
    let mut out: Vec<T> = Vec::new();
    proof {
        assert(all.take(0) =~= Seq::<T>::empty());
        assert(all.skip(0) =~= all);
    }
    while rest.len() > 0
        invariant
            rest.len() <= all.len(),
            rest@ == all.skip(all.len() - rest.len()),
            out@ == sorted_by_size(all.take(all.len() - rest.len())),
        decreases rest.len(),
    {
        let ghost k = all.len() - rest.len();
        let x = rest.remove(0);
        proof {
            assert(x == all[k]);
            assert(rest@ =~= all.skip(k + 1));
            lemma_sorted_by_size(all.take(k));
        }
        let size = x.size();
        let mut j = out.len();
        while j > 0 && size < out[j - 1].size()
            invariant
                j <= out.len(),
                size == x.size_spec(),
                forall|m: int| j <= m < out.len() ==> x.size_spec() < #[trigger] out@[m].size_spec(),
            decreases j,
        {
            j -= 1;
        }
        proof {
            lemma_insert_at(out@, x, j as int);
            assert(all.take(k + 1).drop_last() =~= all.take(k));
        }
        out.insert(j, x);
    }
    proof {
        assert(all.take(all.len() as int) =~= all);
    }
    out
}

} // verus!
