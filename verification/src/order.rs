//! Stable ordering of lists.

use vstd::prelude::*;

verus! {

/// `after` holds the items of `before` in the order `le`, items of equal rank
/// in the order they had; `origin` says from which place each item comes.
pub open spec fn ordered_from<A>(
    before: Seq<A>,
    after: Seq<A>,
    le: spec_fn(A, A) -> bool,
    origin: Seq<int>,
) -> bool {
    &&& after.len() == before.len()
    &&& origin.len() == before.len()
    &&& forall|i: int|
        0 <= i < origin.len() ==> 0 <= #[trigger] origin[i] < before.len() && after[i]
            == before[origin[i]]
    &&& forall|i: int, j: int| 0 <= i < j < origin.len() ==> origin[i] != origin[j]
    &&& forall|k: int| 0 <= k < before.len() ==> origin.contains(k)
    &&& forall|i: int, j: int|
        #![trigger after[i], after[j]]
        0 <= i < j < after.len() ==> le(after[i], after[j])
    &&& forall|i: int, j: int|
        #![trigger origin[i], origin[j]]
        0 <= i < j < after.len() && le(after[j], after[i]) ==> origin[i] < origin[j]
}

/// `after` holds the items of `before` in the order `le`, items of equal rank
/// in the order they had.
pub open spec fn stably_ordered<A>(
    before: Seq<A>,
    after: Seq<A>,
    le: spec_fn(A, A) -> bool,
) -> bool {
    exists|origin: Seq<int>| ordered_from(before, after, le, origin)
}

/// Ordering a list loses no item and adds none.
pub proof fn ordering_keeps_items<A>(
    before: Seq<A>,
    after: Seq<A>,
    le: spec_fn(A, A) -> bool,
)
    requires
        stably_ordered(before, after, le),
    ensures
        after.len() == before.len(),
        forall|x: A| before.contains(x) <==> after.contains(x),
{
    let origin = choose|origin: Seq<int>| ordered_from(before, after, le, origin);
    assert forall|x: A| before.contains(x) implies after.contains(x) by {
        let k = choose|k: int| 0 <= k < before.len() && before[k] == x;
        assert(origin.contains(k));
        let i = choose|i: int| 0 <= i < origin.len() && origin[i] == k;
        assert(after[i] == before[origin[i]]);
    }
    assert forall|x: A| after.contains(x) implies before.contains(x) by {
        let i = choose|i: int| 0 <= i < after.len() && after[i] == x;
        assert(after[i] == before[origin[i]]);
    }
}

/// Items that a total order ranks.
pub trait Ranked: DeepView + Sized {
    /// Does `a` come before `b`, or do they have equal rank?
    spec fn le(a: Self::V, b: Self::V) -> bool;

    /// Any two items are ranked.
    proof fn le_total(a: Self::V, b: Self::V)
        ensures
            Self::le(a, b) || Self::le(b, a),
    ;

    /// Ranks are transitive.
    proof fn le_transitive(a: Self::V, b: Self::V, c: Self::V)
        requires
            Self::le(a, b),
            Self::le(b, c),
        ensures
            Self::le(a, c),
    ;

    /// Does this item come before `other`, or do they have equal rank?
    fn ranks_at_most(&self, other: &Self) -> (r: bool)
        ensures
            r == Self::le(self.deep_view(), other.deep_view()),
    ;
}

/// Where an item belongs in an ordered list: after every item of its rank.
fn place_for<T: Ranked>(ordered: &Vec<T>, item: &T) -> (r: usize)
    requires
        forall|i: int, j: int|
            #![trigger ordered@[i], ordered@[j]]
            0 <= i < j < ordered@.len() ==> T::le(
                ordered@[i].deep_view(),
                ordered@[j].deep_view(),
            ),
    ensures
        r <= ordered@.len(),
        forall|i: int| 0 <= i < r ==> T::le(#[trigger] ordered@[i].deep_view(), item.deep_view()),
        forall|i: int|
            r <= i < ordered@.len() ==> !T::le(
                #[trigger] ordered@[i].deep_view(),
                item.deep_view(),
            ),
{
    let mut at: usize = ordered.len();
    while at > 0
        invariant
            at <= ordered@.len(),
            forall|i: int|
                at <= i < ordered@.len() ==> !T::le(
                    #[trigger] ordered@[i].deep_view(),
                    item.deep_view(),
                ),
            forall|i: int, j: int|
                #![trigger ordered@[i], ordered@[j]]
                0 <= i < j < ordered@.len() ==> T::le(
                    ordered@[i].deep_view(),
                    ordered@[j].deep_view(),
                ),
        decreases at,
    {
        if ordered[at - 1].ranks_at_most(item) {
            proof {
                assert forall|i: int| 0 <= i < at implies T::le(
                    #[trigger] ordered@[i].deep_view(),
                    item.deep_view(),
                ) by {
                    if i < at - 1 {
                        let last = ordered@[at - 1];
                        T::le_transitive(
                            ordered@[i].deep_view(),
                            last.deep_view(),
                            item.deep_view(),
                        );
                    }
                }
            }
            return at;
        }
        at -= 1;
    }
    at
}

/// The items in the order of their ranks; items of equal rank keep their order.
pub fn stable_sort<T: Ranked>(items: Vec<T>) -> (r: Vec<T>)
    ensures
        stably_ordered(items.deep_view(), r.deep_view(), |a: T::V, b: T::V| T::le(a, b)),
{
    let ghost before = items@;
    let ghost le = |a: T::V, b: T::V| T::le(a, b);
    let mut out: Vec<T> = Vec::new();
    let ghost mut origin: Seq<int> = Seq::empty();
    for item in it: items
        invariant
            it.seq() == before,
            out@.len() == it.index(),
            origin.len() == it.index(),
            le == (|a: T::V, b: T::V| T::le(a, b)),
            forall|i: int|
                0 <= i < origin.len() ==> 0 <= #[trigger] origin[i] < it.index() && out@[i]
                    == before[origin[i]],
            forall|i: int, j: int| 0 <= i < j < origin.len() ==> origin[i] != origin[j],
            forall|k: int| 0 <= k < it.index() ==> #[trigger] origin.contains(k),
            forall|i: int, j: int|
                #![trigger out@[i], out@[j]]
                0 <= i < j < out@.len() ==> T::le(out@[i].deep_view(), out@[j].deep_view()),
            forall|i: int, j: int|
                #![trigger origin[i], origin[j]]
                0 <= i < j < out@.len() && T::le(out@[j].deep_view(), out@[i].deep_view())
                    ==> origin[i] < origin[j],
    {
        let ghost old_out = out@;
        let ghost old_origin = origin;
        let ghost here = it.index() as int;
        let at: usize = place_for(&out, &item);
        let ghost placed = item;
        out.insert(at, item);
        proof {
            origin = old_origin.insert(at as int, here);
            assert forall|i: int| 0 <= i < origin.len() implies 0 <= #[trigger] origin[i] < here + 1
                && out@[i] == before[origin[i]] by {
                if i < at {
                    assert(origin[i] == old_origin[i]);
                } else if i > at {
                    assert(origin[i] == old_origin[i - 1]);
                }
            }
            assert forall|k: int| 0 <= k < here + 1 implies #[trigger] origin.contains(k) by {
                if k == here {
                    assert(origin[at as int] == here);
                } else {
                    assert(old_origin.contains(k));
                    let i = choose|i: int| 0 <= i < old_origin.len() && old_origin[i] == k;
                    if i < at {
                        assert(origin[i] == k);
                    } else {
                        assert(origin[i + 1] == k);
                    }
                }
            }
            assert forall|i: int, j: int|
                #![trigger out@[i], out@[j]]
                0 <= i < j < out@.len() implies T::le(out@[i].deep_view(), out@[j].deep_view()) by {
                if i == at {
                    assert(out@[j] == old_out[j - 1]);
                    T::le_total(placed.deep_view(), old_out[j - 1].deep_view());
                } else if j == at {
                    assert(out@[i] == old_out[i]);
                } else {
                    let a = if i < at { i } else { i - 1 };
                    let b = if j < at { j } else { j - 1 };
                    assert(out@[i] == old_out[a] && out@[j] == old_out[b]);
                }
            }
            assert forall|i: int, j: int|
                #![trigger origin[i], origin[j]]
                0 <= i < j < out@.len() && T::le(out@[j].deep_view(), out@[i].deep_view()) implies
                origin[i] < origin[j] by {
                if i == at {
                    assert(out@[j] == old_out[j - 1]);
                } else if j == at {
                    assert(origin[i] == old_origin[i]);
                } else {
                    let a = if i < at { i } else { i - 1 };
                    let b = if j < at { j } else { j - 1 };
                    assert(out@[i] == old_out[a] && out@[j] == old_out[b]);
                    assert(origin[i] == old_origin[a] && origin[j] == old_origin[b]);
                }
            }
        }
    }
    proof {
        assert(ordered_from(items.deep_view(), out.deep_view(), le, origin));
    }
    out
}

} // verus!
