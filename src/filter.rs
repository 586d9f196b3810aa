//! The visible subset of the catalogue under a scaling filter.
use vstd::prelude::*;

use crate::catalogue::records;
use crate::weapons::{rank_at, rank_with_position, Attribute, Rank, Weapon, WeaponView};

verus! {

/// The indices below `n` of the records whose slot `a` holds `r`, ascending.
pub open spec fn with_rank(cat: Seq<WeaponView>, a: int, r: Rank, n: int) -> Seq<usize>
    decreases n,
{
    if n <= 0 {
        Seq::empty()
    } else if cat[n - 1].scaling[a] == Some(r) {
        with_rank(cat, a, r, n - 1).push((n - 1) as usize)
    } else {
        with_rank(cat, a, r, n - 1)
    }
}

/// The records of the first `k` ranks (in the order S, A, B, C, D, E) in slot
/// `a`, rank by rank, each rank in catalogue order.
pub open spec fn ranked(cat: Seq<WeaponView>, a: int, k: nat) -> Seq<usize>
    decreases k,
{
    if k == 0 {
        Seq::empty()
    } else {
        ranked(cat, a, (k - 1) as nat) + with_rank(cat, a, rank_at((k - 1) as nat), cat.len() as int)
    }
}

/// The records with a scaling entry for `a`, sorted by rank from S to E, ties
/// kept in catalogue order.
pub open spec fn filtered(cat: Seq<WeaponView>, a: Attribute) -> Seq<usize> {
    ranked(cat, a.slot(), 6)
}

/// Every index of the catalogue, in order.
pub open spec fn all_indices(n: nat) -> Seq<usize> {
    Seq::new(n, |i: int| i as usize)
}

/// The visible subset under `filter`: the whole catalogue where there is none.
pub open spec fn visible(cat: Seq<WeaponView>, filter: Option<Attribute>) -> Seq<usize> {
    match filter {
        None => all_indices(cat.len()),
        Some(a) => filtered(cat, a),
    }
}

/// The filter after toggling `a`: cleared where `a` was set, else `a`.
pub open spec fn toggled(filter: Option<Attribute>, a: Attribute) -> Option<Attribute> {
    if filter == Some(a) {
        None
    } else {
        Some(a)
    }
}

/// The rank order of record `x` in slot `a`; 6 where it has no entry.
pub open spec fn rank_key(cat: Seq<WeaponView>, a: int, x: usize) -> nat {
    match cat[x as int].scaling[a] {
        Some(r) => r.order(),
        None => 6,
    }
}

/// Every index of the catalogue, in order.
pub fn every_index(n: usize) -> (r: Vec<usize>)
    ensures
        r@ == all_indices(n as nat),
{
    let mut r: Vec<usize> = Vec::new();
    let mut i: usize = 0;
    while i < n
        invariant
            i <= n,
            r@ == all_indices(i as nat),
        decreases n - i,
    {
        r.push(i);
        i = i + 1;
        assert(r@ =~= all_indices(i as nat));
    }
    r
}

/// The records with a scaling entry for `attribute`, sorted by rank from S to E;
/// records of one rank keep their catalogue order.
pub fn filter_indices(catalogue: &Vec<Weapon>, attribute: Attribute) -> (r: Vec<usize>)
    ensures
        r@ == filtered(records(catalogue@), attribute),
{
    let ghost cat = records(catalogue@);
    let a = attribute.index();
    let mut r: Vec<usize> = Vec::new();
    let mut k: usize = 0;
    while k < 6
        invariant
            cat == records(catalogue@),
            a as int == attribute.slot(),
            k <= 6,
            r@ == ranked(cat, a as int, k as nat),
        decreases 6 - k,
    {
        let rank = rank_with_position(k);
        let ghost before = r@;
        let mut i: usize = 0;
        while i < catalogue.len()
            invariant
                cat == records(catalogue@),
                a < 5,
                i <= catalogue@.len(),
                r@ == before + with_rank(cat, a as int, rank, i as int),
            decreases catalogue@.len() - i,
        {
            let slot = catalogue[i].scaling[a].1;
            assert(cat[i as int].scaling[a as int] == slot);
            let hit = match slot {
                Some(s) => s == rank,
                None => false,
            };
            if hit {
                r.push(i);
                assert(r@ =~= before + with_rank(cat, a as int, rank, i + 1));
            } else {
                assert(r@ =~= before + with_rank(cat, a as int, rank, i + 1));
            }
            i = i + 1;
        }
        k = k + 1;
    }
    r
}

/// Each index in `with_rank(cat, a, r, n)` is below `n`, holds `r` in slot `a`,
/// and comes after the ones before it.
proof fn lemma_with_rank(cat: Seq<WeaponView>, a: int, r: Rank, n: int)
    requires
        0 <= n <= cat.len(),
        cat.len() <= usize::MAX,
    ensures
        forall|p: int|
            0 <= p < with_rank(cat, a, r, n).len() ==> (#[trigger] with_rank(cat, a, r, n)[p])
                < n && cat[with_rank(cat, a, r, n)[p] as int].scaling[a] == Some(r),
        forall|p: int, q: int|
            0 <= p < q < with_rank(cat, a, r, n).len() ==> #[trigger] with_rank(cat, a, r, n)[p]
                < #[trigger] with_rank(cat, a, r, n)[q],
    decreases n,
{
    if n > 0 {
        lemma_with_rank(cat, a, r, n - 1);
        let prev = with_rank(cat, a, r, n - 1);
        let cur = with_rank(cat, a, r, n);
        if cat[n - 1].scaling[a] == Some(r) {
            assert(cur == prev.push((n - 1) as usize));
            assert forall|p: int| 0 <= p < prev.len() implies #[trigger] cur[p] == prev[p] by {}
        } else {
            assert(cur == prev);
        }
    }
}

/// Each index in `ranked(cat, a, k)` is a record with an entry in slot `a` of
/// rank order below `k`, and the ranks never decrease along the sequence.
proof fn lemma_ranked(cat: Seq<WeaponView>, a: int, k: nat)
    requires
        k <= 6,
        cat.len() <= usize::MAX,
    ensures
        forall|p: int|
            0 <= p < ranked(cat, a, k).len() ==> (#[trigger] ranked(cat, a, k)[p]) < cat.len()
                && cat[ranked(cat, a, k)[p] as int].scaling[a] is Some && rank_key(
                cat,
                a,
                ranked(cat, a, k)[p],
            ) < k,
        forall|p: int, q: int|
            0 <= p < q < ranked(cat, a, k).len() ==> rank_key(cat, a, #[trigger] ranked(cat, a, k)[p])
                < rank_key(cat, a, #[trigger] ranked(cat, a, k)[q]) || (rank_key(
                cat,
                a,
                ranked(cat, a, k)[p],
            ) == rank_key(cat, a, ranked(cat, a, k)[q]) && ranked(cat, a, k)[p] < ranked(
                cat,
                a,
                k,
            )[q]),
    decreases k,
{
    if k > 0 {
        let k1 = (k - 1) as nat;
        lemma_ranked(cat, a, k1);
        let r = rank_at(k1);
        lemma_with_rank(cat, a, r, cat.len() as int);
        let head = ranked(cat, a, k1);
        let tail = with_rank(cat, a, r, cat.len() as int);
        assert(ranked(cat, a, k) == head + tail);
        assert forall|p: int| 0 <= p < tail.len() implies rank_key(cat, a, #[trigger] tail[p])
            == k1 by {}
        assert forall|p: int|
            0 <= p < ranked(cat, a, k).len() implies (#[trigger] ranked(cat, a, k)[p]) < cat.len()
            && cat[ranked(cat, a, k)[p] as int].scaling[a] is Some && rank_key(
            cat,
            a,
            ranked(cat, a, k)[p],
        ) < k by {
            if p >= head.len() {
                assert(ranked(cat, a, k)[p] == tail[p - head.len()]);
            }
        }
        assert forall|p: int, q: int| 0 <= p < q < ranked(cat, a, k).len() implies rank_key(
            cat,
            a,
            #[trigger] ranked(cat, a, k)[p],
        ) < rank_key(cat, a, #[trigger] ranked(cat, a, k)[q]) || (rank_key(
            cat,
            a,
            ranked(cat, a, k)[p],
        ) == rank_key(cat, a, ranked(cat, a, k)[q]) && ranked(cat, a, k)[p] < ranked(cat, a, k)[q]) by {
            if q < head.len() {
                assert(ranked(cat, a, k)[p] == head[p]);
                assert(ranked(cat, a, k)[q] == head[q]);
            } else if p < head.len() {
                assert(ranked(cat, a, k)[p] == head[p]);
                assert(ranked(cat, a, k)[q] == tail[q - head.len()]);
            } else {
                assert(ranked(cat, a, k)[p] == tail[p - head.len()]);
                assert(ranked(cat, a, k)[q] == tail[q - head.len()]);
            }
        }
    }
}

/// A filter on `a` shows only records with a scaling entry for `a`, sorted by
/// rank from S to E; records of equal rank keep their catalogue order.
pub proof fn lemma_filter_sorted(cat: Seq<WeaponView>, a: Attribute)
    requires
        cat.len() <= usize::MAX,
    ensures
        forall|p: int|
            0 <= p < filtered(cat, a).len() ==> (#[trigger] filtered(cat, a)[p]) < cat.len()
                && cat[filtered(cat, a)[p] as int].scaling[a.slot()] is Some,
        forall|p: int, q: int|
            0 <= p < q < filtered(cat, a).len() ==> rank_key(
                cat,
                a.slot(),
                #[trigger] filtered(cat, a)[p],
            ) <= rank_key(cat, a.slot(), #[trigger] filtered(cat, a)[q]),
        forall|p: int, q: int|
            0 <= p < q < filtered(cat, a).len() && rank_key(
                cat,
                a.slot(),
                #[trigger] filtered(cat, a)[p],
            ) == rank_key(cat, a.slot(), #[trigger] filtered(cat, a)[q]) ==> filtered(cat, a)[p]
                < filtered(cat, a)[q],
{
    lemma_ranked(cat, a.slot(), 6);
}

/// Toggling the same attribute twice gives back the visible subset that was
/// shown before, where the filter was clear or already on that attribute.
pub proof fn lemma_toggle_twice(cat: Seq<WeaponView>, filter: Option<Attribute>, a: Attribute)
    requires
        filter is None || filter == Some(a),
    ensures
        toggled(toggled(filter, a), a) == filter,
        visible(cat, toggled(toggled(filter, a), a)) == visible(cat, filter),
{
}

} // verus!
