//! Incremental search: the first visible record whose case-folded name holds
//! the query.
use vstd::prelude::*;

use crate::catalogue::records;
use crate::text::{chars_of, contains_chars, contains_seq, lower_of, lowercase, texts};
use crate::weapons::{Weapon, WeaponView};

verus! {

/// The names of the catalogue, case-folded.
pub open spec fn folded_names(cat: Seq<WeaponView>) -> Seq<Seq<char>> {
    Seq::new(cat.len(), |i: int| lower_of(cat[i].name))
}

/// The first position `p` of `shown` such that `texts[shown[p]]` contains `q`.
pub open spec fn first_hit(texts: Seq<Seq<char>>, shown: Seq<usize>, q: Seq<char>) -> Option<
    usize,
>
    decreases shown.len(),
{
    if shown.len() == 0 {
        None
    } else {
        match first_hit(texts, shown.drop_last(), q) {
            Some(p) => Some(p),
            None => if contains_seq(texts[shown.last() as int], q) {
                Some((shown.len() - 1) as usize)
            } else {
                None
            },
        }
    }
}

/// The positions of `shown` whose text contains `q`.
pub open spec fn match_set(texts: Seq<Seq<char>>, shown: Seq<usize>, q: Seq<char>) -> Set<int> {
    Set::new(|p: int| 0 <= p < shown.len() && contains_seq(texts[shown[p] as int], q))
}

/// Once a prefix of `shown` has a hit, every longer prefix has the same one.
proof fn lemma_hit_stays(texts: Seq<Seq<char>>, shown: Seq<usize>, q: Seq<char>, n: int)
    requires
        0 < n <= shown.len(),
        first_hit(texts, shown.subrange(0, n), q) is Some,
    ensures
        first_hit(texts, shown, q) == first_hit(texts, shown.subrange(0, n), q),
    decreases shown.len() - n,
{
    if n == shown.len() {
        assert(shown.subrange(0, n) =~= shown);
    } else {
        assert(shown.subrange(0, n + 1).drop_last() =~= shown.subrange(0, n));
        lemma_hit_stays(texts, shown, q, n + 1);
    }
}

/// The first position of `shown` whose string in `folded` contains `query`.
pub fn first_containing(folded: &Vec<String>, shown: &Vec<usize>, query: &Vec<char>) -> (r: Option<
    usize,
>)
    requires
        forall|p: int| 0 <= p < shown@.len() ==> #[trigger] shown@[p] < folded@.len(),
    ensures
        r == first_hit(texts(folded@), shown@, query@),
{
    let ghost t = texts(folded@);
    let mut i: usize = 0;
    assert(shown@.subrange(0, 0) =~= Seq::<usize>::empty());
    while i < shown.len()
        invariant
            t == texts(folded@),
            i <= shown@.len(),
            forall|p: int| 0 <= p < shown@.len() ==> #[trigger] shown@[p] < folded@.len(),
            first_hit(t, shown@.subrange(0, i as int), query@) is None,
        decreases shown@.len() - i,
    {
        let name = chars_of(folded[shown[i]].as_str());
        assert(shown@.subrange(0, i + 1).drop_last() =~= shown@.subrange(0, i as int));
        assert(shown@.subrange(0, i + 1).last() == shown@[i as int]);
        if contains_chars(&name, query) {
            proof {
                lemma_hit_stays(t, shown@, query@, i + 1);
            }
            return Some(i);
        }
        i = i + 1;
    }
    assert(shown@.subrange(0, i as int) =~= shown@);
    None
}

/// The case-folded name of each record.
pub fn fold_names(catalogue: &Vec<Weapon>) -> (r: Vec<String>)
    ensures
        r@.len() == catalogue@.len(),
        texts(r@) == folded_names(records(catalogue@)),
{
    let mut r: Vec<String> = Vec::new();
    let mut i: usize = 0;
    while i < catalogue.len()
        invariant
            i <= catalogue@.len(),
            r@.len() == i,
            texts(r@) == folded_names(records(catalogue@)).subrange(0, i as int),
        decreases catalogue@.len() - i,
    {
        let folded = lowercase(catalogue[i].name.as_str());
        assert(folded@ == folded_names(records(catalogue@))[i as int]);
        r.push(folded);
        i = i + 1;
        assert(texts(r@) =~= folded_names(records(catalogue@)).subrange(0, i as int));
    }
    assert(folded_names(records(catalogue@)).subrange(0, i as int) =~= folded_names(
        records(catalogue@),
    ));
    r
}

/// The position in `shown` of the first record whose case-folded name
/// contains `query`; `None` where no record does.
pub fn search_position(catalogue: &Vec<Weapon>, shown: &Vec<usize>, query: &Vec<char>) -> (r:
    Option<usize>)
    requires
        forall|p: int| 0 <= p < shown@.len() ==> #[trigger] shown@[p] < catalogue@.len(),
    ensures
        r == first_hit(folded_names(records(catalogue@)), shown@, query@),
{
    let folded = fold_names(catalogue);
    first_containing(&folded, shown, query)
}

/// A longer query never matches more: whatever position of `shown` matches
/// `q` followed by more characters also matches `q`.
pub proof fn lemma_longer_query_narrows(
    texts: Seq<Seq<char>>,
    shown: Seq<usize>,
    q: Seq<char>,
    more: Seq<char>,
)
    ensures
        match_set(texts, shown, q + more).subset_of(match_set(texts, shown, q)),
{
    assert forall|p: int| #[trigger]
        match_set(texts, shown, q + more).contains(p) implies match_set(
        texts,
        shown,
        q,
    ).contains(p) by {
        let t = texts[shown[p] as int];
        let long = q + more;
        let k = choose|k: int|
            0 <= k && k + long.len() <= t.len() && #[trigger] t.subrange(k, k + long.len())
                == long;
        assert(t.subrange(k, k + q.len()) =~= long.subrange(0, q.len() as int));
        assert(long.subrange(0, q.len() as int) =~= q);
    }
}

} // verus!
