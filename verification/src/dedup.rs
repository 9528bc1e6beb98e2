//! Incremental dedup scanner: given a candidate id list and the sorted list
//! of already stored ids, computes the candidates that are genuinely new.

use vstd::prelude::*;

use crate::models::StoryId;
use crate::seqs::{lemma_filter_all_true, lemma_filter_push};

verus! {

/// The ids are sorted in ascending order (duplicates allowed).
pub open spec fn sorted_ascending(s: Seq<StoryId>) -> bool {
    forall|i: int, j: int| 0 <= i < j < s.len() ==> s[i] <= s[j]
}

/// The candidates that are absent from `stored`, in candidate order.
pub open spec fn fresh_ids(candidates: Seq<StoryId>, stored: Seq<StoryId>) -> Seq<StoryId> {
    candidates.filter(fresh_pred(stored))
}

/// Holds of an id that is not yet stored.
pub open spec fn fresh_pred(stored: Seq<StoryId>) -> spec_fn(StoryId) -> bool {
    |id: StoryId| !stored.contains(id)
}

/// Whether a sorted id list contains `id`, by binary search.
pub fn contains_sorted(stored: &Vec<StoryId>, id: StoryId) -> (b: bool)
    requires
        sorted_ascending(stored@),
    ensures
        b == stored@.contains(id),
{
    let mut lo: usize = 0;
    let mut hi: usize = stored.len();
    while lo < hi
        invariant
            sorted_ascending(stored@),
            0 <= lo <= hi <= stored@.len(),
            forall|m: int| 0 <= m < lo ==> stored@[m] < id,
            forall|m: int| hi <= m < stored@.len() ==> stored@[m] > id,
        decreases hi - lo,
    {
        let mid: usize = lo + (hi - lo) / 2;
        if stored[mid] == id {
            assert(stored@.contains(id)) by {
                assert(stored@[mid as int] == id);
            }
            return true;
        } else if stored[mid] < id {
            assert(forall|m: int| 0 <= m <= mid ==> stored@[m] <= stored@[mid as int]);
            lo = mid + 1;
        } else {
            assert(forall|m: int| mid <= m < stored@.len() ==> stored@[m] >= stored@[mid as int]);
            hi = mid;
        }
    }
    assert(forall|m: int| 0 <= m < stored@.len() ==> stored@[m] != id);
    false
}

/// The smallest id in a non-empty list.
pub fn min_id(ids: &Vec<StoryId>) -> (m: StoryId)
    requires
        ids@.len() > 0,
    ensures
        ids@.contains(m),
        forall|i: int| 0 <= i < ids@.len() ==> m <= ids@[i],
{
    let mut m: StoryId = ids[0];
    let mut i: usize = 1;
    proof {
        assert(ids@[0] == m);
    }
    while i < ids.len()
        invariant
            1 <= i <= ids@.len(),
            ids@.contains(m),
            forall|j: int| 0 <= j < i ==> m <= ids@[j],
        decreases ids@.len() - i,
    {
        if ids[i] < m {
            m = ids[i];
            proof {
                assert(ids@[i as int] == m);
            }
        }
        i = i + 1;
    }
    m
}

/// Given the candidate ids fetched from the external source and the sorted
/// list of stored ids at least as small as the smallest candidate, returns
/// the candidates that are not stored yet, preserving candidate order.
///
/// A stored id is never reported as new, and a candidate greater than every
/// stored id is recognised as new without a search.
pub fn new_ids(candidates: &Vec<StoryId>, stored: &Vec<StoryId>) -> (r: Vec<StoryId>)
    requires
        sorted_ascending(stored@),
    ensures
        r@ == fresh_ids(candidates@, stored@),
{
    proof {
        reveal(Seq::filter);
    }
    if candidates.len() == 0 {
        let r: Vec<StoryId> = Vec::new();
        proof {
            assert(candidates@ =~= Seq::<StoryId>::empty());
        }
        return r;
    }
    if stored.len() == 0 {
        let r = candidates.clone();
        proof {
            assert(r@ =~= candidates@);
            lemma_filter_all_true(candidates@, fresh_pred(stored@));
        }
        return r;
    }
    let latest: StoryId = stored[stored.len() - 1];
    let mut r: Vec<StoryId> = Vec::new();
    let mut i: usize = 0;
    proof {
        assert(candidates@.take(0) =~= Seq::<StoryId>::empty());
    }
    while i < candidates.len()
        invariant
            sorted_ascending(stored@),
            stored@.len() > 0,
            latest == stored@[stored@.len() - 1],
            0 <= i <= candidates@.len(),
            r@ == fresh_ids(candidates@.take(i as int), stored@),
        decreases candidates@.len() - i,
    {
        let id: StoryId = candidates[i];
        let is_new: bool;
        if id > latest {
            proof {
                assert forall|m: int| 0 <= m < stored@.len() implies stored@[m] <= latest by {
                    if m < stored@.len() - 1 {
                        assert(stored@[m] <= stored@[stored@.len() - 1]);
                    }
                }
            }
            is_new = true;
        } else {
            is_new = !contains_sorted(stored, id);
        }
        if is_new {
            r.push(id);
        }
        proof {
            assert(candidates@.take(i + 1) =~= candidates@.take(i as int).push(id));
            lemma_filter_push(candidates@.take(i as int), fresh_pred(stored@), id);
        }
        i = i + 1;
    }
    proof {
        assert(candidates@.take(candidates@.len() as int) =~= candidates@);
    }
    r
}

/// The dedup scanner computes exactly the set difference between the
/// candidates and the stored ids: an id is reported as new if and only if
/// it is a candidate that is not stored. In particular a stored id is
/// never reported as new.
pub proof fn lemma_new_ids_set_difference(candidates: Seq<StoryId>, stored: Seq<StoryId>, id: StoryId)
    ensures
        fresh_ids(candidates, stored).contains(id) <==> (candidates.contains(id)
            && !stored.contains(id)),
{
    broadcast use vstd::seq_lib::group_filter_ensures;

    let fresh = fresh_ids(candidates, stored);
    if fresh.contains(id) {
        let k = choose|k: int| 0 <= k < fresh.len() && fresh[k] == id;
        assert(fresh_pred(stored)(fresh[k]));
        crate::seqs::lemma_filter_element_of(candidates, fresh_pred(stored), id);
    }
    if candidates.contains(id) && !stored.contains(id) {
        let k = choose|k: int| 0 <= k < candidates.len() && candidates[k] == id;
        assert(fresh_pred(stored)(candidates[k]));
        assert(fresh.contains(candidates[k]));
    }
}

/// With no candidates nothing is new; with nothing stored every candidate
/// is new, in unchanged order.
pub proof fn lemma_new_ids_trivial(candidates: Seq<StoryId>, stored: Seq<StoryId>)
    ensures
        fresh_ids(Seq::<StoryId>::empty(), stored) == Seq::<StoryId>::empty(),
        fresh_ids(candidates, Seq::<StoryId>::empty()) == candidates,
{
    reveal(Seq::filter);
    lemma_filter_all_true(candidates, fresh_pred(Seq::<StoryId>::empty()));
}

} // verus!
