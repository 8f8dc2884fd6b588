//! Nearest-element selection: pick the item minimizing a distance, in a
//! single scan, with strict `<` so that ties keep the first candidate seen.
//! An item whose distance is `None` ("not applicable") is skipped without
//! affecting the running minimum.

use vstd::prelude::*;

verus! {

/// Distances as mathematical integers.
pub open spec fn dists_view(s: Seq<Option<i64>>) -> Seq<Option<int>> {
    s.map_values(
        |d: Option<i64>|
            match d {
                Some(v) => Some(v as int),
                None => None,
            },
    )
}

/// The index of the least applicable distance, the earliest index winning
/// ties: the running minimum of one left-to-right scan with strict `<`.
/// `None` when no distance is applicable.
pub open spec fn closest(dists: Seq<Option<int>>) -> Option<int>
    decreases dists.len(),
{
    if dists.len() == 0 {
        None
    } else {
        let prefix = closest(dists.drop_last());
        match dists.last() {
            None => prefix,
            Some(d) => match prefix {
                None => Some(dists.len() - 1),
                Some(i) => if d < dists[i]->Some_0 {
                    Some(dists.len() - 1)
                } else {
                    prefix
                },
            },
        }
    }
}

/// What `closest` returns: an applicable index that no other applicable
/// index beats, and that beats every earlier applicable index strictly.
pub proof fn lemma_closest_properties(dists: Seq<Option<int>>)
    ensures
        closest(dists) is None ==> forall|j: int| 0 <= j < dists.len() ==> dists[j] is None,
        closest(dists) matches Some(i) ==> {
            &&& 0 <= i < dists.len()
            &&& dists[i] is Some
            &&& forall|j: int|
                0 <= j < dists.len() && #[trigger] dists[j] is Some ==> dists[i]->Some_0
                    <= dists[j]->Some_0
            &&& forall|j: int|
                0 <= j < i && #[trigger] dists[j] is Some ==> dists[i]->Some_0 < dists[j]->Some_0
        },
    decreases dists.len(),
{
    if dists.len() > 0 {
        lemma_closest_properties(dists.drop_last());
        assert(forall|j: int| 0 <= j < dists.len() - 1 ==> dists[j] == dists.drop_last()[j]);
    }
}

/// Scans the distances once and returns the index of the closest applicable
/// item, ties keeping the first seen; `None` when none is applicable.
pub fn find_closest_element(dists: &Vec<Option<i64>>) -> (r: Option<usize>)
    ensures
        match r {
            None => closest(dists_view(dists@)) is None,
            Some(i) => i < dists@.len() && closest(dists_view(dists@)) == Some(i as int),
        },
{
    let ghost gdists = dists_view(dists@);
    let mut best: Option<usize> = None;
    let mut best_dist: i64 = 0;
    let mut k: usize = 0;
    while k < dists.len()
        invariant
            k <= dists@.len(),
            gdists == dists_view(dists@),
            gdists.len() == dists@.len(),
            forall|j: int|
                0 <= j < dists@.len() ==> gdists[j] == match dists@[j] {
                    Some(v) => Some(v as int),
                    None => None::<int>,
                },
            match best {
                None => closest(gdists.subrange(0, k as int)) is None,
                Some(i) => {
                    &&& i < k
                    &&& closest(gdists.subrange(0, k as int)) == Some(i as int)
                    &&& gdists[i as int] == Some(best_dist as int)
                },
            },
        decreases dists@.len() - k,
    {
        let ghost prefix = gdists.subrange(0, k as int);
        let ghost extended = gdists.subrange(0, k as int + 1);
        proof {
            assert(extended.drop_last() =~= prefix);
            assert(extended.last() == gdists[k as int]);
        }
        match dists[k] {
            Some(d) => {
                match best {
                    None => {
                        best = Some(k);
                        best_dist = d;
                    },
                    Some(_) => {
                        if d < best_dist {
                            best = Some(k);
                            best_dist = d;
                        }
                    },
                }
            },
            None => {},
        }
        k = k + 1;
    }
    proof {
        assert(gdists.subrange(0, dists@.len() as int) =~= gdists);
    }
    best
}

} // verus!
