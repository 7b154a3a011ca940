//! The leaderboard: one rating track's rows, highest rating first. The
//! overall board is global; the personal board shows the viewer's own
//! ratings.

use vstd::prelude::*;
use crate::elo::RatingType;
use crate::store::{Rating, Store};

verus! {

/// The `(candidate, rating)` entries of one track, in table order.
pub open spec fn spec_track_entries(
    ratings: Seq<Rating>,
    rating_type: RatingType,
    key_user: i64,
) -> Seq<(i64, u16)>
    decreases ratings.len(),
{
    if ratings.len() == 0 {
        Seq::empty()
    } else {
        spec_track_entries(ratings.drop_last(), rating_type, key_user) + if ratings.last().rating_type
            == rating_type && ratings.last().user_id == key_user {
            seq![(ratings.last().dog_id, ratings.last().value)]
        } else {
            Seq::empty()
        }
    }
}

impl Store {
    /// The rows of one track's leaderboard: each candidate of the track with
    /// its rating, sorted by rating, highest first. The personal track is
    /// scoped to the viewing user; the overall track ignores it.
    pub fn leaderboard_rows(&self, rating_type: RatingType, user_id: i64) -> (v: Vec<(i64, u16)>)
        ensures
            v@.to_multiset() == spec_track_entries(
                self.ratings@,
                rating_type,
                match rating_type {
                    RatingType::Overall => 0,
                    RatingType::Personal => user_id,
                },
            ).to_multiset(),
            forall|i: int, j: int| 0 <= i < j < v@.len() ==> v@[i].1 >= v@[j].1,
    {
        let key_user = match rating_type {
            RatingType::Overall => 0,
            RatingType::Personal => user_id,
        };
        let mut rows: Vec<(i64, u16)> = Vec::new();
        let mut i: usize = 0;
        proof {
            assert(self.ratings@.take(0) =~= Seq::<Rating>::empty());
        }
        while i < self.ratings.len()
            invariant
                i <= self.ratings@.len(),
                rows@ == spec_track_entries(self.ratings@.take(i as int), rating_type, key_user),
            decreases self.ratings@.len() - i,
        {
            proof {
                assert(self.ratings@.take(i + 1).drop_last() =~= self.ratings@.take(i as int));
                assert(self.ratings@.take(i + 1).last() == self.ratings@[i as int]);
            }
            let row = &self.ratings[i];
            if row.rating_type == rating_type && row.user_id == key_user {
                rows.push((row.dog_id, row.value));
            }
            i += 1;
        }
        proof {
            assert(self.ratings@.take(self.ratings@.len() as int) =~= self.ratings@);
        }
        sort_rows_descending(rows)
    }
}

/// Sorts leaderboard rows by rating, highest first, by repeatedly moving a
/// highest remaining row to the front of the output.
fn sort_rows_descending(rows: Vec<(i64, u16)>) -> (v: Vec<(i64, u16)>)
    ensures
        v@.to_multiset() == rows@.to_multiset(),
        forall|i: int, j: int| 0 <= i < j < v@.len() ==> v@[i].1 >= v@[j].1,
{
    broadcast use vstd::seq_lib::group_to_multiset_ensures;

    let mut rest = rows;
    let ghost rows0 = rest@;
    let mut out: Vec<(i64, u16)> = Vec::new();
    while rest.len() > 0
        invariant
            out@.to_multiset().add(rest@.to_multiset()) == rows0.to_multiset(),
            forall|i: int, j: int| 0 <= i < j < out@.len() ==> out@[i].1 >= out@[j].1,
            forall|i: int, j: int|
                0 <= i < out@.len() && 0 <= j < rest@.len() ==> (#[trigger] out@[i]).1 >= (
                #[trigger] rest@[j]).1,
        decreases rest@.len(),
    {
        let mut m: usize = 0;
        let mut k: usize = 1;
        while k < rest.len()
            invariant
                m < k <= rest@.len() || (k <= rest@.len() && m == 0),
                m < rest@.len(),
                forall|l: int| 0 <= l < k ==> (#[trigger] rest@[l]).1 <= rest@[m as int].1,
            decreases rest@.len() - k,
        {
            if rest[k].1 > rest[m].1 {
                m = k;
            }
            k += 1;
        }
        let ghost rest_before = rest@;
        let ghost out_before = out@;
        let best = rest.remove(m);
        out.push(best);
        proof {
            rest_before.to_multiset_ensures();
            out_before.to_multiset_ensures();
            assert(rest_before.remove(m as int).to_multiset() =~= rest_before.to_multiset().remove(
                best,
            ));
            assert(out_before.push(best).to_multiset() =~= out_before.to_multiset().insert(best));
            assert(out@.to_multiset().add(rest@.to_multiset()) =~= rows0.to_multiset());
            assert forall|i: int, j: int|
                0 <= i < out@.len() && 0 <= j < rest@.len() implies (#[trigger] out@[i]).1 >= (
            #[trigger] rest@[j]).1 by {
                if j < m as int {
                    assert(rest@[j] == rest_before[j]);
                } else {
                    assert(rest@[j] == rest_before[j + 1]);
                }
                if i < out_before.len() {
                    assert(out@[i] == out_before[i]);
                } else {
                    assert(out@[i] == best);
                }
            }
        }
    }
    out
}

} // verus!
