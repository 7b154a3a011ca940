//! Rating persistence and the per-decision rating update: lazily seeded
//! rating rows, decided-match counts for the K-factor schedule, and the
//! two-sided Elo update with its audit deltas.

use vstd::prelude::*;
use crate::elo::{
    get_max_rating_change, spec_expected_score_millis, spec_max_rating_change, spec_new_rating,
    update_rating_pair, MatchOutcome, RatingType,
};
use crate::store::{DogMatch, Rating, Store, DEFAULT_RATING, RATING_FLOOR};

verus! {

/// The user scope of a rating key: the overall track is global, so its rows
/// carry a zero user id.
pub open spec fn track_user(rating_type: RatingType, user_id: i64) -> i64 {
    match rating_type {
        RatingType::Overall => 0,
        RatingType::Personal => user_id,
    }
}

/// Whether a match row counts toward `dog_id`'s decided-match total on a
/// track: it is decided, involves the dog, and on the personal track belongs
/// to the scoping user.
pub open spec fn match_counts(
    m: DogMatch,
    dog_id: i64,
    rating_type: RatingType,
    user_id: i64,
) -> bool {
    m.status is Some && (m.dog_a_id == dog_id || m.dog_b_id == dog_id) && (rating_type is Personal
        ==> m.user_id == user_id)
}

/// Decided matches involving the dog on the track, within a row sequence.
pub open spec fn spec_count_matches(
    s: Seq<DogMatch>,
    dog_id: i64,
    rating_type: RatingType,
    user_id: i64,
) -> nat
    decreases s.len(),
{
    if s.len() == 0 {
        0
    } else {
        spec_count_matches(s.drop_last(), dog_id, rating_type, user_id) + if match_counts(
            s.last(),
            dog_id,
            rating_type,
            user_id,
        ) {
            1nat
        } else {
            0nat
        }
    }
}

impl Store {
    /// Index of the rating row for the key, if any.
    pub open spec fn spec_rating_index(
        self,
        dog_id: i64,
        rating_type: RatingType,
        key_user: i64,
    ) -> Option<int> {
        if exists|i: int|
            0 <= i < self.ratings@.len() && self.ratings@[i].dog_id == dog_id
                && self.ratings@[i].rating_type == rating_type && self.ratings@[i].user_id
                == key_user {
            Some(
                choose|i: int|
                    0 <= i < self.ratings@.len() && self.ratings@[i].dog_id == dog_id
                        && self.ratings@[i].rating_type == rating_type && self.ratings@[i].user_id
                        == key_user,
            )
        } else {
            None
        }
    }

    /// The stored rating for the key, or the lazy-seed default.
    pub open spec fn spec_rating_or_default(
        self,
        dog_id: i64,
        rating_type: RatingType,
        key_user: i64,
    ) -> u16 {
        match self.spec_rating_index(dog_id, rating_type, key_user) {
            Some(i) => self.ratings@[i].value,
            None => DEFAULT_RATING,
        }
    }

    /// Under the invariant, a rating key resolves to at most one row.
    pub proof fn lemma_rating_index_unique(
        self,
        dog_id: i64,
        rating_type: RatingType,
        key_user: i64,
        i: int,
        j: int,
    )
        requires
            self.wf(),
            0 <= i < self.ratings@.len(),
            0 <= j < self.ratings@.len(),
            self.ratings@[i].dog_id == dog_id && self.ratings@[i].rating_type == rating_type
                && self.ratings@[i].user_id == key_user,
            self.ratings@[j].dog_id == dog_id && self.ratings@[j].rating_type == rating_type
                && self.ratings@[j].user_id == key_user,
        ensures
            i == j,
    {
    }

    /// Index of the rating row for the key, if any.
    fn find_rating(&self, dog_id: i64, rating_type: RatingType, key_user: i64) -> (r: Option<
        usize,
    >)
        ensures
            match r {
                Some(i) => i < self.ratings@.len() && self.ratings@[i as int].dog_id == dog_id
                    && self.ratings@[i as int].rating_type == rating_type
                    && self.ratings@[i as int].user_id == key_user,
                None => self.spec_rating_index(dog_id, rating_type, key_user) is None,
            },
    {
        let mut i: usize = 0;
        while i < self.ratings.len()
            invariant
                i <= self.ratings@.len(),
                forall|j: int|
                    0 <= j < i ==> !(#[trigger] self.ratings@[j].dog_id == dog_id
                        && self.ratings@[j].rating_type == rating_type && self.ratings@[j].user_id
                        == key_user),
            decreases self.ratings@.len() - i,
        {
            let row = &self.ratings[i];
            if row.dog_id == dog_id && row.rating_type == rating_type && row.user_id == key_user {
                return Some(i);
            }
            i += 1;
        }
        None
    }

    /// The dog's current rating on the track, lazily seeding the default and
    /// persisting it on first access.
    pub fn get_current_rating(
        &mut self,
        dog_id: i64,
        rating_type: RatingType,
        user_id: i64,
    ) -> (r: u16)
        requires
            old(self).wf(),
        ensures
            final(self).wf(),
            r == old(self).spec_rating_or_default(
                dog_id,
                rating_type,
                track_user(rating_type, user_id),
            ),
            r >= RATING_FLOOR,
            final(self).spec_rating_or_default(
                dog_id,
                rating_type,
                track_user(rating_type, user_id),
            ) == r,
            final(self).spec_rating_index(
                dog_id,
                rating_type,
                track_user(rating_type, user_id),
            ) is Some,
            match old(self).spec_rating_index(
                dog_id,
                rating_type,
                track_user(rating_type, user_id),
            ) {
                Some(_) => final(self).ratings@ == old(self).ratings@,
                None => final(self).ratings@ == old(self).ratings@.push(
                    Rating {
                        dog_id,
                        rating_type,
                        user_id: track_user(rating_type, user_id),
                        value: DEFAULT_RATING,
                    },
                ),
            },
            final(self).users@ == old(self).users@,
            final(self).sessions@ == old(self).sessions@,
            final(self).dogs@ == old(self).dogs@,
            final(self).matches@ == old(self).matches@,
            final(self).finished@ == old(self).finished@,
            final(self).email_tokens@ == old(self).email_tokens@,
            final(self).logs@ == old(self).logs@,
            final(self).next_user_id == old(self).next_user_id,
            final(self).next_dog_id == old(self).next_dog_id,
            final(self).next_match_id == old(self).next_match_id,
    {
        let key_user = match rating_type {
            RatingType::Overall => 0,
            RatingType::Personal => user_id,
        };
        match self.find_rating(dog_id, rating_type, key_user) {
            Some(i) => {
                proof {
                    let c = self.spec_rating_index(dog_id, rating_type, key_user).unwrap();
                    self.lemma_rating_index_unique(dog_id, rating_type, key_user, i as int, c);
                }
                self.ratings[i].value
            },
            None => {
                let row = Rating { dog_id, rating_type, user_id: key_user, value: DEFAULT_RATING };
                self.ratings.push(row);
                proof {
                    let n = self.ratings@.len() - 1;
                    assert(self.ratings@[n].dog_id == dog_id && self.ratings@[n].rating_type
                        == rating_type && self.ratings@[n].user_id == key_user);
                    let c = self.spec_rating_index(dog_id, rating_type, key_user).unwrap();
                    assert(self.wf()) by {
                        lemma_frame_after_ratings_change(*old(self), *self);
                    }
                    self.lemma_rating_index_unique(dog_id, rating_type, key_user, n, c);
                }
                DEFAULT_RATING
            },
        }
    }

    /// Writes a rating value for the key. A missing row is left missing, as
    /// an update of an absent row touches nothing.
    pub fn set_rating(
        &mut self,
        dog_id: i64,
        new_rating: u16,
        rating_type: RatingType,
        user_id: i64,
    )
        requires
            old(self).wf(),
            new_rating >= RATING_FLOOR,
        ensures
            final(self).wf(),
            match old(self).spec_rating_index(
                dog_id,
                rating_type,
                track_user(rating_type, user_id),
            ) {
                Some(i) => final(self).ratings@ == old(self).ratings@.update(
                    i,
                    Rating {
                        dog_id,
                        rating_type,
                        user_id: track_user(rating_type, user_id),
                        value: new_rating,
                    },
                ),
                None => final(self).ratings@ == old(self).ratings@,
            },
            final(self).spec_rating_or_default(
                dog_id,
                rating_type,
                track_user(rating_type, user_id),
            ) == if old(self).spec_rating_index(
                dog_id,
                rating_type,
                track_user(rating_type, user_id),
            ) is Some {
                new_rating
            } else {
                DEFAULT_RATING
            },
            old(self).spec_rating_index(dog_id, rating_type, track_user(rating_type, user_id))
                is Some ==> final(self).spec_rating_index(
                dog_id,
                rating_type,
                track_user(rating_type, user_id),
            ) is Some,
            final(self).users@ == old(self).users@,
            final(self).sessions@ == old(self).sessions@,
            final(self).dogs@ == old(self).dogs@,
            final(self).matches@ == old(self).matches@,
            final(self).finished@ == old(self).finished@,
            final(self).email_tokens@ == old(self).email_tokens@,
            final(self).logs@ == old(self).logs@,
            final(self).next_user_id == old(self).next_user_id,
            final(self).next_dog_id == old(self).next_dog_id,
            final(self).next_match_id == old(self).next_match_id,
    {
        let key_user = match rating_type {
            RatingType::Overall => 0,
            RatingType::Personal => user_id,
        };
        match self.find_rating(dog_id, rating_type, key_user) {
            Some(i) => {
                let row = Rating { dog_id, rating_type, user_id: key_user, value: new_rating };
                self.ratings.set(i, row);
                proof {
                    let c = old(self).spec_rating_index(dog_id, rating_type, key_user).unwrap();
                    old(self).lemma_rating_index_unique(
                        dog_id,
                        rating_type,
                        key_user,
                        i as int,
                        c,
                    );
                    assert(self.wf()) by {
                        lemma_frame_after_ratings_change(*old(self), *self);
                    }
                    let f = self.spec_rating_index(dog_id, rating_type, key_user).unwrap();
                    assert(self.ratings@[i as int].dog_id == dog_id);
                    self.lemma_rating_index_unique(dog_id, rating_type, key_user, i as int, f);
                }
            },
            None => {},
        }
    }

    /// Decided matches involving the dog on the track.
    pub fn get_num_matches(&self, dog_id: i64, rating_type: RatingType, user_id: i64) -> (n: u32)
        requires
            self.matches@.len() <= u32::MAX,
        ensures
            n == spec_count_matches(self.matches@, dog_id, rating_type, user_id),
    {
        let mut n: u32 = 0;
        let mut i: usize = 0;
        proof {
            assert(self.matches@.take(0) =~= Seq::<DogMatch>::empty());
        }
        while i < self.matches.len()
            invariant
                i <= self.matches@.len(),
                self.matches@.len() <= u32::MAX,
                n == spec_count_matches(self.matches@.take(i as int), dog_id, rating_type, user_id),
                n <= i,
            decreases self.matches@.len() - i,
        {
            let m = &self.matches[i];
            let counts = match m.status {
                Some(_) => (m.dog_a_id == dog_id || m.dog_b_id == dog_id) && (match rating_type {
                    RatingType::Overall => true,
                    RatingType::Personal => m.user_id == user_id,
                }),
                None => false,
            };
            proof {
                assert(self.matches@.take(i + 1).drop_last() =~= self.matches@.take(i as int));
                assert(self.matches@.take(i + 1).last() == self.matches@[i as int]);
            }
            if counts {
                n += 1;
            }
            i += 1;
        }
        proof {
            assert(self.matches@.take(self.matches@.len() as int) =~= self.matches@);
        }
        n
    }
}

impl Store {
    /// Index of the match row with exactly this user and ordered pair.
    pub open spec fn spec_match_triple_index(
        self,
        user_id: i64,
        dog_a_id: i64,
        dog_b_id: i64,
    ) -> Option<int> {
        if exists|i: int|
            0 <= i < self.matches@.len() && self.matches@[i].user_id == user_id
                && self.matches@[i].dog_a_id == dog_a_id && self.matches@[i].dog_b_id
                == dog_b_id {
            Some(
                choose|i: int|
                    0 <= i < self.matches@.len() && self.matches@[i].user_id == user_id
                        && self.matches@[i].dog_a_id == dog_a_id && self.matches@[i].dog_b_id
                        == dog_b_id,
            )
        } else {
            None
        }
    }

    /// Under the invariant, the triple resolves to at most one row.
    pub proof fn lemma_match_triple_unique(
        self,
        user_id: i64,
        dog_a_id: i64,
        dog_b_id: i64,
        i: int,
        j: int,
    )
        requires
            self.wf(),
            0 <= i < self.matches@.len(),
            0 <= j < self.matches@.len(),
            self.matches@[i].user_id == user_id && self.matches@[i].dog_a_id == dog_a_id
                && self.matches@[i].dog_b_id == dog_b_id,
            self.matches@[j].user_id == user_id && self.matches@[j].dog_a_id == dog_a_id
                && self.matches@[j].dog_b_id == dog_b_id,
        ensures
            i == j,
    {
        if i < j {
            assert(!Store::same_pair(self.matches@[i], self.matches@[j]));
        }
        if j < i {
            assert(!Store::same_pair(self.matches@[j], self.matches@[i]));
        }
    }

    /// Index of the match row with exactly this user and ordered pair.
    fn find_match_triple(&self, user_id: i64, dog_a_id: i64, dog_b_id: i64) -> (r: Option<usize>)
        ensures
            match r {
                Some(i) => i < self.matches@.len() && self.matches@[i as int].user_id == user_id
                    && self.matches@[i as int].dog_a_id == dog_a_id
                    && self.matches@[i as int].dog_b_id == dog_b_id,
                None => self.spec_match_triple_index(user_id, dog_a_id, dog_b_id) is None,
            },
    {
        let mut i: usize = 0;
        while i < self.matches.len()
            invariant
                i <= self.matches@.len(),
                forall|j: int|
                    0 <= j < i ==> !(#[trigger] self.matches@[j].user_id == user_id
                        && self.matches@[j].dog_a_id == dog_a_id && self.matches@[j].dog_b_id
                        == dog_b_id),
            decreases self.matches@.len() - i,
        {
            let m = &self.matches[i];
            if m.user_id == user_id && m.dog_a_id == dog_a_id && m.dog_b_id == dog_b_id {
                return Some(i);
            }
            i += 1;
        }
        None
    }

    /// Writes one track's outcome back: records the audit deltas on the
    /// match row and persists both new ratings. Every other rating key, and
    /// every match field besides the audit deltas, is untouched.
    #[verifier::rlimit(100)]
    fn write_back_ratings(
        &mut self,
        user_id: i64,
        dog_a_id: i64,
        dog_b_id: i64,
        rating_type: RatingType,
        new_a: u16,
        new_b: u16,
        rating_change_a: i32,
        rating_change_b: i32,
    )
        requires
            old(self).wf(),
            dog_a_id != dog_b_id,
            new_a >= RATING_FLOOR,
            new_b >= RATING_FLOOR,
            old(self).spec_rating_index(
                dog_a_id,
                rating_type,
                track_user(rating_type, user_id),
            ) is Some,
            old(self).spec_rating_index(
                dog_b_id,
                rating_type,
                track_user(rating_type, user_id),
            ) is Some,
        ensures
            final(self).wf(),
            final(self).spec_rating_or_default(
                dog_a_id,
                rating_type,
                track_user(rating_type, user_id),
            ) == new_a,
            final(self).spec_rating_or_default(
                dog_b_id,
                rating_type,
                track_user(rating_type, user_id),
            ) == new_b,
            forall|d: i64, rt: RatingType, ku2: i64|
                !(rt == rating_type && ku2 == track_user(rating_type, user_id) && (d == dog_a_id
                    || d == dog_b_id)) ==> #[trigger] final(self).spec_rating_or_default(
                    d,
                    rt,
                    ku2,
                ) == old(self).spec_rating_or_default(d, rt, ku2),
            final(self).matches@.len() == old(self).matches@.len(),
            forall|i: int|
                0 <= i < final(self).matches@.len() ==> {
                    let m0 = old(self).matches@[i];
                    let m1 = #[trigger] final(self).matches@[i];
                    m1.id == m0.id && m1.user_id == m0.user_id && m1.dog_a_id == m0.dog_a_id
                        && m1.dog_b_id == m0.dog_b_id && m1.status == m0.status && m1.created_at
                        == m0.created_at && m1.updated_at == m0.updated_at
                },
            match old(self).spec_match_triple_index(user_id, dog_a_id, dog_b_id) {
                Some(mi) => final(self).matches@ == old(self).matches@.update(
                    mi,
                    (match rating_type {
                        RatingType::Overall => DogMatch {
                            elo_change_overall_a: rating_change_a,
                            elo_change_overall_b: rating_change_b,
                            ..old(self).matches@[mi]
                        },
                        RatingType::Personal => DogMatch {
                            elo_change_personal_a: rating_change_a,
                            elo_change_personal_b: rating_change_b,
                            ..old(self).matches@[mi]
                        },
                    }),
                ),
                None => final(self).matches@ == old(self).matches@,
            },
            final(self).users@ == old(self).users@,
            final(self).sessions@ == old(self).sessions@,
            final(self).dogs@ == old(self).dogs@,
            final(self).finished@ == old(self).finished@,
            final(self).email_tokens@ == old(self).email_tokens@,
            final(self).logs@ == old(self).logs@,
            final(self).next_user_id == old(self).next_user_id,
            final(self).next_dog_id == old(self).next_dog_id,
            final(self).next_match_id == old(self).next_match_id,
    {
        let ghost ku = track_user(rating_type, user_id);
        let ghost s2 = *self;
        match self.find_match_triple(user_id, dog_a_id, dog_b_id) {
            Some(i) => {
                let mut row = self.matches[i];
                match rating_type {
                    RatingType::Overall => {
                        row.elo_change_overall_a = rating_change_a;
                        row.elo_change_overall_b = rating_change_b;
                    },
                    RatingType::Personal => {
                        row.elo_change_personal_a = rating_change_a;
                        row.elo_change_personal_b = rating_change_b;
                    },
                }
                self.matches.set(i, row);
                proof {
                    lemma_frame_after_match_audit(s2, *self);
                    let mi = s2.spec_match_triple_index(user_id, dog_a_id, dog_b_id).unwrap();
                    s2.lemma_match_triple_unique(user_id, dog_a_id, dog_b_id, i as int, mi);
                    assert(self.matches@ =~= s2.matches@.update(
                        mi,
                        (match rating_type {
                            RatingType::Overall => DogMatch {
                                elo_change_overall_a: rating_change_a,
                                elo_change_overall_b: rating_change_b,
                                ..s2.matches@[mi]
                            },
                            RatingType::Personal => DogMatch {
                                elo_change_personal_a: rating_change_a,
                                elo_change_personal_b: rating_change_b,
                                ..s2.matches@[mi]
                            },
                        }),
                    ));
                }
            },
            None => {},
        }
        let ghost s3 = *self;
        proof {
            lemma_rating_lookup_preserved(s2, s3, dog_a_id, rating_type, ku);
            lemma_rating_lookup_preserved(s2, s3, dog_b_id, rating_type, ku);
        }

        self.set_rating(dog_a_id, new_a, rating_type, user_id);
        let ghost s4 = *self;
        proof {
            lemma_rating_lookup_preserved(s3, s4, dog_b_id, rating_type, ku);
        }
        self.set_rating(dog_b_id, new_b, rating_type, user_id);
        proof {
            lemma_rating_lookup_preserved(s4, *self, dog_a_id, rating_type, ku);
            assert forall|d: i64, rt: RatingType, ku2: i64|
                !(rt == rating_type && ku2 == ku && (d == dog_a_id || d
                    == dog_b_id)) implies #[trigger] self.spec_rating_or_default(d, rt, ku2)
                == old(self).spec_rating_or_default(d, rt, ku2) by {
                lemma_rating_lookup_preserved(s2, s3, d, rt, ku2);
                lemma_rating_lookup_preserved(s3, s4, d, rt, ku2);
                lemma_rating_lookup_preserved(s4, *self, d, rt, ku2);
            }
        }
    }

    /// One track's rating update for one decided match: reads (and lazily
    /// seeds) both ratings, derives each side's K-factor from its decided
    /// matches before this one, applies the Elo pair update, records the
    /// signed deltas on the match row for audit, and persists both ratings.
    #[verifier::rlimit(100)]
    #[verifier::spinoff_prover]
    pub fn update_ratings(
        &mut self,
        user_id: i64,
        dog_a_id: i64,
        dog_b_id: i64,
        rating_type: RatingType,
        outcome: MatchOutcome,
    )
        requires
            old(self).wf(),
            old(self).matches@.len() <= u32::MAX,
            dog_a_id != dog_b_id,
            spec_count_matches(old(self).matches@, dog_a_id, rating_type, user_id) >= 1,
            spec_count_matches(old(self).matches@, dog_b_id, rating_type, user_id) >= 1,
        ensures
            final(self).wf(),
            ({
                let ku = track_user(rating_type, user_id);
                let ra = old(self).spec_rating_or_default(dog_a_id, rating_type, ku);
                let rb = old(self).spec_rating_or_default(dog_b_id, rating_type, ku);
                let ka = spec_max_rating_change(
                    (spec_count_matches(old(self).matches@, dog_a_id, rating_type, user_id)
                        - 1) as u32,
                );
                let kb = spec_max_rating_change(
                    (spec_count_matches(old(self).matches@, dog_b_id, rating_type, user_id)
                        - 1) as u32,
                );
                let e_a = spec_expected_score_millis(ra, rb);
                let s_a: u32 = match outcome {
                    MatchOutcome::AWins => 1000u32,
                    MatchOutcome::BWins => 0u32,
                    MatchOutcome::Tie => 500u32,
                };
                let na = spec_new_rating(ra, ka, s_a, e_a);
                let nb = spec_new_rating(rb, kb, (1000 - s_a) as u32, 1000 - e_a);
                final(self).spec_rating_or_default(dog_a_id, rating_type, ku) == na
                    && final(self).spec_rating_or_default(dog_b_id, rating_type, ku) == nb
                    && RATING_FLOOR <= na
                    && RATING_FLOOR <= nb && ra - ka <= na <= ra + ka && rb - kb <= nb <= rb + kb
                    && (match old(self).spec_match_triple_index(user_id, dog_a_id, dog_b_id) {
                    Some(mi) => final(self).matches@ == old(self).matches@.update(
                        mi,
                        (match rating_type {
                            RatingType::Overall => DogMatch {
                                elo_change_overall_a: (na - ra) as i32,
                                elo_change_overall_b: (nb - rb) as i32,
                                ..old(self).matches@[mi]
                            },
                            RatingType::Personal => DogMatch {
                                elo_change_personal_a: (na - ra) as i32,
                                elo_change_personal_b: (nb - rb) as i32,
                                ..old(self).matches@[mi]
                            },
                        }),
                    ),
                    None => final(self).matches@ == old(self).matches@,
                })
            }),
            final(self).matches@.len() == old(self).matches@.len(),
            forall|i: int|
                0 <= i < final(self).matches@.len() ==> {
                    let m0 = old(self).matches@[i];
                    let m1 = #[trigger] final(self).matches@[i];
                    m1.id == m0.id && m1.user_id == m0.user_id && m1.dog_a_id == m0.dog_a_id
                        && m1.dog_b_id == m0.dog_b_id && m1.status == m0.status && m1.created_at
                        == m0.created_at && m1.updated_at == m0.updated_at
                },
            forall|d: i64, rt: RatingType, ku2: i64|
                !(rt == rating_type && ku2 == track_user(rating_type, user_id) && (d == dog_a_id
                    || d == dog_b_id)) ==> #[trigger] final(self).spec_rating_or_default(
                    d,
                    rt,
                    ku2,
                ) == old(self).spec_rating_or_default(d, rt, ku2),
            final(self).users@ == old(self).users@,
            final(self).sessions@ == old(self).sessions@,
            final(self).dogs@ == old(self).dogs@,
            final(self).finished@ == old(self).finished@,
            final(self).email_tokens@ == old(self).email_tokens@,
            final(self).logs@ == old(self).logs@,
            final(self).next_user_id == old(self).next_user_id,
            final(self).next_dog_id == old(self).next_dog_id,
            final(self).next_match_id == old(self).next_match_id,
    {
        let ghost ku = track_user(rating_type, user_id);
        let ghost s0 = *old(self);
        let current_a = self.get_current_rating(dog_a_id, rating_type, user_id);
        let ghost s1 = *self;
        proof {
            lemma_rating_lookup_preserved(s0, s1, dog_b_id, rating_type, ku);
        }
        let current_b = self.get_current_rating(dog_b_id, rating_type, user_id);
        let ghost s2 = *self;
        proof {
            lemma_rating_lookup_preserved(s1, s2, dog_a_id, rating_type, ku);
        }

        let n_a = self.get_num_matches(dog_a_id, rating_type, user_id);
        let n_b = self.get_num_matches(dog_b_id, rating_type, user_id);
        let max_rating_change_a = get_max_rating_change(n_a - 1);
        let max_rating_change_b = get_max_rating_change(n_b - 1);

        let (new_a, new_b) = update_rating_pair(
            current_a,
            current_b,
            max_rating_change_a,
            max_rating_change_b,
            outcome,
        );
        let rating_change_a: i32 = new_a as i32 - current_a as i32;
        let rating_change_b: i32 = new_b as i32 - current_b as i32;

        self.write_back_ratings(
            user_id,
            dog_a_id,
            dog_b_id,
            rating_type,
            new_a,
            new_b,
            rating_change_a,
            rating_change_b,
        );
        proof {
            assert forall|d: i64, rt: RatingType, ku2: i64|
                !(rt == rating_type && ku2 == ku && (d == dog_a_id || d
                    == dog_b_id)) implies #[trigger] self.spec_rating_or_default(d, rt, ku2)
                == old(self).spec_rating_or_default(d, rt, ku2) by {
                lemma_rating_lookup_preserved(s0, s1, d, rt, ku2);
                lemma_rating_lookup_preserved(s1, s2, d, rt, ku2);
            }
            lemma_match_triple_index_congruent(s0, s2, user_id, dog_a_id, dog_b_id);
        }
    }
}

/// The triple lookup agrees on states whose match rows carry the same
/// user and contestants at every index.
proof fn lemma_match_triple_index_congruent(
    pre: Store,
    post: Store,
    user_id: i64,
    dog_a_id: i64,
    dog_b_id: i64,
)
    requires
        pre.wf(),
        post.wf(),
        post.matches@.len() == pre.matches@.len(),
        forall|i: int|
            0 <= i < pre.matches@.len() ==> (#[trigger] post.matches@[i]).user_id
                == pre.matches@[i].user_id && post.matches@[i].dog_a_id
                == pre.matches@[i].dog_a_id && post.matches@[i].dog_b_id
                == pre.matches@[i].dog_b_id,
    ensures
        post.spec_match_triple_index(user_id, dog_a_id, dog_b_id) == pre.spec_match_triple_index(
            user_id,
            dog_a_id,
            dog_b_id,
        ),
{
    if pre.spec_match_triple_index(user_id, dog_a_id, dog_b_id) is Some {
        let i = pre.spec_match_triple_index(user_id, dog_a_id, dog_b_id).unwrap();
        assert(post.matches@[i].user_id == user_id && post.matches@[i].dog_a_id == dog_a_id
            && post.matches@[i].dog_b_id == dog_b_id);
        let j = post.spec_match_triple_index(user_id, dog_a_id, dog_b_id).unwrap();
        assert(pre.matches@[j].user_id == user_id && pre.matches@[j].dog_a_id == dog_a_id
            && pre.matches@[j].dog_b_id == dog_b_id);
        pre.lemma_match_triple_unique(user_id, dog_a_id, dog_b_id, i, j);
    } else {
        if post.spec_match_triple_index(user_id, dog_a_id, dog_b_id) is Some {
            let j = post.spec_match_triple_index(user_id, dog_a_id, dog_b_id).unwrap();
            assert(pre.matches@[j].user_id == user_id && pre.matches@[j].dog_a_id == dog_a_id
                && pre.matches@[j].dog_b_id == dog_b_id);
        }
    }
}

/// With the rating table unchanged, every rating lookup is unchanged.
pub proof fn lemma_rating_lookup_frame(pre: Store, post: Store)
    requires
        pre.wf(),
        post.wf(),
        post.ratings@ == pre.ratings@,
    ensures
        forall|d: i64, rt: RatingType, ku: i64| #[trigger] post.spec_rating_or_default(d, rt, ku)
            == pre.spec_rating_or_default(d, rt, ku),
{
    assert forall|d: i64, rt: RatingType, ku: i64| #[trigger] post.spec_rating_or_default(
        d,
        rt,
        ku,
    ) == pre.spec_rating_or_default(d, rt, ku) by {
        lemma_rating_lookup_preserved(pre, post, d, rt, ku);
    }
}

/// A rating lookup is stable across a state change that leaves every row
/// matching the key in place, turns no other row into the key, and adds no
/// row with the key.
proof fn lemma_rating_lookup_preserved(
    pre: Store,
    post: Store,
    dog_id: i64,
    rating_type: RatingType,
    key_user: i64,
)
    requires
        pre.wf(),
        post.wf(),
        post.ratings@.len() >= pre.ratings@.len(),
        forall|i: int|
            0 <= i < pre.ratings@.len() && (#[trigger] pre.ratings@[i]).dog_id == dog_id
                && pre.ratings@[i].rating_type == rating_type && pre.ratings@[i].user_id
                == key_user ==> post.ratings@[i] == pre.ratings@[i],
        forall|i: int|
            0 <= i < pre.ratings@.len() && (#[trigger] post.ratings@[i]).dog_id == dog_id
                && post.ratings@[i].rating_type == rating_type && post.ratings@[i].user_id
                == key_user ==> pre.ratings@[i].dog_id == dog_id && pre.ratings@[i].rating_type
                == rating_type && pre.ratings@[i].user_id == key_user,
        forall|i: int|
            pre.ratings@.len() <= i < post.ratings@.len() ==> !((
            #[trigger] post.ratings@[i]).dog_id == dog_id && post.ratings@[i].rating_type
                == rating_type && post.ratings@[i].user_id == key_user),
    ensures
        post.spec_rating_index(dog_id, rating_type, key_user) is Some
            <==> pre.spec_rating_index(dog_id, rating_type, key_user) is Some,
        post.spec_rating_or_default(dog_id, rating_type, key_user) == pre.spec_rating_or_default(
            dog_id,
            rating_type,
            key_user,
        ),
{
    if pre.spec_rating_index(dog_id, rating_type, key_user) is Some {
        let i = pre.spec_rating_index(dog_id, rating_type, key_user).unwrap();
        assert(post.ratings@[i] == pre.ratings@[i]);
        assert(post.spec_rating_index(dog_id, rating_type, key_user) is Some);
        let j = post.spec_rating_index(dog_id, rating_type, key_user).unwrap();
        assert(j < pre.ratings@.len());
        assert(pre.ratings@[j].dog_id == dog_id && pre.ratings@[j].rating_type == rating_type
            && pre.ratings@[j].user_id == key_user);
        pre.lemma_rating_index_unique(dog_id, rating_type, key_user, i, j);
    } else {
        if post.spec_rating_index(dog_id, rating_type, key_user) is Some {
            let j = post.spec_rating_index(dog_id, rating_type, key_user).unwrap();
            if j < pre.ratings@.len() {
                assert(pre.ratings@[j].dog_id == dog_id && pre.ratings@[j].rating_type
                    == rating_type && pre.ratings@[j].user_id == key_user);
            }
        }
    }
}

/// Only the audit delta fields of match rows changed: the invariant holds on.
proof fn lemma_frame_after_match_audit(pre: Store, post: Store)
    requires
        pre.wf(),
        post.users@ == pre.users@,
        post.sessions@ == pre.sessions@,
        post.dogs@ == pre.dogs@,
        post.ratings@ == pre.ratings@,
        post.email_tokens@ == pre.email_tokens@,
        post.next_user_id == pre.next_user_id,
        post.next_dog_id == pre.next_dog_id,
        post.next_match_id == pre.next_match_id,
        post.matches@.len() == pre.matches@.len(),
        forall|i: int|
            0 <= i < pre.matches@.len() ==> {
                let m0 = pre.matches@[i];
                let m1 = #[trigger] post.matches@[i];
                m1.id == m0.id && m1.user_id == m0.user_id && m1.dog_a_id == m0.dog_a_id
                    && m1.dog_b_id == m0.dog_b_id && m1.status == m0.status
            },
    ensures
        post.wf(),
{
    assert(post.wf_sessions()) by {
        assert forall|i: int|
            0 <= i < post.sessions@.len() implies post.has_user(
            #[trigger] post.sessions@[i].user_id,
        ) by {
            assert(pre.has_user(pre.sessions@[i].user_id));
            let w = choose|w: int|
                0 <= w < pre.users@.len() && pre.users@[w].id == pre.sessions@[i].user_id;
            assert(post.users@[w].id == post.sessions@[i].user_id);
        }
    }
    assert(post.wf_matches()) by {
        assert forall|i: int|
            0 <= i < post.matches@.len() implies post.has_dog(#[trigger] post.matches@[i].dog_a_id)
            && post.has_dog(post.matches@[i].dog_b_id) by {
            assert(pre.has_dog(pre.matches@[i].dog_a_id));
            assert(pre.has_dog(pre.matches@[i].dog_b_id));
            let wa = choose|w: int|
                0 <= w < pre.dogs@.len() && pre.dogs@[w].id == pre.matches@[i].dog_a_id;
            assert(post.dogs@[wa].id == post.matches@[i].dog_a_id);
            let wb = choose|w: int|
                0 <= w < pre.dogs@.len() && pre.dogs@[w].id == pre.matches@[i].dog_b_id;
            assert(post.dogs@[wb].id == post.matches@[i].dog_b_id);
        }
        assert forall|i: int, j: int|
            0 <= i < j < post.matches@.len() && post.matches@[i].user_id
                == post.matches@[j].user_id implies !Store::same_pair(
            post.matches@[i],
            post.matches@[j],
        ) by {
            assert(!Store::same_pair(pre.matches@[i], pre.matches@[j]));
        }
    }
}

/// The rating floor, as the invariant keeps it: no stored rating ever sits
/// below 100, whatever sequence of outcomes produced the store.
pub proof fn lemma_rating_floor(s: Store)
    requires
        s.wf(),
    ensures
        forall|i: int| 0 <= i < s.ratings@.len() ==> #[trigger] s.ratings@[i].value
            >= RATING_FLOOR,
{
}

/// A row that counts toward a dog's decided total makes the total positive.
pub proof fn lemma_count_matches_at_least_one(
    s: Seq<DogMatch>,
    idx: int,
    dog_id: i64,
    rating_type: RatingType,
    user_id: i64,
)
    requires
        0 <= idx < s.len(),
        match_counts(s[idx], dog_id, rating_type, user_id),
    ensures
        spec_count_matches(s, dog_id, rating_type, user_id) >= 1,
    decreases s.len(),
{
    if idx == s.len() - 1 {
    } else {
        assert(s.drop_last()[idx] == s[idx]);
        lemma_count_matches_at_least_one(s.drop_last(), idx, dog_id, rating_type, user_id);
    }
}

/// The decided totals agree on row sequences that agree in status, user and
/// contestants.
pub proof fn lemma_count_matches_congruent(
    s1: Seq<DogMatch>,
    s2: Seq<DogMatch>,
    dog_id: i64,
    rating_type: RatingType,
    user_id: i64,
)
    requires
        s1.len() == s2.len(),
        forall|i: int|
            0 <= i < s1.len() ==> (#[trigger] s2[i]).status == s1[i].status && s2[i].user_id
                == s1[i].user_id && s2[i].dog_a_id == s1[i].dog_a_id && s2[i].dog_b_id
                == s1[i].dog_b_id,
    ensures
        spec_count_matches(s2, dog_id, rating_type, user_id) == spec_count_matches(
            s1,
            dog_id,
            rating_type,
            user_id,
        ),
    decreases s1.len(),
{
    if s1.len() > 0 {
        assert forall|i: int|
            0 <= i < s1.drop_last().len() implies (#[trigger] s2.drop_last()[i]).status
            == s1.drop_last()[i].status && s2.drop_last()[i].user_id == s1.drop_last()[i].user_id
            && s2.drop_last()[i].dog_a_id == s1.drop_last()[i].dog_a_id
            && s2.drop_last()[i].dog_b_id == s1.drop_last()[i].dog_b_id by {
            assert(s1.drop_last()[i] == s1[i]);
            assert(s2.drop_last()[i] == s2[i]);
        }
        lemma_count_matches_congruent(s1.drop_last(), s2.drop_last(), dog_id, rating_type, user_id);
        assert(match_counts(s2.last(), dog_id, rating_type, user_id) == match_counts(
            s1.last(),
            dog_id,
            rating_type,
            user_id,
        ));
    }
}

/// Rating rows only changed, and each key still unique, floored, and scoped:
/// the invariant survives a change confined to the rating table when the new
/// table keeps the structural clauses.
proof fn lemma_frame_after_ratings_change(pre: Store, post: Store)
    requires
        pre.wf(),
        post.users@ == pre.users@,
        post.sessions@ == pre.sessions@,
        post.dogs@ == pre.dogs@,
        post.matches@ == pre.matches@,
        post.email_tokens@ == pre.email_tokens@,
        post.next_user_id == pre.next_user_id,
        post.next_dog_id == pre.next_dog_id,
        post.next_match_id == pre.next_match_id,
        post.wf_ratings(),
    ensures
        post.wf(),
{
    assert(post.wf_users());
    assert(post.wf_sessions()) by {
        assert forall|i: int|
            0 <= i < post.sessions@.len() implies post.has_user(
            #[trigger] post.sessions@[i].user_id,
        ) by {
            assert(pre.has_user(pre.sessions@[i].user_id));
            let w = choose|w: int|
                0 <= w < pre.users@.len() && pre.users@[w].id == pre.sessions@[i].user_id;
            assert(post.users@[w].id == post.sessions@[i].user_id);
        }
    }
    assert(post.wf_matches()) by {
        assert forall|i: int|
            0 <= i < post.matches@.len() implies post.has_dog(#[trigger] post.matches@[i].dog_a_id)
            && post.has_dog(post.matches@[i].dog_b_id) by {
            assert(pre.has_dog(pre.matches@[i].dog_a_id));
            assert(pre.has_dog(pre.matches@[i].dog_b_id));
            let wa = choose|w: int|
                0 <= w < pre.dogs@.len() && pre.dogs@[w].id == pre.matches@[i].dog_a_id;
            assert(post.dogs@[wa].id == post.matches@[i].dog_a_id);
            let wb = choose|w: int|
                0 <= w < pre.dogs@.len() && pre.dogs@[w].id == pre.matches@[i].dog_b_id;
            assert(post.dogs@[wb].id == post.matches@[i].dog_b_id);
        }
    }
}

} // verus!
