//! Deciding a pending match: the body-less pick-winner request names either
//! contestant's id or the tie token. A decision transitions the pending
//! match, runs the Elo update on both rating tracks, and rewards the picker
//! with XP scaled by deliberation time. Without a pending match, or with a
//! winner naming neither contestant nor a tie, nothing changes: the caller
//! just re-renders a fresh view.

use vstd::prelude::*;
use crate::decimal::{spec_decimal, u64_to_string};
use crate::elo::{MatchOutcome, RatingType};
use crate::elo::spec_updated_ratings;
use crate::ratings::{
    lemma_count_matches_at_least_one, lemma_count_matches_congruent, spec_count_matches,
};
use crate::store::{lemma_frame_after_user_field_change, DogMatch, Store, User};
use crate::xp::get_xp_increase_from_pick;

verus! {

/// What a pick-winner request did.
#[derive(Clone, Copy, Debug, PartialEq, Eq, Structural)]
pub enum PickResult {
    /// No pending match: nothing to decide.
    NoPendingMatch,
    /// The winner parameter names neither contestant nor the tie token.
    InvalidWinner,
    /// The decision was applied.
    Applied { outcome: MatchOutcome, xp_increase: u32 },
}

/// The outcome a winner path parameter denotes against the pending pair:
/// the decimal id of either contestant, or the literal tie token.
pub open spec fn spec_winner_outcome(winner: Seq<char>, dog_a_id: i64, dog_b_id: i64) -> Option<
    MatchOutcome,
> {
    if winner == spec_decimal(dog_a_id as nat) {
        Some(MatchOutcome::AWins)
    } else if winner == spec_decimal(dog_b_id as nat) {
        Some(MatchOutcome::BWins)
    } else if winner == "tie"@ {
        Some(MatchOutcome::Tie)
    } else {
        None
    }
}

/// Seconds of deliberation between a match's creation and its decision,
/// clamped to the rewardable window.
pub open spec fn spec_deliberation_seconds(created_at: i64, now: i64) -> u32 {
    if now <= created_at {
        0
    } else if now - created_at > 5 {
        5
    } else {
        (now - created_at) as u32
    }
}

impl Store {
    /// Decides the user's pending match according to the winner parameter.
    ///
    /// With no pending match, or a parameter naming neither contestant nor
    /// the tie token, this is a soft no-op. Otherwise the match's status
    /// becomes the outcome, both rating tracks get their Elo update, and
    /// the user's XP grows by the deliberation-scaled reward.
    #[verifier::rlimit(100)]
    #[verifier::spinoff_prover]
    pub fn decide_winner(&mut self, user_id: i64, winner: &String, now: i64) -> (r: PickResult)
        requires
            old(self).wf(),
            old(self).has_user(user_id),
            now >= 0,
            old(self).matches@.len() <= u32::MAX,
        ensures
            final(self).wf(),
            final(self).dogs@ == old(self).dogs@,
            final(self).sessions@ == old(self).sessions@,
            final(self).finished@ == old(self).finished@,
            final(self).email_tokens@ == old(self).email_tokens@,
            final(self).logs@ == old(self).logs@,
            match r {
                PickResult::NoPendingMatch => *final(self) == *old(self) && old(
                    self,
                ).spec_pending_match(user_id) is None,
                PickResult::InvalidWinner => *final(self) == *old(self) && old(
                    self,
                ).spec_pending_match(user_id) is Some && {
                    let i = old(self).spec_pending_match(user_id).unwrap();
                    spec_winner_outcome(
                        winner@,
                        old(self).matches@[i].dog_a_id,
                        old(self).matches@[i].dog_b_id,
                    ) is None
                },
                PickResult::Applied { outcome, xp_increase } => old(self).spec_pending_match(
                    user_id,
                ) is Some && {
                    let i = old(self).spec_pending_match(user_id).unwrap();
                    let m = old(self).matches@[i];
                    let decided = old(self).matches@.update(
                        i,
                        DogMatch { status: Some(outcome), updated_at: now, ..m },
                    );
                    let secs = spec_deliberation_seconds(m.created_at, now);
                    let ra_o = old(self).spec_rating_or_default(m.dog_a_id, RatingType::Overall, 0);
                    let rb_o = old(self).spec_rating_or_default(m.dog_b_id, RatingType::Overall, 0);
                    let ra_p = old(self).spec_rating_or_default(
                        m.dog_a_id,
                        RatingType::Personal,
                        user_id,
                    );
                    let rb_p = old(self).spec_rating_or_default(
                        m.dog_b_id,
                        RatingType::Personal,
                        user_id,
                    );
                    let pair_o = spec_updated_ratings(
                        ra_o,
                        rb_o,
                        (spec_count_matches(decided, m.dog_a_id, RatingType::Overall, user_id)
                            - 1) as u32,
                        (spec_count_matches(decided, m.dog_b_id, RatingType::Overall, user_id)
                            - 1) as u32,
                        outcome,
                    );
                    let pair_p = spec_updated_ratings(
                        ra_p,
                        rb_p,
                        (spec_count_matches(decided, m.dog_a_id, RatingType::Personal, user_id)
                            - 1) as u32,
                        (spec_count_matches(decided, m.dog_b_id, RatingType::Personal, user_id)
                            - 1) as u32,
                        outcome,
                    );
                    &&& spec_winner_outcome(winner@, m.dog_a_id, m.dog_b_id) == Some(outcome)
                    &&& final(self).matches@ == old(self).matches@.update(
                        i,
                        DogMatch {
                            status: Some(outcome),
                            updated_at: now,
                            elo_change_overall_a: (pair_o.0 - ra_o) as i32,
                            elo_change_overall_b: (pair_o.1 - rb_o) as i32,
                            elo_change_personal_a: (pair_p.0 - ra_p) as i32,
                            elo_change_personal_b: (pair_p.1 - rb_p) as i32,
                            ..m
                        },
                    )
                    &&& (secs < 2 ==> xp_increase == 1)
                    &&& (secs >= 2 ==> 6 * secs <= xp_increase <= 14 * secs)
                    &&& final(self).users@.len() == old(self).users@.len()
                    &&& forall|u: int|
                        0 <= u < old(self).users@.len() ==> (#[trigger] final(self).users@[u])
                            == if old(self).users@[u].id == user_id {
                            User {
                                id: old(self).users@[u].id,
                                email: old(self).users@[u].email,
                                total_xp: if old(self).users@[u].total_xp + xp_increase
                                    <= u32::MAX {
                                    (old(self).users@[u].total_xp + xp_increase) as u32
                                } else {
                                    u32::MAX
                                },
                            }
                        } else {
                            old(self).users@[u]
                        }
                    &&& final(self).spec_rating_or_default(m.dog_a_id, RatingType::Overall, 0)
                        == pair_o.0
                    &&& final(self).spec_rating_or_default(m.dog_b_id, RatingType::Overall, 0)
                        == pair_o.1
                    &&& final(self).spec_rating_or_default(
                        m.dog_a_id,
                        RatingType::Personal,
                        user_id,
                    ) == pair_p.0
                    &&& final(self).spec_rating_or_default(
                        m.dog_b_id,
                        RatingType::Personal,
                        user_id,
                    ) == pair_p.1
                },
            },
    {
        let pending = self.find_pending_match(user_id);
        let i = match pending {
            Some(i) => i,
            None => {
                return PickResult::NoPendingMatch;
            },
        };
        proof {
            let c = self.spec_pending_match(user_id).unwrap();
            if c != i as int {
                if c < i as int {
                    assert(!(self.matches@[c].status is None && self.matches@[
                        i as int].status is None));
                } else {
                    assert(!(self.matches@[i as int].status is None
                        && self.matches@[c].status is None));
                }
            }
        }
        let dog_a_id = self.matches[i].dog_a_id;
        let dog_b_id = self.matches[i].dog_b_id;
        let created_at = self.matches[i].created_at;
        proof {
            assert(self.has_dog(dog_a_id));
            let wa = choose|w: int| 0 <= w < self.dogs@.len() && self.dogs@[w].id == dog_a_id;
            assert(self.dogs@[wa].id >= 1);
            let wb = choose|w: int| 0 <= w < self.dogs@.len() && self.dogs@[w].id == dog_b_id;
            assert(self.dogs@[wb].id >= 1);
        }
        let a_str = u64_to_string(dog_a_id as u64);
        let b_str = u64_to_string(dog_b_id as u64);
        let tie_str = String::from_str("tie");
        let outcome: MatchOutcome = if *winner == a_str {
            MatchOutcome::AWins
        } else if *winner == b_str {
            MatchOutcome::BWins
        } else if *winner == tie_str {
            MatchOutcome::Tie
        } else {
            return PickResult::InvalidWinner;
        };

        let ghost s0 = *self;
        let mut row = self.matches[i];
        row.status = Some(outcome);
        row.updated_at = now;
        self.matches.set(i, row);
        let ghost s1 = *self;
        proof {
            lemma_wf_after_decide(s0, *self, i as int);
            assert(s1.matches@ =~= s0.matches@.update(
                i as int,
                DogMatch { status: Some(outcome), updated_at: now, ..s0.matches@[i as int] },
            ));
            lemma_count_matches_at_least_one(
                s1.matches@,
                i as int,
                dog_a_id,
                RatingType::Overall,
                user_id,
            );
            lemma_count_matches_at_least_one(
                s1.matches@,
                i as int,
                dog_b_id,
                RatingType::Overall,
                user_id,
            );
            lemma_count_matches_at_least_one(
                s1.matches@,
                i as int,
                dog_a_id,
                RatingType::Personal,
                user_id,
            );
            lemma_count_matches_at_least_one(
                s1.matches@,
                i as int,
                dog_b_id,
                RatingType::Personal,
                user_id,
            );
            crate::ratings::lemma_rating_lookup_frame(s0, s1);
            assert(s1.matches@[i as int].user_id == user_id && s1.matches@[i as int].dog_a_id
                == dog_a_id && s1.matches@[i as int].dog_b_id == dog_b_id);
            assert(s1.spec_match_triple_index(user_id, dog_a_id, dog_b_id) is Some);
            let mi1 = s1.spec_match_triple_index(user_id, dog_a_id, dog_b_id).unwrap();
            s1.lemma_match_triple_unique(user_id, dog_a_id, dog_b_id, i as int, mi1);
        }

        self.update_ratings(user_id, dog_a_id, dog_b_id, RatingType::Overall, outcome);
        let ghost s2 = *self;
        proof {
            lemma_count_matches_congruent(
                s1.matches@,
                s2.matches@,
                dog_a_id,
                RatingType::Personal,
                user_id,
            );
            lemma_count_matches_congruent(
                s1.matches@,
                s2.matches@,
                dog_b_id,
                RatingType::Personal,
                user_id,
            );
            assert(s2.matches@[i as int].user_id == user_id && s2.matches@[i as int].dog_a_id
                == dog_a_id && s2.matches@[i as int].dog_b_id == dog_b_id);
            assert(s2.spec_match_triple_index(user_id, dog_a_id, dog_b_id) is Some);
            let mi2 = s2.spec_match_triple_index(user_id, dog_a_id, dog_b_id).unwrap();
            s2.lemma_match_triple_unique(user_id, dog_a_id, dog_b_id, i as int, mi2);
        }
        self.update_ratings(user_id, dog_a_id, dog_b_id, RatingType::Personal, outcome);
        let ghost s3 = *self;

        let seconds_deliberated: u32 = if created_at >= now {
            0
        } else if created_at < now - 5 {
            5
        } else {
            (now - created_at) as u32
        };
        let xp_increase = get_xp_increase_from_pick(seconds_deliberated);
        self.add_xp(user_id, xp_increase);
        proof {
            crate::ratings::lemma_rating_lookup_frame(s3, *self);
            assert(self.matches@ == s3.matches@);
            assert forall|j: int|
                0 <= j < self.matches@.len() && j != i as int implies self.matches@[j] == s0.matches@[
                j] by {
                assert(s1.matches@[j] == s0.matches@[j]);
                assert(s2.matches@[j] == s1.matches@[j]);
                assert(s3.matches@[j] == s2.matches@[j]);
            }
            assert(self.matches@[i as int].status == Some(outcome));
            assert(self.matches@[i as int].updated_at == now);
            assert(self.matches@ =~= s0.matches@.update(i as int, self.matches@[i as int]));
        }

        PickResult::Applied { outcome, xp_increase }
    }

    /// Adds earned XP to the user's monotone counter, saturating at its
    /// capacity.
    pub fn add_xp(&mut self, user_id: i64, amount: u32)
        requires
            old(self).wf(),
        ensures
            final(self).wf(),
            final(self).users@.len() == old(self).users@.len(),
            forall|u: int|
                0 <= u < old(self).users@.len() ==> (#[trigger] final(self).users@[u]) == if old(
                    self,
                ).users@[u].id == user_id {
                    User {
                        id: old(self).users@[u].id,
                        email: old(self).users@[u].email,
                        total_xp: if old(self).users@[u].total_xp + amount <= u32::MAX {
                            (old(self).users@[u].total_xp + amount) as u32
                        } else {
                            u32::MAX
                        },
                    }
                } else {
                    old(self).users@[u]
                },
            final(self).sessions@ == old(self).sessions@,
            final(self).dogs@ == old(self).dogs@,
            final(self).ratings@ == old(self).ratings@,
            final(self).matches@ == old(self).matches@,
            final(self).finished@ == old(self).finished@,
            final(self).email_tokens@ == old(self).email_tokens@,
            final(self).logs@ == old(self).logs@,
            final(self).next_user_id == old(self).next_user_id,
            final(self).next_dog_id == old(self).next_dog_id,
            final(self).next_match_id == old(self).next_match_id,
    {
        match self.find_user(user_id) {
            Some(u) => {
                let ghost pre = *self;
                let row = User {
                    id: self.users[u].id,
                    email: match &self.users[u].email {
                        Some(e) => Some(e.clone()),
                        None => None,
                    },
                    total_xp: self.users[u].total_xp.saturating_add(amount),
                };
                self.users.set(u, row);
                proof {
                    assert(self.wf_users()) by {
                        assert forall|a: int, b: int|
                            0 <= a < b < self.users@.len() implies self.users@[a].id
                            != self.users@[b].id by {
                            if a != u as int && b != u as int {
                                assert(self.users@[a] == pre.users@[a]);
                                assert(self.users@[b] == pre.users@[b]);
                            }
                        }
                        assert forall|a: int, b: int|
                            0 <= a < b < self.users@.len() && self.users@[a].email is Some
                                && self.users@[b].email is Some implies self.users@[
                            a].email.unwrap()@ != self.users@[b].email.unwrap()@ by {
                            if a != u as int && b != u as int {
                                assert(self.users@[a] == pre.users@[a]);
                                assert(self.users@[b] == pre.users@[b]);
                            }
                        }
                    }
                    lemma_frame_after_user_field_change(pre, *self);
                    assert forall|w: int|
                        0 <= w < pre.users@.len() implies (#[trigger] self.users@[w]) == if pre.users@[w].id
                        == user_id {
                        User {
                            id: pre.users@[w].id,
                            email: pre.users@[w].email,
                            total_xp: if pre.users@[w].total_xp + amount <= u32::MAX {
                                (pre.users@[w].total_xp + amount) as u32
                            } else {
                                u32::MAX
                            },
                        }
                    } else {
                        pre.users@[w]
                    } by {
                        if w != u as int {
                            if pre.users@[w].id == user_id {
                                if w < u as int {
                                    assert(pre.users@[w].id != pre.users@[u as int].id);
                                } else {
                                    assert(pre.users@[u as int].id != pre.users@[w].id);
                                }
                            }
                        }
                    }
                }
            },
            None => {},
        }
    }
}

/// Deciding one pending row keeps the invariant: no clause gains a pending
/// row or changes a pair.
proof fn lemma_wf_after_decide(pre: Store, post: Store, i: int)
    requires
        pre.wf(),
        0 <= i < pre.matches@.len(),
        post.users@ == pre.users@,
        post.sessions@ == pre.sessions@,
        post.dogs@ == pre.dogs@,
        post.ratings@ == pre.ratings@,
        post.finished@ == pre.finished@,
        post.email_tokens@ == pre.email_tokens@,
        post.next_user_id == pre.next_user_id,
        post.next_dog_id == pre.next_dog_id,
        post.next_match_id == pre.next_match_id,
        post.matches@.len() == pre.matches@.len(),
        forall|j: int| 0 <= j < pre.matches@.len() && j != i ==> (#[trigger] post.matches@[j])
            == pre.matches@[j],
        post.matches@[i].id == pre.matches@[i].id,
        post.matches@[i].user_id == pre.matches@[i].user_id,
        post.matches@[i].dog_a_id == pre.matches@[i].dog_a_id,
        post.matches@[i].dog_b_id == pre.matches@[i].dog_b_id,
        post.matches@[i].status is Some,
    ensures
        post.wf(),
{
    assert(post.wf_sessions()) by {
        assert forall|k: int|
            0 <= k < post.sessions@.len() implies post.has_user(
            #[trigger] post.sessions@[k].user_id,
        ) by {
            assert(pre.has_user(pre.sessions@[k].user_id));
            let w = choose|w: int|
                0 <= w < pre.users@.len() && pre.users@[w].id == pre.sessions@[k].user_id;
            assert(post.users@[w].id == post.sessions@[k].user_id);
        }
    }
    assert(post.wf_matches()) by {
        assert forall|a: int, b: int|
            0 <= a < b < post.matches@.len() implies post.matches@[a].id
            != post.matches@[b].id by {
            assert(pre.matches@[a].id != pre.matches@[b].id);
        }
        assert forall|k: int|
            0 <= k < post.matches@.len() implies post.has_dog(#[trigger] post.matches@[k].dog_a_id)
            && post.has_dog(post.matches@[k].dog_b_id) by {
            assert(pre.has_dog(pre.matches@[k].dog_a_id));
            assert(pre.has_dog(pre.matches@[k].dog_b_id));
            let wa = choose|w: int|
                0 <= w < pre.dogs@.len() && pre.dogs@[w].id == pre.matches@[k].dog_a_id;
            assert(post.dogs@[wa].id == post.matches@[k].dog_a_id);
            let wb = choose|w: int|
                0 <= w < pre.dogs@.len() && pre.dogs@[w].id == pre.matches@[k].dog_b_id;
            assert(post.dogs@[wb].id == post.matches@[k].dog_b_id);
        }
        assert forall|a: int, b: int|
            0 <= a < b < post.matches@.len() && post.matches@[a].user_id
                == post.matches@[b].user_id implies !(post.matches@[a].status is None
            && post.matches@[b].status is None) by {
            assert(!(pre.matches@[a].status is None && pre.matches@[b].status is None));
        }
        assert forall|a: int, b: int|
            0 <= a < b < post.matches@.len() && post.matches@[a].user_id
                == post.matches@[b].user_id implies !Store::same_pair(
            post.matches@[a],
            post.matches@[b],
        ) by {
            assert(!Store::same_pair(pre.matches@[a], pre.matches@[b]));
        }
    }
}

} // verus!
