//! The matchmaker: selects the next candidate pair for a user, returning the
//! user's pending match unchanged when one exists, never proposing the same
//! unordered pair to a user twice, and recording an exhaustion record when a
//! candidate has nobody left to face. When every approved candidate is
//! exhausted there is no match left: the terminal "you've won" state.

use vstd::prelude::*;
use crate::rng::rand_in_range;
use crate::store::{Dog, DogMatch, Finished, Store};

verus! {

impl Store {
    /// A candidate enters the user's selection pool when it is approved and
    /// the user has not exhausted it.
    pub open spec fn spec_eligible(self, user_id: i64, dog: Dog) -> bool {
        dog.approved && !self.spec_is_finished(user_id, dog.id)
    }

    /// How many of the first `n` candidate rows are in the user's pool.
    pub open spec fn spec_count_eligible(self, user_id: i64, n: int) -> nat
        decreases n,
    {
        if n <= 0 {
            0
        } else {
            self.spec_count_eligible(user_id, n - 1) + if 0 <= n - 1 < self.dogs@.len()
                && self.spec_eligible(user_id, self.dogs@[n - 1]) {
                1nat
            } else {
                0nat
            }
        }
    }

    /// Every unordered pair of distinct approved candidates has already been
    /// proposed to the user.
    pub open spec fn spec_all_pairs_proposed(self, user_id: i64) -> bool {
        forall|x: int, y: int|
            0 <= x < self.dogs@.len() && 0 <= y < self.dogs@.len()
                && (#[trigger] self.dogs@[x]).approved && (#[trigger] self.dogs@[y]).approved
                && self.dogs@[x].id != self.dogs@[y].id ==> self.spec_pair_proposed(
                user_id,
                self.dogs@[x].id,
                self.dogs@[y].id,
            )
    }

    /// Every approved candidate other than `dog_id` has already been
    /// matched against it for this user: nothing is left for it to face.
    pub open spec fn spec_no_partner_left(self, user_id: i64, dog_id: i64) -> bool {
        forall|k: int|
            0 <= k < self.dogs@.len() && (#[trigger] self.dogs@[k]).approved && self.dogs@[k].id
                != dog_id ==> self.spec_pair_proposed(user_id, dog_id, self.dogs@[k].id)
    }

    /// `id` names an approved, unexhausted candidate: a member of the
    /// user's selection pool.
    pub open spec fn spec_in_pool(self, user_id: i64, id: i64) -> bool {
        exists|j: int|
            0 <= j < self.dogs@.len() && (#[trigger] self.dogs@[j]).id == id
                && self.spec_eligible(user_id, self.dogs@[j])
    }

    /// `id` names an approved candidate other than `dog_a_id` that was never
    /// yet matched against it for this user.
    pub open spec fn spec_in_b_pool(self, user_id: i64, dog_a_id: i64, id: i64) -> bool {
        exists|j: int|
            0 <= j < self.dogs@.len() && (#[trigger] self.dogs@[j]).id == id
                && self.dogs@[j].approved && self.dogs@[j].id != dog_a_id
                && !self.spec_pair_proposed(user_id, dog_a_id, self.dogs@[j].id)
    }

    /// Ids of the candidates in the user's selection pool.
    fn eligible_dog_ids(&self, user_id: i64) -> (v: Vec<i64>)
        ensures
            forall|k: int| 0 <= k < v@.len() ==> self.spec_in_pool(user_id, #[trigger] v@[k]),
            forall|j: int|
                0 <= j < self.dogs@.len() && self.spec_eligible(user_id, #[trigger] self.dogs@[j])
                    ==> v@.contains(self.dogs@[j].id),
    {
        let mut v: Vec<i64> = Vec::new();
        let mut i: usize = 0;
        while i < self.dogs.len()
            invariant
                i <= self.dogs@.len(),
                forall|k: int| 0 <= k < v@.len() ==> self.spec_in_pool(user_id, #[trigger] v@[k]),
                forall|j: int|
                    0 <= j < i && self.spec_eligible(user_id, #[trigger] self.dogs@[j])
                        ==> v@.contains(self.dogs@[j].id),
            decreases self.dogs@.len() - i,
        {
            let approved = self.dogs[i].approved;
            let id = self.dogs[i].id;
            if approved && !self.is_finished(user_id, id) {
                let ghost v_old = v@;
                v.push(id);
                proof {
                    assert(v@[v@.len() - 1] == self.dogs@[i as int].id);
                    assert(self.spec_in_pool(user_id, id)) by {
                        assert(self.dogs@[i as int].id == id && self.spec_eligible(
                            user_id,
                            self.dogs@[i as int],
                        ));
                    }
                    assert forall|k: int|
                        0 <= k < v@.len() implies self.spec_in_pool(
                        user_id,
                        #[trigger] v@[k],
                    ) by {
                        if k < v_old.len() {
                            assert(v@[k] == v_old[k]);
                        }
                    }
                    assert forall|j: int|
                        0 <= j < i + 1 && self.spec_eligible(
                            user_id,
                            #[trigger] self.dogs@[j],
                        ) implies v@.contains(self.dogs@[j].id) by {
                        if j < i {
                            assert(v_old.contains(self.dogs@[j].id));
                            let k = choose|k: int| 0 <= k < v_old.len() && v_old[k]
                                == self.dogs@[j].id;
                            assert(v@[k] == self.dogs@[j].id);
                        } else {
                            assert(v@[v@.len() - 1] == self.dogs@[j].id);
                        }
                    }
                }
            }
            i += 1;
        }
        v
    }

    /// Ids of the approved candidates that may face `dog_a_id` next for this
    /// user: everyone but `dog_a_id` itself and those already matched
    /// against it.
    fn potential_b_ids(&self, user_id: i64, dog_a_id: i64) -> (v: Vec<i64>)
        ensures
            forall|k: int|
                0 <= k < v@.len() ==> self.spec_in_b_pool(user_id, dog_a_id, #[trigger] v@[k]),
            forall|j: int|
                0 <= j < self.dogs@.len() && (#[trigger] self.dogs@[j]).approved
                    && self.dogs@[j].id != dog_a_id && !self.spec_pair_proposed(
                    user_id,
                    dog_a_id,
                    self.dogs@[j].id,
                ) ==> v@.contains(self.dogs@[j].id),
    {
        let mut v: Vec<i64> = Vec::new();
        let mut i: usize = 0;
        while i < self.dogs.len()
            invariant
                i <= self.dogs@.len(),
                forall|k: int|
                    0 <= k < v@.len() ==> self.spec_in_b_pool(
                        user_id,
                        dog_a_id,
                        #[trigger] v@[k],
                    ),
                forall|j: int|
                    0 <= j < i && (#[trigger] self.dogs@[j]).approved && self.dogs@[j].id
                        != dog_a_id && !self.spec_pair_proposed(
                        user_id,
                        dog_a_id,
                        self.dogs@[j].id,
                    ) ==> v@.contains(self.dogs@[j].id),
            decreases self.dogs@.len() - i,
        {
            let approved = self.dogs[i].approved;
            let id = self.dogs[i].id;
            if approved && id != dog_a_id && !self.pair_proposed(user_id, dog_a_id, id) {
                let ghost v_old = v@;
                v.push(id);
                proof {
                    assert(v@[v@.len() - 1] == self.dogs@[i as int].id);
                    assert(self.spec_in_b_pool(user_id, dog_a_id, id)) by {
                        assert(self.dogs@[i as int].id == id);
                    }
                    assert forall|k: int|
                        0 <= k < v@.len() implies self.spec_in_b_pool(
                        user_id,
                        dog_a_id,
                        #[trigger] v@[k],
                    ) by {
                        if k < v_old.len() {
                            assert(v@[k] == v_old[k]);
                        }
                    }
                    assert forall|j: int|
                        0 <= j < i + 1 && (#[trigger] self.dogs@[j]).approved && self.dogs@[j].id
                            != dog_a_id && !self.spec_pair_proposed(
                            user_id,
                            dog_a_id,
                            self.dogs@[j].id,
                        ) implies v@.contains(self.dogs@[j].id) by {
                        if j < i {
                            assert(v_old.contains(self.dogs@[j].id));
                            let k = choose|k: int| 0 <= k < v_old.len() && v_old[k]
                                == self.dogs@[j].id;
                            assert(v@[k] == self.dogs@[j].id);
                        } else {
                            assert(v@[v@.len() - 1] == self.dogs@[j].id);
                        }
                    }
                }
            }
            i += 1;
        }
        v
    }

    /// The user's current or next match, as a candidate pair.
    ///
    /// A pending match is returned unchanged, however often it is asked for.
    /// Otherwise a first candidate is drawn from the user's pool and a
    /// second from those never yet matched against it; a candidate with
    /// nobody left to face gets an exhaustion record and the draw repeats on
    /// the strictly smaller pool. `None` means the pool emptied: every
    /// approved candidate carries an exhaustion record for this user.
    #[verifier::rlimit(60)]
    pub fn get_dog_match(&mut self, user_id: i64, now: i64) -> (r: Option<(i64, i64)>)
        requires
            old(self).wf(),
            old(self).next_match_id < i64::MAX,
        ensures
            final(self).wf(),
            final(self).users@ == old(self).users@,
            final(self).sessions@ == old(self).sessions@,
            final(self).dogs@ == old(self).dogs@,
            final(self).ratings@ == old(self).ratings@,
            final(self).email_tokens@ == old(self).email_tokens@,
            final(self).logs@ == old(self).logs@,
            old(self).finished@.is_prefix_of(final(self).finished@),
            forall|i: int|
                old(self).finished@.len() <= i < final(self).finished@.len() ==> (
                #[trigger] final(self).finished@[i]).user_id == user_id && old(
                    self,
                ).spec_no_partner_left(user_id, final(self).finished@[i].dog_id),
            match r {
                Some(pair) => {
                    &&& pair.0 != pair.1
                    &&& old(self).has_dog(pair.0) && old(self).has_dog(pair.1)
                    &&& match old(self).spec_pending_match(user_id) {
                        Some(i) => final(self).matches@ == old(self).matches@
                            && final(self).finished@ == old(self).finished@ && pair.0 == old(
                            self,
                        ).matches@[i].dog_a_id && pair.1 == old(self).matches@[i].dog_b_id,
                        None => final(self).matches@.len() == old(self).matches@.len() + 1
                            && final(self).matches@.subrange(0, old(self).matches@.len() as int)
                            == old(self).matches@ && {
                            let m = final(self).matches@.last();
                            &&& m.user_id == user_id
                            &&& m.dog_a_id == pair.0
                            &&& m.dog_b_id == pair.1
                            &&& m.status is None
                            &&& m.created_at == now
                        } && !old(self).spec_pair_proposed(user_id, pair.0, pair.1)
                            && !old(self).spec_is_finished(user_id, pair.0),
                    }
                },
                None => {
                    &&& final(self).matches@ == old(self).matches@
                    &&& old(self).spec_pending_match(user_id) is None
                    &&& forall|j: int|
                        0 <= j < final(self).dogs@.len() && (
                        #[trigger] final(self).dogs@[j]).approved ==> final(self).spec_is_finished(
                            user_id,
                            final(self).dogs@[j].id,
                        )
                    &&& forall|j: int|
                        0 <= j < old(self).dogs@.len() && (#[trigger] old(self).dogs@[j]).approved
                            && !old(self).spec_is_finished(user_id, old(self).dogs@[j].id) ==> old(
                            self,
                        ).spec_no_partner_left(user_id, old(self).dogs@[j].id)
                },
            },
            old(self).spec_pending_match(user_id) is None && old(self).spec_all_pairs_proposed(
                user_id,
            ) ==> r is None,
    {
        match self.find_pending_match(user_id) {
            Some(i) => {
                proof {
                    let c = self.spec_pending_match(user_id).unwrap();
                    if c != i as int {
                        if c < i as int {
                            assert(!(self.matches@[c].status is None && self.matches@[
                                i as int].status is None));
                        } else {
                            assert(!(self.matches@[i as int].status is None && self.matches@[
                                c].status is None));
                        }
                    }
                }
                return Some((self.matches[i].dog_a_id, self.matches[i].dog_b_id));
            },
            None => {},
        }

        loop
            invariant
                self.wf(),
                self.users@ == old(self).users@,
                self.sessions@ == old(self).sessions@,
                self.dogs@ == old(self).dogs@,
                self.ratings@ == old(self).ratings@,
                self.matches@ == old(self).matches@,
                self.email_tokens@ == old(self).email_tokens@,
                self.logs@ == old(self).logs@,
                self.next_user_id == old(self).next_user_id,
                self.next_dog_id == old(self).next_dog_id,
                self.next_match_id == old(self).next_match_id,
                self.next_match_id < i64::MAX,
                old(self).finished@.is_prefix_of(self.finished@),
                forall|i: int|
                    old(self).finished@.len() <= i < self.finished@.len() ==> (
                    #[trigger] self.finished@[i]).user_id == user_id && old(
                        self,
                    ).spec_no_partner_left(user_id, self.finished@[i].dog_id),
                old(self).spec_pending_match(user_id) is None,
                forall|j: int|
                    0 <= j < self.matches@.len() ==> !(#[trigger] self.matches@[j].user_id
                        == user_id && self.matches@[j].status is None),
            decreases self.spec_count_eligible(user_id, self.dogs@.len() as int),
        {
            let pool = self.eligible_dog_ids(user_id);
            if pool.len() == 0 {
                proof {
                    assert forall|j: int|
                        0 <= j < self.dogs@.len() && (#[trigger] self.dogs@[j]).approved implies self.spec_is_finished(
                        user_id,
                        self.dogs@[j].id,
                    ) by {
                        if !self.spec_is_finished(user_id, self.dogs@[j].id) {
                            assert(self.spec_eligible(user_id, self.dogs@[j]));
                            assert(pool@.contains(self.dogs@[j].id));
                        }
                    }
                    assert forall|j: int|
                        0 <= j < old(self).dogs@.len() && (#[trigger] old(self).dogs@[j]).approved
                            && !old(self).spec_is_finished(
                            user_id,
                            old(self).dogs@[j].id,
                        ) implies old(self).spec_no_partner_left(
                        user_id,
                        old(self).dogs@[j].id,
                    ) by {
                        let d = old(self).dogs@[j].id;
                        assert(self.spec_is_finished(user_id, d));
                        let fi = choose|fi: int|
                            0 <= fi < self.finished@.len() && self.finished@[fi].user_id == user_id
                                && self.finished@[fi].dog_id == d;
                        if fi < old(self).finished@.len() {
                            assert(old(self).finished@[fi] == self.finished@[fi]);
                            assert(old(self).spec_is_finished(user_id, d));
                        }
                    }
                }
                return None;
            }
            let idx = rand_in_range(0, (pool.len() - 1) as u64) as usize;
            let dog_a_id = pool[idx];
            proof {
                assert(self.spec_in_pool(user_id, dog_a_id));
            }

            let b_pool = self.potential_b_ids(user_id, dog_a_id);
            if b_pool.len() == 0 {
                proof {
                    assert forall|k: int|
                        0 <= k < self.dogs@.len() && (#[trigger] self.dogs@[k]).approved
                            && self.dogs@[k].id != dog_a_id implies self.spec_pair_proposed(
                        user_id,
                        dog_a_id,
                        self.dogs@[k].id,
                    ) by {
                        if !self.spec_pair_proposed(user_id, dog_a_id, self.dogs@[k].id) {
                            assert(b_pool@.contains(self.dogs@[k].id));
                        }
                    }
                    assert(old(self).spec_no_partner_left(user_id, dog_a_id));
                }
                let ghost pre = *self;
                self.finished.push(Finished { user_id, dog_id: dog_a_id });
                proof {
                    lemma_frame_after_finished_push(pre, *self);
                    assert(pre.finished@.is_prefix_of(self.finished@)) by {
                        assert(self.finished@.subrange(0, pre.finished@.len() as int)
                            =~= pre.finished@);
                    }
                    assert(old(self).finished@.is_prefix_of(self.finished@)) by {
                        assert(self.finished@.subrange(0, old(self).finished@.len() as int)
                            =~= old(self).finished@);
                    }
                    let ja = choose|j: int|
                        0 <= j < pre.dogs@.len() && (#[trigger] pre.dogs@[j]).id == dog_a_id
                            && pre.spec_eligible(user_id, pre.dogs@[j]);
                    assert(self.spec_is_finished(user_id, dog_a_id)) by {
                        assert(self.finished@.last() == Finished { user_id, dog_id: dog_a_id });
                    }
                    assert(!self.spec_eligible(user_id, self.dogs@[ja]));
                    lemma_count_eligible_decreases(pre, *self, user_id, pre.dogs@.len() as int, ja);
                }
                continue;
            }
            let b_idx = rand_in_range(0, (b_pool.len() - 1) as u64) as usize;
            let dog_b_id = b_pool[b_idx];
            proof {
                assert(self.spec_in_b_pool(user_id, dog_a_id, dog_b_id));
            }

            let ghost pre = *self;
            proof {
                assert(self.next_match_id < i64::MAX);
            }
            let match_id = self.next_match_id;
            self.matches.push(
                DogMatch {
                    id: match_id,
                    user_id,
                    dog_a_id,
                    dog_b_id,
                    status: None,
                    created_at: now,
                    updated_at: now,
                    elo_change_overall_a: 0,
                    elo_change_overall_b: 0,
                    elo_change_personal_a: 0,
                    elo_change_personal_b: 0,
                },
            );
            self.next_match_id = self.next_match_id + 1;
            proof {
                assert(self.matches@.subrange(0, pre.matches@.len() as int) =~= pre.matches@);
                lemma_wf_after_match_push(pre, *self, user_id, dog_a_id, dog_b_id);
                assert(self.matches@.subrange(0, old(self).matches@.len() as int)
                    =~= old(self).matches@);
                if old(self).spec_all_pairs_proposed(user_id) {
                    let ja = choose|j: int|
                        0 <= j < pre.dogs@.len() && (#[trigger] pre.dogs@[j]).id == dog_a_id
                            && pre.spec_eligible(user_id, pre.dogs@[j]);
                    let jb = choose|j: int|
                        0 <= j < pre.dogs@.len() && (#[trigger] pre.dogs@[j]).id == dog_b_id
                            && pre.dogs@[j].approved && pre.dogs@[j].id != dog_a_id
                            && !pre.spec_pair_proposed(user_id, dog_a_id, pre.dogs@[j].id);
                    assert(old(self).spec_pair_proposed(user_id, dog_a_id, dog_b_id));
                    assert(false);
                }
            }
            return Some((dog_a_id, dog_b_id));
        }
    }
}

/// No-repeat guarantee, as the invariant keeps it: across any sequence of
/// matches, no unordered candidate pair is ever proposed to the same user
/// twice.
pub proof fn lemma_no_pair_repeats(s: Store)
    requires
        s.wf(),
    ensures
        forall|i: int, j: int|
            0 <= i < j < s.matches@.len() && s.matches@[i].user_id == s.matches@[j].user_id
                ==> !Store::same_pair(s.matches@[i], s.matches@[j]),
{
}

/// A new exhaustion record touches nothing the invariant speaks of.
proof fn lemma_frame_after_finished_push(pre: Store, post: Store)
    requires
        pre.wf(),
        post.users@ == pre.users@,
        post.sessions@ == pre.sessions@,
        post.dogs@ == pre.dogs@,
        post.ratings@ == pre.ratings@,
        post.matches@ == pre.matches@,
        post.email_tokens@ == pre.email_tokens@,
        post.next_user_id == pre.next_user_id,
        post.next_dog_id == pre.next_dog_id,
        post.next_match_id == pre.next_match_id,
    ensures
        post.wf(),
{
    assert(post.wf_sessions()) by {
        assert forall|i: int|
            0 <= i < post.sessions@.len() implies post.has_user(
            #[trigger] post.sessions@[i].user_id,
        ) by {
            assert(pre.has_user(pre.sessions@[i].user_id));
            let w = choose|w: int|
                0 <= w < pre.users@.len() && pre.users@[w].id == pre.sessions@[i].user_id;
            assert(post.users@[w].id == post.sessions@[i].user_id);
        }
    }
    assert(post.wf_matches()) by {
        assert forall|i: int|
            0 <= i < post.matches@.len() implies post.has_dog(#[trigger] post.matches@[i].dog_a_id)
            && post.has_dog(post.matches@[i].dog_b_id) by {
            assert(pre.has_dog(pre.matches@[i].dog_a_id));
            assert(pre.has_dog(pre.matches@[i].dog_b_id));
            let wa = choose|w: int|
                0 <= w < pre.dogs@.len() && pre.dogs@[w].id == pre.matches@[i].dog_a_id;
            assert(post.dogs@[wa].id == post.matches@[i].dog_a_id);
            let wb = choose|w: int|
                0 <= w < pre.dogs@.len() && pre.dogs@[w].id == pre.matches@[i].dog_b_id;
            assert(post.dogs@[wb].id == post.matches@[i].dog_b_id);
        }
    }
}

/// Pushing one pending match for a fresh unordered pair keeps the invariant.
proof fn lemma_wf_after_match_push(
    pre: Store,
    post: Store,
    user_id: i64,
    dog_a_id: i64,
    dog_b_id: i64,
)
    requires
        pre.wf(),
        pre.next_match_id < i64::MAX,
        post.users@ == pre.users@,
        post.sessions@ == pre.sessions@,
        post.dogs@ == pre.dogs@,
        post.ratings@ == pre.ratings@,
        post.finished@ == pre.finished@,
        post.email_tokens@ == pre.email_tokens@,
        post.next_user_id == pre.next_user_id,
        post.next_dog_id == pre.next_dog_id,
        post.next_match_id == pre.next_match_id + 1,
        post.matches@.len() == pre.matches@.len() + 1,
        post.matches@.subrange(0, pre.matches@.len() as int) == pre.matches@,
        post.matches@.last().id == pre.next_match_id,
        post.matches@.last().user_id == user_id,
        post.matches@.last().dog_a_id == dog_a_id,
        post.matches@.last().dog_b_id == dog_b_id,
        post.matches@.last().status is None,
        dog_a_id != dog_b_id,
        pre.has_dog(dog_a_id),
        pre.has_dog(dog_b_id),
        !pre.spec_pair_proposed(user_id, dog_a_id, dog_b_id),
        forall|j: int|
            0 <= j < pre.matches@.len() ==> !(#[trigger] pre.matches@[j].user_id == user_id
                && pre.matches@[j].status is None),
    ensures
        post.wf(),
{
    let n = pre.matches@.len() as int;
    assert forall|i: int| 0 <= i < post.matches@.len() implies 1 <= (
    #[trigger] post.matches@[i]).id < post.next_match_id by {
        if i < n {
            assert(post.matches@[i] == pre.matches@[i]);
        }
    }
    assert(post.wf_sessions()) by {
        assert forall|i: int|
            0 <= i < post.sessions@.len() implies post.has_user(
            #[trigger] post.sessions@[i].user_id,
        ) by {
            assert(pre.has_user(pre.sessions@[i].user_id));
            let w = choose|w: int|
                0 <= w < pre.users@.len() && pre.users@[w].id == pre.sessions@[i].user_id;
            assert(post.users@[w].id == post.sessions@[i].user_id);
        }
    }
    assert(post.wf_matches()) by {
        assert forall|i: int, j: int|
            0 <= i < j < post.matches@.len() implies post.matches@[i].id
            != post.matches@[j].id by {
            if j < n {
                assert(post.matches@[i] == pre.matches@[i]);
                assert(post.matches@[j] == pre.matches@[j]);
            } else {
                if i < n {
                    assert(post.matches@[i] == pre.matches@[i]);
                }
            }
        }
        assert forall|i: int|
            0 <= i < post.matches@.len() implies post.has_dog(#[trigger] post.matches@[i].dog_a_id)
            && post.has_dog(post.matches@[i].dog_b_id) && post.matches@[i].dog_a_id
            != post.matches@[i].dog_b_id by {
            let da = if i < n {
                pre.matches@[i].dog_a_id
            } else {
                dog_a_id
            };
            if i < n {
                assert(post.matches@[i] == pre.matches@[i]);
                assert(pre.has_dog(pre.matches@[i].dog_a_id));
                assert(pre.has_dog(pre.matches@[i].dog_b_id));
                let wa = choose|w: int|
                    0 <= w < pre.dogs@.len() && pre.dogs@[w].id == pre.matches@[i].dog_a_id;
                assert(post.dogs@[wa].id == post.matches@[i].dog_a_id);
                let wb = choose|w: int|
                    0 <= w < pre.dogs@.len() && pre.dogs@[w].id == pre.matches@[i].dog_b_id;
                assert(post.dogs@[wb].id == post.matches@[i].dog_b_id);
            } else {
                let wa = choose|w: int| 0 <= w < pre.dogs@.len() && pre.dogs@[w].id == dog_a_id;
                assert(post.dogs@[wa].id == post.matches@[i].dog_a_id);
                let wb = choose|w: int| 0 <= w < pre.dogs@.len() && pre.dogs@[w].id == dog_b_id;
                assert(post.dogs@[wb].id == post.matches@[i].dog_b_id);
            }
        }
        assert forall|i: int, j: int|
            0 <= i < j < post.matches@.len() && post.matches@[i].user_id
                == post.matches@[j].user_id implies !(post.matches@[i].status is None
            && post.matches@[j].status is None) by {
            if j < n {
                assert(post.matches@[i] == pre.matches@[i]);
                assert(post.matches@[j] == pre.matches@[j]);
            } else {
                if i < n {
                    assert(post.matches@[i] == pre.matches@[i]);
                }
            }
        }
        assert forall|i: int, j: int|
            0 <= i < j < post.matches@.len() && post.matches@[i].user_id
                == post.matches@[j].user_id implies !Store::same_pair(
            post.matches@[i],
            post.matches@[j],
        ) by {
            if j < n {
                assert(post.matches@[i] == pre.matches@[i]);
                assert(post.matches@[j] == pre.matches@[j]);
            } else {
                if i < n {
                    assert(post.matches@[i] == pre.matches@[i]);
                    if Store::same_pair(post.matches@[i], post.matches@[j]) {
                        assert(pre.matches@[i].user_id == user_id);
                        assert((pre.matches@[i].dog_a_id == dog_a_id && pre.matches@[i].dog_b_id
                            == dog_b_id) || (pre.matches@[i].dog_a_id == dog_b_id
                            && pre.matches@[i].dog_b_id == dog_a_id));
                        assert(pre.spec_pair_proposed(user_id, dog_a_id, dog_b_id));
                    }
                }
            }
        }
    }
}

/// Exhausting one still-eligible candidate strictly shrinks the pool.
proof fn lemma_count_eligible_decreases(pre: Store, post: Store, user_id: i64, n: int, w: int)
    requires
        post.dogs@ == pre.dogs@,
        forall|d: i64| pre.spec_is_finished(user_id, d) ==> post.spec_is_finished(user_id, d),
        0 <= w < n <= pre.dogs@.len(),
        pre.spec_eligible(user_id, pre.dogs@[w]),
        !post.spec_eligible(user_id, post.dogs@[w]),
    ensures
        post.spec_count_eligible(user_id, n) < pre.spec_count_eligible(user_id, n),
    decreases n,
{
    if w == n - 1 {
        lemma_count_eligible_le(pre, post, user_id, n - 1);
    } else {
        lemma_count_eligible_decreases(pre, post, user_id, n - 1, w);
    }
}

/// Exhaustion records only grow, so the pool only shrinks.
proof fn lemma_count_eligible_le(pre: Store, post: Store, user_id: i64, n: int)
    requires
        post.dogs@ == pre.dogs@,
        forall|d: i64| pre.spec_is_finished(user_id, d) ==> post.spec_is_finished(user_id, d),
        n <= pre.dogs@.len(),
    ensures
        post.spec_count_eligible(user_id, n) <= pre.spec_count_eligible(user_id, n),
    decreases n,
{
    if n > 0 {
        lemma_count_eligible_le(pre, post, user_id, n - 1);
    }
}

} // verus!
