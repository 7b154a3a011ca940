//! In-memory model of the persistent store: users, sessions, candidates,
//! ratings, matches, exhaustion records, email tokens and the audit log,
//! together with the well-formedness invariant that every operation of the
//! library preserves.

use vstd::prelude::*;
use crate::elo::{MatchOutcome, RatingType};

verus! {

/// A player. Created implicitly on first unrecognized visit; the email is
/// set at most once, by a completed magic-link signup; XP only grows.
pub struct User {
    pub id: i64,
    pub email: Option<String>,
    pub total_xp: u32,
}

/// A session token bound to one user. Multiple sessions may point at the
/// same user; a token maps to exactly one user at a time.
pub struct Session {
    pub token: String,
    pub user_id: i64,
}

/// A candidate ("dog"). Unapproved candidates never enter matchmaking; the
/// name is assigned at most once.
pub struct Dog {
    pub id: i64,
    pub image_url: String,
    pub name: Option<String>,
    pub approved: bool,
    pub namer_id: Option<i64>,
}

/// One rating row, keyed by candidate and track; `user_id` scopes the
/// personal track and is zero on the overall track.
pub struct Rating {
    pub dog_id: i64,
    pub rating_type: RatingType,
    pub user_id: i64,
    pub value: u16,
}

/// A proposed pairing and, once decided, its outcome, with the signed rating
/// changes recorded on it for audit.
#[derive(Clone, Copy)]
pub struct DogMatch {
    pub id: i64,
    pub user_id: i64,
    pub dog_a_id: i64,
    pub dog_b_id: i64,
    pub status: Option<MatchOutcome>,
    pub created_at: i64,
    pub updated_at: i64,
    pub elo_change_overall_a: i32,
    pub elo_change_overall_b: i32,
    pub elo_change_personal_a: i32,
    pub elo_change_personal_b: i32,
}

/// A record that `user_id` has compared `dog_id` against every other
/// eligible candidate.
#[derive(Clone, Copy)]
pub struct Finished {
    pub user_id: i64,
    pub dog_id: i64,
}

/// A magic-link token: single-use, expiring thirty minutes after creation.
pub struct EmailToken {
    pub token: String,
    pub email: String,
    pub created_at: i64,
    pub used: bool,
    pub sender_id: i64,
}

/// An append-only audit row for security-relevant events.
pub struct LogEntry {
    pub action: String,
    pub user_id: i64,
    pub client_ip: Option<String>,
    pub notes: String,
    pub created_at: i64,
}

/// The whole persistent state, as the library models it.
pub struct Store {
    pub users: Vec<User>,
    pub sessions: Vec<Session>,
    pub dogs: Vec<Dog>,
    pub ratings: Vec<Rating>,
    pub matches: Vec<DogMatch>,
    pub finished: Vec<Finished>,
    pub email_tokens: Vec<EmailToken>,
    pub logs: Vec<LogEntry>,
    pub next_user_id: i64,
    pub next_dog_id: i64,
    pub next_match_id: i64,
}

/// The seed value of a lazily created rating row.
pub const DEFAULT_RATING: u16 = 1000;

/// No rating may ever drop below this floor.
pub const RATING_FLOOR: u16 = 100;

impl Store {
    /// Whether some user row carries this id.
    pub open spec fn has_user(self, id: i64) -> bool {
        exists|i: int| 0 <= i < self.users@.len() && self.users@[i].id == id
    }

    /// Whether some dog row carries this id.
    pub open spec fn has_dog(self, id: i64) -> bool {
        exists|i: int| 0 <= i < self.dogs@.len() && self.dogs@[i].id == id
    }

    /// Two matches propose the same unordered candidate pair.
    pub open spec fn same_pair(m1: DogMatch, m2: DogMatch) -> bool {
        (m1.dog_a_id == m2.dog_a_id && m1.dog_b_id == m2.dog_b_id) || (m1.dog_a_id == m2.dog_b_id
            && m1.dog_b_id == m2.dog_a_id)
    }

    pub open spec fn wf_users(self) -> bool {
        &&& forall|i: int, j: int|
            0 <= i < j < self.users@.len() ==> self.users@[i].id != self.users@[j].id
        &&& forall|i: int, j: int|
            0 <= i < j < self.users@.len() && self.users@[i].email is Some
                && self.users@[j].email is Some ==> self.users@[i].email.unwrap()@
                != self.users@[j].email.unwrap()@
        &&& forall|i: int|
            0 <= i < self.users@.len() ==> 1 <= #[trigger] self.users@[i].id < self.next_user_id
        &&& 1 <= self.next_user_id
    }

    pub open spec fn wf_sessions(self) -> bool {
        &&& forall|i: int, j: int|
            0 <= i < j < self.sessions@.len() ==> self.sessions@[i].token@
                != self.sessions@[j].token@
        &&& forall|i: int|
            0 <= i < self.sessions@.len() ==> self.has_user(#[trigger] self.sessions@[i].user_id)
    }

    pub open spec fn wf_dogs(self) -> bool {
        &&& forall|i: int, j: int|
            0 <= i < j < self.dogs@.len() ==> self.dogs@[i].id != self.dogs@[j].id
        &&& forall|i: int|
            0 <= i < self.dogs@.len() ==> 1 <= #[trigger] self.dogs@[i].id < self.next_dog_id
        &&& 1 <= self.next_dog_id
    }

    pub open spec fn wf_ratings(self) -> bool {
        &&& forall|i: int, j: int|
            0 <= i < j < self.ratings@.len() ==> !(self.ratings@[i].dog_id
                == self.ratings@[j].dog_id && self.ratings@[i].rating_type
                == self.ratings@[j].rating_type && self.ratings@[i].user_id
                == self.ratings@[j].user_id)
        &&& forall|i: int|
            0 <= i < self.ratings@.len() ==> #[trigger] self.ratings@[i].value >= RATING_FLOOR
        &&& forall|i: int|
            0 <= i < self.ratings@.len() && self.ratings@[i].rating_type is Overall
                ==> #[trigger] self.ratings@[i].user_id == 0
    }

    pub open spec fn wf_matches(self) -> bool {
        &&& forall|i: int, j: int|
            0 <= i < j < self.matches@.len() ==> self.matches@[i].id != self.matches@[j].id
        &&& forall|i: int|
            0 <= i < self.matches@.len() ==> 1 <= #[trigger] self.matches@[i].id
                < self.next_match_id
        &&& 1 <= self.next_match_id
        &&& forall|i: int|
            0 <= i < self.matches@.len() ==> #[trigger] self.matches@[i].dog_a_id
                != self.matches@[i].dog_b_id
        &&& forall|i: int|
            0 <= i < self.matches@.len() ==> self.has_dog(#[trigger] self.matches@[i].dog_a_id)
                && self.has_dog(self.matches@[i].dog_b_id)
        &&& forall|i: int, j: int|
            0 <= i < j < self.matches@.len() && self.matches@[i].user_id
                == self.matches@[j].user_id ==> !(self.matches@[i].status is None
                && self.matches@[j].status is None)
        &&& forall|i: int, j: int|
            0 <= i < j < self.matches@.len() && self.matches@[i].user_id
                == self.matches@[j].user_id ==> !Self::same_pair(
                self.matches@[i],
                self.matches@[j],
            )
    }

    pub open spec fn wf_email_tokens(self) -> bool {
        forall|i: int, j: int|
            0 <= i < j < self.email_tokens@.len() ==> self.email_tokens@[i].token@
                != self.email_tokens@[j].token@
    }

    /// The store invariant: keys are unique, references resolve, at most one
    /// pending match per user, no unordered candidate pair is ever proposed
    /// twice to the same user, and no rating sits below the floor.
    pub open spec fn wf(self) -> bool {
        &&& self.wf_users()
        &&& self.wf_sessions()
        &&& self.wf_dogs()
        &&& self.wf_ratings()
        &&& self.wf_matches()
        &&& self.wf_email_tokens()
    }

    /// An empty store.
    pub fn new() -> (s: Store)
        ensures
            s.wf(),
            s.users@.len() == 0,
            s.sessions@.len() == 0,
            s.dogs@.len() == 0,
            s.ratings@.len() == 0,
            s.matches@.len() == 0,
            s.finished@.len() == 0,
            s.email_tokens@.len() == 0,
            s.logs@.len() == 0,
    {
        Store {
            users: Vec::new(),
            sessions: Vec::new(),
            dogs: Vec::new(),
            ratings: Vec::new(),
            matches: Vec::new(),
            finished: Vec::new(),
            email_tokens: Vec::new(),
            logs: Vec::new(),
            next_user_id: 1,
            next_dog_id: 1,
            next_match_id: 1,
        }
    }

    /// Index of the user row carrying `id`, if any.
    pub fn find_user(&self, id: i64) -> (r: Option<usize>)
        ensures
            match r {
                Some(i) => i < self.users@.len() && self.users@[i as int].id == id,
                None => !self.has_user(id),
            },
    {
        let mut i: usize = 0;
        while i < self.users.len()
            invariant
                i <= self.users@.len(),
                forall|j: int| 0 <= j < i ==> self.users@[j].id != id,
            decreases self.users@.len() - i,
        {
            if self.users[i].id == id {
                return Some(i);
            }
            i += 1;
        }
        None
    }

    /// Index of the user row owning `email`, if any.
    pub fn find_user_by_email(&self, email: &String) -> (r: Option<usize>)
        ensures
            match r {
                Some(i) => i < self.users@.len() && self.users@[i as int].email is Some
                    && self.users@[i as int].email.unwrap()@ == email@,
                None => forall|j: int|
                    0 <= j < self.users@.len() ==> !(#[trigger] self.users@[j].email is Some
                        && self.users@[j].email.unwrap()@ == email@),
            },
    {
        let mut i: usize = 0;
        while i < self.users.len()
            invariant
                i <= self.users@.len(),
                forall|j: int|
                    0 <= j < i ==> !(#[trigger] self.users@[j].email is Some
                        && self.users@[j].email.unwrap()@ == email@),
            decreases self.users@.len() - i,
        {
            match &self.users[i].email {
                Some(e) => {
                    if *e == *email {
                        return Some(i);
                    }
                },
                None => {},
            }
            i += 1;
        }
        None
    }

    /// Index of the session row carrying `token`, if any.
    pub fn find_session(&self, token: &String) -> (r: Option<usize>)
        ensures
            match r {
                Some(i) => i < self.sessions@.len() && self.sessions@[i as int].token@ == token@,
                None => forall|j: int|
                    0 <= j < self.sessions@.len() ==> (#[trigger] self.sessions@[j].token)@
                        != token@,
            },
    {
        let mut i: usize = 0;
        while i < self.sessions.len()
            invariant
                i <= self.sessions@.len(),
                forall|j: int| 0 <= j < i ==> (#[trigger] self.sessions@[j].token)@ != token@,
            decreases self.sessions@.len() - i,
        {
            if self.sessions[i].token == *token {
                return Some(i);
            }
            i += 1;
        }
        None
    }

    /// Index of the dog row carrying `id`, if any.
    pub fn find_dog(&self, id: i64) -> (r: Option<usize>)
        ensures
            match r {
                Some(i) => i < self.dogs@.len() && self.dogs@[i as int].id == id,
                None => !self.has_dog(id),
            },
    {
        let mut i: usize = 0;
        while i < self.dogs.len()
            invariant
                i <= self.dogs@.len(),
                forall|j: int| 0 <= j < i ==> self.dogs@[j].id != id,
            decreases self.dogs@.len() - i,
        {
            if self.dogs[i].id == id {
                return Some(i);
            }
            i += 1;
        }
        None
    }

    /// Whether `user_id` has an exhaustion record for `dog_id`.
    pub open spec fn spec_is_finished(self, user_id: i64, dog_id: i64) -> bool {
        exists|i: int|
            0 <= i < self.finished@.len() && self.finished@[i].user_id == user_id
                && self.finished@[i].dog_id == dog_id
    }

    /// Whether `user_id` has an exhaustion record for `dog_id`.
    pub fn is_finished(&self, user_id: i64, dog_id: i64) -> (r: bool)
        ensures
            r == self.spec_is_finished(user_id, dog_id),
    {
        let mut i: usize = 0;
        while i < self.finished.len()
            invariant
                i <= self.finished@.len(),
                forall|j: int|
                    0 <= j < i ==> !(self.finished@[j].user_id == user_id
                        && self.finished@[j].dog_id == dog_id),
            decreases self.finished@.len() - i,
        {
            if self.finished[i].user_id == user_id && self.finished[i].dog_id == dog_id {
                return true;
            }
            i += 1;
        }
        false
    }

    /// The user's pending match, if there is one. At most one can exist.
    pub open spec fn spec_pending_match(self, user_id: i64) -> Option<int> {
        if exists|i: int|
            0 <= i < self.matches@.len() && self.matches@[i].user_id == user_id
                && self.matches@[i].status is None {
            Some(
                choose|i: int|
                    0 <= i < self.matches@.len() && self.matches@[i].user_id == user_id
                        && self.matches@[i].status is None,
            )
        } else {
            None
        }
    }

    /// Index of the user's pending match, if any.
    pub fn find_pending_match(&self, user_id: i64) -> (r: Option<usize>)
        ensures
            match r {
                Some(i) => i < self.matches@.len() && self.matches@[i as int].user_id == user_id
                    && self.matches@[i as int].status is None,
                None => forall|j: int|
                    0 <= j < self.matches@.len() ==> !(#[trigger] self.matches@[j].user_id
                        == user_id && self.matches@[j].status is None),
            },
    {
        let mut i: usize = 0;
        while i < self.matches.len()
            invariant
                i <= self.matches@.len(),
                forall|j: int|
                    0 <= j < i ==> !(#[trigger] self.matches@[j].user_id == user_id
                        && self.matches@[j].status is None),
            decreases self.matches@.len() - i,
        {
            if self.matches[i].user_id == user_id && self.matches[i].status.is_none() {
                return Some(i);
            }
            i += 1;
        }
        None
    }

    /// Whether the pair of `dog_a` and `dog_b` (in either order) has already
    /// been proposed to `user_id`.
    pub open spec fn spec_pair_proposed(self, user_id: i64, dog_a: i64, dog_b: i64) -> bool {
        exists|i: int|
            0 <= i < self.matches@.len() && self.matches@[i].user_id == user_id
                && ((self.matches@[i].dog_a_id == dog_a && self.matches@[i].dog_b_id == dog_b) || (
                self.matches@[i].dog_a_id == dog_b && self.matches@[i].dog_b_id == dog_a))
    }

    /// Whether the pair has already been proposed to `user_id`.
    pub fn pair_proposed(&self, user_id: i64, dog_a: i64, dog_b: i64) -> (r: bool)
        ensures
            r == self.spec_pair_proposed(user_id, dog_a, dog_b),
    {
        let mut i: usize = 0;
        while i < self.matches.len()
            invariant
                i <= self.matches@.len(),
                forall|j: int|
                    0 <= j < i ==> !(#[trigger] self.matches@[j].user_id == user_id
                        && ((self.matches@[j].dog_a_id == dog_a && self.matches@[j].dog_b_id
                        == dog_b) || (self.matches@[j].dog_a_id == dog_b
                        && self.matches@[j].dog_b_id == dog_a))),
            decreases self.matches@.len() - i,
        {
            let m = &self.matches[i];
            if m.user_id == user_id && ((m.dog_a_id == dog_a && m.dog_b_id == dog_b) || (m.dog_a_id
                == dog_b && m.dog_b_id == dog_a)) {
                return true;
            }
            i += 1;
        }
        false
    }

    /// Creates a bare user with a fresh id, no email and no XP.
    pub fn create_user(&mut self) -> (id: i64)
        requires
            old(self).wf(),
            old(self).next_user_id < i64::MAX,
        ensures
            final(self).wf(),
            id == old(self).next_user_id,
            final(self).users@ == old(self).users@.push(
                User { id, email: None::<String>, total_xp: 0u32 },
            ),
            final(self).has_user(id),
            !old(self).has_user(id),
            final(self).sessions@ == old(self).sessions@,
            final(self).dogs@ == old(self).dogs@,
            final(self).ratings@ == old(self).ratings@,
            final(self).matches@ == old(self).matches@,
            final(self).finished@ == old(self).finished@,
            final(self).email_tokens@ == old(self).email_tokens@,
            final(self).logs@ == old(self).logs@,
            final(self).next_dog_id == old(self).next_dog_id,
            final(self).next_match_id == old(self).next_match_id,
    {
        let id = self.next_user_id;
        self.users.push(User { id, email: None, total_xp: 0 });
        self.next_user_id = self.next_user_id + 1;
        proof {
            assert(self.users@[self.users@.len() - 1].id == id);
            assert forall|i: int|
                0 <= i < self.sessions@.len() implies self.has_user(
                #[trigger] self.sessions@[i].user_id,
            ) by {
                assert(old(self).has_user(self.sessions@[i].user_id));
                let w = choose|w: int|
                    0 <= w < old(self).users@.len() && old(self).users@[w].id
                        == self.sessions@[i].user_id;
                assert(self.users@[w].id == self.sessions@[i].user_id);
            }
            assert forall|i: int|
                0 <= i < self.matches@.len() implies self.has_dog(
                #[trigger] self.matches@[i].dog_a_id,
            ) && self.has_dog(self.matches@[i].dog_b_id) by {
                assert(old(self).has_dog(self.matches@[i].dog_a_id));
                assert(old(self).has_dog(self.matches@[i].dog_b_id));
            }
        }
        id
    }

    /// The user's cumulative XP, as persisted on the user row.
    pub fn get_xp(&self, user_id: i64) -> (xp: u32)
        ensures
            self.has_user(user_id) ==> exists|i: int|
                0 <= i < self.users@.len() && (#[trigger] self.users@[i]).id == user_id
                    && self.users@[i].total_xp == xp,
            !self.has_user(user_id) ==> xp == 0,
    {
        match self.find_user(user_id) {
            Some(i) => self.users[i].total_xp,
            None => 0,
        }
    }

    /// Appends an audit log row. Append-only: nothing else changes.
    pub fn append_log(
        &mut self,
        action: String,
        user_id: i64,
        client_ip: Option<String>,
        notes: String,
        now: i64,
    )
        requires
            old(self).wf(),
        ensures
            final(self).wf(),
            final(self).logs@.len() == old(self).logs@.len() + 1,
            final(self).logs@.last().action@ == action@,
            final(self).logs@.last().user_id == user_id,
            final(self).logs@.last().notes@ == notes@,
            final(self).logs@.last().created_at == now,
            final(self).logs@.subrange(0, old(self).logs@.len() as int) == old(self).logs@,
            final(self).users@ == old(self).users@,
            final(self).sessions@ == old(self).sessions@,
            final(self).dogs@ == old(self).dogs@,
            final(self).ratings@ == old(self).ratings@,
            final(self).matches@ == old(self).matches@,
            final(self).finished@ == old(self).finished@,
            final(self).email_tokens@ == old(self).email_tokens@,
            final(self).next_user_id == old(self).next_user_id,
            final(self).next_dog_id == old(self).next_dog_id,
            final(self).next_match_id == old(self).next_match_id,
    {
        self.logs.push(
            LogEntry { action, user_id, client_ip, notes, created_at: now },
        );
        proof {
            assert(self.logs@.subrange(0, old(self).logs@.len() as int) =~= old(self).logs@);
            assert(self.wf_sessions()) by {
                assert forall|i: int|
                    0 <= i < self.sessions@.len() implies self.has_user(
                    #[trigger] self.sessions@[i].user_id,
                ) by {
                    assert(old(self).has_user(self.sessions@[i].user_id));
                }
            }
            assert(self.wf_matches()) by {
                assert forall|i: int|
                    0 <= i < self.matches@.len() implies self.has_dog(
                    #[trigger] self.matches@[i].dog_a_id,
                ) && self.has_dog(self.matches@[i].dog_b_id) by {
                    assert(old(self).has_dog(self.matches@[i].dog_a_id));
                    assert(old(self).has_dog(self.matches@[i].dog_b_id));
                }
            }
        }
    }
}

/// User rows changed in fields only, ids and count kept: references still
/// resolve.
pub(crate) proof fn lemma_frame_after_user_field_change(pre: Store, post: Store)
    requires
        pre.wf(),
        post.wf_users(),
        post.users@.len() == pre.users@.len(),
        forall|i: int|
            0 <= i < pre.users@.len() ==> (#[trigger] post.users@[i]).id == pre.users@[i].id,
        post.sessions@ == pre.sessions@,
        post.dogs@ == pre.dogs@,
        post.ratings@ == pre.ratings@,
        post.matches@ == pre.matches@,
        post.email_tokens@ == pre.email_tokens@,
        post.next_user_id == pre.next_user_id,
        post.next_dog_id == pre.next_dog_id,
        post.next_match_id == pre.next_match_id,
    ensures
        post.wf(),
{
    assert(post.wf_sessions()) by {
        assert forall|i: int|
            0 <= i < post.sessions@.len() implies post.has_user(
            #[trigger] post.sessions@[i].user_id,
        ) by {
            assert(pre.has_user(pre.sessions@[i].user_id));
            let w = choose|w: int|
                0 <= w < pre.users@.len() && pre.users@[w].id == pre.sessions@[i].user_id;
            assert(post.users@[w].id == post.sessions@[i].user_id);
        }
    }
    assert(post.wf_matches()) by {
        assert forall|i: int|
            0 <= i < post.matches@.len() implies post.has_dog(#[trigger] post.matches@[i].dog_a_id)
            && post.has_dog(post.matches@[i].dog_b_id) by {
            assert(pre.has_dog(pre.matches@[i].dog_a_id));
            assert(pre.has_dog(pre.matches@[i].dog_b_id));
            let wa = choose|w: int|
                0 <= w < pre.dogs@.len() && pre.dogs@[w].id == pre.matches@[i].dog_a_id;
            assert(post.dogs@[wa].id == post.matches@[i].dog_a_id);
            let wb = choose|w: int|
                0 <= w < pre.dogs@.len() && pre.dogs@[w].id == pre.matches@[i].dog_b_id;
            assert(post.dogs@[wb].id == post.matches@[i].dog_b_id);
        }
    }
}

} // verus!
