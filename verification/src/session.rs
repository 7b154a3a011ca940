//! Identity and session continuity: resolving an inbound session token to a
//! stable user, creating a guest user on first contact, and the magic-link
//! convergence rule that lets a stale session heal itself to the account
//! whose login its user completed elsewhere.

use vstd::prelude::*;
use crate::store::{Session, Store, User};

verus! {

/// Seconds a magic-link token stays redeemable after creation.
pub const TOKEN_LIFETIME_SECONDS: i64 = 1800;

/// The fixed name of the session cookie.
pub fn auth_cookie_name() -> (s: &'static str)
    ensures
        s@ == "best_doggo_auth_token"@,
{
    "best_doggo_auth_token"
}

/// A request that could not be served because a fresh session token
/// collided with an existing one: treated as fatal for the request, like any
/// persistence failure on the session path.
#[derive(Clone, Copy, Debug, PartialEq, Eq, Structural)]
pub enum AuthError {
    TokenCollision,
}

/// What the session layer resolved for one inbound request.
pub struct RequestContext {
    pub user_id: i64,
    pub user_email: Option<String>,
    pub client_ip: Option<String>,
}

/// Relies on uuid's `Uuid::new_v4` and its `Display`: a randomly drawn
/// version-4 UUID rendered in hyphenated form, which is always 36 characters.
/// Nothing more is assumed of a random value.
#[verifier::external_body]
pub(crate) fn new_opaque_token() -> (t: String)
    ensures
        t@.len() == 36,
{
    uuid::Uuid::new_v4().to_string()
}

impl Store {
    /// The user a session token resolves to, if any.
    pub open spec fn spec_session_user(self, token: Seq<char>) -> Option<i64> {
        if exists|i: int| 0 <= i < self.sessions@.len() && (#[trigger] self.sessions@[i]).token@
            == token {
            let i = choose|i: int|
                0 <= i < self.sessions@.len() && (#[trigger] self.sessions@[i]).token@ == token;
            Some(self.sessions@[i].user_id)
        } else {
            None
        }
    }

    /// A completed magic-link login that this user's session should converge
    /// to: some token this user sent was redeemed within the last thirty
    /// minutes, and the email it certified belongs to a different account.
    pub open spec fn spec_has_convergence(self, user_id: i64, now: i64) -> bool {
        exists|t: int, u: int|
            0 <= t < self.email_tokens@.len() && 0 <= u < self.users@.len()
                && (#[trigger] self.email_tokens@[t]).used && self.email_tokens@[t].created_at
                > now - TOKEN_LIFETIME_SECONDS && self.email_tokens@[t].sender_id == user_id && (
            #[trigger] self.users@[u]).email is Some && self.users@[u].email.unwrap()@
                == self.email_tokens@[t].email@ && self.users@[u].id != user_id
    }

    /// The account a qualifying convergence points at, if any: the owner of
    /// the email certified by some freshly redeemed token this user sent.
    fn find_convergence(&self, user_id: i64, now: i64) -> (r: Option<i64>)
        requires
            self.wf(),
            now >= 0,
        ensures
            match r {
                Some(w) => w != user_id && self.has_user(w) && exists|t: int, u: int|
                    0 <= t < self.email_tokens@.len() && 0 <= u < self.users@.len()
                        && (#[trigger] self.email_tokens@[t]).used
                        && self.email_tokens@[t].created_at > now - TOKEN_LIFETIME_SECONDS
                        && self.email_tokens@[t].sender_id == user_id && (
                    #[trigger] self.users@[u]).email is Some && self.users@[u].email.unwrap()@
                        == self.email_tokens@[t].email@ && self.users@[u].id == w,
                None => !self.spec_has_convergence(user_id, now),
            },
    {
        let mut i: usize = 0;
        while i < self.email_tokens.len()
            invariant
                self.wf(),
                now >= 0,
                i <= self.email_tokens@.len(),
                forall|t: int, u: int|
                    0 <= t < i && 0 <= u < self.users@.len() ==> !((
                    #[trigger] self.email_tokens@[t]).used && self.email_tokens@[t].created_at
                        > now - TOKEN_LIFETIME_SECONDS && self.email_tokens@[t].sender_id
                        == user_id && (#[trigger] self.users@[u]).email is Some
                        && self.users@[u].email.unwrap()@ == self.email_tokens@[t].email@
                        && self.users@[u].id != user_id),
            decreases self.email_tokens@.len() - i,
        {
            let qualifies = self.email_tokens[i].used && self.email_tokens[i].created_at > now
                - TOKEN_LIFETIME_SECONDS && self.email_tokens[i].sender_id == user_id;
            if qualifies {
                match self.find_user_by_email(&self.email_tokens[i].email) {
                    Some(u) => {
                        let owner = self.users[u].id;
                        if owner != user_id {
                            proof {
                                assert(self.email_tokens@[i as int].used);
                                assert(self.users@[u as int].id == owner);
                            }
                            return Some(owner);
                        }
                        proof {
                            assert forall|u2: int|
                                0 <= u2 < self.users@.len() && (
                                #[trigger] self.users@[u2]).email is Some
                                    && self.users@[u2].email.unwrap()@ == self.email_tokens@[
                                i as int].email@ implies self.users@[u2].id == user_id by {
                                if u2 != u as int {
                                    if u2 < u as int {
                                        assert(self.users@[u2].email.unwrap()@
                                            != self.users@[u as int].email.unwrap()@);
                                    } else {
                                        assert(self.users@[u as int].email.unwrap()@
                                            != self.users@[u2].email.unwrap()@);
                                    }
                                }
                            }
                        }
                    },
                    None => {},
                }
            }
            i += 1;
        }
        None
    }

    /// Persists a session binding `token` to `user_id`, unless that exact
    /// token string is already in use: the collision, and nothing else, is
    /// the error.
    pub fn insert_session_if_fresh(&mut self, token: String, user_id: i64) -> (r: Result<
        (),
        AuthError,
    >)
        requires
            old(self).wf(),
            old(self).has_user(user_id),
        ensures
            final(self).wf(),
            r is Err <==> exists|i: int|
                0 <= i < old(self).sessions@.len() && (#[trigger] old(self).sessions@[i].token)@
                    == token@,
            match r {
                Ok(_) => final(self).sessions@ == old(self).sessions@.push(
                    Session { token: token, user_id: user_id },
                ),
                Err(_) => final(self).sessions@ == old(self).sessions@,
            },
            final(self).users@ == old(self).users@,
            final(self).dogs@ == old(self).dogs@,
            final(self).ratings@ == old(self).ratings@,
            final(self).matches@ == old(self).matches@,
            final(self).finished@ == old(self).finished@,
            final(self).email_tokens@ == old(self).email_tokens@,
            final(self).logs@ == old(self).logs@,
            final(self).next_user_id == old(self).next_user_id,
            final(self).next_dog_id == old(self).next_dog_id,
            final(self).next_match_id == old(self).next_match_id,
    {
        match self.find_session(&token) {
            Some(_) => Err(AuthError::TokenCollision),
            None => {
                let ghost pre = *self;
                self.sessions.push(Session { token, user_id });
                proof {
                    assert(self.sessions@.subrange(0, pre.sessions@.len() as int)
                        =~= pre.sessions@);
                    lemma_wf_after_session_push(pre, *self, user_id);
                }
                Ok(())
            },
        }
    }

    /// Mints a fresh opaque session token bound to `user_id` and persists
    /// the session. A drawn token that collides with an existing session is
    /// a fatal error for the request, like any persistence failure here;
    /// whether the random draw collides cannot be promised either way.
    pub fn create_new_auth_token(&mut self, user_id: i64) -> (r: Result<String, AuthError>)
        requires
            old(self).wf(),
            old(self).has_user(user_id),
        ensures
            final(self).wf(),
            match r {
                Ok(token) => final(self).sessions@.len() == old(self).sessions@.len() + 1
                    && final(self).sessions@.subrange(0, old(self).sessions@.len() as int) == old(self).sessions@ && final(self).sessions@.last().user_id == user_id && final(self).sessions@.last().token@ == token@ && (forall|i: int|
                    0 <= i < old(self).sessions@.len() ==> (
                    #[trigger] old(self).sessions@[i].token)@ != token@),
                Err(_) => final(self).sessions@ == old(self).sessions@,
            },
            final(self).users@ == old(self).users@,
            final(self).dogs@ == old(self).dogs@,
            final(self).ratings@ == old(self).ratings@,
            final(self).matches@ == old(self).matches@,
            final(self).finished@ == old(self).finished@,
            final(self).email_tokens@ == old(self).email_tokens@,
            final(self).logs@ == old(self).logs@,
            final(self).next_user_id == old(self).next_user_id,
            final(self).next_dog_id == old(self).next_dog_id,
            final(self).next_match_id == old(self).next_match_id,
    {
        let new_token = new_opaque_token();
        let token_copy = new_token.clone();
        match self.insert_session_if_fresh(new_token, user_id) {
            Ok(_) => Ok(token_copy),
            Err(e) => Err(e),
        }
    }

    /// Resolves one inbound request's session token to an effective user.
    ///
    /// An unknown or missing token creates exactly one bare user and one
    /// session for it. A known token resolves to its user and, when no
    /// freshly redeemed magic-link token of theirs points elsewhere, mutates
    /// nothing. When one does, the request is retroactively reassigned: a
    /// new session is minted for the account that owns the certified email,
    /// and that account is the effective user.
    pub fn resolve_session(&mut self, original_token: &String, now: i64) -> (r: Result<
        (RequestContext, Option<String>),
        AuthError,
    >)
        requires
            old(self).wf(),
            old(self).next_user_id < i64::MAX,
            now >= 0,
        ensures
            final(self).wf(),
            final(self).dogs@ == old(self).dogs@,
            final(self).ratings@ == old(self).ratings@,
            final(self).matches@ == old(self).matches@,
            final(self).finished@ == old(self).finished@,
            final(self).email_tokens@ == old(self).email_tokens@,
            final(self).logs@ == old(self).logs@,
            old(self).spec_session_user(original_token@) matches Some(session_user)
                && !old(self).spec_has_convergence(session_user, now) ==> r is Ok,
            match r {
                Ok(pair) => {
                    let ctx = pair.0;
                    let new_token = pair.1;
                    &&& final(self).has_user(ctx.user_id)
                    &&& (match old(self).spec_session_user(original_token@) {
                        None => {
                            &&& final(self).users@ == old(self).users@.push(
                                User {
                                    id: ctx.user_id,
                                    email: None::<String>,
                                    total_xp: 0u32,
                                },
                            )
                            &&& !old(self).has_user(ctx.user_id)
                            &&& final(self).sessions@.len() == old(self).sessions@.len() + 1
                            &&& final(self).sessions@.subrange(
                                0,
                                old(self).sessions@.len() as int,
                            ) == old(self).sessions@
                            &&& final(self).sessions@.last().user_id == ctx.user_id
                            &&& new_token is Some
                            &&& ctx.user_email is None
                        },
                        Some(session_user) => {
                            &&& (!old(self).spec_has_convergence(session_user, now) ==> {
                                &&& ctx.user_id == session_user
                                &&& final(self).users@ == old(self).users@
                                &&& final(self).sessions@ == old(self).sessions@
                                &&& new_token is None
                            })
                            &&& (ctx.user_id != session_user ==> old(self).spec_has_convergence(session_user, now) && final(self).users@ == old(self).users@ && final(self).sessions@.len() == old(self).sessions@.len()
                                + 1 && final(self).sessions@.subrange(
                                0,
                                old(self).sessions@.len() as int,
                            ) == old(self).sessions@ && final(self).sessions@.last().user_id
                                == ctx.user_id && new_token is Some)
                            &&& (ctx.user_id == session_user ==> final(self).users@ == old(self).users@)
                            &&& (old(self).spec_has_convergence(session_user, now) ==> ctx.user_id
                                != session_user && (exists|t: int, u: int|
                                0 <= t < old(self).email_tokens@.len() && 0 <= u < old(
                                    self,
                                ).users@.len() && (#[trigger] old(self).email_tokens@[t]).used
                                    && old(self).email_tokens@[t].created_at > now
                                    - TOKEN_LIFETIME_SECONDS && old(
                                    self,
                                ).email_tokens@[t].sender_id == session_user && (#[trigger] old(
                                    self,
                                ).users@[u]).email is Some && old(self).users@[u].email.unwrap()@
                                    == old(self).email_tokens@[t].email@ && old(self).users@[u].id
                                    == ctx.user_id))
                        },
                    })
                    &&& (match ctx.user_email {
                        Some(e) => exists|u: int|
                            0 <= u < final(self).users@.len() && (
                            #[trigger] final(self).users@[u]).id == ctx.user_id && final(self).users@[u].email is Some && final(self).users@[u].email.unwrap()@
                                == e@,
                        None => exists|u: int|
                            0 <= u < final(self).users@.len() && (
                            #[trigger] final(self).users@[u]).id == ctx.user_id && final(self).users@[u].email is None,
                    })
                },
                Err(_) => final(self).users@ == old(self).users@ && final(self).sessions@ == old(self).sessions@,
            },
    {
        let session = self.find_session(original_token);
        match session {
            Some(i) => {
                let session_user = self.sessions[i].user_id;
                proof {
                    let c = choose|k: int|
                        0 <= k < self.sessions@.len() && (#[trigger] self.sessions@[k]).token@
                            == original_token@;
                    if c != i as int {
                        if c < i as int {
                            assert(self.sessions@[c].token@ != self.sessions@[i as int].token@);
                        } else {
                            assert(self.sessions@[i as int].token@ != self.sessions@[c].token@);
                        }
                    }
                }
                match self.find_convergence(session_user, now) {
                    Some(email_haver_id) => {
                        match self.create_new_auth_token(email_haver_id) {
                            Ok(token) => {
                                let email = self.email_of(email_haver_id);
                                Ok(
                                    (
                                        RequestContext {
                                            user_id: email_haver_id,
                                            user_email: email,
                                            client_ip: None,
                                        },
                                        Some(token),
                                    ),
                                )
                            },
                            Err(e) => Err(e),
                        }
                    },
                    None => {
                        let email = self.email_of(session_user);
                        proof {
                            assert(self.has_user(session_user));
                        }
                        Ok(
                            (
                                RequestContext {
                                    user_id: session_user,
                                    user_email: email,
                                    client_ip: None,
                                },
                                None,
                            ),
                        )
                    },
                }
            },
            None => {
                let new_token = new_opaque_token();
                match self.find_session(&new_token) {
                    Some(_) => Err(AuthError::TokenCollision),
                    None => {
                        let new_user_id = self.create_user();
                        let ghost pre = *self;
                        let token_copy = new_token.clone();
                        self.sessions.push(Session { token: new_token, user_id: new_user_id });
                        proof {
                            assert(self.sessions@.subrange(0, pre.sessions@.len() as int)
                                =~= pre.sessions@);
                            lemma_wf_after_session_push(pre, *self, new_user_id);
                        }
                        Ok(
                            (
                                RequestContext {
                                    user_id: new_user_id,
                                    user_email: None,
                                    client_ip: None,
                                },
                                Some(token_copy),
                            ),
                        )
                    },
                }
            },
        }
    }

    /// The email on the user's row, as a fresh copy.
    pub fn email_of(&self, user_id: i64) -> (r: Option<String>)
        requires
            self.has_user(user_id),
        ensures
            match r {
                Some(e) => exists|u: int|
                    0 <= u < self.users@.len() && (#[trigger] self.users@[u]).id == user_id
                        && self.users@[u].email is Some && self.users@[u].email.unwrap()@ == e@,
                None => exists|u: int|
                    0 <= u < self.users@.len() && (#[trigger] self.users@[u]).id == user_id
                        && self.users@[u].email is None,
            },
    {
        match self.find_user(user_id) {
            Some(i) => {
                match &self.users[i].email {
                    Some(e) => Some(e.clone()),
                    None => None,
                }
            },
            None => {
                proof {
                    assert(false);
                }
                None
            },
        }
    }
}

/// Appending a session with a fresh token for an existing user keeps the
/// invariant.
proof fn lemma_wf_after_session_push(pre: Store, post: Store, user_id: i64)
    requires
        pre.wf(),
        pre.has_user(user_id),
        post.users@ == pre.users@,
        post.dogs@ == pre.dogs@,
        post.ratings@ == pre.ratings@,
        post.matches@ == pre.matches@,
        post.email_tokens@ == pre.email_tokens@,
        post.next_user_id == pre.next_user_id,
        post.next_dog_id == pre.next_dog_id,
        post.next_match_id == pre.next_match_id,
        post.sessions@.len() == pre.sessions@.len() + 1,
        post.sessions@.subrange(0, pre.sessions@.len() as int) == pre.sessions@,
        post.sessions@.last().user_id == user_id,
        forall|i: int|
            0 <= i < pre.sessions@.len() ==> (#[trigger] pre.sessions@[i].token)@
                != post.sessions@.last().token@,
    ensures
        post.wf(),
{
    let n = pre.sessions@.len() as int;
    assert(post.wf_sessions()) by {
        assert forall|i: int, j: int|
            0 <= i < j < post.sessions@.len() implies post.sessions@[i].token@
            != post.sessions@[j].token@ by {
            if j < n {
                assert(post.sessions@[i] == pre.sessions@[i]);
                assert(post.sessions@[j] == pre.sessions@[j]);
            } else {
                assert(post.sessions@[i] == pre.sessions@[i]);
            }
        }
        assert forall|i: int|
            0 <= i < post.sessions@.len() implies post.has_user(
            #[trigger] post.sessions@[i].user_id,
        ) by {
            let uid = if i < n {
                pre.sessions@[i].user_id
            } else {
                user_id
            };
            if i < n {
                assert(post.sessions@[i] == pre.sessions@[i]);
            }
            assert(pre.has_user(uid));
            let w = choose|w: int| 0 <= w < pre.users@.len() && pre.users@[w].id == uid;
            assert(post.users@[w].id == post.sessions@[i].user_id);
        }
    }
    assert(post.wf_matches()) by {
        assert forall|i: int|
            0 <= i < post.matches@.len() implies post.has_dog(#[trigger] post.matches@[i].dog_a_id)
            && post.has_dog(post.matches@[i].dog_b_id) by {
            assert(pre.has_dog(pre.matches@[i].dog_a_id));
            assert(pre.has_dog(pre.matches@[i].dog_b_id));
            let wa = choose|w: int|
                0 <= w < pre.dogs@.len() && pre.dogs@[w].id == pre.matches@[i].dog_a_id;
            assert(post.dogs@[wa].id == post.matches@[i].dog_a_id);
            let wb = choose|w: int|
                0 <= w < pre.dogs@.len() && pre.dogs@[w].id == pre.matches@[i].dog_b_id;
            assert(post.dogs@[wb].id == post.matches@[i].dog_b_id);
        }
    }
}

} // verus!
