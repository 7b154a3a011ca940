//! Magic-link authentication: issuing a single-use emailed token and
//! redeeming it within its thirty-minute lifetime. Redemption either logs
//! the caller into the account owning the certified email, or promotes the
//! caller's guest account in place with a signup bonus; expired, missing and
//! already-used tokens always land on the expiry path.

use vstd::prelude::*;
use crate::decimal::{spec_decimal, u64_to_string};
use crate::session::{new_opaque_token, AuthError, TOKEN_LIFETIME_SECONDS};
use crate::store::{lemma_frame_after_user_field_change, EmailToken, Store, User};

verus! {

/// XP granted the one time a guest account is promoted by a signup.
pub const XP_INCREASE_FOR_SIGNUP: u32 = 2000;

/// Whether lettre accepts this address in a named mailbox. A parse result
/// depends on the characters alone.
pub uninterp spec fn valid_mailbox(s: Seq<char>) -> bool;

/// Relies on lettre's `Mailbox` parser (`FromStr`): whether the address,
/// wrapped in the sender display name the emails use, parses as a mailbox.
#[verifier::external_body]
fn mailbox_ok(address: &str) -> (r: bool)
    ensures
        r == valid_mailbox(address@),
{
    let with_name = format!("Top Doggo Judge <{}>", address);
    with_name.parse::<lettre::message::Mailbox>().is_ok()
}

/// Why no magic-link token was issued.
#[derive(Clone, Copy, Debug, PartialEq, Eq, Structural)]
pub enum MagicLinkError {
    /// The address does not parse as a mailbox: reported as a form error.
    InvalidEmail,
    /// The freshly drawn token collided with an existing one: fatal for the
    /// request, like any persistence failure here.
    TokenCollision,
}

/// Where a redemption attempt routes.
#[derive(Debug)]
pub enum RedeemOutcome {
    /// The token is unknown, older than its lifetime, or already used.
    ExpiredOrMissing,
    /// The session already has a different confirmed email.
    AlreadyLoggedIn,
    /// The session already owns the certified email: an idempotent re-click.
    AlreadyOwn,
    /// Logged into the owning account; the new session token to set.
    LoggedIn(String),
    /// The guest account was promoted in place.
    SignedUp,
}

impl Store {
    /// The user's single row carries a confirmed email.
    pub open spec fn spec_user_has_confirmed_email(self, user_id: i64) -> bool {
        exists|u: int|
            0 <= u < self.users@.len() && (#[trigger] self.users@[u]).id == user_id
                && self.users@[u].email is Some
    }

    /// The user's single row carries exactly this confirmed email.
    pub open spec fn spec_user_email_is(self, user_id: i64, email: Seq<char>) -> bool {
        exists|u: int|
            0 <= u < self.users@.len() && (#[trigger] self.users@[u]).id == user_id
                && self.users@[u].email is Some && self.users@[u].email.unwrap()@ == email
    }

    /// Some account owns this confirmed email.
    pub open spec fn spec_email_owned(self, email: Seq<char>) -> bool {
        exists|u: int|
            0 <= u < self.users@.len() && (#[trigger] self.users@[u]).email is Some
                && self.users@[u].email.unwrap()@ == email
    }

    /// Index of the email-token row carrying `token`, if any.
    fn find_email_token(&self, token: &String) -> (r: Option<usize>)
        ensures
            match r {
                Some(i) => i < self.email_tokens@.len() && self.email_tokens@[i as int].token@
                    == token@,
                None => forall|j: int|
                    0 <= j < self.email_tokens@.len() ==> (
                    #[trigger] self.email_tokens@[j].token)@ != token@,
            },
    {
        let mut i: usize = 0;
        while i < self.email_tokens.len()
            invariant
                i <= self.email_tokens@.len(),
                forall|j: int| 0 <= j < i ==> (#[trigger] self.email_tokens@[j].token)@ != token@,
            decreases self.email_tokens@.len() - i,
        {
            if self.email_tokens[i].token == *token {
                return Some(i);
            }
            i += 1;
        }
        None
    }

    /// The redeemable row carrying `token`: present, within its lifetime,
    /// and never used.
    pub open spec fn spec_fresh_token_index(self, token: Seq<char>, now: i64) -> Option<int> {
        if exists|i: int|
            0 <= i < self.email_tokens@.len() && (#[trigger] self.email_tokens@[i]).token@
                == token && self.email_tokens@[i].created_at > now - TOKEN_LIFETIME_SECONDS
                && !self.email_tokens@[i].used {
            Some(
                choose|i: int|
                    0 <= i < self.email_tokens@.len() && (#[trigger] self.email_tokens@[i]).token@
                        == token && self.email_tokens@[i].created_at > now
                        - TOKEN_LIFETIME_SECONDS && !self.email_tokens@[i].used,
            )
        } else {
            None
        }
    }

    /// Issues a magic-link token for `email`: validates the address, then
    /// persists a fresh single-use token to be mailed out. An invalid
    /// address is exactly the validation failure; a collision of the drawn
    /// token is fatal for the request.
    pub fn issue_magic_link(&mut self, email: &String, sender_id: i64, now: i64) -> (r: Result<
        String,
        MagicLinkError,
    >)
        requires
            old(self).wf(),
        ensures
            final(self).wf(),
            r is Err && r.unwrap_err() is InvalidEmail <==> !valid_mailbox(email@),
            match r {
                Ok(token) => final(self).email_tokens@.len() == old(self).email_tokens@.len() + 1
                    && final(self).email_tokens@.subrange(
                    0,
                    old(self).email_tokens@.len() as int,
                ) == old(self).email_tokens@ && {
                    let t = final(self).email_tokens@.last();
                    &&& t.token@ == token@
                    &&& t.email@ == email@
                    &&& t.created_at == now
                    &&& t.used == false
                    &&& t.sender_id == sender_id
                },
                Err(_) => final(self).email_tokens@ == old(self).email_tokens@,
            },
            final(self).users@ == old(self).users@,
            final(self).sessions@ == old(self).sessions@,
            final(self).dogs@ == old(self).dogs@,
            final(self).ratings@ == old(self).ratings@,
            final(self).matches@ == old(self).matches@,
            final(self).finished@ == old(self).finished@,
            final(self).logs@ == old(self).logs@,
            final(self).next_user_id == old(self).next_user_id,
            final(self).next_dog_id == old(self).next_dog_id,
            final(self).next_match_id == old(self).next_match_id,
    {
        if !mailbox_ok(email.as_str()) {
            return Err(MagicLinkError::InvalidEmail);
        }
        let token = new_opaque_token();
        let token_copy = token.clone();
        match self.insert_email_token_if_fresh(token, email, sender_id, now) {
            Ok(_) => Ok(token_copy),
            Err(e) => Err(e),
        }
    }

    /// Persists a single-use token row for `email`, unless that exact token
    /// string is already stored: the collision, and nothing else, is the
    /// error.
    pub fn insert_email_token_if_fresh(
        &mut self,
        token: String,
        email: &String,
        sender_id: i64,
        now: i64,
    ) -> (r: Result<(), MagicLinkError>)
        requires
            old(self).wf(),
        ensures
            final(self).wf(),
            r is Err <==> exists|i: int|
                0 <= i < old(self).email_tokens@.len() && (
                #[trigger] old(self).email_tokens@[i].token)@ == token@,
            r is Err ==> r.unwrap_err() is TokenCollision,
            match r {
                Ok(_) => final(self).email_tokens@.len() == old(self).email_tokens@.len() + 1
                    && final(self).email_tokens@.subrange(
                    0,
                    old(self).email_tokens@.len() as int,
                ) == old(self).email_tokens@ && {
                    let t = final(self).email_tokens@.last();
                    &&& t.token@ == token@
                    &&& t.email@ == email@
                    &&& t.created_at == now
                    &&& t.used == false
                    &&& t.sender_id == sender_id
                },
                Err(_) => final(self).email_tokens@ == old(self).email_tokens@,
            },
            final(self).users@ == old(self).users@,
            final(self).sessions@ == old(self).sessions@,
            final(self).dogs@ == old(self).dogs@,
            final(self).ratings@ == old(self).ratings@,
            final(self).matches@ == old(self).matches@,
            final(self).finished@ == old(self).finished@,
            final(self).logs@ == old(self).logs@,
            final(self).next_user_id == old(self).next_user_id,
            final(self).next_dog_id == old(self).next_dog_id,
            final(self).next_match_id == old(self).next_match_id,
    {
        match self.find_email_token(&token) {
            Some(_) => Err(MagicLinkError::TokenCollision),
            None => {
                let ghost pre = *self;
                self.email_tokens.push(
                    EmailToken {
                        token,
                        email: email.clone(),
                        created_at: now,
                        used: false,
                        sender_id,
                    },
                );
                proof {
                    assert(self.email_tokens@.subrange(0, pre.email_tokens@.len() as int)
                        =~= pre.email_tokens@);
                    lemma_frame_after_email_tokens_change(pre, *self);
                }
                Ok(())
            },
        }
    }

    /// Marks the email-token row at `i` as used.    /// Marks the email-token row at `i` as used.
    fn mark_token_used(&mut self, i: usize)
        requires
            old(self).wf(),
            i < old(self).email_tokens@.len(),
        ensures
            final(self).wf(),
            final(self).email_tokens@.len() == old(self).email_tokens@.len(),
            final(self).email_tokens@[i as int].token@ == old(self).email_tokens@[
                i as int].token@,
            final(self).email_tokens@[i as int].email@ == old(self).email_tokens@[
                i as int].email@,
            final(self).email_tokens@[i as int].created_at == old(self).email_tokens@[
                i as int].created_at,
            final(self).email_tokens@[i as int].sender_id == old(self).email_tokens@[
                i as int].sender_id,
            final(self).email_tokens@[i as int].used == true,
            forall|j: int|
                0 <= j < old(self).email_tokens@.len() && j != i ==> final(self).email_tokens@[j]
                    == old(self).email_tokens@[j],
            final(self).users@ == old(self).users@,
            final(self).sessions@ == old(self).sessions@,
            final(self).dogs@ == old(self).dogs@,
            final(self).ratings@ == old(self).ratings@,
            final(self).matches@ == old(self).matches@,
            final(self).finished@ == old(self).finished@,
            final(self).logs@ == old(self).logs@,
            final(self).next_user_id == old(self).next_user_id,
            final(self).next_dog_id == old(self).next_dog_id,
            final(self).next_match_id == old(self).next_match_id,
    {
        let row = EmailToken {
            token: self.email_tokens[i].token.clone(),
            email: self.email_tokens[i].email.clone(),
            created_at: self.email_tokens[i].created_at,
            used: true,
            sender_id: self.email_tokens[i].sender_id,
        };
        let ghost pre = *self;
        self.email_tokens.set(i, row);
        proof {
            lemma_frame_after_email_tokens_change(pre, *self);
        }
    }

    /// Sets the user's email (first confirmation) and grants the signup
    /// bonus, saturating at the counter's capacity.
    fn promote_user(&mut self, i: usize, email: &String)
        requires
            old(self).wf(),
            i < old(self).users@.len(),
            old(self).users@[i as int].email is None,
            forall|j: int|
                0 <= j < old(self).users@.len() ==> !(#[trigger] old(self).users@[j].email is Some
                    && old(self).users@[j].email.unwrap()@ == email@),
        ensures
            final(self).wf(),
            final(self).users@.len() == old(self).users@.len(),
            final(self).users@[i as int].id == old(self).users@[i as int].id,
            final(self).users@[i as int].email is Some,
            final(self).users@[i as int].email.unwrap()@ == email@,
            final(self).users@[i as int].total_xp == if old(self).users@[i as int].total_xp
                + XP_INCREASE_FOR_SIGNUP <= u32::MAX {
                (old(self).users@[i as int].total_xp + XP_INCREASE_FOR_SIGNUP) as u32
            } else {
                u32::MAX
            },
            forall|j: int|
                0 <= j < old(self).users@.len() && j != i ==> final(self).users@[j] == old(self).users@[j],
            final(self).sessions@ == old(self).sessions@,
            final(self).dogs@ == old(self).dogs@,
            final(self).ratings@ == old(self).ratings@,
            final(self).matches@ == old(self).matches@,
            final(self).finished@ == old(self).finished@,
            final(self).email_tokens@ == old(self).email_tokens@,
            final(self).logs@ == old(self).logs@,
            final(self).next_user_id == old(self).next_user_id,
            final(self).next_dog_id == old(self).next_dog_id,
            final(self).next_match_id == old(self).next_match_id,
    {
        let row = User {
            id: self.users[i].id,
            email: Some(email.clone()),
            total_xp: self.users[i].total_xp.saturating_add(XP_INCREASE_FOR_SIGNUP),
        };
        let ghost pre = *self;
        self.users.set(i, row);
        proof {
            assert(self.wf_users()) by {
                assert forall|a: int, b: int|
                    0 <= a < b < self.users@.len() implies self.users@[a].id
                    != self.users@[b].id by {
                    if a != i as int && b != i as int {
                        assert(self.users@[a] == pre.users@[a]);
                        assert(self.users@[b] == pre.users@[b]);
                    }
                }
                assert forall|a: int, b: int|
                    0 <= a < b < self.users@.len() && self.users@[a].email is Some
                        && self.users@[b].email is Some implies self.users@[a].email.unwrap()@
                    != self.users@[b].email.unwrap()@ by {
                    if a != i as int && b != i as int {
                        assert(self.users@[a] == pre.users@[a]);
                        assert(self.users@[b] == pre.users@[b]);
                    }
                }
            }
            lemma_frame_after_user_field_change(pre, *self);
        }
    }

    /// Redeems a magic-link token for the caller's session.
    ///
    /// An unknown, expired or used token always routes to the expiry path,
    /// and nothing else does. On a live token the outcome is decided by the
    /// session: a different confirmed email is refused, the same email
    /// no-ops, and an email-less session is logged into the owning account
    /// (or promoted in place with the signup bonus when none exists), the
    /// token spent and the audit row appended. Only the login path draws a
    /// fresh session token, so only it may fail, and a failure changes
    /// nothing.
    #[verifier::rlimit(100)]
    #[verifier::spinoff_prover]
    pub fn redeem_magic_link(
        &mut self,
        token: &String,
        ctx_user_id: i64,
        client_ip: Option<String>,
        now: i64,
    ) -> (r: Result<RedeemOutcome, AuthError>)
        requires
            old(self).wf(),
            old(self).has_user(ctx_user_id),
            now >= 0,
        ensures
            final(self).wf(),
            final(self).dogs@ == old(self).dogs@,
            final(self).ratings@ == old(self).ratings@,
            final(self).matches@ == old(self).matches@,
            final(self).finished@ == old(self).finished@,
            r matches Ok(RedeemOutcome::ExpiredOrMissing) <==> old(self).spec_fresh_token_index(
                token@,
                now,
            ) is None,
            r is Err ==> final(self).users@ == old(self).users@ && final(self).sessions@ == old(self).sessions@ && final(self).email_tokens@ == old(self).email_tokens@ && final(self).logs@ == old(self).logs@ && final(self).next_user_id == old(self).next_user_id
                && final(self).next_dog_id == old(self).next_dog_id && final(self).next_match_id
                == old(self).next_match_id,
            old(self).spec_fresh_token_index(token@, now) matches Some(ti) ==> {
                let temail = old(self).email_tokens@[ti].email@;
                &&& (r matches Ok(RedeemOutcome::AlreadyLoggedIn) <==> old(self).spec_user_has_confirmed_email(ctx_user_id) && !old(self).spec_user_email_is(
                    ctx_user_id,
                    temail,
                ))
                &&& (r matches Ok(RedeemOutcome::AlreadyOwn) <==> old(self).spec_user_email_is(
                    ctx_user_id,
                    temail,
                ))
                &&& (!old(self).spec_user_has_confirmed_email(ctx_user_id) && !old(self).spec_email_owned(temail) ==> r matches Ok(RedeemOutcome::SignedUp))
                &&& (!old(self).spec_user_has_confirmed_email(ctx_user_id) && old(self).spec_email_owned(temail) ==> (r matches Ok(RedeemOutcome::LoggedIn(_)) || r
                    is Err))
            },
            match r {
                Ok(outcome) => match outcome {
                    RedeemOutcome::ExpiredOrMissing => *final(self) == *old(self),
                    RedeemOutcome::AlreadyLoggedIn => *final(self) == *old(self),
                    RedeemOutcome::AlreadyOwn => *final(self) == *old(self),
                    RedeemOutcome::LoggedIn(new_session) => {
                        let ti = old(self).spec_fresh_token_index(token@, now).unwrap();
                        let temail = old(self).email_tokens@[ti].email@;
                        &&& final(self).email_tokens@[ti].used
                        &&& final(self).email_tokens@[ti].email@ == temail
                        &&& final(self).users@ == old(self).users@
                        &&& final(self).sessions@.len() == old(self).sessions@.len() + 1
                        &&& final(self).sessions@.subrange(0, old(self).sessions@.len() as int)
                            == old(self).sessions@
                        &&& final(self).sessions@.last().token@ == new_session@
                        &&& exists|u: int|
                            0 <= u < old(self).users@.len() && (
                            #[trigger] old(self).users@[u]).email is Some && old(self).users@[u].email.unwrap()@ == temail && final(self).sessions@.last().user_id == old(self).users@[u].id
                        &&& final(self).logs@.len() == old(self).logs@.len() + 1
                        &&& final(self).logs@.subrange(0, old(self).logs@.len() as int) == old(self).logs@
                        &&& final(self).logs@.last().action@ == "log-in"@
                        &&& final(self).logs@.last().user_id == final(self).sessions@.last().user_id
                        &&& final(self).logs@.last().notes@ == temail + " "@ + spec_decimal(
                            ctx_user_id as nat,
                        )
                    },
                    RedeemOutcome::SignedUp => {
                        let ti = old(self).spec_fresh_token_index(token@, now).unwrap();
                        let temail = old(self).email_tokens@[ti].email@;
                        &&& final(self).email_tokens@[ti].used
                        &&& final(self).sessions@ == old(self).sessions@
                        &&& !old(self).spec_email_owned(temail)
                        &&& final(self).users@.len() == old(self).users@.len()
                        &&& (forall|u: int|
                            0 <= u < old(self).users@.len() ==> if old(self).users@[u].id
                                == ctx_user_id {
                                (#[trigger] final(self).users@[u]).id == ctx_user_id && final(self).users@[u].email is Some && final(self).users@[u].email.unwrap()@
                                    == temail && final(self).users@[u].total_xp == (if old(self).users@[u].total_xp + XP_INCREASE_FOR_SIGNUP <= u32::MAX {
                                    (old(self).users@[u].total_xp + XP_INCREASE_FOR_SIGNUP) as u32
                                } else {
                                    u32::MAX
                                })
                            } else {
                                final(self).users@[u] == old(self).users@[u]
                            })
                        &&& final(self).logs@.len() == old(self).logs@.len() + 1
                        &&& final(self).logs@.subrange(0, old(self).logs@.len() as int) == old(self).logs@
                        &&& final(self).logs@.last().action@ == "sign-up"@
                        &&& final(self).logs@.last().user_id == ctx_user_id
                        &&& final(self).logs@.last().notes@ == temail
                    },
                },
                Err(_) => final(self).users@ == old(self).users@ && final(self).sessions@ == old(self).sessions@,
            },
    {
        let looked_up = self.find_email_token(token);
        let fresh = match looked_up {
            Some(i) => self.email_tokens[i].created_at > now - TOKEN_LIFETIME_SECONDS
                && !self.email_tokens[i].used,
            None => false,
        };
        if !fresh {
            proof {
                if self.spec_fresh_token_index(token@, now) is Some {
                    let c = self.spec_fresh_token_index(token@, now).unwrap();
                    match looked_up {
                        Some(i) => {
                            if c != i as int {
                                if c < i as int {
                                    assert(self.email_tokens@[c].token@ != self.email_tokens@[
                                        i as int].token@);
                                } else {
                                    assert(self.email_tokens@[i as int].token@
                                        != self.email_tokens@[c].token@);
                                }
                            }
                        },
                        None => {
                            assert(self.email_tokens@[c].token@ != token@);
                        },
                    }
                }
            }
            return Ok(RedeemOutcome::ExpiredOrMissing);
        }
        let i = looked_up.unwrap();
        proof {
            let c = self.spec_fresh_token_index(token@, now).unwrap();
            if c != i as int {
                if c < i as int {
                    assert(self.email_tokens@[c].token@ != self.email_tokens@[i as int].token@);
                } else {
                    assert(self.email_tokens@[i as int].token@ != self.email_tokens@[c].token@);
                }
            }
        }

        let current_user_idx = self.find_user(ctx_user_id).unwrap();
        proof {
            lemma_user_id_unique_at(*self, current_user_idx as int, ctx_user_id);
        }
        let has_email = self.users[current_user_idx].email.is_some();
        if has_email {
            let same = match &self.users[current_user_idx].email {
                Some(current_email) => *current_email == self.email_tokens[i].email,
                None => false,
            };
            if same {
                return Ok(RedeemOutcome::AlreadyOwn);
            } else {
                return Ok(RedeemOutcome::AlreadyLoggedIn);
            }
        }
        let token_email = self.email_tokens[i].email.clone();
        match self.find_user_by_email(&token_email) {
            Some(u) => {
                let existing_user_id = self.users[u].id;
                let ghost s1 = *self;
                match self.create_new_auth_token(existing_user_id) {
                    Ok(new_session) => {
                        self.mark_token_used(i);
                        let mut notes = token_email;
                        notes.append(" ");
                        proof {
                            assert(ctx_user_id >= 1) by {
                                assert(s1.users@[current_user_idx as int].id == ctx_user_id);
                            }
                        }
                        let id_str = u64_to_string(ctx_user_id as u64);
                        notes.append(id_str.as_str());
                        proof {
                            assert(notes@ =~= s1.email_tokens@[i as int].email@ + " "@
                                + spec_decimal(ctx_user_id as nat));
                        }
                        self.append_log(
                            String::from_str("log-in"),
                            existing_user_id,
                            client_ip,
                            notes,
                            now,
                        );
                        Ok(RedeemOutcome::LoggedIn(new_session))
                    },
                    Err(e) => Err(e),
                }
            },
            None => {
                let user_idx = current_user_idx;
                self.mark_token_used(i);
                self.promote_user(user_idx, &token_email);
                self.append_log(
                    String::from_str("sign-up"),
                    ctx_user_id,
                    client_ip,
                    token_email,
                    now,
                );
                proof {
                    assert(self.users@[user_idx as int].id == ctx_user_id);
                }
                Ok(RedeemOutcome::SignedUp)
            },
        }
    }
}

/// No second user row carries the id found at `j`.
proof fn lemma_user_id_unique_at(s: Store, j: int, user_id: i64)
    requires
        s.wf(),
        0 <= j < s.users@.len(),
        s.users@[j].id == user_id,
    ensures
        forall|u: int| 0 <= u < s.users@.len() && u != j ==> (#[trigger] s.users@[u]).id
            != user_id,
{
    assert forall|u: int|
        0 <= u < s.users@.len() && u != j implies (#[trigger] s.users@[u]).id != user_id by {
        if u < j {
            assert(s.users@[u].id != s.users@[j].id);
        } else {
            assert(s.users@[j].id != s.users@[u].id);
        }
    }
}

/// Only email-token rows changed, with every token string kept: the
/// invariant holds on.
proof fn lemma_frame_after_email_tokens_change(pre: Store, post: Store)
    requires
        pre.wf(),
        post.users@ == pre.users@,
        post.sessions@ == pre.sessions@,
        post.dogs@ == pre.dogs@,
        post.ratings@ == pre.ratings@,
        post.matches@ == pre.matches@,
        post.next_user_id == pre.next_user_id,
        post.next_dog_id == pre.next_dog_id,
        post.next_match_id == pre.next_match_id,
        post.wf_email_tokens(),
    ensures
        post.wf(),
{
    assert(post.wf_sessions()) by {
        assert forall|i: int|
            0 <= i < post.sessions@.len() implies post.has_user(
            #[trigger] post.sessions@[i].user_id,
        ) by {
            assert(pre.has_user(pre.sessions@[i].user_id));
            let w = choose|w: int|
                0 <= w < pre.users@.len() && pre.users@[w].id == pre.sessions@[i].user_id;
            assert(post.users@[w].id == post.sessions@[i].user_id);
        }
    }
    assert(post.wf_matches()) by {
        assert forall|i: int|
            0 <= i < post.matches@.len() implies post.has_dog(#[trigger] post.matches@[i].dog_a_id)
            && post.has_dog(post.matches@[i].dog_b_id) by {
            assert(pre.has_dog(pre.matches@[i].dog_a_id));
            assert(pre.has_dog(pre.matches@[i].dog_b_id));
            let wa = choose|w: int|
                0 <= w < pre.dogs@.len() && pre.dogs@[w].id == pre.matches@[i].dog_a_id;
            assert(post.dogs@[wa].id == post.matches@[i].dog_a_id);
            let wb = choose|w: int|
                0 <= w < pre.dogs@.len() && pre.dogs@[w].id == pre.matches@[i].dog_b_id;
            assert(post.dogs@[wb].id == post.matches@[i].dog_b_id);
        }
    }
}

} // verus!
