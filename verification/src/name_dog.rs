//! Naming a candidate: a one-time, permanent assignment. The submitted name
//! is trimmed; an empty result, the one forbidden name, a missing or
//! already-named candidate, and an unoriginal (already taken) name each fail
//! with their own inline form error; success records the name and its
//! namer, grants the naming bonus, and appends an audit row.

use vstd::prelude::*;
use crate::decimal::{spec_decimal, u64_to_string};
use crate::store::{lemma_frame_after_user_field_change, Dog, Store, User};
use crate::xp::XP_INCREASE_FOR_NAME_DOG;

verus! {

/// The submitted name and any validation error to render beside it.
pub struct FormField<T> {
    pub value: T,
    pub error: String,
}

impl FormField<String> {
    /// A pristine field: no value, no error.
    pub fn empty() -> (f: FormField<String>)
        ensures
            f.value@ == Seq::<char>::empty(),
            f.error@ == Seq::<char>::empty(),
    {
        FormField { value: String::new(), error: String::new() }
    }
}

/// The submitted naming form: which candidate, and the proposed name.
pub struct NameDogFormParams {
    pub dog_id: i64,
    pub new_name: String,
}

/// What std's `str::trim` removes is a function of the characters alone.
pub uninterp spec fn trimmed(s: Seq<char>) -> Seq<char>;

/// Relies on std `str::trim`: the input without leading and trailing
/// whitespace, so never longer than the input.
#[verifier::external_body]
fn trim_str(s: &str) -> (r: String)
    ensures
        r@ == trimmed(s@),
        r@.len() <= s@.len(),
{
    s.trim().to_string()
}

/// Why a naming request was rejected.
#[derive(Debug)]
pub enum NameDogError {
    EmptyName,
    Forbidden,
    NotFound,
    AlreadyNamed(String),
    NotOriginal,
}

impl NameDogError {
    /// The inline form-error message for this rejection.
    pub fn message(&self) -> (m: String)
        ensures
            match self {
                NameDogError::EmptyName => m@ == "^ Type this dog's new name right up here :)"@,
                NameDogError::Forbidden => m@ == "NO, don't name him Jeff >:("@,
                NameDogError::NotFound => m@ == "404: Dog not found"@,
                NameDogError::AlreadyNamed(name) => m@ == name@ + " already has a name, silly."@,
                NameDogError::NotOriginal => m@ == "C'mon, something more original!"@,
            },
    {
        match self {
            NameDogError::EmptyName => String::from_str(
                "^ Type this dog's new name right up here :)",
            ),
            NameDogError::Forbidden => String::from_str("NO, don't name him Jeff >:("),
            NameDogError::NotFound => String::from_str("404: Dog not found"),
            NameDogError::AlreadyNamed(name) => {
                let mut m = name.clone();
                m.append(" already has a name, silly.");
                m
            },
            NameDogError::NotOriginal => String::from_str("C'mon, something more original!"),
        }
    }
}

impl Store {
    /// Some candidate other than `dog_id` already carries this name.
    pub open spec fn spec_name_taken(self, dog_id: i64, name: Seq<char>) -> bool {
        exists|j: int|
            0 <= j < self.dogs@.len() && (#[trigger] self.dogs@[j]).id != dog_id
                && self.dogs@[j].name is Some && self.dogs@[j].name.unwrap()@ == name
    }

    /// Whether some other candidate already carries this name.
    fn name_taken(&self, dog_id: i64, name: &String) -> (r: bool)
        ensures
            r == self.spec_name_taken(dog_id, name@),
    {
        let mut i: usize = 0;
        while i < self.dogs.len()
            invariant
                i <= self.dogs@.len(),
                forall|j: int|
                    0 <= j < i ==> !((#[trigger] self.dogs@[j]).id != dog_id
                        && self.dogs@[j].name is Some && self.dogs@[j].name.unwrap()@ == name@),
            decreases self.dogs@.len() - i,
        {
            if self.dogs[i].id != dog_id {
                match &self.dogs[i].name {
                    Some(n) => {
                        if *n == *name {
                            return true;
                        }
                    },
                    None => {},
                }
            }
            i += 1;
        }
        false
    }

    /// Assigns a (trimmed, non-empty) name to an unnamed candidate.
    ///
    /// The one forbidden name, a missing candidate, a candidate that already
    /// has a name, and a name another candidate carries are each rejected
    /// with their own error, and only then is the name written, with the
    /// namer recorded and the naming bonus granted.
    pub fn name_dog(&mut self, user_id: i64, dog_id: i64, new_name: &String) -> (r: Result<
        String,
        NameDogError,
    >)
        requires
            old(self).wf(),
        ensures
            final(self).wf(),
            !(r matches Err(NameDogError::EmptyName)),
            r matches Err(NameDogError::Forbidden) <==> new_name@ == "Jeff"@,
            r matches Err(NameDogError::NotFound) <==> new_name@ != "Jeff"@ && !old(self).has_dog(
                dog_id,
            ),
            match r {
                Ok(confirmed) => {
                    &&& confirmed@ == new_name@
                    &&& !old(self).spec_name_taken(dog_id, new_name@)
                    &&& final(self).dogs@.len() == old(self).dogs@.len()
                    &&& exists|j: int|
                        0 <= j < old(self).dogs@.len() && (#[trigger] old(self).dogs@[j]).id
                            == dog_id && old(self).dogs@[j].name is None && final(self).dogs@[j]
                            == (Dog {
                            id: dog_id,
                            image_url: old(self).dogs@[j].image_url,
                            name: Some(*new_name),
                            approved: old(self).dogs@[j].approved,
                            namer_id: Some(user_id),
                        }) && (forall|k: int|
                            0 <= k < old(self).dogs@.len() && k != j ==> final(self).dogs@[k]
                                == old(self).dogs@[k])
                    &&& final(self).users@.len() == old(self).users@.len()
                    &&& forall|u: int|
                        0 <= u < old(self).users@.len() ==> (#[trigger] final(self).users@[u])
                            == if old(self).users@[u].id == user_id {
                            User {
                                id: old(self).users@[u].id,
                                email: old(self).users@[u].email,
                                total_xp: if old(self).users@[u].total_xp
                                    + XP_INCREASE_FOR_NAME_DOG <= u32::MAX {
                                    (old(self).users@[u].total_xp + XP_INCREASE_FOR_NAME_DOG)
                                        as u32
                                } else {
                                    u32::MAX
                                },
                            }
                        } else {
                            old(self).users@[u]
                        }
                },
                Err(NameDogError::AlreadyNamed(old_name)) => *final(self) == *old(self) && exists|
                    j: int,
                |
                    0 <= j < old(self).dogs@.len() && (#[trigger] old(self).dogs@[j]).id == dog_id
                        && old(self).dogs@[j].name is Some && old(self).dogs@[j].name.unwrap()@
                        == old_name@,
                Err(NameDogError::NotOriginal) => *final(self) == *old(self) && old(self).spec_name_taken(dog_id, new_name@) && exists|j: int|
                    0 <= j < old(self).dogs@.len() && (#[trigger] old(self).dogs@[j]).id == dog_id
                        && old(self).dogs@[j].name is None,
                Err(_) => *final(self) == *old(self),
            },
            final(self).sessions@ == old(self).sessions@,
            final(self).ratings@ == old(self).ratings@,
            final(self).matches@ == old(self).matches@,
            final(self).finished@ == old(self).finished@,
            final(self).email_tokens@ == old(self).email_tokens@,
            final(self).logs@ == old(self).logs@,
    {
        proof {
            reveal_strlit("Jeff");
        }
        let jeff = String::from_str("Jeff");
        if *new_name == jeff {
            return Err(NameDogError::Forbidden);
        }
        let j = match self.find_dog(dog_id) {
            Some(j) => j,
            None => {
                return Err(NameDogError::NotFound);
            },
        };
        match &self.dogs[j].name {
            Some(old_name) => {
                return Err(NameDogError::AlreadyNamed(old_name.clone()));
            },
            None => {},
        }
        if self.name_taken(dog_id, new_name) {
            return Err(NameDogError::NotOriginal);
        }
        let ghost pre = *self;
        let row = Dog {
            id: self.dogs[j].id,
            image_url: self.dogs[j].image_url.clone(),
            name: Some(new_name.clone()),
            approved: self.dogs[j].approved,
            namer_id: Some(user_id),
        };
        self.dogs.set(j, row);
        proof {
            lemma_frame_after_dog_field_change(pre, *self);
        }
        self.add_xp(user_id, XP_INCREASE_FOR_NAME_DOG);
        Ok(new_name.clone())
    }

    /// Handles one naming request as submitted: trims the proposed name and
    /// runs the full naming case analysis on the result. Each input class
    /// gets exactly its own answer: an empty trimmed name, the forbidden
    /// name, a missing candidate, an already-named candidate, and a taken
    /// name each fail without touching the store, and only the remaining
    /// inputs succeed, writing the name, granting the bonus and appending
    /// the audit row.
    #[verifier::rlimit(60)]
    pub fn name_dog_request(
        &mut self,
        user_id: i64,
        dog_id: i64,
        raw_name: &str,
        client_ip: Option<String>,
        now: i64,
    ) -> (r: Result<String, NameDogError>)
        requires
            old(self).wf(),
        ensures
            final(self).wf(),
            r matches Err(NameDogError::EmptyName) <==> trimmed(raw_name@).len() == 0,
            r is Err ==> *final(self) == *old(self),
            trimmed(raw_name@).len() != 0 ==> {
                &&& (r matches Err(NameDogError::Forbidden) <==> trimmed(raw_name@) == "Jeff"@)
                &&& (r matches Err(NameDogError::NotFound) <==> trimmed(raw_name@) != "Jeff"@
                    && !old(self).has_dog(dog_id))
            },
            match r {
                Ok(confirmed) => {
                    let t = trimmed(raw_name@);
                    &&& confirmed@ == t
                    &&& !old(self).spec_name_taken(dog_id, t)
                    &&& final(self).dogs@.len() == old(self).dogs@.len()
                    &&& exists|j: int|
                        0 <= j < old(self).dogs@.len() && (#[trigger] old(self).dogs@[j]).id
                            == dog_id && old(self).dogs@[j].name is None && final(self).dogs@[j].id == dog_id && final(self).dogs@[j].name is Some && final(self).dogs@[j].name.unwrap()@ == t && final(self).dogs@[j].namer_id == Some(
                            user_id,
                        ) && final(self).dogs@[j].image_url@ == old(self).dogs@[j].image_url@
                            && final(self).dogs@[j].approved == old(self).dogs@[j].approved && (
                        forall|k: int|
                            0 <= k < old(self).dogs@.len() && k != j ==> final(self).dogs@[k]
                                == old(self).dogs@[k])
                    &&& final(self).users@.len() == old(self).users@.len()
                    &&& (forall|u: int|
                        0 <= u < old(self).users@.len() ==> (#[trigger] final(self).users@[u])
                            == if old(self).users@[u].id == user_id {
                            User {
                                id: old(self).users@[u].id,
                                email: old(self).users@[u].email,
                                total_xp: if old(self).users@[u].total_xp
                                    + XP_INCREASE_FOR_NAME_DOG <= u32::MAX {
                                    (old(self).users@[u].total_xp + XP_INCREASE_FOR_NAME_DOG)
                                        as u32
                                } else {
                                    u32::MAX
                                },
                            }
                        } else {
                            old(self).users@[u]
                        })
                    &&& final(self).logs@.len() == old(self).logs@.len() + 1
                    &&& final(self).logs@.subrange(0, old(self).logs@.len() as int) == old(self).logs@
                    &&& final(self).logs@.last().action@ == "name-dog"@
                    &&& final(self).logs@.last().user_id == user_id
                    &&& final(self).logs@.last().notes@ == spec_decimal(dog_id as nat)
                    &&& final(self).sessions@ == old(self).sessions@
                    &&& final(self).ratings@ == old(self).ratings@
                    &&& final(self).matches@ == old(self).matches@
                    &&& final(self).finished@ == old(self).finished@
                    &&& final(self).email_tokens@ == old(self).email_tokens@
                },
                Err(NameDogError::AlreadyNamed(old_name)) => trimmed(raw_name@) != "Jeff"@
                    && exists|j: int|
                    0 <= j < old(self).dogs@.len() && (#[trigger] old(self).dogs@[j]).id == dog_id
                        && old(self).dogs@[j].name is Some && old(self).dogs@[j].name.unwrap()@
                        == old_name@,
                Err(NameDogError::NotOriginal) => trimmed(raw_name@) != "Jeff"@ && old(self).spec_name_taken(dog_id, trimmed(raw_name@)) && exists|j: int|
                    0 <= j < old(self).dogs@.len() && (#[trigger] old(self).dogs@[j]).id == dog_id
                        && old(self).dogs@[j].name is None,
                Err(_) => final(self).logs@ == old(self).logs@,
            },
    {
        let name = trim_str(raw_name);
        if name.as_str().is_empty() {
            return Err(NameDogError::EmptyName);
        }
        match self.name_dog(user_id, dog_id, &name) {
            Ok(confirmed) => {
                proof {
                    assert(dog_id >= 1) by {
                        let j = choose|j: int|
                            0 <= j < old(self).dogs@.len() && (#[trigger] old(self).dogs@[j]).id
                                == dog_id && old(self).dogs@[j].name is None;
                        assert(old(self).dogs@[j].id >= 1);
                    }
                }
                self.append_log(
                    String::from_str("name-dog"),
                    user_id,
                    client_ip,
                    u64_to_string(dog_id as u64),
                    now,
                );
                Ok(confirmed)
            },
            Err(e) => Err(e),
        }
    }
}

/// Dog rows changed in fields only, ids and count kept: references still
/// resolve.
pub(crate) proof fn lemma_frame_after_dog_field_change(pre: Store, post: Store)
    requires
        pre.wf(),
        post.users@ == pre.users@,
        post.sessions@ == pre.sessions@,
        post.ratings@ == pre.ratings@,
        post.matches@ == pre.matches@,
        post.finished@ == pre.finished@,
        post.email_tokens@ == pre.email_tokens@,
        post.next_user_id == pre.next_user_id,
        post.next_dog_id == pre.next_dog_id,
        post.next_match_id == pre.next_match_id,
        post.dogs@.len() == pre.dogs@.len(),
        forall|i: int|
            0 <= i < pre.dogs@.len() ==> (#[trigger] post.dogs@[i]).id == pre.dogs@[i].id,
    ensures
        post.wf(),
{
    assert(post.wf_sessions()) by {
        assert forall|i: int|
            0 <= i < post.sessions@.len() implies post.has_user(
            #[trigger] post.sessions@[i].user_id,
        ) by {
            assert(pre.has_user(pre.sessions@[i].user_id));
            let w = choose|w: int|
                0 <= w < pre.users@.len() && pre.users@[w].id == pre.sessions@[i].user_id;
            assert(post.users@[w].id == post.sessions@[i].user_id);
        }
    }
    assert(post.wf_matches()) by {
        assert forall|i: int|
            0 <= i < post.matches@.len() implies post.has_dog(#[trigger] post.matches@[i].dog_a_id)
            && post.has_dog(post.matches@[i].dog_b_id) by {
            assert(pre.has_dog(pre.matches@[i].dog_a_id));
            assert(pre.has_dog(pre.matches@[i].dog_b_id));
            let wa = choose|w: int|
                0 <= w < pre.dogs@.len() && pre.dogs@[w].id == pre.matches@[i].dog_a_id;
            assert(post.dogs@[wa].id == post.matches@[i].dog_a_id);
            let wb = choose|w: int|
                0 <= w < pre.dogs@.len() && pre.dogs@[w].id == pre.matches@[i].dog_b_id;
            assert(post.dogs@[wb].id == post.matches@[i].dog_b_id);
        }
    }
}

} // verus!
