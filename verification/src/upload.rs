//! The candidate-upload flow's decisions and store transitions. The form's
//! file handling stays at the edge; the library decides what counts as an
//! image, creates the unapproved candidate row, attaches the stored image's
//! URL, and finds the row again when the form re-submits after naming
//! errors. Candidates enter matchmaking only once approved.

use vstd::prelude::*;
use crate::store::{Dog, Store};

verus! {

/// How far the photo of an upload form has come.
#[derive(Debug)]
pub enum FileUploadStatus {
    Uploaded,
    NotUploaded,
    Failed(String),
}

/// Whether `s` begins with `prefix`.
pub fn str_starts_with(s: &str, prefix: &str) -> (r: bool)
    ensures
        r == (s@.len() >= prefix@.len() && s@.subrange(0, prefix@.len() as int) == prefix@),
{
    let n = prefix.unicode_len();
    if s.unicode_len() < n {
        return false;
    }
    let mut i: usize = 0;
    while i < n
        invariant
            i <= n,
            n == prefix@.len(),
            s@.len() >= n,
            forall|j: int| 0 <= j < i ==> s@[j] == prefix@[j],
        decreases n - i,
    {
        if s.get_char(i) != prefix.get_char(i) {
            proof {
                assert(s@.subrange(0, n as int)[i as int] != prefix@[i as int]);
            }
            return false;
        }
        i += 1;
    }
    proof {
        assert(s@.subrange(0, n as int) =~= prefix@);
    }
    true
}

/// Only image uploads are accepted: the content type must begin with the
/// image media-type prefix.
pub fn is_image_content_type(content_type: &str) -> (r: bool)
    ensures
        r == (content_type@.len() >= "image/"@.len() && content_type@.subrange(
            0,
            "image/"@.len() as int,
        ) == "image/"@),
{
    str_starts_with(content_type, "image/")
}

impl Store {
    /// Creates a candidate row with a fresh id.
    pub fn add_dog(&mut self, image_url: String, approved: bool, namer_id: Option<i64>) -> (id:
        i64)
        requires
            old(self).wf(),
            old(self).next_dog_id < i64::MAX,
        ensures
            final(self).wf(),
            id == old(self).next_dog_id,
            !old(self).has_dog(id),
            final(self).has_dog(id),
            final(self).dogs@.len() == old(self).dogs@.len() + 1,
            final(self).dogs@.subrange(0, old(self).dogs@.len() as int) == old(self).dogs@,
            final(self).dogs@.last().id == id,
            final(self).dogs@.last().image_url@ == image_url@,
            final(self).dogs@.last().name is None,
            final(self).dogs@.last().approved == approved,
            final(self).dogs@.last().namer_id == namer_id,
            final(self).users@ == old(self).users@,
            final(self).sessions@ == old(self).sessions@,
            final(self).ratings@ == old(self).ratings@,
            final(self).matches@ == old(self).matches@,
            final(self).finished@ == old(self).finished@,
            final(self).email_tokens@ == old(self).email_tokens@,
            final(self).logs@ == old(self).logs@,
            final(self).next_user_id == old(self).next_user_id,
            final(self).next_match_id == old(self).next_match_id,
    {
        let id = self.next_dog_id;
        let ghost pre = *self;
        self.dogs.push(Dog { id, image_url, name: None, approved, namer_id });
        self.next_dog_id = self.next_dog_id + 1;
        proof {
            assert(self.dogs@.subrange(0, pre.dogs@.len() as int) =~= pre.dogs@);
            assert(self.wf_dogs()) by {
                assert forall|a: int, b: int|
                    0 <= a < b < self.dogs@.len() implies self.dogs@[a].id != self.dogs@[b].id by {
                    if b < pre.dogs@.len() {
                        assert(self.dogs@[a] == pre.dogs@[a]);
                        assert(self.dogs@[b] == pre.dogs@[b]);
                    } else {
                        assert(self.dogs@[a] == pre.dogs@[a]);
                    }
                }
            }
            assert(self.wf_sessions()) by {
                assert forall|i: int|
                    0 <= i < self.sessions@.len() implies self.has_user(
                    #[trigger] self.sessions@[i].user_id,
                ) by {
                    assert(pre.has_user(pre.sessions@[i].user_id));
                    let w = choose|w: int|
                        0 <= w < pre.users@.len() && pre.users@[w].id == pre.sessions@[i].user_id;
                    assert(self.users@[w].id == self.sessions@[i].user_id);
                }
            }
            assert(self.wf_matches()) by {
                assert forall|i: int|
                    0 <= i < self.matches@.len() implies self.has_dog(
                    #[trigger] self.matches@[i].dog_a_id,
                ) && self.has_dog(self.matches@[i].dog_b_id) by {
                    assert(pre.has_dog(pre.matches@[i].dog_a_id));
                    assert(pre.has_dog(pre.matches@[i].dog_b_id));
                    let wa = choose|w: int|
                        0 <= w < pre.dogs@.len() && pre.dogs@[w].id == pre.matches@[i].dog_a_id;
                    assert(self.dogs@[wa].id == self.matches@[i].dog_a_id);
                    let wb = choose|w: int|
                        0 <= w < pre.dogs@.len() && pre.dogs@[w].id == pre.matches@[i].dog_b_id;
                    assert(self.dogs@[wb].id == self.matches@[i].dog_b_id);
                }
            }
            assert(self.dogs@.last().id == id);
        }
        id
    }

    /// Replaces the candidate's stored image URL.
    pub fn set_dog_image(&mut self, dog_id: i64, image_url: String)
        requires
            old(self).wf(),
        ensures
            final(self).wf(),
            final(self).dogs@.len() == old(self).dogs@.len(),
            forall|j: int|
                0 <= j < old(self).dogs@.len() ==> (#[trigger] final(self).dogs@[j]) == if old(
                    self,
                ).dogs@[j].id == dog_id {
                    Dog {
                        id: old(self).dogs@[j].id,
                        image_url: image_url,
                        name: old(self).dogs@[j].name,
                        approved: old(self).dogs@[j].approved,
                        namer_id: old(self).dogs@[j].namer_id,
                    }
                } else {
                    old(self).dogs@[j]
                },
            final(self).users@ == old(self).users@,
            final(self).sessions@ == old(self).sessions@,
            final(self).ratings@ == old(self).ratings@,
            final(self).matches@ == old(self).matches@,
            final(self).finished@ == old(self).finished@,
            final(self).email_tokens@ == old(self).email_tokens@,
            final(self).logs@ == old(self).logs@,
            final(self).next_user_id == old(self).next_user_id,
            final(self).next_dog_id == old(self).next_dog_id,
            final(self).next_match_id == old(self).next_match_id,
    {
        match self.find_dog(dog_id) {
            Some(j) => {
                let ghost pre = *self;
                let row = Dog {
                    id: self.dogs[j].id,
                    image_url,
                    name: match &self.dogs[j].name {
                        Some(n) => Some(n.clone()),
                        None => None,
                    },
                    approved: self.dogs[j].approved,
                    namer_id: self.dogs[j].namer_id,
                };
                self.dogs.set(j, row);
                proof {
                    crate::name_dog::lemma_frame_after_dog_field_change(pre, *self);
                    lemma_dog_id_unique_here(pre, j as int, dog_id);
                }
            },
            None => {},
        }
    }

    /// Flips the approval gate: only approved candidates enter matchmaking.
    pub fn set_dog_approved(&mut self, dog_id: i64, approved: bool)
        requires
            old(self).wf(),
        ensures
            final(self).wf(),
            final(self).dogs@.len() == old(self).dogs@.len(),
            forall|j: int|
                0 <= j < old(self).dogs@.len() ==> (#[trigger] final(self).dogs@[j]) == if old(
                    self,
                ).dogs@[j].id == dog_id {
                    Dog {
                        id: old(self).dogs@[j].id,
                        image_url: old(self).dogs@[j].image_url,
                        name: old(self).dogs@[j].name,
                        approved: approved,
                        namer_id: old(self).dogs@[j].namer_id,
                    }
                } else {
                    old(self).dogs@[j]
                },
            final(self).users@ == old(self).users@,
            final(self).sessions@ == old(self).sessions@,
            final(self).ratings@ == old(self).ratings@,
            final(self).matches@ == old(self).matches@,
            final(self).finished@ == old(self).finished@,
            final(self).email_tokens@ == old(self).email_tokens@,
            final(self).logs@ == old(self).logs@,
            final(self).next_user_id == old(self).next_user_id,
            final(self).next_dog_id == old(self).next_dog_id,
            final(self).next_match_id == old(self).next_match_id,
    {
        match self.find_dog(dog_id) {
            Some(j) => {
                let ghost pre = *self;
                let row = Dog {
                    id: self.dogs[j].id,
                    image_url: self.dogs[j].image_url.clone(),
                    name: match &self.dogs[j].name {
                        Some(n) => Some(n.clone()),
                        None => None,
                    },
                    approved,
                    namer_id: self.dogs[j].namer_id,
                };
                self.dogs.set(j, row);
                proof {
                    crate::name_dog::lemma_frame_after_dog_field_change(pre, *self);
                    lemma_dog_id_unique_here(pre, j as int, dog_id);
                }
            },
            None => {},
        }
    }

    /// The most recently created unapproved, unnamed candidate this user
    /// uploaded: the row the upload form re-targets after a naming error.
    pub fn find_latest_pending_dog(&self, user_id: i64) -> (r: Option<i64>)
        ensures
            match r {
                Some(id) => exists|j: int|
                    0 <= j < self.dogs@.len() && (#[trigger] self.dogs@[j]).id == id
                        && !self.dogs@[j].approved && self.dogs@[j].name is None
                        && self.dogs@[j].namer_id == Some(user_id) && (forall|k: int|
                        0 <= k < self.dogs@.len() && !(#[trigger] self.dogs@[k]).approved
                            && self.dogs@[k].name is None && self.dogs@[k].namer_id == Some(
                            user_id,
                        ) ==> self.dogs@[k].id <= id),
                None => forall|k: int|
                    0 <= k < self.dogs@.len() ==> !(!(#[trigger] self.dogs@[k]).approved
                        && self.dogs@[k].name is None && self.dogs@[k].namer_id == Some(user_id)),
            },
    {
        let mut best: Option<i64> = None;
        let mut i: usize = 0;
        while i < self.dogs.len()
            invariant
                i <= self.dogs@.len(),
                match best {
                    Some(id) => exists|j: int|
                        0 <= j < self.dogs@.len() && (#[trigger] self.dogs@[j]).id == id
                            && !self.dogs@[j].approved && self.dogs@[j].name is None
                            && self.dogs@[j].namer_id == Some(user_id) && (forall|k: int|
                            0 <= k < i && !(#[trigger] self.dogs@[k]).approved
                                && self.dogs@[k].name is None && self.dogs@[k].namer_id == Some(
                                user_id,
                            ) ==> self.dogs@[k].id <= id),
                    None => forall|k: int|
                        0 <= k < i ==> !(!(#[trigger] self.dogs@[k]).approved
                            && self.dogs@[k].name is None && self.dogs@[k].namer_id == Some(
                            user_id,
                        )),
                },
            decreases self.dogs@.len() - i,
        {
            let candidate = !self.dogs[i].approved && self.dogs[i].name.is_none() && (
            match self.dogs[i].namer_id {
                Some(n) => n == user_id,
                None => false,
            });
            if candidate {
                let id = self.dogs[i].id;
                match best {
                    Some(b) => {
                        if id > b {
                            best = Some(id);
                        }
                    },
                    None => {
                        best = Some(id);
                    },
                }
                proof {
                    assert(self.dogs@[i as int].id == id);
                }
            }
            i += 1;
        }
        best
    }

}

/// No second dog row carries the id found at `j`.
proof fn lemma_dog_id_unique_here(pre: Store, j: int, dog_id: i64)
    requires
        pre.wf(),
        0 <= j < pre.dogs@.len(),
        pre.dogs@[j].id == dog_id,
    ensures
        forall|k: int|
            0 <= k < pre.dogs@.len() && k != j ==> (#[trigger] pre.dogs@[k]).id != dog_id,
{
    assert forall|k: int|
        0 <= k < pre.dogs@.len() && k != j implies (#[trigger] pre.dogs@[k]).id != dog_id by {
        if k < j {
            assert(pre.dogs@[k].id != pre.dogs@[j].id);
        } else {
            assert(pre.dogs@[j].id != pre.dogs@[k].id);
        }
    }
}

} // verus!
