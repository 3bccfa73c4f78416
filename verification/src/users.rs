//! The membership link store: the durable association between an internal
//! user identity and an external subscriber identity, with a cached expiry
//! hint.
//!
//! Uniqueness invariant: at most one link per internal user id and at most
//! one per external subscriber id. Creation is rejected, never overwritten,
//! when either id is already linked.

use vstd::prelude::*;

verus! {

/// One membership link.
#[derive(Clone, Copy, Debug, PartialEq, Eq, Structural)]
pub struct User {
    /// The internal user id (the chat platform's identity).
    pub id: i64,
    /// The external subscriber id on the subscription platform.
    pub boosty_id: u64,
    /// Cached expiry hint, Unix seconds: payment time plus thirty days.
    pub expires_at: u64,
}

/// Failure of a link-store operation.
#[derive(Clone, Copy, Debug, PartialEq, Eq, Structural)]
pub enum LinkError {
    /// An active link already holds the internal or the external id.
    AlreadyLinked,
    /// No link holds the requested id.
    NotFound,
}

/// Some link in `s` has internal id `id`.
pub open spec fn spec_has_id(s: Seq<User>, id: i64) -> bool {
    exists|i: int| 0 <= i < s.len() && s[i].id == id
}

/// Some link in `s` has external id `boosty_id`.
pub open spec fn spec_has_boosty_id(s: Seq<User>, boosty_id: u64) -> bool {
    exists|i: int| 0 <= i < s.len() && s[i].boosty_id == boosty_id
}

/// Some link in `s` holds `boosty_id` for an internal user other than `id`.
pub open spec fn spec_boosty_id_taken_by_other(s: Seq<User>, boosty_id: u64, id: i64) -> bool {
    exists|i: int| 0 <= i < s.len() && s[i].boosty_id == boosty_id && s[i].id != id
}

/// The position of the link with internal id `id`, where one exists.
pub open spec fn spec_index_of_id(s: Seq<User>, id: i64) -> int {
    choose|i: int| 0 <= i < s.len() && s[i].id == id
}

/// The store of membership links.
pub struct LinkStore {
    pub links: Vec<User>,
}

impl LinkStore {
    /// Well-formed: no internal id and no external id occurs twice.
    pub open spec fn wf(&self) -> bool {
        forall|i: int, j: int|
            #![trigger self.links@[i], self.links@[j]]
            0 <= i < self.links@.len() && 0 <= j < self.links@.len() && i != j
                ==> (self.links@[i].id != self.links@[j].id && self.links@[i].boosty_id
                != self.links@[j].boosty_id)
    }

    /// Two distinct positions of a well-formed store never share an id.
    pub proof fn lemma_wf_distinct(&self, a: int, b: int)
        requires
            self.wf(),
            0 <= a < self.links@.len(),
            0 <= b < self.links@.len(),
            a != b,
        ensures
            self.links@[a].id != self.links@[b].id,
            self.links@[a].boosty_id != self.links@[b].boosty_id,
    {
    }

    /// An empty store.
    pub fn new() -> (r: Self)
        ensures
            r.wf(),
            r.links@.len() == 0,
    {
        LinkStore { links: Vec::new() }
    }

    /// Whether some link holds the internal id.
    pub fn has_id(&self, id: i64) -> (r: bool)
        ensures
            r == spec_has_id(self.links@, id),
    {
        let n = self.links.len();
        let mut i: usize = 0;
        while i < n
            invariant
                i <= n,
                n == self.links@.len(),
                forall|k: int| 0 <= k < i ==> self.links@[k].id != id,
            decreases n - i,
        {
            if self.links[i].id == id {
                return true;
            }
            i = i + 1;
        }
        false
    }

    /// Whether some link holds the external id.
    pub fn has_boosty_id(&self, boosty_id: u64) -> (r: bool)
        ensures
            r == spec_has_boosty_id(self.links@, boosty_id),
    {
        let n = self.links.len();
        let mut i: usize = 0;
        while i < n
            invariant
                i <= n,
                n == self.links@.len(),
                forall|k: int| 0 <= k < i ==> self.links@[k].boosty_id != boosty_id,
            decreases n - i,
        {
            if self.links[i].boosty_id == boosty_id {
                return true;
            }
            i = i + 1;
        }
        false
    }

    /// Look a link up by internal id.
    pub fn get_user(&self, id: i64) -> (r: Result<User, LinkError>)
        ensures
            r is Ok <==> spec_has_id(self.links@, id),
            r matches Ok(u) ==> u.id == id && self.links@.contains(u),
            r matches Err(e) ==> e == LinkError::NotFound,
    {
        let n = self.links.len();
        let mut i: usize = 0;
        while i < n
            invariant
                i <= n,
                n == self.links@.len(),
                forall|k: int| 0 <= k < i ==> self.links@[k].id != id,
            decreases n - i,
        {
            if self.links[i].id == id {
                return Ok(self.links[i]);
            }
            i = i + 1;
        }
        Err(LinkError::NotFound)
    }

    /// Look a link up by external id.
    pub fn get_user_by_boosty_id(&self, boosty_id: u64) -> (r: Result<User, LinkError>)
        ensures
            r is Ok <==> spec_has_boosty_id(self.links@, boosty_id),
            r matches Ok(u) ==> u.boosty_id == boosty_id && self.links@.contains(u),
            r matches Err(e) ==> e == LinkError::NotFound,
    {
        let n = self.links.len();
        let mut i: usize = 0;
        while i < n
            invariant
                i <= n,
                n == self.links@.len(),
                forall|k: int| 0 <= k < i ==> self.links@[k].boosty_id != boosty_id,
            decreases n - i,
        {
            if self.links[i].boosty_id == boosty_id {
                return Ok(self.links[i]);
            }
            i = i + 1;
        }
        Err(LinkError::NotFound)
    }

    /// Create a link. Rejected — the store unchanged — when either the
    /// internal or the external id is already linked; no link is ever
    /// overwritten by creation.
    pub fn create_user(&mut self, user: User) -> (r: Result<User, LinkError>)
        requires
            old(self).wf(),
        ensures
            final(self).wf(),
            (spec_has_id(old(self).links@, user.id) || spec_has_boosty_id(
                old(self).links@,
                user.boosty_id,
            )) ==> (r == Err::<User, LinkError>(LinkError::AlreadyLinked)
                && *final(self) == *old(self)),
            !(spec_has_id(old(self).links@, user.id) || spec_has_boosty_id(
                old(self).links@,
                user.boosty_id,
            )) ==> (r == Ok::<User, LinkError>(user)
                && final(self).links@ == old(self).links@.push(user)),
    {
        if self.has_id(user.id) || self.has_boosty_id(user.boosty_id) {
            return Err(LinkError::AlreadyLinked);
        }
        self.links.push(user);
        Ok(user)
    }

    /// Replace the link of `user.id`. Fails with `NotFound` when that user
    /// has no link, and with `AlreadyLinked` when the new external id is
    /// held by a different user; either failure leaves the store unchanged.
    pub fn update_user(&mut self, user: User) -> (r: Result<User, LinkError>)
        requires
            old(self).wf(),
        ensures
            final(self).wf(),
            !spec_has_id(old(self).links@, user.id) ==> (r == Err::<User, LinkError>(
                LinkError::NotFound,
            ) && *final(self) == *old(self)),
            spec_has_id(old(self).links@, user.id) && spec_boosty_id_taken_by_other(
                old(self).links@,
                user.boosty_id,
                user.id,
            ) ==> (r == Err::<User, LinkError>(LinkError::AlreadyLinked)
                && *final(self) == *old(self)),
            spec_has_id(old(self).links@, user.id) && !spec_boosty_id_taken_by_other(
                old(self).links@,
                user.boosty_id,
                user.id,
            ) ==> (r == Ok::<User, LinkError>(user)
                && final(self).links@.len() == old(self).links@.len()
                && (forall|k: int|
                    0 <= k < old(self).links@.len() && old(self).links@[k].id != user.id
                        ==> final(self).links@[k] == old(self).links@[k])
                && (forall|k: int|
                    0 <= k < old(self).links@.len() && old(self).links@[k].id == user.id
                        ==> final(self).links@[k] == user)),
    {
        let n = self.links.len();
        let mut idx: usize = 0;
        let mut found: bool = false;
        while idx < n
            invariant
                idx <= n,
                n == self.links@.len(),
                !found ==> forall|k: int| 0 <= k < idx ==> self.links@[k].id != user.id,
                found ==> idx < n && self.links@[idx as int].id == user.id,
            ensures
                found ==> idx < n && self.links@[idx as int].id == user.id,
                !found ==> forall|k: int| 0 <= k < n ==> self.links@[k].id != user.id,
            decreases n - idx,
        {
            if self.links[idx].id == user.id {
                found = true;
                break ;
            }
            idx = idx + 1;
        }
        if !found {
            proof {
                assert(!spec_has_id(self.links@, user.id));
            }
            return Err(LinkError::NotFound);
        }
        proof {
            assert(spec_has_id(self.links@, user.id));
        }
        let mut j: usize = 0;
        while j < n
            invariant
                j <= n,
                *self == *old(self),
                old(self).wf(),
                n == self.links@.len(),
                idx < n && self.links@[idx as int].id == user.id,
                forall|k: int|
                    0 <= k < j ==> !(self.links@[k].boosty_id == user.boosty_id && self.links@[k].id
                        != user.id),
            decreases n - j,
        {
            if self.links[j].boosty_id == user.boosty_id && self.links[j].id != user.id {
                proof {
                    assert(spec_boosty_id_taken_by_other(self.links@, user.boosty_id, user.id));
                }
                return Err(LinkError::AlreadyLinked);
            }
            j = j + 1;
        }
        let ghost pre = self.links@;
        let ghost prestore = *self;
        self.links.remove(idx);
        self.links.insert(idx, user);
        proof {
            assert(self.links@ =~= pre.update(idx as int, user));
            let f = self.links@;
            assert forall|a: int, b: int|
                0 <= a < f.len() && 0 <= b < f.len() && a != b implies (f[a].id != f[b].id
                && f[a].boosty_id != f[b].boosty_id) by {
                if a == idx {
                    prestore.lemma_wf_distinct(b, idx as int);
                    assert(!(pre[b].boosty_id == user.boosty_id && pre[b].id != user.id));
                } else if b == idx {
                    prestore.lemma_wf_distinct(a, idx as int);
                    assert(!(pre[a].boosty_id == user.boosty_id && pre[a].id != user.id));
                } else {
                    prestore.lemma_wf_distinct(a, b);
                }
            }
        }
        Ok(user)
    }

    /// Remove the link of `user_id`, if any; the result counts the removed
    /// links (one or zero).
    pub fn remove_user(&mut self, user_id: i64) -> (r: usize)
        requires
            old(self).wf(),
        ensures
            final(self).wf(),
            !spec_has_id(old(self).links@, user_id) ==> (r == 0 && *final(self) == *old(self)),
            spec_has_id(old(self).links@, user_id) ==> (r == 1
                && final(self).links@ == old(self).links@.remove(
                spec_index_of_id(old(self).links@, user_id))
                && !spec_has_id(final(self).links@, user_id)),
    {
        let n = self.links.len();
        let mut i: usize = 0;
        while i < n
            invariant
                i <= n,
                *self == *old(self),
                old(self).wf(),
                n == self.links@.len(),
                forall|k: int| 0 <= k < i ==> self.links@[k].id != user_id,
            decreases n - i,
        {
            if self.links[i].id == user_id {
                let ghost pre = self.links@;
                let ghost prestore = *self;
                self.links.remove(i);
                proof {
                    assert(pre[i as int].id == user_id);
                    assert(spec_has_id(pre, user_id));
                    let w = spec_index_of_id(pre, user_id);
                    assert(0 <= w < pre.len() && pre[w].id == user_id);
                    if w != i {
                        prestore.lemma_wf_distinct(w, i as int);
                        assert(false);
                    }
                    assert forall|k: int| 0 <= k < self.links@.len() implies self.links@[k].id
                        != user_id by {
                        if k < i {
                            assert(self.links@[k] == pre[k]);
                            prestore.lemma_wf_distinct(k, i as int);
                        } else {
                            assert(self.links@[k] == pre[k + 1]);
                            prestore.lemma_wf_distinct(k + 1, i as int);
                        }
                    }
                    assert forall|a: int, b: int|
                        0 <= a < self.links@.len() && 0 <= b < self.links@.len() && a != b implies (
                    self.links@[a].id != self.links@[b].id && self.links@[a].boosty_id
                        != self.links@[b].boosty_id) by {
                        let a0 = if a < i { a } else { a + 1 };
                        let b0 = if b < i { b } else { b + 1 };
                        assert(self.links@[a] == pre[a0]);
                        assert(self.links@[b] == pre[b0]);
                        prestore.lemma_wf_distinct(a0, b0);
                    }
                }
                return 1;
            }
            i = i + 1;
        }
        0
    }

    /// The external ids of every link, in store order: what the sweep hands
    /// to the batched lookup.
    pub fn get_users_boosty_ids(&self) -> (r: Vec<u64>)
        ensures
            r@ == self.links@.map_values(|u: User| u.boosty_id),
    {
        let n = self.links.len();
        let mut out: Vec<u64> = Vec::new();
        let mut i: usize = 0;
        while i < n
            invariant
                i <= n,
                n == self.links@.len(),
                out@ == self.links@.subrange(0, i as int).map_values(|u: User| u.boosty_id),
            decreases n - i,
        {
            out.push(self.links[i].boosty_id);
            proof {
                assert(self.links@.subrange(0, i + 1 as int).map_values(|u: User| u.boosty_id)
                    =~= self.links@.subrange(0, i as int).map_values(|u: User| u.boosty_id).push(
                    self.links@[i as int].boosty_id,
                ));
            }
            i = i + 1;
        }
        proof {
            assert(self.links@.subrange(0, n as int) =~= self.links@);
        }
        out
    }
}

} // verus!
