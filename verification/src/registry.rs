use vstd::prelude::*;

use crate::geo::Location;
use crate::geo::User;

verus! {

/// One registry slot: a session's numeric ID together with the entity it
/// has announced. The entity stays absent ("pending") from the session's
/// creation until its first handshake frame is applied.
#[derive(Clone, Copy, Debug)]
pub struct Slot {
    pub id: u64,
    pub user: Option<User>,
}

/// The per-route shared state: the registry of connected sessions and the
/// monotonically increasing ID allocator. Keys are unique; the order of
/// the slots carries no meaning.
#[derive(Debug)]
pub struct RouteState {
    pub list: Vec<Slot>,
    pub last_id: u64,
}

impl RouteState {
    /// Well-formedness: session IDs are distinct, and every ID was handed
    /// out below the allocator's counter, so the next allocation cannot
    /// collide.
    pub open spec fn wf(self) -> bool {
        &&& forall|i: int, j: int|
            0 <= i < j < self.list@.len() ==> self.list@[i].id != self.list@[j].id
        &&& forall|i: int| 0 <= i < self.list@.len() ==> #[trigger] self.list@[i].id < self.last_id
    }

    pub open spec fn contains_id(self, id: u64) -> bool {
        exists|i: int| 0 <= i < self.list@.len() && self.list@[i].id == id
    }

    /// The position of the slot keyed `id`; meaningful when `contains_id`
    /// holds and the state is well formed.
    pub open spec fn index_of(self, id: u64) -> int {
        choose|i: int| 0 <= i < self.list@.len() && self.list@[i].id == id
    }

    /// The slot contents stored under `id`: `None` while pending.
    pub open spec fn slot_of(self, id: u64) -> Option<User> {
        self.list@[self.index_of(id)].user
    }

    /// The entity of session `id` as `lookup` reports it: present exactly
    /// when the slot exists and is past its handshake.
    pub open spec fn spec_lookup(self, id: u64) -> Option<User> {
        if self.contains_id(id) {
            self.slot_of(id)
        } else {
            None
        }
    }

    /// In a well-formed state the key determines the position: any slot
    /// that carries `id` stands where `index_of` points.
    pub proof fn lemma_slot_unique(self, i: int, id: u64)
        requires
            self.wf(),
            0 <= i < self.list@.len(),
            self.list@[i].id == id,
        ensures
            self.contains_id(id),
            self.index_of(id) == i,
            self.slot_of(id) == self.list@[i].user,
    {
        assert(self.contains_id(id));
        let j = self.index_of(id);
        assert(0 <= j < self.list@.len() && self.list@[j].id == id);
        if i != j {
            assert(false);
        }
    }

    pub fn new() -> (r: RouteState)
        ensures
            r.wf(),
            r.list@.len() == 0,
            r.last_id == 0,
            forall|p: u64| !r.contains_id(p),
    {
        RouteState { list: Vec::new(), last_id: 0 }
    }

    fn find_index(&self, id: u64) -> (r: Option<usize>)
        ensures
            match r {
                Some(i) => 0 <= i < self.list@.len() && self.list@[i as int].id == id
                    && self.contains_id(id),
                None => !self.contains_id(id),
            },
    {
        let mut i: usize = 0;
        while i < self.list.len()
            invariant
                i <= self.list@.len(),
                forall|j: int| 0 <= j < i ==> self.list@[j].id != id,
            decreases self.list@.len() - i,
        {
            if self.list[i].id == id {
                return Some(i);
            }
            i = i + 1;
        }
        None
    }

    /// Allocates a fresh session ID, collision-checked against the keys
    /// that are currently present (with a strictly increasing allocator
    /// the check cannot fire before the counter overflows; it is kept as
    /// a defensive loop), and inserts a slot holding `user`.
    pub fn insert_user(&mut self, user: Option<User>) -> (id: u64)
        requires
            old(self).wf(),
            old(self).last_id < u64::MAX,
        ensures
            final(self).wf(),
            !old(self).contains_id(id),
            final(self).list@ == old(self).list@.push(Slot { id, user }),
            final(self).contains_id(id),
            final(self).slot_of(id) == user,
            forall|p: u64|
                p != id ==> final(self).contains_id(p) == old(self).contains_id(p),
            forall|p: u64|
                p != id && old(self).contains_id(p) ==> final(self).slot_of(p) == old(
                    self,
                ).slot_of(p),
    {
        loop
            invariant
                *self == *old(self),
                self.wf(),
                self.last_id < u64::MAX,
            decreases 0int,
        {
            let id = self.last_id;
            self.last_id = self.last_id + 1;
            if self.find_index(id).is_none() {
                self.list.push(Slot { id, user });
                proof {
                    let n = old(self).list@.len();
                    assert(self.list@ == old(self).list@.push(Slot { id, user }));
                    assert forall|i: int, j: int|
                        0 <= i < j < self.list@.len() implies self.list@[i].id != self.list@[j].id
                    by {
                        if j < n {
                            assert(old(self).list@[i].id != old(self).list@[j].id);
                        } else {
                            assert(old(self).list@[i].id < id);
                        }
                    }
                    self.lemma_slot_unique(n as int, id);
                    assert forall|p: u64|
                        p != id implies final(self).contains_id(p) == old(self).contains_id(p)
                    by {
                        if old(self).contains_id(p) {
                            let i = old(self).index_of(p);
                            assert(self.list@[i].id == p);
                        }
                        if self.contains_id(p) {
                            let i = self.index_of(p);
                            assert(0 <= i < n);
                            assert(old(self).list@[i].id == p);
                        }
                    }
                    assert forall|p: u64|
                        p != id && old(self).contains_id(p) implies final(self).slot_of(p) == old(
                        self,
                    ).slot_of(p)
                    by {
                        let i = old(self).index_of(p);
                        assert(old(self).list@[i].id == p);
                        old(self).lemma_slot_unique(i, p);
                        self.lemma_slot_unique(i, p);
                    }
                }
                return id;
            }
            proof {
                // Unreachable: every present key lies below the counter,
                // so the candidate cannot collide.
                assert(false);
            }
        }
    }

    /// Returns the entity of session `id`, or nothing when the slot is
    /// absent or still pending.
    pub fn lookup(&self, id: u64) -> (r: Option<User>)
        requires
            self.wf(),
        ensures
            r == self.spec_lookup(id),
    {
        match self.find_index(id) {
            Some(i) => {
                proof {
                    self.lemma_slot_unique(i as int, id);
                }
                self.list[i].user
            },
            None => None,
        }
    }

    /// Records the handshake entity for session `id`, and reports whether
    /// it did. A missing or already populated slot is left untouched: the
    /// first handshake wins.
    pub fn set_user(&mut self, id: u64, user: User) -> (applied: bool)
        requires
            old(self).wf(),
        ensures
            final(self).wf(),
            final(self).last_id == old(self).last_id,
            applied == (old(self).contains_id(id) && old(self).slot_of(id) is None),
            !applied ==> *final(self) == *old(self),
            applied ==> final(self).list@ == old(self).list@.update(
                old(self).index_of(id),
                Slot { id, user: Some(user) },
            ),
            applied ==> final(self).slot_of(id) == Some(user),
            forall|p: u64| final(self).contains_id(p) == old(self).contains_id(p),
            forall|p: u64|
                p != id && old(self).contains_id(p) ==> final(self).slot_of(p) == old(
                    self,
                ).slot_of(p),
    {
        match self.find_index(id) {
            Some(i) => {
                proof {
                    old(self).lemma_slot_unique(i as int, id);
                }
                if self.list[i].user.is_none() {
                    self.list[i] = Slot { id, user: Some(user) };
                    proof {
                        self.lemma_update_keeps_others(*old(self), i as int, id);
                    }
                    true
                } else {
                    false
                }
            },
            None => false,
        }
    }

    /// Moves session `id` to `location`, and reports whether it did. A
    /// missing or still pending slot is left untouched.
    pub fn update_location(&mut self, id: u64, location: Location) -> (applied: bool)
        requires
            old(self).wf(),
        ensures
            final(self).wf(),
            final(self).last_id == old(self).last_id,
            applied == (old(self).contains_id(id) && old(self).slot_of(id) is Some),
            !applied ==> *final(self) == *old(self),
            applied ==> final(self).slot_of(id) == Some(
                old(self).slot_of(id)->Some_0.with_location(location),
            ),
            forall|p: u64| final(self).contains_id(p) == old(self).contains_id(p),
            forall|p: u64|
                p != id && old(self).contains_id(p) ==> final(self).slot_of(p) == old(
                    self,
                ).slot_of(p),
    {
        match self.find_index(id) {
            Some(i) => {
                proof {
                    old(self).lemma_slot_unique(i as int, id);
                }
                match self.list[i].user {
                    Some(mut u) => {
                        u.set_location(location);
                        self.list[i] = Slot { id, user: Some(u) };
                        proof {
                            self.lemma_update_keeps_others(*old(self), i as int, id);
                        }
                        true
                    },
                    None => false,
                }
            },
            None => false,
        }
    }

    /// Deletes the slot under `id`; a miss is a no-op, which makes
    /// removal idempotent.
    pub fn remove_user(&mut self, id: u64)
        requires
            old(self).wf(),
        ensures
            final(self).wf(),
            final(self).last_id == old(self).last_id,
            !final(self).contains_id(id),
            !old(self).contains_id(id) ==> *final(self) == *old(self),
            old(self).contains_id(id) ==> final(self).list@.len() == old(self).list@.len() - 1,
            forall|p: u64|
                p != id ==> final(self).contains_id(p) == old(self).contains_id(p),
            forall|p: u64|
                p != id && old(self).contains_id(p) ==> final(self).slot_of(p) == old(
                    self,
                ).slot_of(p),
    {
        match self.find_index(id) {
            Some(i) => {
                proof {
                    old(self).lemma_slot_unique(i as int, id);
                }
                self.list.remove(i);
                proof {
                    let s_old = old(self).list@;
                    let s_new = self.list@;
                    let k = i as int;
                    assert(s_new == s_old.remove(k));
                    assert forall|j: int| 0 <= j < s_new.len() implies s_new[j] == (if j < k {
                        s_old[j]
                    } else {
                        s_old[j + 1]
                    }) by {}
                    assert forall|p: u64|
                        p != id && old(self).contains_id(p) implies final(self).contains_id(p)
                        && final(self).slot_of(p) == old(self).slot_of(p)
                    by {
                        let m = old(self).index_of(p);
                        assert(s_old[m].id == p);
                        let m2 = if m < k {
                            m
                        } else {
                            m - 1
                        };
                        assert(s_new[m2].id == p);
                        self.lemma_slot_unique(m2, p);
                    }
                    assert forall|p: u64|
                        final(self).contains_id(p) implies p == id || old(self).contains_id(p)
                    by {
                        let m = self.index_of(p);
                        assert(s_new[m].id == p);
                        if m < k {
                            assert(s_old[m].id == p);
                        } else {
                            assert(s_old[m + 1].id == p);
                        }
                    }
                    assert(!final(self).contains_id(id)) by {
                        if self.contains_id(id) {
                            let m = self.index_of(id);
                            assert(s_new[m].id == id);
                            if m < k {
                                assert(s_old[m].id == id);
                                old(self).lemma_slot_unique(m, id);
                            } else {
                                assert(s_old[m + 1].id == id);
                                old(self).lemma_slot_unique(m + 1, id);
                            }
                        }
                    }
                }
            },
            None => {},
        }
    }

    /// An in-place overwrite of the slot at `i` that keeps its key
    /// changes nothing about the other keys' presence or contents.
    proof fn lemma_update_keeps_others(self, prev: RouteState, i: int, id: u64)
        requires
            prev.wf(),
            0 <= i < prev.list@.len(),
            prev.list@[i].id == id,
            self.last_id == prev.last_id,
            self.list@ == prev.list@.update(i, self.list@[i]),
            self.list@[i].id == id,
        ensures
            self.wf(),
            forall|p: u64| self.contains_id(p) == prev.contains_id(p),
            self.slot_of(id) == self.list@[i].user,
            forall|p: u64|
                p != id && prev.contains_id(p) ==> self.slot_of(p) == prev.slot_of(p),
    {
        assert(self.list@.len() == prev.list@.len());
        assert forall|j: int| 0 <= j < self.list@.len() && j != i implies self.list@[j]
            == prev.list@[j] by {}
        assert(self.wf());
        assert forall|p: u64| self.contains_id(p) == prev.contains_id(p) by {
            if self.contains_id(p) {
                let m = self.index_of(p);
                assert(prev.list@[m].id == p);
            }
            if prev.contains_id(p) {
                let m = prev.index_of(p);
                assert(self.list@[m].id == p);
            }
        }
        self.lemma_slot_unique(i, id);
        assert forall|p: u64|
            p != id && prev.contains_id(p) implies self.slot_of(p) == prev.slot_of(p)
        by {
            let m = prev.index_of(p);
            assert(prev.list@[m].id == p);
            prev.lemma_slot_unique(m, p);
            assert(m != i);
            self.lemma_slot_unique(m, p);
        }
    }
}

impl Default for RouteState {
    /// An empty route: no sessions, allocator at zero.
    fn default() -> (r: Self)
        ensures
            r.wf(),
            r.list@.len() == 0,
            r.last_id == 0,
    {
        RouteState::new()
    }
}

} // verus!
