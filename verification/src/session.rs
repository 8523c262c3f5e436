use vstd::prelude::*;

use crate::geo::Location;
use crate::geo::User;
use crate::registry::RouteState;

verus! {

/// A state-change event published on a route's broadcast channel,
/// carrying the ID of the session it concerns.
#[derive(Clone, Copy, PartialEq, Eq, Structural, Debug)]
pub enum StateMessage {
    NewUser(u64),
    UpdateLocation(u64),
    CloseUser(u64),
}

/// The body of a client's location-update frame.
#[derive(Clone, Copy, PartialEq, Eq, Structural, Debug)]
pub struct UpdateLocation {
    pub location: Location,
}

/// A notification derived for a session's own client.
#[derive(Clone, Copy, PartialEq, Eq, Structural, Debug)]
pub enum UserReceiveMessage {
    NewUser { id: u64, user: User },
    UpdateLocation { id: u64, location: Location },
    RemoveUser { id: u64 },
}

/// A frame sent by a session's client.
#[derive(Clone, Copy, PartialEq, Eq, Structural, Debug)]
pub enum UserSendMessage {
    InitialMessage(User),
    UpdateLocation { location: Location },
}

/// What one client frame amounts to: the notifications owed to the
/// session's own client, in order, and the event to publish on the
/// route, if any.
#[derive(Debug)]
pub struct FrameOutcome {
    pub to_client: Vec<UserReceiveMessage>,
    pub publish: Option<StateMessage>,
}

/// The peer entity that should be forwarded to session `me`: present
/// exactly when both sessions are past their handshake and the peer lies
/// within the visibility radius of `me`'s own entity.
pub open spec fn spec_should_send_id(reg: RouteState, me: u64, peer: u64) -> Option<User> {
    match (reg.spec_lookup(me), reg.spec_lookup(peer)) {
        (Some(cur), Some(u)) => if cur.spec_should_send(u) {
            Some(u)
        } else {
            None
        },
        _ => None,
    }
}

/// One row of the reconciliation table: what a session with local
/// visibility set `users` does on receiving `msg`, consulting the live
/// registry `reg`. Yields the new local set, the notification for the
/// session's own client (if any), and whether the session keeps running.
pub open spec fn spec_step(users: Set<u64>, me: u64, reg: RouteState, msg: StateMessage) -> (
    Set<u64>,
    Option<UserReceiveMessage>,
    bool,
) {
    match msg {
        StateMessage::NewUser(p) => {
            if p == me {
                (users, None, true)
            } else {
                match spec_should_send_id(reg, me, p) {
                    Some(u) => (
                        users.insert(p),
                        Some(UserReceiveMessage::NewUser { id: p, user: u }),
                        true,
                    ),
                    None => (users, None, true),
                }
            }
        },
        StateMessage::UpdateLocation(p) => {
            if p == me {
                (users, None, true)
            } else if users.contains(p) {
                match spec_should_send_id(reg, me, p) {
                    Some(u) => (
                        users,
                        Some(
                            UserReceiveMessage::UpdateLocation {
                                id: p,
                                location: u.spec_location(),
                            },
                        ),
                        true,
                    ),
                    None => (users.remove(p), Some(UserReceiveMessage::RemoveUser { id: p }), true),
                }
            } else {
                match spec_should_send_id(reg, me, p) {
                    Some(u) => (
                        users.insert(p),
                        Some(UserReceiveMessage::NewUser { id: p, user: u }),
                        true,
                    ),
                    None => (users, None, true),
                }
            }
        },
        StateMessage::CloseUser(p) => {
            if p == me {
                (users, None, false)
            } else if users.contains(p) {
                (users.remove(p), Some(UserReceiveMessage::RemoveUser { id: p }), true)
            } else {
                (users, None, true)
            }
        },
    }
}

/// A notification that introduces a visible peer: a `NewUser` whose
/// entity is what the registry holds for it and which the receiving
/// session should indeed see.
pub open spec fn is_intro_msg(reg: RouteState, me: u64, m: UserReceiveMessage) -> bool {
    match m {
        UserReceiveMessage::NewUser { id, user } => id != me && spec_should_send_id(reg, me, id)
            == Some(user),
        _ => false,
    }
}

/// The peer a notification concerns.
pub open spec fn msg_peer(m: UserReceiveMessage) -> u64 {
    match m {
        UserReceiveMessage::NewUser { id, .. } => id,
        UserReceiveMessage::UpdateLocation { id, .. } => id,
        UserReceiveMessage::RemoveUser { id } => id,
    }
}

/// Per-connection session state that the engine mutates: the session's
/// own ID and its local visibility set, the IDs of the peers this
/// session currently believes are visible to its client. The set is an
/// eventually consistent cache; the registry is the source of truth.
#[derive(Debug)]
pub struct UserState {
    pub id: u64,
    pub users: Vec<u64>,
}

impl UserState {
    /// Well-formedness: the local visibility set holds each peer once.
    pub open spec fn wf(self) -> bool {
        self.users@.no_duplicates()
    }

    /// The local visibility set, as a set.
    pub open spec fn users_set(self) -> Set<u64> {
        Set::new(|p: u64| self.users@.contains(p))
    }

    pub fn new(id: u64) -> (r: UserState)
        ensures
            r.wf(),
            r.id == id,
            r.users_set() == Set::<u64>::empty(),
    {
        let r = UserState { id, users: Vec::new() };
        proof {
            assert(r.users_set() =~= Set::<u64>::empty());
        }
        r
    }

    fn contains_user(&self, p: u64) -> (r: bool)
        ensures
            r == self.users_set().contains(p),
    {
        let mut i: usize = 0;
        while i < self.users.len()
            invariant
                i <= self.users@.len(),
                forall|j: int| 0 <= j < i ==> self.users@[j] != p,
            decreases self.users@.len() - i,
        {
            if self.users[i] == p {
                return true;
            }
            i = i + 1;
        }
        false
    }

    fn insert_peer(&mut self, p: u64)
        requires
            old(self).wf(),
        ensures
            final(self).wf(),
            final(self).id == old(self).id,
            final(self).users_set() == old(self).users_set().insert(p),
    {
        if !self.contains_user(p) {
            self.users.push(p);
            proof {
                let s_old = old(self).users@;
                let s_new = self.users@;
                assert forall|q: u64| s_new.contains(q) == (s_old.contains(q) || q == p) by {
                    if s_new.contains(q) {
                        let j = choose|j: int| 0 <= j < s_new.len() && s_new[j] == q;
                        if j < s_old.len() {
                            assert(s_old[j] == q);
                        }
                    }
                    if s_old.contains(q) {
                        let j = choose|j: int| 0 <= j < s_old.len() && s_old[j] == q;
                        assert(s_new[j] == q);
                    }
                    if q == p {
                        assert(s_new[s_old.len() as int] == q);
                    }
                }
                assert(final(self).users_set() =~= old(self).users_set().insert(p));
            }
        } else {
            proof {
                assert(final(self).users_set() =~= old(self).users_set().insert(p));
            }
        }
    }

    fn remove_peer(&mut self, p: u64)
        requires
            old(self).wf(),
        ensures
            final(self).wf(),
            final(self).id == old(self).id,
            final(self).users_set() == old(self).users_set().remove(p),
    {
        let mut i: usize = 0;
        while i < self.users.len()
            invariant
                i <= self.users@.len(),
                forall|j: int| 0 <= j < i ==> self.users@[j] != p,
                *self == *old(self),
                self.wf(),
            decreases self.users@.len() - i,
        {
            if self.users[i] == p {
                self.users.remove(i);
                proof {
                    let s_old = old(self).users@;
                    let s_new = self.users@;
                    let k = i as int;
                    assert forall|j: int| 0 <= j < s_new.len() implies s_new[j] == (if j < k {
                        s_old[j]
                    } else {
                        s_old[j + 1]
                    }) by {}
                    assert forall|a: int, b: int|
                        0 <= a < b < s_new.len() implies s_new[a] != s_new[b]
                    by {
                        let a2 = if a < k {
                            a
                        } else {
                            a + 1
                        };
                        let b2 = if b < k {
                            b
                        } else {
                            b + 1
                        };
                        assert(s_new[a] == s_old[a2]);
                        assert(s_new[b] == s_old[b2]);
                        assert(0 <= a2 < b2 < s_old.len());
                    }
                    assert forall|q: u64| s_new.contains(q) == (s_old.contains(q) && q != p) by {
                        if s_new.contains(q) {
                            let j = choose|j: int| 0 <= j < s_new.len() && s_new[j] == q;
                            if j < k {
                                assert(s_old[j] == q);
                                assert(j != k && 0 <= j < s_old.len());
                                assert(s_old[j] != s_old[k]);
                            } else {
                                assert(s_old[j + 1] == q);
                                assert(j + 1 != k && 0 <= j + 1 < s_old.len());
                                assert(s_old[j + 1] != s_old[k]);
                            }
                        }
                        if s_old.contains(q) && q != p {
                            let j = choose|j: int| 0 <= j < s_old.len() && s_old[j] == q;
                            if j < k {
                                assert(s_new[j] == q);
                            } else {
                                assert(j != k);
                                assert(s_new[j - 1] == q);
                            }
                        }
                    }
                    assert(final(self).users_set() =~= old(self).users_set().remove(p));
                }
                return ;
            }
            i = i + 1;
        }
        proof {
            assert(!old(self).users@.contains(p));
            assert(final(self).users_set() =~= old(self).users_set().remove(p));
        }
    }

    /// Looks up this session's own entity and the peer's, and yields the
    /// peer entity exactly when both are past their handshake and within
    /// the visibility radius of one another.
    pub fn should_send_id(&self, reg: &RouteState, id: u64) -> (r: Option<User>)
        requires
            reg.wf(),
        ensures
            r == spec_should_send_id(*reg, self.id, id),
    {
        let user = reg.lookup(id);
        let current = reg.lookup(self.id);
        match (current, user) {
            (Some(cur), Some(u)) => {
                if cur.should_send(&u) {
                    Some(u)
                } else {
                    None
                }
            },
            _ => None,
        }
    }

    /// Applies one route event to this session: the reconciliation table
    /// of the engine. Returns whether the session keeps running and the
    /// notification owed to this session's own client, if any. Events
    /// about this session itself are ignored, except that its own close
    /// event stops it.
    pub fn send_message(&mut self, reg: &RouteState, message: StateMessage) -> (r: (
        bool,
        Option<UserReceiveMessage>,
    ))
        requires
            old(self).wf(),
            reg.wf(),
        ensures
            final(self).wf(),
            final(self).id == old(self).id,
            final(self).users_set() == spec_step(
                old(self).users_set(),
                old(self).id,
                *reg,
                message,
            ).0,
            r.1 == spec_step(old(self).users_set(), old(self).id, *reg, message).1,
            r.0 == spec_step(old(self).users_set(), old(self).id, *reg, message).2,
    {
        match message {
            StateMessage::NewUser(new_id) => {
                if new_id == self.id {
                    return (true, None);
                }
                match self.should_send_id(reg, new_id) {
                    Some(user) => {
                        self.insert_peer(new_id);
                        (true, Some(UserReceiveMessage::NewUser { id: new_id, user }))
                    },
                    None => (true, None),
                }
            },
            StateMessage::UpdateLocation(new_id) => {
                if new_id == self.id {
                    return (true, None);
                }
                if self.contains_user(new_id) {
                    match self.should_send_id(reg, new_id) {
                        Some(user) => {
                            let location = user.location();
                            proof {
                                assert(final(self).users_set() =~= old(self).users_set());
                            }
                            (
                                true,
                                Some(UserReceiveMessage::UpdateLocation { id: new_id, location }),
                            )
                        },
                        None => {
                            self.remove_peer(new_id);
                            (true, Some(UserReceiveMessage::RemoveUser { id: new_id }))
                        },
                    }
                } else {
                    match self.should_send_id(reg, new_id) {
                        Some(user) => {
                            self.insert_peer(new_id);
                            (true, Some(UserReceiveMessage::NewUser { id: new_id, user }))
                        },
                        None => (true, None),
                    }
                }
            },
            StateMessage::CloseUser(new_id) => {
                if new_id == self.id {
                    return (false, None);
                }
                if self.contains_user(new_id) {
                    self.remove_peer(new_id);
                    (true, Some(UserReceiveMessage::RemoveUser { id: new_id }))
                } else {
                    (true, None)
                }
            },
        }
    }

    /// Applies the client's first handshake frame. While this session's
    /// slot is pending, the frame populates it, every currently active
    /// visible peer is introduced to this session's own client exactly
    /// once, and a `NewUser` event for this session is published to the
    /// route. A second handshake, or one arriving after the slot was
    /// removed, changes nothing, notifies nobody and publishes nothing.
    #[verifier::rlimit(100)]
    pub fn handle_initial_message(&mut self, reg: &mut RouteState, user: User) -> (r: FrameOutcome)
        requires
            old(self).wf(),
            old(reg).wf(),
        ensures
            final(self).wf(),
            final(self).id == old(self).id,
            final(reg).wf(),
            final(reg).last_id == old(reg).last_id,
            forall|p: u64| final(reg).contains_id(p) == old(reg).contains_id(p),
            !(old(reg).contains_id(old(self).id) && old(reg).slot_of(old(self).id) is None)
                ==> ({
                &&& *final(reg) == *old(reg)
                &&& *final(self) == *old(self)
                &&& r.to_client@.len() == 0
                &&& r.publish is None
            }),
            (old(reg).contains_id(old(self).id) && old(reg).slot_of(old(self).id) is None) ==> ({
                let me = old(self).id;
                &&& final(reg).slot_of(me) == Some(user)
                &&& forall|p: u64|
                    p != me && old(reg).contains_id(p) ==> final(reg).slot_of(p) == old(
                        reg,
                    ).slot_of(p)
                &&& r.publish == Some(StateMessage::NewUser(me))
                &&& forall|p: u64|
                    final(self).users_set().contains(p) == (old(self).users_set().contains(p) || (p
                        != me && spec_should_send_id(*final(reg), me, p) is Some))
                &&& forall|k: int|
                    0 <= k < r.to_client@.len() ==> is_intro_msg(*final(reg), me, r.to_client@[k])
                &&& forall|p: u64|
                    p != me && spec_should_send_id(*final(reg), me, p) is Some ==> exists|k: int|
                        0 <= k < r.to_client@.len() && msg_peer(r.to_client@[k]) == p
                &&& forall|k1: int, k2: int|
                    0 <= k1 < k2 < r.to_client@.len() ==> msg_peer(r.to_client@[k1]) != msg_peer(
                        r.to_client@[k2],
                    )
            }),
    {
        let me = self.id;
        let applied = reg.set_user(me, user);
        if !applied {
            return FrameOutcome { to_client: Vec::new(), publish: None };
        }
        let to_client = self.introduce_peers(reg);
        let ghost msgs = to_client@;
        let r = FrameOutcome { to_client, publish: Some(StateMessage::NewUser(me)) };
        proof {
            assert forall|p: u64|
                p != me && spec_should_send_id(*reg, me, p) is Some implies exists|k: int|
                    0 <= k < r.to_client@.len() && msg_peer(r.to_client@[k]) == p
            by {
                let k = choose|k: int| 0 <= k < msgs.len() && msg_peer(msgs[k]) == p;
                assert(0 <= k < r.to_client@.len() && msg_peer(r.to_client@[k]) == p);
            }
        }
        r
    }

    /// Walks the registry once and replays a `NewUser` event for every
    /// present slot against this session, collecting the introductions
    /// owed to its client: one per visible active peer.
    #[verifier::rlimit(100)]
    fn introduce_peers(&mut self, reg: &RouteState) -> (to_client: Vec<UserReceiveMessage>)
        requires
            old(self).wf(),
            reg.wf(),
        ensures
            final(self).wf(),
            final(self).id == old(self).id,
            forall|p: u64|
                final(self).users_set().contains(p) == (old(self).users_set().contains(p) || (p
                    != old(self).id && spec_should_send_id(*reg, old(self).id, p) is Some)),
            forall|k: int|
                0 <= k < to_client@.len() ==> is_intro_msg(*reg, old(self).id, to_client@[k]),
            forall|p: u64|
                p != old(self).id && spec_should_send_id(*reg, old(self).id, p) is Some
                    ==> exists|k: int|
                    0 <= k < to_client@.len() && msg_peer(to_client@[k]) == p,
            forall|k1: int, k2: int|
                0 <= k1 < k2 < to_client@.len() ==> msg_peer(to_client@[k1]) != msg_peer(
                    to_client@[k2],
                ),
    {
        let me = self.id;
        let mut to_client: Vec<UserReceiveMessage> = Vec::new();
        let n = reg.list.len();
        let mut j: usize = 0;
        while j < n
            invariant
                n == reg.list@.len(),
                j <= n,
                reg.wf(),
                self.wf(),
                self.id == me,
                forall|p: u64|
                    self.users_set().contains(p) == (old(self).users_set().contains(p) || (p != me
                        && spec_should_send_id(*reg, me, p) is Some && exists|jj: int|
                        0 <= jj < j && reg.list@[jj].id == p)),
                forall|k: int|
                    0 <= k < to_client@.len() ==> is_intro_msg(*reg, me, to_client@[k]),
                forall|jj: int|
                    0 <= jj < j && reg.list@[jj].id != me && spec_should_send_id(
                        *reg,
                        me,
                        reg.list@[jj].id,
                    ) is Some ==> exists|k: int|
                        0 <= k < to_client@.len() && msg_peer(to_client@[k]) == reg.list@[jj].id,
                forall|k: int|
                    #![trigger to_client@[k]]
                    0 <= k < to_client@.len() ==> exists|jj: int|
                        0 <= jj < j && #[trigger] reg.list@[jj].id == msg_peer(to_client@[k]),
                forall|k1: int, k2: int|
                    0 <= k1 < k2 < to_client@.len() ==> msg_peer(to_client@[k1]) != msg_peer(
                        to_client@[k2],
                    ),
            decreases n - j,
        {
            let ghost users_before = self.users_set();
            let ghost msgs_before = to_client@;
            let peer_id = reg.list[j].id;
            if reg.list[j].user.is_some() {
                let (_proceed, msg) = self.send_message(reg, StateMessage::NewUser(peer_id));
                match msg {
                    Some(m) => {
                        to_client.push(m);
                    },
                    None => {},
                }
            }
            proof {
                assert(reg.list@[j as int].id == peer_id);
                assert forall|p: u64|
                    self.users_set().contains(p) == (old(self).users_set().contains(p) || (p != me
                        && spec_should_send_id(*reg, me, p) is Some && exists|jj: int|
                        0 <= jj < j + 1 && reg.list@[jj].id == p))
                by {
                    if p != me && spec_should_send_id(*reg, me, p) is Some && exists|jj: int|
                        0 <= jj < j + 1 && reg.list@[jj].id == p {
                        let jj = choose|jj: int| 0 <= jj < j + 1 && reg.list@[jj].id == p;
                        if jj < j {
                            assert(users_before.contains(p));
                        }
                    }
                }
                assert forall|jj: int|
                    0 <= jj < j + 1 && reg.list@[jj].id != me && spec_should_send_id(
                        *reg,
                        me,
                        reg.list@[jj].id,
                    ) is Some implies exists|k: int|
                        0 <= k < to_client@.len() && msg_peer(to_client@[k]) == reg.list@[jj].id
                by {
                    if jj < j {
                        let k = choose|k: int|
                            0 <= k < msgs_before.len() && msg_peer(msgs_before[k])
                                == reg.list@[jj].id;
                        assert(msg_peer(to_client@[k]) == reg.list@[jj].id);
                    } else {
                        assert(msg_peer(to_client@[to_client@.len() - 1]) == peer_id);
                    }
                }
            }
            j = j + 1;
        }
        proof {
            assert forall|p: u64|
                self.users_set().contains(p) == (old(self).users_set().contains(p) || (p != me
                    && spec_should_send_id(*reg, me, p) is Some))
            by {
                if p != me && spec_should_send_id(*reg, me, p) is Some {
                    assert(reg.contains_id(p));
                    let jj = reg.index_of(p);
                    assert(0 <= jj < reg.list@.len() && reg.list@[jj].id == p);
                }
            }
            assert forall|p: u64|
                p != me && spec_should_send_id(*reg, me, p) is Some implies exists|k: int|
                    0 <= k < to_client@.len() && msg_peer(to_client@[k]) == p
            by {
                assert(reg.contains_id(p));
                let jj = reg.index_of(p);
                assert(0 <= jj < reg.list@.len() && reg.list@[jj].id == p);
            }
        }
        to_client
    }

    /// Applies a client location-update frame: moves this session's own
    /// entity and yields the event to publish on the route. While the
    /// slot is missing or still pending, the frame is dropped and
    /// nothing is published.
    pub fn handle_update_location(&self, reg: &mut RouteState, location: Location) -> (r: Option<
        StateMessage,
    >)
        requires
            old(reg).wf(),
        ensures
            final(reg).wf(),
            final(reg).last_id == old(reg).last_id,
            forall|p: u64| final(reg).contains_id(p) == old(reg).contains_id(p),
            old(reg).spec_lookup(self.id) is None ==> ({
                &&& *final(reg) == *old(reg)
                &&& r is None
            }),
            old(reg).spec_lookup(self.id) is Some ==> ({
                &&& final(reg).slot_of(self.id) == Some(
                    old(reg).spec_lookup(self.id)->Some_0.with_location(location),
                )
                &&& forall|p: u64|
                    p != self.id && old(reg).contains_id(p) ==> final(reg).slot_of(p) == old(
                        reg,
                    ).slot_of(p)
                &&& r == Some(StateMessage::UpdateLocation(self.id))
            }),
    {
        let applied = reg.update_location(self.id, location);
        if applied {
            Some(StateMessage::UpdateLocation(self.id))
        } else {
            None
        }
    }

    /// The close path: removes this session's own slot from the registry
    /// (idempotently: the slot may already be gone) and yields the close
    /// event to publish on the route. No other slot is touched.
    pub fn close_user(&self, reg: &mut RouteState) -> (r: StateMessage)
        requires
            old(reg).wf(),
        ensures
            final(reg).wf(),
            final(reg).last_id == old(reg).last_id,
            !final(reg).contains_id(self.id),
            forall|p: u64|
                p != self.id ==> final(reg).contains_id(p) == old(reg).contains_id(p),
            forall|p: u64|
                p != self.id && old(reg).contains_id(p) ==> final(reg).slot_of(p) == old(
                    reg,
                ).slot_of(p),
            r == StateMessage::CloseUser(self.id),
    {
        reg.remove_user(self.id);
        StateMessage::CloseUser(self.id)
    }
}

/// Eventual consistency: one surviving event about peer `p` brings a
/// session's local entry for `p` back in line with the registry. A
/// location update re-derives `p`'s visibility from the live registry; a
/// close event always evicts `p`; an introduction for a peer not yet in
/// the set admits it exactly when it is visible.
pub proof fn lemma_event_resyncs(users: Set<u64>, me: u64, reg: RouteState, p: u64)
    requires
        p != me,
    ensures
        spec_step(users, me, reg, StateMessage::UpdateLocation(p)).0.contains(p)
            == spec_should_send_id(reg, me, p) is Some,
        !spec_step(users, me, reg, StateMessage::CloseUser(p)).0.contains(p),
        !users.contains(p) ==> spec_step(users, me, reg, StateMessage::NewUser(p)).0.contains(p)
            == spec_should_send_id(reg, me, p) is Some,
{
}

/// Close completeness: any other session that still holds the closing
/// session in its local visibility set emits a `RemoveUser` for it on
/// receiving the close event, and drops it from the set. (That the close
/// path removes the closing session's own slot is part of the contract
/// of `UserState::close_user`.)
pub proof fn lemma_close_completeness(users: Set<u64>, other: u64, me: u64, reg: RouteState)
    requires
        me != other,
        users.contains(me),
    ensures
        spec_step(users, other, reg, StateMessage::CloseUser(me)).1 == Some(
            UserReceiveMessage::RemoveUser { id: me },
        ),
        !spec_step(users, other, reg, StateMessage::CloseUser(me)).0.contains(me),
        spec_step(users, other, reg, StateMessage::CloseUser(me)).2,
{
}

/// Pending isolation: a peer whose slot is absent or still pending is
/// never admitted into a session's local visibility set by any event
/// about it, and produces no notification - in particular, its close
/// notifies nobody that did not already see it.
pub proof fn lemma_pending_isolation(
    users: Set<u64>,
    me: u64,
    reg: RouteState,
    p: u64,
    msg: StateMessage,
)
    requires
        p != me,
        !users.contains(p),
        reg.spec_lookup(p) is None,
        msg == StateMessage::NewUser(p) || msg == StateMessage::UpdateLocation(p) || msg
            == StateMessage::CloseUser(p),
    ensures
        spec_step(users, me, reg, msg).0 == users,
        spec_step(users, me, reg, msg).1 is None,
        spec_step(users, me, reg, msg).2,
{
}

} // verus!
