use vstd::pervasive::VecAdditionalExecFns;
use vstd::prelude::*;

use crate::clock::timestamp_now;
use crate::domain::{
    AbortReason, Client, ClientMessage, ConnectionStatus, JoinInput, JoinOutput, Payload,
    RefusedReason, RoomRejection, SignalCode, SignalInput, SignalOutput,
};
use crate::identity::{has_uid, IdentityStore};
use crate::registry::{has_room, room_idx, Room, RoomRegistry};

verus! {

/// Whether `clients` holds a session with client identifier `cid`.
pub open spec fn has_client(clients: Seq<Client>, cid: u64) -> bool {
    exists|i: int| 0 <= i < clients.len() && clients[i].client_id == cid
}

/// The index of the session with client identifier `cid`; meaningful only
/// when `has_client` holds, and then unique under well-formedness.
pub open spec fn client_idx(clients: Seq<Client>, cid: u64) -> int {
    choose|i: int| 0 <= i < clients.len() && clients[i].client_id == cid
}

/// Whether `clients` holds a session owned by user `user`.
pub open spec fn has_client_for(clients: Seq<Client>, user: u64) -> bool {
    exists|i: int| 0 <= i < clients.len() && clients[i].user_id == user
}

/// The index of the session owned by user `user`; meaningful only when
/// `has_client_for` holds, and then unique under well-formedness.
pub open spec fn client_idx_for(clients: Seq<Client>, user: u64) -> int {
    choose|i: int| 0 <= i < clients.len() && clients[i].user_id == user
}

/// The sessions after a connect by `user` with delivery handle `addr`:
/// an existing session gets the fresh handle, otherwise a session is
/// created under the identifier `next_id`.
pub open spec fn spec_clients_after_connect(
    clients: Seq<Client>,
    next_id: u64,
    user: u64,
    addr: u64,
) -> Seq<Client> {
    if has_client_for(clients, user) {
        let i = client_idx_for(clients, user);
        clients.update(
            i,
            (Client {
                client_id: clients[i].client_id,
                address: Some(addr),
                user_id: user,
            }),
        )
    } else {
        clients.push((Client { client_id: next_id, address: Some(addr), user_id: user }))
    }
}

/// The sessions after a disconnect by `user`: the user's session, if any,
/// loses its delivery handle; a user without a session changes nothing,
/// which is what makes disconnecting idempotent.
pub open spec fn spec_clients_after_disconnect(clients: Seq<Client>, user: u64) -> Seq<Client> {
    if has_client_for(clients, user) {
        let i = client_idx_for(clients, user);
        clients.update(
            i,
            (Client { client_id: clients[i].client_id, address: None, user_id: user }),
        )
    } else {
        clients
    }
}

/// The delivery handles of the members of a room, in member order: one
/// handle for each member that currently has a connected session, and
/// nothing for the others.
pub open spec fn spec_targets(clients: Seq<Client>, members: Seq<u64>) -> Seq<u64>
    decreases members.len(),
{
    if members.len() == 0 {
        Seq::empty()
    } else {
        let rest = spec_targets(clients, members.drop_last());
        let m = members.last();
        if has_client(clients, m) && clients[client_idx(clients, m)].address is Some {
            rest.push(clients[client_idx(clients, m)].address->0)
        } else {
            rest
        }
    }
}

/// Whether member `m` currently has a session with a live delivery
/// handle.
pub open spec fn is_live(clients: Seq<Client>, m: u64) -> bool {
    has_client(clients, m) && clients[client_idx(clients, m)].address is Some
}

/// The members of `members` that currently have a live session.
pub open spec fn live_members(clients: Seq<Client>, members: Seq<u64>) -> Seq<u64> {
    members.filter(|m: u64| is_live(clients, m))
}

/// Law: routing attempts exactly one delivery per member with a live
/// session — a room with `k` connected members gets exactly `k` delivery
/// attempts, and a stale member costs only its own attempt, never the
/// others'.
pub proof fn lemma_one_target_per_live_member(clients: Seq<Client>, members: Seq<u64>)
    ensures
        spec_targets(clients, members).len() == live_members(clients, members).len(),
    decreases members.len(),
{
    reveal(Seq::filter);
    if members.len() != 0 {
        lemma_one_target_per_live_member(clients, members.drop_last());
    }
}

/// The index of the session with client identifier `cid`, if any.
fn find_client(clients: &Vec<Client>, cid: u64) -> (r: Option<usize>)
    ensures
        match r {
            Some(i) => i < clients@.len() && clients@[i as int].client_id == cid,
            None => !has_client(clients@, cid),
        },
{
    let mut i: usize = 0;
    while i < clients.len()
        invariant
            i <= clients@.len(),
            forall|j: int| 0 <= j < i ==> clients@[j].client_id != cid,
        decreases clients@.len() - i,
    {
        if clients[i].client_id == cid {
            return Some(i);
        }
        i = i + 1;
    }
    None
}

/// The index of the session owned by user `user`, if any.
fn find_client_for(clients: &Vec<Client>, user: u64) -> (r: Option<usize>)
    ensures
        match r {
            Some(i) => i < clients@.len() && clients@[i as int].user_id == user,
            None => !has_client_for(clients@, user),
        },
{
    let mut i: usize = 0;
    while i < clients.len()
        invariant
            i <= clients@.len(),
            forall|j: int| 0 <= j < i ==> clients@[j].user_id != user,
        decreases clients@.len() - i,
    {
        if clients[i].user_id == user {
            return Some(i);
        }
        i = i + 1;
    }
    None
}

/// Law: a join against a room that already holds as many members as its
/// positive capacity allows is rejected, whoever asks; so with capacity
/// `c` and `c` members present, every further join attempt comes back
/// rejected.
pub proof fn lemma_full_room_rejects(h: Hub, target: u64, client: u64)
    requires
        h.wf(),
        has_room(h.registry.rooms@, target),
        h.registry.rooms@[room_idx(h.registry.rooms@, target)].is_full(),
    ensures
        h.spec_join_outcome(target, client) is Rejected,
{
}

/// Law: disconnecting is idempotent on the sessions — a second disconnect
/// of the same user leaves exactly the state the first one left (and each
/// call reports the disconnected state, by `Hub::diconnect`'s contract).
pub proof fn lemma_disconnect_idempotent(clients: Seq<Client>, user: u64)
    requires
        forall|i: int, j: int| 0 <= i < j < clients.len() ==> clients[i].user_id != clients[j].user_id,
    ensures
        spec_clients_after_disconnect(spec_clients_after_disconnect(clients, user), user)
            == spec_clients_after_disconnect(clients, user),
{
    if has_client_for(clients, user) {
        let i = client_idx_for(clients, user);
        assert(0 <= i < clients.len() && clients[i].user_id == user);
        let c1 = spec_clients_after_disconnect(clients, user);
        assert(c1[i].user_id == user);
        assert(has_client_for(c1, user));
        let j = client_idx_for(c1, user);
        assert(0 <= j < c1.len() && c1[j].user_id == user);
        assert(j == i) by {
            if j != i {
                assert(c1[j] == clients[j]);
            }
        }
        assert(spec_clients_after_disconnect(c1, user) =~= c1);
    }
}

/// The coordinator: owns the identity store, the room registry, the live
/// sessions and the addresses still awaiting a join negotiation, and runs
/// the per-client presence state machine over them.
pub struct Hub {
    pub identity: IdentityStore,
    pub registry: RoomRegistry,
    pub clients: Vec<Client>,
    pub pending: Vec<u64>,
    pub next_client_id: u64,
}

impl Hub {
    /// Well-formedness: both stores are well formed, session and user
    /// identifiers are unique across sessions, and each session
    /// identifier was assigned below the next one to hand out.
    pub open spec fn wf(&self) -> bool {
        &&& self.identity.wf()
        &&& self.registry.wf()
        &&& (forall|i: int, j: int|
            0 <= i < j < self.clients@.len() ==> self.clients@[i].client_id
                != self.clients@[j].client_id)
        &&& (forall|i: int, j: int|
            0 <= i < j < self.clients@.len() ==> self.clients@[i].user_id
                != self.clients@[j].user_id)
        &&& (forall|i: int|
            0 <= i < self.clients@.len() ==> #[trigger] self.clients@[i].client_id
                < self.next_client_id)
    }

    /// An empty coordinator.
    pub fn new() -> (s: Hub)
        ensures
            s.wf(),
            s.identity.users@.len() == 0,
            s.registry.rooms@.len() == 0,
            s.clients@.len() == 0,
            s.pending@.len() == 0,
            s.identity.next_uid == 0,
            s.registry.next_room_id == 0,
            s.next_client_id == 0,
    {
        Hub {
            identity: IdentityStore::new(),
            registry: RoomRegistry::new(),
            clients: Vec::new(),
            pending: Vec::new(),
            next_client_id: 0,
        }
    }

    /// The status a connect request is owed: the room must exist, then
    /// the user must exist, and only then is the session connected.
    pub open spec fn spec_connect_status(self, user: u64, room_id: u64) -> ConnectionStatus {
        if !has_room(self.registry.rooms@, room_id) {
            ConnectionStatus::Aborted(AbortReason::UNACCEPTABLE(RoomRejection::UnknownRoom))
        } else if !has_uid(self.identity.users@, user) {
            ConnectionStatus::Aborted(AbortReason::UNACCEPTABLE(RoomRejection::UnknownUser))
        } else {
            ConnectionStatus::Connected
        }
    }

    /// Connects `user` with the live delivery handle `addr`, against the
    /// room `room_id`: validates that room and user exist, then stores
    /// the handle on the user's session, creating the session on its
    /// first connection. A failed validation aborts and changes nothing.
    pub fn connect(&mut self, user: u64, addr: u64, room_id: u64) -> (r: SignalOutput)
        requires
            old(self).wf(),
            old(self).next_client_id < u64::MAX,
        ensures
            final(self).wf(),
            r.status == old(self).spec_connect_status(user, room_id),
            r.status is Connected ==> {
                &&& final(self).clients@ == spec_clients_after_connect(
                    old(self).clients@,
                    old(self).next_client_id,
                    user,
                    addr,
                )
                &&& final(self).next_client_id == (if has_client_for(old(self).clients@, user) {
                    old(self).next_client_id
                } else {
                    (old(self).next_client_id + 1) as u64
                })
                &&& final(self).identity == old(self).identity
                &&& final(self).registry == old(self).registry
                &&& final(self).pending == old(self).pending
            },
            !(r.status is Connected) ==> *final(self) == *old(self),
    {
        let stamp = timestamp_now();
        if self.registry.index_of(room_id).is_none() {
            return SignalOutput {
                status: ConnectionStatus::Aborted(
                    AbortReason::UNACCEPTABLE(RoomRejection::UnknownRoom),
                ),
                signaled_at: stamp,
            };
        }
        if self.identity.find_by_uid(user).is_none() {
            return SignalOutput {
                status: ConnectionStatus::Aborted(
                    AbortReason::UNACCEPTABLE(RoomRejection::UnknownUser),
                ),
                signaled_at: stamp,
            };
        }
        match find_client_for(&self.clients, user) {
            Some(i) => {
                let cid = self.clients[i].client_id;
                self.clients.set(i, Client { client_id: cid, address: Some(addr), user_id: user });
                proof {
                    let k = client_idx_for(old(self).clients@, user);
                    assert(0 <= k < old(self).clients@.len() && old(self).clients@[k].user_id
                        == user);
                    assert(k == i);
                }
            },
            None => {
                let id = self.next_client_id;
                self.clients.push(Client { client_id: id, address: Some(addr), user_id: user });
                self.next_client_id = id + 1;
            },
        }
        SignalOutput { status: ConnectionStatus::Connected, signaled_at: stamp }
    }

    /// Clears the stored delivery handle of the user's session, reaching
    /// the disconnected state from any state; on a client that is already
    /// disconnected, or never existed, this is a no-op that still reports
    /// the disconnected state, so the operation is idempotent.
    pub fn diconnect(&mut self, user: u64) -> (r: SignalOutput)
        requires
            old(self).wf(),
        ensures
            final(self).wf(),
            r.status is Disconnected,
            final(self).clients@ == spec_clients_after_disconnect(old(self).clients@, user),
            final(self).identity == old(self).identity,
            final(self).registry == old(self).registry,
            final(self).pending == old(self).pending,
            final(self).next_client_id == old(self).next_client_id,
    {
        let stamp = timestamp_now();
        match find_client_for(&self.clients, user) {
            Some(i) => {
                let cid = self.clients[i].client_id;
                self.clients.set(i, Client { client_id: cid, address: None, user_id: user });
                proof {
                    let k = client_idx_for(old(self).clients@, user);
                    assert(0 <= k < old(self).clients@.len() && old(self).clients@[k].user_id
                        == user);
                    assert(k == i);
                }
            },
            None => {
            },
        }
        SignalOutput { status: ConnectionStatus::Disconnected, signaled_at: stamp }
    }

    /// Registers a delivery handle that is not yet attached to any room's
    /// delivery set, for use while a join is still being negotiated. The
    /// channel is live, so the reported state is connected.
    pub fn pending(&mut self, addr: u64) -> (r: SignalOutput)
        requires
            old(self).wf(),
        ensures
            final(self).wf(),
            r.status is Connected,
            final(self).pending@ == old(self).pending@.push(addr),
            final(self).identity == old(self).identity,
            final(self).registry == old(self).registry,
            final(self).clients == old(self).clients,
            final(self).next_client_id == old(self).next_client_id,
    {
        let stamp = timestamp_now();
        self.pending.push(addr);
        SignalOutput { status: ConnectionStatus::Connected, signaled_at: stamp }
    }

    /// Dispatches a presence-transition request to the transition it
    /// names.
    pub fn handle_signal(&mut self, input: SignalInput) -> (r: SignalOutput)
        requires
            old(self).wf(),
            old(self).next_client_id < u64::MAX,
        ensures
            final(self).wf(),
            input.code is Connect ==> {
                &&& r.status == old(self).spec_connect_status(input.id, input.room_id)
                &&& (r.status is Connected ==> final(self).clients@ == spec_clients_after_connect(
                    old(self).clients@,
                    old(self).next_client_id,
                    input.id,
                    input.addr,
                ) && final(self).next_client_id == (if has_client_for(
                    old(self).clients@,
                    input.id,
                ) {
                    old(self).next_client_id
                } else {
                    (old(self).next_client_id + 1) as u64
                }) && final(self).identity == old(self).identity && final(self).registry == old(
                    self,
                ).registry && final(self).pending == old(self).pending)
                &&& (!(r.status is Connected) ==> *final(self) == *old(self))
            },
            input.code is Disconnect ==> {
                &&& r.status is Disconnected
                &&& final(self).clients@ == spec_clients_after_disconnect(
                    old(self).clients@,
                    input.id,
                )
                &&& final(self).identity == old(self).identity
                &&& final(self).registry == old(self).registry
                &&& final(self).pending == old(self).pending
                &&& final(self).next_client_id == old(self).next_client_id
            },
            input.code is Pending ==> {
                &&& r.status is Connected
                &&& final(self).pending@ == old(self).pending@.push(input.addr)
                &&& final(self).identity == old(self).identity
                &&& final(self).registry == old(self).registry
                &&& final(self).clients == old(self).clients
                &&& final(self).next_client_id == old(self).next_client_id
            },
    {
        match input.code {
            SignalCode::Connect => self.connect(input.id, input.addr, input.room_id),
            SignalCode::Disconnect => self.diconnect(input.id),
            SignalCode::Pending => self.pending(input.addr),
        }
    }

    /// The outcome a join request is owed, checked in order: the room
    /// must exist, the client must exist, the room must have space left,
    /// and a client already a member is rejected rather than re-added.
    pub open spec fn spec_join_outcome(self, target: u64, client: u64) -> JoinOutput {
        if !has_room(self.registry.rooms@, target) {
            JoinOutput::Rejected(RoomRejection::UnknownRoom)
        } else if !has_client(self.clients@, client) {
            JoinOutput::Rejected(RoomRejection::UnknownUser)
        } else {
            let room = self.registry.rooms@[room_idx(self.registry.rooms@, target)];
            if room.is_full() {
                JoinOutput::Rejected(RoomRejection::Reject(RefusedReason::FULL))
            } else if room.is_member(client) {
                JoinOutput::Rejected(RoomRejection::Reject(RefusedReason::ALREADYMEMBER))
            } else {
                JoinOutput::Success
            }
        }
    }

    /// Negotiates a room join. On success the client becomes a member,
    /// the member count grows by one, and the client's session holds the
    /// offered delivery handle; every rejection leaves the coordinator
    /// untouched. The capacity check and the membership addition happen
    /// under one exclusive borrow, so two simultaneous joiners cannot
    /// race past the capacity.
    pub fn join(&mut self, input: JoinInput) -> (r: JoinOutput)
        requires
            old(self).wf(),
        ensures
            final(self).wf(),
            r == old(self).spec_join_outcome(input.target_id, input.client_id),
            !(r is Success) ==> *final(self) == *old(self),
            r is Success ==> {
                let k = room_idx(old(self).registry.rooms@, input.target_id);
                let room0 = old(self).registry.rooms@[k];
                let ci = client_idx(old(self).clients@, input.client_id);
                &&& final(self).registry.rooms@.len() == old(self).registry.rooms@.len()
                &&& (forall|i: int|
                    0 <= i < old(self).registry.rooms@.len() && i != k ==> #[trigger] final(self).registry.rooms@[i] == old(self).registry.rooms@[i])
                &&& final(self).registry.rooms@[k].client_ids@ == room0.client_ids@.push(
                    input.client_id,
                )
                &&& final(self).registry.rooms@[k].participants == room0.participants + 1
                &&& final(self).registry.rooms@[k].name == room0.name
                &&& final(self).registry.rooms@[k].room_id == room0.room_id
                &&& final(self).registry.rooms@[k].capacity == room0.capacity
                &&& final(self).registry.rooms@[k].admin == room0.admin
                &&& final(self).registry.rooms@[k].message_storage == room0.message_storage
                &&& final(self).clients@ == old(self).clients@.update(
                    ci,
                    (Client {
                        client_id: input.client_id,
                        address: Some(input.addr),
                        user_id: old(self).clients@[ci].user_id,
                    }),
                )
                &&& final(self).identity == old(self).identity
                &&& final(self).pending == old(self).pending
                &&& final(self).next_client_id == old(self).next_client_id
                &&& final(self).registry.next_room_id == old(self).registry.next_room_id
            },
    {
        let ridx = match self.registry.index_of(input.target_id) {
            None => {
                return JoinOutput::Rejected(RoomRejection::UnknownRoom);
            },
            Some(x) => x,
        };
        let cidx = match find_client(&self.clients, input.client_id) {
            None => {
                return JoinOutput::Rejected(RoomRejection::UnknownUser);
            },
            Some(x) => x,
        };
        proof {
            let k = room_idx(self.registry.rooms@, input.target_id);
            assert(0 <= k < self.registry.rooms@.len() && self.registry.rooms@[k].room_id
                == input.target_id);
            assert(k == ridx);
            let c = client_idx(self.clients@, input.client_id);
            assert(0 <= c < self.clients@.len() && self.clients@[c].client_id == input.client_id);
            assert(c == cidx);
        }
        let full = match self.registry.rooms[ridx].capacity {
            Some(c) => c > 0 && self.registry.rooms[ridx].client_ids.len() >= (c as usize),
            None => false,
        };
        if full {
            return JoinOutput::Rejected(RoomRejection::Reject(RefusedReason::FULL));
        }
        if Self::vec_holds(&self.registry.rooms[ridx].client_ids, input.client_id) {
            return JoinOutput::Rejected(RoomRejection::Reject(RefusedReason::ALREADYMEMBER));
        }
        let mut tmp = Room {
            name: "-".to_owned(),
            room_id: 0,
            client_ids: Vec::new(),
            capacity: None,
            message_storage: Vec::new(),
            participants: 0,
            admin: 0,
        };
        self.registry.rooms.set_and_swap(ridx, &mut tmp);
        tmp.append_client(input.client_id);
        self.registry.rooms.set_and_swap(ridx, &mut tmp);
        proof {
            assert(self.registry.rooms@ =~= old(self).registry.rooms@.update(
                ridx as int,
                self.registry.rooms@[ridx as int],
            ));
        }
        let uid = self.clients[cidx].user_id;
        self.clients.set(
            cidx,
            Client { client_id: input.client_id, address: Some(input.addr), user_id: uid },
        );
        JoinOutput::Success
    }

    /// Whether `v` holds `x`.
    fn vec_holds(v: &Vec<u64>, x: u64) -> (r: bool)
        ensures
            r == v@.contains(x),
    {
        let mut i: usize = 0;
        while i < v.len()
            invariant
                i <= v@.len(),
                forall|j: int| 0 <= j < i ==> v@[j] != x,
            decreases v@.len() - i,
        {
            if v[i] == x {
                return true;
            }
            i = i + 1;
        }
        proof {
            if v@.contains(x) {
                let w = choose|w: int| 0 <= w < v@.len() && v@[w] == x;
                assert(v@[w] == x);
            }
        }
        false
    }

    /// Routes a chat message: records it as the sender's latest message
    /// in the room, then hands back the delivery handles of every member
    /// with a connected session — one handle per connected member, in
    /// member order — for the caller to attempt, each attempt in
    /// isolation from the others. An unknown room changes nothing and
    /// yields no targets.
    pub fn route(&mut self, msg: ClientMessage) -> (r: Vec<u64>)
        requires
            old(self).wf(),
        ensures
            final(self).wf(),
            !has_room(old(self).registry.rooms@, msg.room_id) ==> r@ == Seq::<u64>::empty()
                && *final(self) == *old(self),
            has_room(old(self).registry.rooms@, msg.room_id) ==> {
                let k = room_idx(old(self).registry.rooms@, msg.room_id);
                let room0 = old(self).registry.rooms@[k];
                &&& r@ == spec_targets(old(self).clients@, room0.client_ids@)
                &&& final(self).registry.rooms@.len() == old(self).registry.rooms@.len()
                &&& (forall|i: int|
                    0 <= i < old(self).registry.rooms@.len() && i != k ==> #[trigger] final(self).registry.rooms@[i] == old(self).registry.rooms@[i])
                &&& (final(self).registry.rooms@[k].msg_of(msg.cl_id) matches Some(p)
                    && p.message@ == msg.message@)
                &&& (forall|s: u64|
                    s != msg.cl_id ==> final(self).registry.rooms@[k].msg_of(s) == room0.msg_of(s))
                &&& final(self).registry.rooms@[k].client_ids == room0.client_ids
                &&& final(self).registry.rooms@[k].name == room0.name
                &&& final(self).registry.rooms@[k].room_id == room0.room_id
                &&& final(self).registry.rooms@[k].capacity == room0.capacity
                &&& final(self).registry.rooms@[k].participants == room0.participants
                &&& final(self).registry.rooms@[k].admin == room0.admin
                &&& final(self).clients == old(self).clients
                &&& final(self).identity == old(self).identity
                &&& final(self).pending == old(self).pending
                &&& final(self).next_client_id == old(self).next_client_id
                &&& final(self).registry.next_room_id == old(self).registry.next_room_id
            },
    {
        let ridx = match self.registry.index_of(msg.room_id) {
            None => {
                return Vec::new();
            },
            Some(x) => x,
        };
        proof {
            let k = room_idx(self.registry.rooms@, msg.room_id);
            assert(0 <= k < self.registry.rooms@.len() && self.registry.rooms@[k].room_id
                == msg.room_id);
            assert(k == ridx);
        }
        let payload = Payload::new(msg.message.as_str());
        let mut tmp = Room {
            name: "-".to_owned(),
            room_id: 0,
            client_ids: Vec::new(),
            capacity: None,
            message_storage: Vec::new(),
            participants: 0,
            admin: 0,
        };
        self.registry.rooms.set_and_swap(ridx, &mut tmp);
        tmp.append_message(payload, msg.cl_id);
        let ghost members = tmp.client_ids@;
        let mut out: Vec<u64> = Vec::new();
        let mut i: usize = 0;
        while i < tmp.client_ids.len()
            invariant
                i <= members.len(),
                tmp.client_ids@ == members,
                out@ == spec_targets(self.clients@, members.take(i as int)),
                forall|p: int, q: int|
                    0 <= p < q < self.clients@.len() ==> self.clients@[p].client_id
                        != self.clients@[q].client_id,
            decreases members.len() - i,
        {
            let m = tmp.client_ids[i];
            let ghost out_before = out@;
            match find_client(&self.clients, m) {
                Some(j) => {
                    proof {
                        let c = client_idx(self.clients@, m);
                        assert(0 <= c < self.clients@.len() && self.clients@[c].client_id == m);
                        assert(c == j);
                    }
                    match self.clients[j].address {
                        Some(a) => {
                            out.push(a);
                        },
                        None => {
                        },
                    }
                },
                None => {
                },
            }
            proof {
                assert(members.take(i + 1).drop_last() =~= members.take(i as int));
                assert(members.take(i + 1).last() == members[i as int]);
            }
            i = i + 1;
        }
        proof {
            assert(members.take(members.len() as int) =~= members);
        }
        self.registry.rooms.set_and_swap(ridx, &mut tmp);
        proof {
            assert(self.registry.rooms@ =~= old(self).registry.rooms@.update(
                ridx as int,
                self.registry.rooms@[ridx as int],
            ));
        }
        out
    }
}

} // verus!
