use vstd::pervasive::VecAdditionalExecFns;
use vstd::prelude::*;

use crate::domain::{
    CreateRoom, FailureReason, Payload, RefusedReason, RoomCreation, RoomCreationStatus, RoomError,
    RoomRejection, RoomRetrieval,
};

verus! {

/// The per-sender "last message" records of a room: not a log, each new
/// message from a sender overwrites that sender's previous one.
pub type MessageStorage = Vec<(u64, Payload)>;

/// Whether `msgs` holds a record for `sender`.
pub open spec fn has_msg(msgs: Seq<(u64, Payload)>, sender: u64) -> bool {
    exists|i: int| 0 <= i < msgs.len() && msgs[i].0 == sender
}

/// The index of the record for `sender`; meaningful only when `has_msg`
/// holds, and then unique under the room's well-formedness.
pub open spec fn msg_idx(msgs: Seq<(u64, Payload)>, sender: u64) -> int {
    choose|i: int| 0 <= i < msgs.len() && msgs[i].0 == sender
}

/// A named, optionally capacity-bounded group of clients sharing message
/// delivery. A positive capacity bounds the member count; a negative or
/// absent capacity means unlimited.
#[derive(Debug)]
pub struct Room {
    pub name: String,
    pub room_id: u64,
    pub client_ids: Vec<u64>,
    pub capacity: Option<i32>,
    pub message_storage: MessageStorage,
    pub participants: usize,
    pub admin: u64,
}

impl Room {
    /// Well-formedness: the member count equals the member-set size, the
    /// admin is always a member, members are distinct, a present capacity
    /// is never zero and a positive one is never exceeded, the name is
    /// non-empty, and each sender has at most one last-message record.
    pub open spec fn wf(&self) -> bool {
        &&& self.participants == self.client_ids@.len()
        &&& self.client_ids@.contains(self.admin)
        &&& (forall|i: int, j: int|
            0 <= i < j < self.client_ids@.len() ==> self.client_ids@[i] != self.client_ids@[j])
        &&& (self.capacity matches Some(c) ==> c != 0 && (c > 0 ==> self.client_ids@.len() <= c))
        &&& self.name@.len() > 0
        &&& (forall|i: int, j: int|
            0 <= i < j < self.message_storage@.len() ==> self.message_storage@[i].0
                != self.message_storage@[j].0)
    }

    /// Whether `cid` is a member of the room.
    pub open spec fn is_member(&self, cid: u64) -> bool {
        self.client_ids@.contains(cid)
    }

    /// Whether the room already holds as many members as a positive
    /// capacity allows.
    pub open spec fn is_full(&self) -> bool {
        self.capacity matches Some(c) && c > 0 && self.client_ids@.len() >= c
    }

    /// The last message recorded for `sender`, if any.
    pub open spec fn msg_of(&self, sender: u64) -> Option<Payload> {
        lookup(self.message_storage@, sender)
    }

    /// Creates a room with the admin as sole initial member. An empty
    /// name is refused; a capacity of zero is unacceptable; a negative
    /// capacity means unlimited. The identifier is assigned by the
    /// registry that adopts the room.
    pub fn create(name: String, cap: Option<i32>, admin: u64) -> (r: Result<Room, RoomError>)
        ensures
            name@.len() == 0 ==> r matches Err(
                RoomError::REFUSED(RoomRejection::Reject(RefusedReason::EMPTY)),
            ),
            name@.len() != 0 && cap == Some(0i32) ==> (r matches Err(RoomError::UNACCEPTABLE(m))
                && m@ == "The capacity must be greater than 0!"@),
            name@.len() != 0 && cap != Some(0i32) ==> (r matches Ok(room) && room.wf()
                && room.name@ == name@ && room.capacity == cap && room.client_ids@ =~= seq![admin]
                && room.participants == 1 && room.admin == admin && room.message_storage@.len()
                == 0 && room.room_id == 0),
    {
        let num: i32 = match cap {
            Some(c) => c,
            None => -1,
        };
        if name.as_str().is_empty() {
            Err(RoomError::REFUSED(RoomRejection::Reject(RefusedReason::EMPTY)))
        } else if num == 0 {
            Err(RoomError::UNACCEPTABLE("The capacity must be greater than 0!".to_owned()))
        } else {
            let mut new_cls: Vec<u64> = Vec::new();
            new_cls.push(admin);
            let room = Room {
                name,
                capacity: cap,
                message_storage: Vec::new(),
                room_id: 0,
                client_ids: new_cls,
                participants: 1,
                admin,
            };
            proof {
                assert(room.client_ids@ =~= seq![admin]);
                assert(room.client_ids@.contains(admin)) by {
                    assert(room.client_ids@[0] == admin);
                }
            }
            Ok(room)
        }
    }

    /// Adds a member. The capacity check and this addition happen inside
    /// one exclusive borrow of the room, so no concurrent join can slip a
    /// member past the capacity between the two.
    pub fn append_client(&mut self, new_client: u64)
        requires
            old(self).wf(),
            !old(self).is_full(),
            !old(self).is_member(new_client),
        ensures
            final(self).wf(),
            final(self).client_ids@ == old(self).client_ids@.push(new_client),
            final(self).participants == old(self).participants + 1,
            final(self).name == old(self).name,
            final(self).room_id == old(self).room_id,
            final(self).capacity == old(self).capacity,
            final(self).message_storage == old(self).message_storage,
            final(self).admin == old(self).admin,
    {
        self.client_ids.push(new_client);
        self.participants = self.client_ids.len();
        proof {
            assert(self.client_ids@.contains(self.admin)) by {
                let k = choose|k: int|
                    0 <= k < old(self).client_ids@.len() && old(self).client_ids@[k] == self.admin;
                assert(old(self).client_ids@.contains(self.admin));
                assert(self.client_ids@[k] == self.admin);
            }
        }
    }

    /// The index of the last-message record for `sender`, if any.
    fn find_record(msgs: &MessageStorage, sender: u64) -> (r: Option<usize>)
        ensures
            match r {
                Some(i) => i < msgs@.len() && msgs@[i as int].0 == sender,
                None => forall|j: int| 0 <= j < msgs@.len() ==> msgs@[j].0 != sender,
            },
    {
        let mut i: usize = 0;
        while i < msgs.len()
            invariant
                i <= msgs@.len(),
                forall|j: int| 0 <= j < i ==> msgs@[j].0 != sender,
            decreases msgs@.len() - i,
        {
            if msgs[i].0 == sender {
                return Some(i);
            }
            i = i + 1;
        }
        None
    }

    /// Records `payload` as the latest message from `sender`, overwriting
    /// any prior record of that sender and touching nobody else's.
    pub fn append_message(&mut self, payload: Payload, sender: u64)
        requires
            old(self).wf(),
        ensures
            final(self).wf(),
            final(self).msg_of(sender) == Some(payload),
            forall|s: u64| s != sender ==> final(self).msg_of(s) == old(self).msg_of(s),
            final(self).name == old(self).name,
            final(self).room_id == old(self).room_id,
            final(self).client_ids == old(self).client_ids,
            final(self).capacity == old(self).capacity,
            final(self).participants == old(self).participants,
            final(self).admin == old(self).admin,
    {
        let ghost m0 = self.message_storage@;
        let found = Self::find_record(&self.message_storage, sender);
        match found {
            Some(k) => {
                self.message_storage.set(k, (sender, payload));
                proof {
                    let m1 = self.message_storage@;
                    assert(m1 == m0.update(k as int, (sender, payload)));
                    assert forall|j: int| 0 <= j < m1.len() implies m1[j].0 == m0[j].0 by {
                        if j != k {
                            assert(m1[j] == m0[j]);
                        }
                    }
                    lemma_msg_overwrite(m0, m1, k as int, sender, payload);
                }
            },
            None => {
                self.message_storage.push((sender, payload));
                proof {
                    let m1 = self.message_storage@;
                    assert(m1 == m0.push((sender, payload)));
                    lemma_msg_append(m0, m1, sender, payload);
                }
            },
        }
    }
}

/// After replacing the one record of `sender` at index `k`, the lookup
/// for `sender` yields the new payload and every other lookup is as it
/// was.
proof fn lemma_msg_overwrite(
    m0: Seq<(u64, Payload)>,
    m1: Seq<(u64, Payload)>,
    k: int,
    sender: u64,
    payload: Payload,
)
    requires
        forall|i: int, j: int| 0 <= i < j < m0.len() ==> m0[i].0 != m0[j].0,
        0 <= k < m0.len(),
        m0[k].0 == sender,
        m1 == m0.update(k, (sender, payload)),
    ensures
        forall|i: int, j: int| 0 <= i < j < m1.len() ==> m1[i].0 != m1[j].0,
        has_msg(m1, sender) && m1[msg_idx(m1, sender)].1 == payload,
        forall|s: u64|
            s != sender ==> #[trigger] lookup(m1, s) == lookup(m0, s),
{
    assert forall|i: int| 0 <= i < m1.len() implies m1[i].0 == m0[i].0 by {
        if i != k {
            assert(m1[i] == m0[i]);
        }
    }
    assert(has_msg(m1, sender));
    let t = msg_idx(m1, sender);
    assert(0 <= t < m1.len() && m1[t].0 == sender);
    assert(t == k) by {
        if t != k {
            assert(m0[t].0 == sender && m0[k].0 == sender);
        }
    }
    assert forall|s: u64| s != sender implies #[trigger] lookup(m1, s) == lookup(m0, s) by {
        lemma_lookup_same_keys(m0, m1, s);
    }
}

/// After appending a record for a sender who had none, the lookup for
/// that sender yields the new payload and every other lookup is as it
/// was.
proof fn lemma_msg_append(
    m0: Seq<(u64, Payload)>,
    m1: Seq<(u64, Payload)>,
    sender: u64,
    payload: Payload,
)
    requires
        forall|i: int, j: int| 0 <= i < j < m0.len() ==> m0[i].0 != m0[j].0,
        forall|j: int| 0 <= j < m0.len() ==> m0[j].0 != sender,
        m1 == m0.push((sender, payload)),
    ensures
        forall|i: int, j: int| 0 <= i < j < m1.len() ==> m1[i].0 != m1[j].0,
        has_msg(m1, sender) && m1[msg_idx(m1, sender)].1 == payload,
        forall|s: u64|
            s != sender ==> #[trigger] lookup(m1, s) == lookup(m0, s),
{
    assert(m1[m0.len() as int] == (sender, payload));
    assert forall|i: int, j: int| 0 <= i < j < m1.len() implies m1[i].0 != m1[j].0 by {
        if j < m0.len() {
            assert(m1[i] == m0[i] && m1[j] == m0[j]);
        } else {
            assert(m1[i] == m0[i]);
        }
    }
    assert(has_msg(m1, sender));
    let t = msg_idx(m1, sender);
    assert(0 <= t < m1.len() && m1[t].0 == sender);
    assert(t == m0.len()) by {
        if t < m0.len() {
            assert(m0[t].0 == sender);
        }
    }
    assert forall|s: u64| s != sender implies #[trigger] lookup(m1, s) == lookup(m0, s) by {
        if has_msg(m1, s) {
            let u = msg_idx(m1, s);
            assert(0 <= u < m1.len() && m1[u].0 == s);
            assert(u < m0.len());
            assert(m1[u] == m0[u]);
            assert(has_msg(m0, s));
            let v = msg_idx(m0, s);
            assert(m1[v] == m0[v]);
            assert(v == u);
        } else {
            if has_msg(m0, s) {
                let v = msg_idx(m0, s);
                assert(m1[v] == m0[v]);
                assert(has_msg(m1, s));
            }
        }
    }
}

/// The last-message lookup, as a value: the payload recorded for `s`.
pub open spec fn lookup(msgs: Seq<(u64, Payload)>, s: u64) -> Option<Payload> {
    if has_msg(msgs, s) {
        Some(msgs[msg_idx(msgs, s)].1)
    } else {
        None
    }
}

/// Two sequences whose records agree except at one key agree on every
/// other key's lookup.
proof fn lemma_lookup_same_keys(m0: Seq<(u64, Payload)>, m1: Seq<(u64, Payload)>, s: u64)
    requires
        m0.len() == m1.len(),
        forall|i: int, j: int| 0 <= i < j < m0.len() ==> m0[i].0 != m0[j].0,
        exists|k: int|
            0 <= k < m0.len() && (forall|i: int| 0 <= i < m0.len() && i != k ==> m0[i] == m1[i])
                && m0[k].0 == m1[k].0 && m0[k].0 != s,
    ensures
        lookup(m1, s) == lookup(m0, s),
{
    let k = choose|k: int|
        0 <= k < m0.len() && (forall|i: int| 0 <= i < m0.len() && i != k ==> m0[i] == m1[i])
            && m0[k].0 == m1[k].0 && m0[k].0 != s;
    if has_msg(m1, s) {
        let u = msg_idx(m1, s);
        assert(0 <= u < m1.len() && m1[u].0 == s);
        assert(u != k);
        assert(m1[u] == m0[u]);
        assert(has_msg(m0, s));
        let v = msg_idx(m0, s);
        assert(0 <= v < m0.len() && m0[v].0 == s);
        assert(v != k);
        assert(m1[v] == m0[v]);
        assert(v == u);
    } else {
        if has_msg(m0, s) {
            let v = msg_idx(m0, s);
            assert(v != k);
            assert(m1[v] == m0[v]);
            assert(has_msg(m1, s));
        }
    }
}

/// A snapshot of a room's member identifiers, taken so that callers can
/// walk the membership without holding the room itself.
#[derive(Debug)]
pub struct RoomIter {
    pub iter: Vec<u64>,
}

impl Room {
    /// A snapshot of the member identifiers, in member order.
    pub fn iter(&self) -> (r: RoomIter)
        ensures
            r.iter@ == self.client_ids@,
    {
        let mut snapshot: Vec<u64> = Vec::new();
        let mut i: usize = 0;
        while i < self.client_ids.len()
            invariant
                i <= self.client_ids@.len(),
                snapshot@ == self.client_ids@.take(i as int),
            decreases self.client_ids@.len() - i,
        {
            snapshot.push(self.client_ids[i]);
            proof {
                assert(self.client_ids@.take(i + 1) =~= self.client_ids@.take(i as int).push(
                    self.client_ids@[i as int],
                ));
            }
            i = i + 1;
        }
        proof {
            assert(self.client_ids@.take(self.client_ids@.len() as int) =~= self.client_ids@);
        }
        RoomIter { iter: snapshot }
    }
}

/// Whether `rooms` holds a room with identifier `id`.
pub open spec fn has_room(rooms: Seq<Room>, id: u64) -> bool {
    exists|i: int| 0 <= i < rooms.len() && rooms[i].room_id == id
}

/// The index of the room with identifier `id`; meaningful only when
/// `has_room` holds, and then unique under the registry's
/// well-formedness.
pub open spec fn room_idx(rooms: Seq<Room>, id: u64) -> int {
    choose|i: int| 0 <= i < rooms.len() && rooms[i].room_id == id
}

/// The room registry: owns every room and creates rooms under the
/// capacity rules.
pub struct RoomRegistry {
    pub rooms: Vec<Room>,
    pub next_room_id: u64,
}

impl RoomRegistry {
    /// Well-formedness: every room is well formed, identifiers are
    /// unique, and each was assigned below the next one to hand out.
    pub open spec fn wf(&self) -> bool {
        &&& (forall|i: int| 0 <= i < self.rooms@.len() ==> (#[trigger] self.rooms@[i]).wf())
        &&& (forall|i: int, j: int|
            0 <= i < j < self.rooms@.len() ==> self.rooms@[i].room_id != self.rooms@[j].room_id)
        &&& (forall|i: int|
            0 <= i < self.rooms@.len() ==> #[trigger] self.rooms@[i].room_id < self.next_room_id)
    }

    /// An empty registry.
    pub fn new() -> (s: RoomRegistry)
        ensures
            s.wf(),
            s.rooms@.len() == 0,
            s.next_room_id == 0,
    {
        RoomRegistry { rooms: Vec::new(), next_room_id: 0 }
    }

    /// The index of the room with identifier `id`, if any.
    pub(crate) fn index_of(&self, id: u64) -> (r: Option<usize>)
        ensures
            match r {
                Some(i) => i < self.rooms@.len() && self.rooms@[i as int].room_id == id,
                None => !has_room(self.rooms@, id),
            },
    {
        let mut i: usize = 0;
        while i < self.rooms.len()
            invariant
                i <= self.rooms@.len(),
                forall|j: int| 0 <= j < i ==> self.rooms@[j].room_id != id,
            decreases self.rooms@.len() - i,
        {
            if self.rooms[i].room_id == id {
                return Some(i);
            }
            i = i + 1;
        }
        None
    }

    /// Creates a room from the request and adopts it under a fresh
    /// identifier; the creator is its admin and sole initial member.
    /// Refusals mirror those of `Room::create` and leave the registry
    /// unchanged.
    pub fn create_room(&mut self, req: CreateRoom) -> (r: RoomCreation)
        requires
            old(self).wf(),
            old(self).next_room_id < u64::MAX,
        ensures
            final(self).wf(),
            req.name@.len() == 0 ==> (r.status matches RoomCreationStatus::ERROR(
                RoomError::REFUSED(RoomRejection::Reject(RefusedReason::EMPTY)),
            ) && r.handle is None && *final(self) == *old(self)),
            req.name@.len() != 0 && req.capacity == Some(0i32) ==> (r.status
                matches RoomCreationStatus::ERROR(RoomError::UNACCEPTABLE(m)) && m@
                == "The capacity must be greater than 0!"@ && r.handle is None && *final(self)
                == *old(self)),
            req.name@.len() != 0 && req.capacity != Some(0i32) ==> {
                &&& r.status is CREATED
                &&& r.handle == Some(old(self).next_room_id)
                &&& final(self).rooms@.len() == old(self).rooms@.len() + 1
                &&& (forall|i: int|
                    0 <= i < old(self).rooms@.len() ==> final(self).rooms@[i] == old(
                        self,
                    ).rooms@[i])
                &&& final(self).rooms@.last().room_id == old(self).next_room_id
                &&& final(self).rooms@.last().name@ == req.name@
                &&& final(self).rooms@.last().capacity == req.capacity
                &&& final(self).rooms@.last().admin == req.creator
                &&& final(self).rooms@.last().client_ids@ =~= seq![req.creator]
                &&& final(self).rooms@.last().participants == 1
                &&& final(self).rooms@.last().message_storage@.len() == 0
                &&& final(self).next_room_id == old(self).next_room_id + 1
            },
    {
        match Room::create(req.name, req.capacity, req.creator) {
            Ok(mut room) => {
                let id = self.next_room_id;
                room.room_id = id;
                self.rooms.push(room);
                self.next_room_id = id + 1;
                RoomCreation { status: RoomCreationStatus::CREATED, handle: Some(id) }
            },
            Err(e) => RoomCreation { status: RoomCreationStatus::ERROR(e), handle: None },
        }
    }

    /// A consistent snapshot of every room; the in-memory registry can
    /// always serve it.
    pub fn retrieve_all(&self, _q: RoomRetrieval) -> (r: Result<&Vec<Room>, FailureReason>)
        ensures
            r matches Ok(v) && v@ == self.rooms@,
    {
        Ok(&self.rooms)
    }
}

} // verus!
