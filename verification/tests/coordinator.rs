use chathub::domain::{
    Client, ClientMessage, ConnectionStatus, CreateRoom, JoinInput, JoinOutput, Payload,
    RefusedReason, Registration, RegistrationStatus, RoomCreationStatus, RoomError, RoomRejection,
    RoomRetrieval, SignalCode, SignalInput,
};
use chathub::hub::Hub;
use chathub::registry::Room;

fn hub_with_users(names: &[&str]) -> (Hub, Vec<u64>) {
    let mut hub = Hub::new();
    let mut uids = Vec::new();
    for name in names {
        let res = hub.identity.register(Registration {
            username: (*name).to_owned(),
            password: "pw".to_owned(),
        });
        assert!(matches!(res.status, RegistrationStatus::CREATED));
        uids.push(res.cl_id.expect("created registration carries the identifier"));
    }
    (hub, uids)
}

#[test]
fn create_with_empty_name_is_refused() {
    let r = Room::create("".to_owned(), Some(3), 1);
    assert!(matches!(
        r,
        Err(RoomError::REFUSED(RoomRejection::Reject(RefusedReason::EMPTY)))
    ));
}

#[test]
fn create_with_zero_capacity_is_unacceptable() {
    match Room::create("general".to_owned(), Some(0), 1) {
        Err(RoomError::UNACCEPTABLE(msg)) => {
            assert_eq!(msg, "The capacity must be greater than 0!");
        }
        other => panic!("unexpected outcome: {:?}", other),
    }
}

#[test]
fn created_room_has_admin_as_sole_member() {
    let room = Room::create("general".to_owned(), None, 7).expect("valid room");
    assert_eq!(room.participants, 1);
    assert_eq!(room.client_ids, vec![7]);
    assert_eq!(room.admin, 7);
    assert_eq!(room.capacity, None);
}

#[test]
fn negative_capacity_means_unlimited() {
    let mut room = Room::create("general".to_owned(), Some(-1), 0).expect("valid room");
    for cid in 1..50u64 {
        room.append_client(cid);
    }
    assert_eq!(room.participants, 50);
}

#[test]
fn capacity_two_room_rejects_the_third_joiner() {
    let (mut hub, uids) = hub_with_users(&["admin", "bee", "cee"]);
    let creation = hub.registry.create_room(CreateRoom {
        name: "general".to_owned(),
        capacity: Some(2),
        creator: uids[0],
    });
    assert!(matches!(creation.status, RoomCreationStatus::CREATED));
    let room_id = creation.handle.expect("created room carries a handle");

    // The admin connects first, so its session identifier matches the
    // member entry seeded at creation; then B and C connect.
    let a = hub.connect(uids[0], 200, room_id);
    assert!(matches!(a.status, ConnectionStatus::Connected));
    let b = hub.connect(uids[1], 201, room_id);
    assert!(matches!(b.status, ConnectionStatus::Connected));
    let c = hub.connect(uids[2], 202, room_id);
    assert!(matches!(c.status, ConnectionStatus::Connected));
    let b_client = hub.clients[1].client_id;
    let c_client = hub.clients[2].client_id;

    let member_count = |hub: &Hub| {
        let rooms = hub.registry.retrieve_all(RoomRetrieval {}).expect("snapshot");
        rooms[0].participants
    };
    assert_eq!(member_count(&hub), 1);

    let joined = hub.join(JoinInput { target_id: room_id, client_id: b_client, addr: 201 });
    assert!(matches!(joined, JoinOutput::Success));
    assert_eq!(member_count(&hub), 2);

    let refused = hub.join(JoinInput { target_id: room_id, client_id: c_client, addr: 202 });
    assert!(matches!(
        refused,
        JoinOutput::Rejected(RoomRejection::Reject(RefusedReason::FULL))
    ));
    assert_eq!(member_count(&hub), 2);
}

#[test]
fn join_is_classified_by_what_is_missing() {
    let (mut hub, uids) = hub_with_users(&["admin", "bee"]);
    let creation = hub.registry.create_room(CreateRoom {
        name: "general".to_owned(),
        capacity: None,
        creator: uids[0],
    });
    let room_id = creation.handle.expect("created");

    let no_room = hub.join(JoinInput { target_id: room_id + 99, client_id: 0, addr: 1 });
    assert!(matches!(no_room, JoinOutput::Rejected(RoomRejection::UnknownRoom)));

    let no_client = hub.join(JoinInput { target_id: room_id, client_id: 55, addr: 1 });
    assert!(matches!(no_client, JoinOutput::Rejected(RoomRejection::UnknownUser)));

    hub.connect(uids[0], 200, room_id);
    hub.connect(uids[1], 201, room_id);
    let b_client = hub.clients[1].client_id;
    assert!(matches!(
        hub.join(JoinInput { target_id: room_id, client_id: b_client, addr: 201 }),
        JoinOutput::Success
    ));
    let again = hub.join(JoinInput { target_id: room_id, client_id: b_client, addr: 201 });
    assert!(matches!(
        again,
        JoinOutput::Rejected(RoomRejection::Reject(RefusedReason::ALREADYMEMBER))
    ));
}

#[test]
fn connect_validates_room_then_user() {
    let (mut hub, uids) = hub_with_users(&["admin"]);
    let creation = hub.registry.create_room(CreateRoom {
        name: "general".to_owned(),
        capacity: None,
        creator: uids[0],
    });
    let room_id = creation.handle.expect("created");

    let no_room = hub.connect(uids[0], 100, room_id + 7);
    assert!(matches!(
        no_room.status,
        ConnectionStatus::Aborted(chathub::domain::AbortReason::UNACCEPTABLE(
            RoomRejection::UnknownRoom
        ))
    ));
    let no_user = hub.connect(999, 100, room_id);
    assert!(matches!(
        no_user.status,
        ConnectionStatus::Aborted(chathub::domain::AbortReason::UNACCEPTABLE(
            RoomRejection::UnknownUser
        ))
    ));
    assert!(hub.clients.is_empty());

    let ok = hub.connect(uids[0], 100, room_id);
    assert!(matches!(ok.status, ConnectionStatus::Connected));
    assert_eq!(hub.clients.len(), 1);
    assert_eq!(hub.clients[0].address, Some(100));
}

#[test]
fn disconnect_twice_reports_disconnected_both_times() {
    let (mut hub, uids) = hub_with_users(&["admin"]);
    let creation = hub.registry.create_room(CreateRoom {
        name: "general".to_owned(),
        capacity: None,
        creator: uids[0],
    });
    let room_id = creation.handle.expect("created");
    hub.connect(uids[0], 100, room_id);
    assert_eq!(hub.clients[0].address, Some(100));

    let first = hub.diconnect(uids[0]);
    assert!(matches!(first.status, ConnectionStatus::Disconnected));
    assert_eq!(hub.clients[0].address, None);

    let second = hub.diconnect(uids[0]);
    assert!(matches!(second.status, ConnectionStatus::Disconnected));
    assert_eq!(hub.clients[0].address, None);

    // Even a user who never connected is told the same.
    let never = hub.diconnect(424242);
    assert!(matches!(never.status, ConnectionStatus::Disconnected));
}

#[test]
fn route_delivers_to_every_connected_member_and_skips_stale_ones() {
    let (mut hub, uids) = hub_with_users(&["admin", "bee", "cee"]);
    let creation = hub.registry.create_room(CreateRoom {
        name: "general".to_owned(),
        capacity: None,
        creator: uids[0],
    });
    let room_id = creation.handle.expect("created");

    // The admin connects first: its session identifier equals its user
    // identifier here, which is also the member entry seeded at creation.
    hub.connect(uids[0], 100, room_id);
    assert_eq!(hub.clients[0].client_id, uids[0]);
    hub.connect(uids[1], 101, room_id);
    hub.connect(uids[2], 102, room_id);
    let b_client = hub.clients[1].client_id;
    let c_client = hub.clients[2].client_id;
    assert!(matches!(
        hub.join(JoinInput { target_id: room_id, client_id: b_client, addr: 101 }),
        JoinOutput::Success
    ));
    assert!(matches!(
        hub.join(JoinInput { target_id: room_id, client_id: c_client, addr: 102 }),
        JoinOutput::Success
    ));

    // Three connected members: three delivery attempts, in member order.
    let targets = hub.route(ClientMessage {
        cl_id: b_client,
        room_id,
        message: "hello".to_owned(),
    });
    assert_eq!(targets, vec![100, 101, 102]);

    // One member's channel goes stale: the remaining two still get it.
    hub.diconnect(uids[2]);
    let targets = hub.route(ClientMessage {
        cl_id: b_client,
        room_id,
        message: "again".to_owned(),
    });
    assert_eq!(targets, vec![100, 101]);

    // The latest message per sender was recorded, overwriting the prior.
    let rooms = hub.registry.retrieve_all(RoomRetrieval {}).expect("snapshot");
    let records: Vec<_> = rooms[0]
        .message_storage
        .iter()
        .filter(|(sender, _)| *sender == b_client)
        .collect();
    assert_eq!(records.len(), 1);
    assert_eq!(records[0].1.message, "again");
}

#[test]
fn route_to_an_unknown_room_does_nothing() {
    let (mut hub, _uids) = hub_with_users(&["admin"]);
    let targets = hub.route(ClientMessage {
        cl_id: 0,
        room_id: 12345,
        message: "into the void".to_owned(),
    });
    assert!(targets.is_empty());
}

#[test]
fn signals_dispatch_by_code() {
    let (mut hub, uids) = hub_with_users(&["admin"]);
    let creation = hub.registry.create_room(CreateRoom {
        name: "general".to_owned(),
        capacity: None,
        creator: uids[0],
    });
    let room_id = creation.handle.expect("created");

    let pend = hub.handle_signal(SignalInput {
        id: uids[0],
        code: SignalCode::Pending,
        addr: 9,
        room_id,
    });
    assert!(matches!(pend.status, ConnectionStatus::Connected));
    assert_eq!(hub.pending, vec![9]);

    let conn = hub.handle_signal(SignalInput {
        id: uids[0],
        code: SignalCode::Connect,
        addr: 9,
        room_id,
    });
    assert!(matches!(conn.status, ConnectionStatus::Connected));
    assert_eq!(hub.clients[0].address, Some(9));

    let disc = hub.handle_signal(SignalInput {
        id: uids[0],
        code: SignalCode::Disconnect,
        addr: 0,
        room_id,
    });
    assert!(matches!(disc.status, ConnectionStatus::Disconnected));
    assert_eq!(hub.clients[0].address, None);
}

#[test]
fn payload_carries_its_message() {
    let p = Payload::new("hi there");
    assert_eq!(p.message, "hi there");
}

#[test]
fn fresh_client_is_disconnected() {
    let c = Client::new(5);
    assert_eq!(c.user_id, 5);
    assert_eq!(c.address, None);
    assert_eq!(c.client_id, 0);
}

#[test]
fn room_iteration_snapshot_lists_members() {
    let mut room = Room::create("general".to_owned(), None, 3).expect("valid room");
    room.append_client(8);
    let snapshot = room.iter();
    assert_eq!(snapshot.iter, vec![3, 8]);
}

#[test]
fn capacity_one_room_is_full_with_its_admin() {
    let (mut hub, uids) = hub_with_users(&["admin", "bee"]);
    let creation = hub.registry.create_room(CreateRoom {
        name: "solo".to_owned(),
        capacity: Some(1),
        creator: uids[0],
    });
    let room_id = creation.handle.expect("created");
    hub.connect(uids[0], 200, room_id);
    hub.connect(uids[1], 201, room_id);
    let b_client = hub.clients[1].client_id;
    let refused = hub.join(JoinInput { target_id: room_id, client_id: b_client, addr: 201 });
    assert!(matches!(
        refused,
        JoinOutput::Rejected(RoomRejection::Reject(RefusedReason::FULL))
    ));
}

#[test]
fn route_with_no_connected_member_attempts_nothing() {
    let (mut hub, uids) = hub_with_users(&["admin"]);
    let creation = hub.registry.create_room(CreateRoom {
        name: "quiet".to_owned(),
        capacity: None,
        creator: uids[0],
    });
    let room_id = creation.handle.expect("created");
    let targets = hub.route(ClientMessage {
        cl_id: uids[0],
        room_id,
        message: "anyone?".to_owned(),
    });
    assert!(targets.is_empty());
}
