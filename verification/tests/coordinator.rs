use chat_core::models::Message;
use chat_core::ws::{
    store_complete, BroadcastMessage, ChatServer, ClientMessage, Connect, Delivery, Disconnect,
    StoreError,
};

fn record(id: u128, room_id: u128, user_id: u128, content: &str) -> Message {
    Message { id, room_id, user_id, content: content.to_string(), created_at: 1_700_000_000 }
}

#[test]
fn both_members_receive_in_their_room() {
    let mut srv = ChatServer::new();
    srv.connect(Connect { addr: 1, room_id: 10, user_id: 100 });
    srv.connect(Connect { addr: 2, room_id: 10, user_id: 200 });

    let req = srv.client_message(ClientMessage {
        room_id: 10,
        user_id: 100,
        content: "hello".to_string(),
    });
    assert_eq!(req.room_id, 10);
    assert_eq!(req.user_id, 100);
    assert_eq!(req.content, "hello");

    // The store persists exactly that request once and answers with the row.
    let row = record(1, req.room_id, req.user_id, &req.content);
    let broadcast = store_complete(Ok(row)).expect("a persisted record goes on to broadcast");
    assert_eq!(broadcast.0.room_id, 10);
    assert_eq!(broadcast.0.user_id, 100);
    assert_eq!(broadcast.0.content, "hello");

    let deliveries = srv.broadcast(&broadcast);
    assert_eq!(
        deliveries,
        vec![Delivery { addr: 1, user_id: 100 }, Delivery { addr: 2, user_id: 200 }]
    );
}

#[test]
fn other_rooms_receive_nothing() {
    let mut srv = ChatServer::new();
    srv.connect(Connect { addr: 1, room_id: 10, user_id: 100 });
    srv.connect(Connect { addr: 3, room_id: 20, user_id: 300 });

    let req = srv.client_message(ClientMessage {
        room_id: 10,
        user_id: 100,
        content: "x".to_string(),
    });
    let broadcast = store_complete(Ok(record(1, req.room_id, req.user_id, &req.content))).unwrap();
    let deliveries = srv.broadcast(&broadcast);
    assert_eq!(deliveries, vec![Delivery { addr: 1, user_id: 100 }]);
}

#[test]
fn departed_sender_gets_no_copy_but_room_still_does() {
    let mut srv = ChatServer::new();
    srv.connect(Connect { addr: 1, room_id: 10, user_id: 100 });
    srv.connect(Connect { addr: 2, room_id: 10, user_id: 200 });
    srv.disconnect(Disconnect { room_id: 10, user_id: 100 });

    // A message attributed to the departed user arrives afterwards.
    let req = srv.client_message(ClientMessage {
        room_id: 10,
        user_id: 100,
        content: "late".to_string(),
    });
    let broadcast = store_complete(Ok(record(1, req.room_id, req.user_id, &req.content)))
        .expect("persistence still succeeds");
    let deliveries = srv.broadcast(&broadcast);
    assert_eq!(deliveries, vec![Delivery { addr: 2, user_id: 200 }]);
}

#[test]
fn store_failure_suppresses_broadcast_and_leaves_state_alone() {
    let mut srv = ChatServer::new();
    srv.connect(Connect { addr: 1, room_id: 10, user_id: 100 });

    let _req = srv.client_message(ClientMessage {
        room_id: 10,
        user_id: 100,
        content: "lost".to_string(),
    });
    assert!(store_complete(Err(StoreError)).is_none());

    // Registry and membership are unaffected: a later record still fans out.
    let broadcast = BroadcastMessage(record(2, 10, 100, "after"));
    let deliveries = srv.broadcast(&broadcast);
    assert_eq!(deliveries, vec![Delivery { addr: 1, user_id: 100 }]);
}

#[test]
fn disconnect_of_unknown_user_changes_nothing() {
    let mut srv = ChatServer::new();
    srv.connect(Connect { addr: 1, room_id: 10, user_id: 100 });
    srv.disconnect(Disconnect { room_id: 10, user_id: 999 });
    srv.disconnect(Disconnect { room_id: 77, user_id: 888 });

    let deliveries = srv.broadcast(&BroadcastMessage(record(1, 10, 100, "still here")));
    assert_eq!(deliveries, vec![Delivery { addr: 1, user_id: 100 }]);
}

#[test]
fn reconnect_replaces_the_sink_last_write_wins() {
    let mut srv = ChatServer::new();
    srv.connect(Connect { addr: 1, room_id: 10, user_id: 100 });
    srv.connect(Connect { addr: 5, room_id: 10, user_id: 100 });

    let deliveries = srv.broadcast(&BroadcastMessage(record(1, 10, 100, "hi")));
    assert_eq!(deliveries, vec![Delivery { addr: 5, user_id: 100 }]);
}

#[test]
fn member_connecting_after_broadcast_gets_nothing_from_it() {
    let mut srv = ChatServer::new();
    srv.connect(Connect { addr: 1, room_id: 10, user_id: 100 });
    let broadcast = BroadcastMessage(record(1, 10, 100, "early"));
    let deliveries = srv.broadcast(&broadcast);

    srv.connect(Connect { addr: 2, room_id: 10, user_id: 200 });
    assert_eq!(deliveries, vec![Delivery { addr: 1, user_id: 100 }]);
    assert!(deliveries.iter().all(|d| d.user_id != 200));
}

#[test]
fn registry_follows_unmatched_connects() {
    // A connect, a disconnect, a reconnect: only the user whose last
    // lifecycle event is a connect holds a sink.
    let mut srv = ChatServer::new();
    srv.connect(Connect { addr: 1, room_id: 10, user_id: 100 });
    srv.connect(Connect { addr: 2, room_id: 10, user_id: 200 });
    srv.disconnect(Disconnect { room_id: 10, user_id: 100 });
    srv.connect(Connect { addr: 3, room_id: 10, user_id: 100 });

    let deliveries = srv.broadcast(&BroadcastMessage(record(1, 10, 200, "roll call")));
    assert_eq!(
        deliveries,
        vec![Delivery { addr: 2, user_id: 200 }, Delivery { addr: 3, user_id: 100 }]
    );
}

#[test]
fn empty_room_fans_out_to_nobody() {
    let mut srv = ChatServer::new();
    srv.connect(Connect { addr: 1, room_id: 10, user_id: 100 });
    srv.disconnect(Disconnect { room_id: 10, user_id: 100 });

    let deliveries = srv.broadcast(&BroadcastMessage(record(1, 10, 100, "void")));
    assert!(deliveries.is_empty());
}
