//! The relay end to end: directory, session lifecycle, and the persist
//! hook, on concrete connections and messages.

use message_relay::api::message::{
    latest_conversations, on_message_persisted, to_stream_message, validate_send, InboundFrame,
    MessageStreamServer, MessageStreamSession, SessionState,
};
use message_relay::model::message::{Connect, Disconnect, Message, SendMessageModel, StreamMessage};
use message_relay::schema;

fn stored(
    id: i32,
    from: i32,
    to: i32,
    quote: Option<i32>,
    send_time: i64,
    message_type: i32,
    body: &str,
) -> schema::Message {
    schema::Message {
        id,
        from_user: from,
        to_user: to,
        quote_id: quote,
        message: body.to_string(),
        message_type,
        send_time,
        read_time: None,
    }
}

#[test]
fn scenario_registered_recipient_gets_one_frame() {
    let mut server = MessageStreamServer::new();
    let mut session = MessageStreamSession::new(5, 100);
    let connect = session.started();
    assert_eq!(connect, Connect { user_id: 5, addr: 100 });
    server.register(connect);
    session.on_register_send_result(true);

    let row = stored(42, 3, 5, None, 1700000000, 1, "hi");
    let delivery = on_message_persisted(&server, &row);
    let (handle, copy) = delivery.expect("recipient is registered");
    assert_eq!(handle, 100);
    session.handle(&copy);

    assert_eq!(session.written.len(), 1);
    assert_eq!(
        session.written[0],
        "{\"id\":42,\"userId\":3,\"quoteId\":null,\"sendTime\":1700000000,\"messageType\":1,\"message\":\"hi\"}"
    );
}

#[test]
fn scenario_offline_recipient_is_a_silent_no_op() {
    let mut server = MessageStreamServer::new();
    let mut session = MessageStreamSession::new(2, 7);
    let connect = session.started();
    server.register(connect);

    let row = stored(8, 2, 7, None, 1700000300, 0, "are you there");
    let delivery = on_message_persisted(&server, &row);
    assert!(delivery.is_none());
    assert_eq!(session.written.len(), 0);
}

#[test]
fn scenario_second_registration_displaces_the_first() {
    let mut server = MessageStreamServer::new();
    server.register(Connect { user_id: 5, addr: 1 });
    server.register(Connect { user_id: 5, addr: 2 });

    let copy = StreamMessage {
        id: 1,
        user_id: 9,
        quote_id: None,
        send_time: 1,
        message_type: 0,
        message: "x".to_string(),
    };
    let target = server.dispatch(5, &copy);
    assert_eq!(target, Some(2));
    assert_ne!(target, Some(1));
}

#[test]
fn dispatch_after_unregister_is_a_no_op() {
    let mut server = MessageStreamServer::new();
    server.register(Connect { user_id: 4, addr: 11 });
    server.unregister(Disconnect { user_id: 4 });
    let copy = StreamMessage {
        id: 2,
        user_id: 1,
        quote_id: None,
        send_time: 2,
        message_type: 0,
        message: "y".to_string(),
    };
    assert_eq!(server.dispatch(4, &copy), None);
    // A second unregister changes nothing and does not fail.
    server.unregister(Disconnect { user_id: 4 });
    assert_eq!(server.dispatch(4, &copy), None);
}

#[test]
fn a_stale_teardown_evicts_whoever_holds_the_slot() {
    // The directory removes whatever handle occupies the slot, without
    // checking that the departing session still owns it.
    let mut server = MessageStreamServer::new();
    server.register(Connect { user_id: 5, addr: 1 });
    server.register(Connect { user_id: 5, addr: 2 });
    // Connection 1's teardown fires late, after 2 has taken the slot.
    server.unregister(Disconnect { user_id: 5 });
    let copy = StreamMessage {
        id: 3,
        user_id: 1,
        quote_id: None,
        send_time: 3,
        message_type: 0,
        message: "z".to_string(),
    };
    assert_eq!(server.dispatch(5, &copy), None);
}

#[test]
fn frames_reach_a_stable_recipient_in_dispatch_order() {
    let mut server = MessageStreamServer::new();
    let mut session = MessageStreamSession::new(6, 50);
    let connect = session.started();
    server.register(connect);

    let first = stored(10, 1, 6, None, 100, 0, "first");
    let second = stored(11, 2, 6, None, 101, 0, "second");
    let (h1, m1) = on_message_persisted(&server, &first).unwrap();
    session.handle(&m1);
    let (h2, m2) = on_message_persisted(&server, &second).unwrap();
    session.handle(&m2);

    assert_eq!((h1, h2), (50, 50));
    assert_eq!(session.written.len(), 2);
    assert!(session.written[0].contains("\"first\""));
    assert!(session.written[1].contains("\"second\""));
}

#[test]
fn session_lifecycle_and_keepalive() {
    let mut session = MessageStreamSession::new(9, 77);
    assert_eq!(session.state, SessionState::Created);
    let connect = session.started();
    assert_eq!(connect.addr, 77);
    assert_eq!(session.state, SessionState::Active);

    let pong = session.on_frame(InboundFrame::Ping(vec![1, 2, 3]));
    assert_eq!(pong, Some(vec![1, 2, 3]));
    let nothing = session.on_frame(InboundFrame::Other);
    assert_eq!(nothing, None);

    let disconnect = session.stopping();
    assert_eq!(disconnect, Disconnect { user_id: 9 });
    assert_eq!(session.state, SessionState::Closed);
}

#[test]
fn session_closes_when_registration_cannot_be_sent() {
    let mut session = MessageStreamSession::new(3, 8);
    let _ = session.started();
    session.on_register_send_result(false);
    assert_eq!(session.state, SessionState::Closing);
    let disconnect = session.stopping();
    assert_eq!(disconnect.user_id, 3);
    assert_eq!(session.state, SessionState::Closed);
}

#[test]
fn delivery_copy_carries_the_stored_row() {
    let row = stored(7, 1, 2, Some(4), 123456, 9, "quoted");
    let copy = to_stream_message(&row);
    assert_eq!(copy.id, 7);
    assert_eq!(copy.user_id, 1);
    assert_eq!(copy.quote_id, Some(4));
    assert_eq!(copy.send_time, 123456);
    assert_eq!(copy.message_type, 9);
    assert_eq!(copy.message, "quoted");
}

#[test]
fn sending_to_yourself_is_rejected() {
    let model = SendMessageModel {
        quote_id: None,
        to_user: 5,
        message_type: 0,
        message: "hello me".to_string(),
    };
    match validate_send(5, &model) {
        Err(e) => {
            assert!(!e.success);
            assert_eq!(e.code, 400);
            assert_eq!(e.message.as_deref(), Some("Cannot send message to yourself."));
        }
        Ok(()) => panic!("self-send must be rejected"),
    }
    assert!(validate_send(4, &model).is_ok());
}

#[test]
fn conversation_overview_keeps_the_newest_row_per_partner() {
    let row = |id: i32, from: i32, to: i32, t: i64| Message {
        id,
        quote_id: None,
        send_time: t,
        read_time: None,
        from_user: from,
        to_user: to,
        message_type: 0,
        message: format!("m{}", id),
    };
    // Rows newest first, for user 1: partners 2, 3, 2, 4.
    let rows = vec![row(10, 2, 1, 40), row(9, 1, 3, 30), row(8, 2, 1, 20), row(7, 4, 1, 10)];
    let overview = latest_conversations(1, rows);
    let ids: Vec<i32> = overview.iter().map(|m| m.id).collect();
    assert_eq!(ids, vec![10, 9, 7]);
}

#[test]
fn conversation_overview_of_nothing_is_empty() {
    let overview = latest_conversations(1, Vec::new());
    assert!(overview.is_empty());
}
