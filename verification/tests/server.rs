use whisper::models::delivery_report::DeliveryReport;
use whisper::models::delivery_report::DeliveryReportContent;
use whisper::models::message::Message;
use whisper::models::timestamp::Timestamp;
use whisper::server::classify_message;
use whisper::server::destroy_policy_check;
use whisper::server::destroy_request_plan;
use whisper::server::private_message_row;
use whisper::server::new_message_row;
use whisper::server::requested_message_ids;
use whisper::server::stored_message_ids;
use whisper::server::user_id_for_query;
use whisper::server::ChatServer;
use whisper::server::ClientEvent;
use whisper::server::Outgoing;
use whisper::server::PrivateMessageContent;
use whisper::types::ws_server_events::DestroyMessage;
use whisper::types::ws_server_events::DestroyMessageContent;
use whisper::types::ws_server_events::MobileMessage;

fn stored(id: i32, sender: i32, receiver: i32, content: &str) -> Message {
    Message {
        id,
        sender,
        receiver,
        content: content.to_string(),
        delivered: false,
        deleted_delivered: false,
        created_at: Timestamp { secs: 1431648000, nanos: 0 },
        updated_at: None,
        deleted_at: None,
    }
}

fn mobile(id: usize, sender: usize, receiver: usize) -> MobileMessage {
    MobileMessage {
        local_id: None,
        id,
        sender,
        receiver,
        content: String::new(),
        created_at: None,
    }
}

#[test]
fn new_server_has_main_room_and_no_sessions() {
    let s: ChatServer<u32> = ChatServer::new();
    assert!(!s.has_session(1));
    assert!(s.session(1).is_none());
}

#[test]
fn connect_registers_session_by_user() {
    let mut s: ChatServer<u32> = ChatServer::new();
    let _conn = s.connect(77, 5);
    assert!(s.has_session(5));
    assert_eq!(s.session(5), Some(&77));
    let _again = s.connect(78, 5);
    assert_eq!(s.session(5), Some(&78));
}

#[test]
fn disconnect_after_connect_removes_the_session() {
    let mut s: ChatServer<u32> = ChatServer::new();
    let c10 = s.connect(1, 10);
    let c20 = s.connect(2, 20);
    assert_ne!(c10, c20);
    assert!(s.disconnect(c10).is_empty());
    assert!(!s.has_session(10));
    assert_eq!(s.session(20), Some(&2));
    assert!(s.disconnect(c10).is_empty());
    assert!(!s.has_session(10));
    assert_eq!(s.session(20), Some(&2));
}

#[test]
fn disconnect_of_unknown_connection_changes_nothing() {
    let mut s: ChatServer<u32> = ChatServer::new();
    let c = s.connect(1, 10);
    assert!(s.disconnect(c.wrapping_add(1)).is_empty());
    assert_eq!(s.session(10), Some(&1));
}

#[test]
fn old_connection_leaving_keeps_the_newer_session() {
    let mut s: ChatServer<u32> = ChatServer::new();
    let first = s.connect(1, 10);
    let second = s.connect(2, 10);
    assert_ne!(first, second);
    s.disconnect(first);
    assert_eq!(s.session(10), Some(&2));
    s.disconnect(second);
    assert!(!s.has_session(10));
}

#[test]
fn room_members_are_told_when_someone_leaves() {
    let mut s: ChatServer<u32> = ChatServer::new();
    let a = s.connect(1, 10);
    let b = s.connect(2, 20);
    let c = s.connect(3, 30);
    s.join(a, "Main");
    s.join(b, "Main");
    s.join(c, "Lobby");
    s.join(a, "Main");
    let ds = s.disconnect(a);
    assert_eq!(ds.len(), 1);
    assert_eq!(ds[0].to, 20);
    match &ds[0].payload {
        Outgoing::Notice(t) => assert_eq!(t, "Someone disconnected"),
        _ => panic!("expected a notice"),
    }
    assert!(!s.has_session(10));
    let ds = s.disconnect(b);
    assert!(ds.is_empty());
    let ds = s.disconnect(c);
    assert!(ds.is_empty());
}

#[test]
fn socket_texts_are_classified_by_event() {
    assert_eq!(classify_message(r#"{"event":"message","data":{}}"#), Some(ClientEvent::PrivateMessage));
    assert_eq!(classify_message("  {\"event\":\"delivery-report\"}\n"), Some(ClientEvent::DeliveryReport));
    assert_eq!(classify_message(r#"{"event":"destroy-message"}"#), Some(ClientEvent::DestroyMessage));
    assert_eq!(
        classify_message(r#"{"event":"delivery-deleted-message"}"#),
        Some(ClientEvent::DeliveryDeletedMessage)
    );
    assert_eq!(classify_message(r#"{"event":"typing"}"#), Some(ClientEvent::Unknown));
    assert_eq!(classify_message(r#"{"event":3}"#), Some(ClientEvent::Unknown));
    assert_eq!(classify_message(r#"[1,2]"#), Some(ClientEvent::Unknown));
    assert_eq!(classify_message("not json"), None);
    // a no-break space is white space to `trim`, though not to JSON
    assert_eq!(
        classify_message("\u{00A0}{\"event\":\"message\"}\u{00A0}"),
        Some(ClientEvent::PrivateMessage)
    );
}

#[test]
fn message_row_takes_author_addressee_and_text() {
    let c = PrivateMessageContent {
        local_id: Some(3),
        id: 0,
        sender: 4,
        receiver: 9,
        content: "hello".to_string(),
        created_at: None,
    };
    let row = new_message_row(&c);
    assert_eq!((row.sender, row.receiver, row.content.as_str()), (4, 9, "hello"));
}

#[test]
fn private_message_goes_to_receiver_then_back_to_owner() {
    let mut s: ChatServer<u32> = ChatServer::new();
    s.connect(1, 4);
    s.connect(2, 9);
    let saved = stored(31, 4, 9, "hello");
    let ds = s.send_private_message(&saved, Some(17));
    assert_eq!(ds.len(), 2);
    assert_eq!(ds[0].to, 9);
    match &ds[0].payload {
        Outgoing::Private(m) => {
            assert_eq!(m.event, "message");
            assert_eq!(m.data.local_id, Some(0));
            assert_eq!((m.data.id, m.data.sender, m.data.receiver), (31, 4, 9));
            assert_eq!(m.data.content, "hello");
            assert_eq!(m.data.created_at.as_deref(), Some("2015-05-15 00:00:00"));
        }
        _ => panic!("expected a private message"),
    }
    assert_eq!(ds[1].to, 4);
    match &ds[1].payload {
        Outgoing::Private(m) => {
            assert_eq!(m.event, "assigned_message");
            assert_eq!(m.data.local_id, Some(17));
            assert_eq!(m.data.id, 31);
        }
        _ => panic!("expected a private message"),
    }
}

#[test]
fn private_message_to_offline_user_only_echoes() {
    let mut s: ChatServer<u32> = ChatServer::new();
    s.connect(1, 4);
    let ds = s.send_private_message(&stored(2, 4, 9, "x"), None);
    assert_eq!(ds.len(), 1);
    assert_eq!(ds[0].to, 4);
    let none: ChatServer<u32> = ChatServer::new();
    assert!(none.send_private_message(&stored(2, 4, 9, "x"), None).is_empty());
    assert!(none.return_assigned_message_to_owner(&stored(2, 4, 9, "x"), None).is_none());
}

#[test]
fn delivery_report_forwarded_only_for_one_updated_row() {
    let mut s: ChatServer<u32> = ChatServer::new();
    s.connect(1, 4);
    let report = || DeliveryReport {
        event: "delivery-report".to_string(),
        data: DeliveryReportContent { sender: 4, ids: vec![8] },
    };
    let d = s.send_verified_delivery_report(report(), 1).expect("forwarded");
    assert_eq!(d.to, 4);
    match d.payload {
        Outgoing::DeliveryReport(r) => assert_eq!(r.data.ids, vec![8]),
        _ => panic!("expected a delivery report"),
    }
    assert!(s.send_verified_delivery_report(report(), 0).is_none());
    assert!(s.send_verified_delivery_report(report(), 2).is_none());
    let mut other = report();
    other.data.sender = 5;
    assert!(s.send_verified_delivery_report(other, 1).is_none());
}

#[test]
fn waiting_messages_are_handed_over_on_connect() {
    let mut s: ChatServer<u32> = ChatServer::new();
    s.connect(1, 4);
    assert!(s.send_new_unreceived_messages(4, vec![]).is_none());
    let d = s.send_new_unreceived_messages(4, vec![stored(1, 9, 4, "a")]).expect("sent");
    match d.payload {
        Outgoing::NewMessages(a) => {
            assert_eq!(a.event, "new-messages-array");
            assert_eq!(a.data.messages.len(), 1);
        }
        _ => panic!("expected new messages"),
    }
    assert!(s.send_new_unreceived_messages(5, vec![stored(1, 9, 5, "a")]).is_none());
    let d = s.send_new_deleted_messages(4, vec![3, 4]).expect("sent");
    match d.payload {
        Outgoing::NewDeletedMessages(a) => {
            assert_eq!(a.event, "new-deleted-messages-array");
            assert_eq!(a.data.messages_ids, vec![3, 4]);
        }
        _ => panic!("expected deleted ids"),
    }
    assert!(s.send_new_deleted_messages(4, vec![]).is_none());
}

#[test]
fn user_ids_fit_the_database_or_not() {
    assert_eq!(user_id_for_query(42), Some(42));
    assert_eq!(user_id_for_query(2147483647), Some(2147483647));
    assert_eq!(user_id_for_query(2147483648), None);
}

fn destroy_request(messages: Vec<MobileMessage>) -> DestroyMessage {
    DestroyMessage { event: "destroy-message".to_string(), data: DestroyMessageContent { messages } }
}

#[test]
fn destroy_policy_requires_own_messages_to_one_receiver() {
    assert!(destroy_policy_check(&destroy_request(vec![mobile(1, 4, 9), mobile(2, 4, 9)]), 4));
    assert!(!destroy_policy_check(&destroy_request(vec![mobile(1, 4, 9), mobile(2, 5, 9)]), 4));
    assert!(!destroy_policy_check(&destroy_request(vec![mobile(1, 4, 9), mobile(2, 4, 8)]), 4));
    assert!(destroy_policy_check(&destroy_request(vec![]), 4));
}

#[test]
fn destroyed_ids_are_told_to_the_receiver() {
    let req = destroy_request(vec![mobile(1, 4, 9), mobile(2, 4, 9)]);
    assert_eq!(requested_message_ids(&req), vec![1, 2]);
    let found = vec![stored(2, 4, 9, "b")];
    let ids = stored_message_ids(&found);
    assert_eq!(ids, vec![2]);
    let mut s: ChatServer<u32> = ChatServer::new();
    assert!(s.destory_messages(&found, ids.clone()).is_none());
    s.connect(3, 9);
    let d = s.destory_messages(&found, ids).expect("sent");
    assert_eq!(d.to, 9);
    match d.payload {
        Outgoing::MessagesDestroyed(n) => {
            assert_eq!(n.event, "destroy-messages-to-receiver");
            assert_eq!(n.data.message_ids, vec![2]);
        }
        _ => panic!("expected a deletion notice"),
    }
}

#[test]
fn destroy_plan_names_ids_only_when_allowed() {
    let req = destroy_request(vec![mobile(1, 4, 9), mobile(2, 4, 9)]);
    assert_eq!(destroy_request_plan(&req, 4), Some(vec![1, 2]));
    assert_eq!(destroy_request_plan(&req, 5), None);
    let mixed = destroy_request(vec![mobile(1, 4, 9), mobile(2, 4, 8)]);
    assert_eq!(destroy_request_plan(&mixed, 4), None);
}

#[test]
fn private_message_row_takes_author_from_token() {
    let mut c = PrivateMessageContent {
        local_id: Some(3),
        id: 0,
        sender: 99,
        receiver: 9,
        content: "hi".to_string(),
        created_at: None,
    };
    let row = private_message_row(&mut c, 4);
    assert_eq!((row.sender, row.receiver, row.content.as_str()), (4, 9, "hi"));
    assert_eq!(c.sender, 4);
    assert_eq!(c.local_id, Some(3));
}

#[test]
fn room_texts_reach_the_other_online_members() {
    let mut s: ChatServer<u32> = ChatServer::new();
    let a = s.connect(1, 10);
    let b = s.connect(2, 20);
    let c = s.connect(3, 30);
    s.join(a, "Main");
    s.join(b, "Main");
    s.join(c, "Lobby");
    let ds = s.send_message(a, "hi all");
    assert_eq!(ds.len(), 1);
    assert_eq!(ds[0].to, 20);
    match &ds[0].payload {
        Outgoing::Notice(t) => assert_eq!(t, "hi all"),
        _ => panic!("expected a plain text"),
    }
    assert!(s.send_message(c, "anyone?").is_empty());
    s.disconnect(b);
    assert!(s.send_message(a, "hi all").is_empty());
    assert!(s.send_message(b, "gone").is_empty());
}

#[test]
fn connection_numbers_are_never_reused_while_live() {
    let mut s: ChatServer<u32> = ChatServer::new();
    let mut ids = Vec::new();
    for u in 0..50 {
        ids.push(s.connect(u, u as usize));
    }
    let mut sorted = ids.clone();
    sorted.sort();
    sorted.dedup();
    assert_eq!(sorted.len(), ids.len());
}
