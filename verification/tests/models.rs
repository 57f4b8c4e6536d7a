use whisper::models::delivery_report::DeliveryDeletedContent;
use whisper::models::delivery_report::DeliveryReportContent;
use whisper::models::message::NewDeletedMessagesArray;
use whisper::models::message::NewMessagesArray;
use whisper::models::profile::SetStatusRequest;
use whisper::models::user::CreateUser;
use whisper::models::user::CreateUserField;
use whisper::server::PrivateMessageContent;

#[test]
fn delivery_report_sender_comes_from_token() {
    let mut c = DeliveryReportContent { sender: 99, ids: vec![1, 2] };
    c.set_sender_id_from_jwt(7);
    assert_eq!(c, DeliveryReportContent { sender: 7, ids: vec![1, 2] });
}

#[test]
fn delivery_deleted_sender_comes_from_token() {
    let mut c = DeliveryDeletedContent { sender: 99, ids: vec![3] };
    c.set_sender_id_from_jwt(8);
    assert_eq!(c, DeliveryDeletedContent { sender: 8, ids: vec![3] });
}

#[test]
fn status_request_sender_comes_from_token() {
    let mut r = SetStatusRequest { sender: -1, status: "away".to_string() };
    r.set_sender_id_from_jwt(12);
    assert_eq!(r.sender, 12);
    assert_eq!(r.status, "away");
}

#[test]
fn private_message_sender_comes_from_token() {
    let mut c = PrivateMessageContent {
        local_id: Some(4),
        id: 0,
        sender: 1000,
        receiver: 2,
        content: "hi".to_string(),
        created_at: None,
    };
    c.set_sender_id_from_jwt(5);
    assert_eq!(c.sender, 5);
    assert_eq!(c.receiver, 2);
    assert_eq!(c.local_id, Some(4));
    assert_eq!(c.content, "hi");
}

#[test]
fn default_batches_are_empty_and_named() {
    let a = NewMessagesArray::default();
    assert_eq!(a.event, "new-messages-array");
    assert!(a.data.messages.is_empty());
    let b = NewDeletedMessagesArray::default();
    assert_eq!(b.event, "new-deleted-messages-array");
    assert!(b.data.messages_ids.is_empty());
}

fn registration(username: &str, email: &str, password: &str) -> CreateUser {
    CreateUser {
        username: username.to_string(),
        email: email.to_string(),
        password: password.to_string(),
    }
}

#[test]
fn valid_registration_passes() {
    assert_eq!(registration("bob", "bob@example.com", "12345678").validate(), Ok(()));
}

#[test]
fn registration_rules_name_each_broken_field() {
    assert_eq!(
        registration("bo", "not-an-address", "short").validate(),
        Err(vec![CreateUserField::Username, CreateUserField::Email, CreateUserField::Password])
    );
    assert_eq!(
        registration("bob", "bob@example.com", "1234567").validate(),
        Err(vec![CreateUserField::Password])
    );
}

#[test]
fn username_length_counts_characters() {
    // three characters, six bytes
    assert_eq!(registration("äöü", "x@example.com", "password").validate(), Ok(()));
}
