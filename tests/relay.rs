use chat_server::attachment::AttachmentError;
use chat_server::codec::{Field, FrameError};
use chat_server::registry::Registry;
use chat_server::relay::{is_file_kind, step, Action, Event, Stage};

fn frame(t: &str) -> Event {
    Event::Frame(t.to_string())
}

#[test]
fn text_message_is_logged_then_broadcast() {
    let (s, a) = step(Stage::Idle, frame(r#"{"chat_id":"3","user_id":4,"content":"hi","message_type":"text"}"#));
    match a {
        Action::Append { record, attachment_error } => {
            assert_eq!(record.chat_id, 3);
            assert_eq!(record.user_id, 4);
            assert_eq!(record.content, "hi");
            assert_eq!(record.file_path, None);
            assert_eq!(record.message_type, "text");
            assert_eq!(attachment_error, None);
        }
        other => panic!("unexpected {:?}", other),
    }
    let (s, a) = step(s, Event::RecordSaved(true));
    assert!(matches!(s, Stage::Idle));
    match a {
        Action::Broadcast(f) => assert_eq!(
            f,
            r#"{"chat_id":3,"user_id":4,"content":"hi","file_data":null,"file_path":null,"message_type":"text"}"#
        ),
        other => panic!("unexpected {:?}", other),
    }
}

#[test]
fn bad_frame_is_discarded() {
    let (s, a) = step(Stage::Idle, frame(r#"{"chat_id":"abc","user_id":4,"content":"hi","message_type":"text"}"#));
    assert!(matches!(s, Stage::Idle));
    assert!(matches!(a, Action::Discard(FrameError::InvalidInteger(Field::ChatId, _))));
    let (s, a) = step(Stage::Idle, frame(r#"{"chat_id":1,"user_id":[4],"content":"hi","message_type":"text"}"#));
    assert!(matches!(s, Stage::Idle));
    assert!(matches!(a, Action::Discard(FrameError::InvalidType(Field::UserId))));
}

#[test]
fn file_message_writes_decoded_bytes_to_its_path() {
    let (s, a) = step(
        Stage::Idle,
        frame(r#"{"chat_id":1,"user_id":2,"content":"f","file_data":"data:text/plain;base64,aGk=","file_path":"up/hi.txt","message_type":"file"}"#),
    );
    match a {
        Action::WriteFile { path, bytes } => {
            assert_eq!(path, "up/hi.txt");
            assert_eq!(bytes, b"hi".to_vec());
        }
        other => panic!("unexpected {:?}", other),
    }
    let (s, a) = step(s, Event::FileSaved(true));
    match a {
        Action::Append { record, attachment_error } => {
            assert_eq!(record.file_path.as_deref(), Some("up/hi.txt"));
            assert_eq!(attachment_error, None);
        }
        other => panic!("unexpected {:?}", other),
    }
    let (_, a) = step(s, Event::RecordSaved(true));
    assert!(matches!(a, Action::Broadcast(_)));
}

#[test]
fn file_message_without_path_writes_nothing_but_is_relayed() {
    let (s, a) = step(
        Stage::Idle,
        frame(r#"{"chat_id":1,"user_id":2,"content":"f","file_data":"data:;base64,aGk=","message_type":"file"}"#),
    );
    match a {
        Action::Append { attachment_error, .. } => assert_eq!(attachment_error, Some(AttachmentError::MissingPath)),
        other => panic!("unexpected {:?}", other),
    }
    let (s, a) = step(s, Event::RecordSaved(true));
    assert!(matches!(s, Stage::Idle));
    assert!(matches!(a, Action::Broadcast(_)));
}

#[test]
fn failed_file_write_still_logs() {
    let (s, _) = step(
        Stage::Idle,
        frame(r#"{"chat_id":1,"user_id":2,"content":"f","file_data":"x,aGk=","file_path":"/no/such/dir/f","message_type":"file"}"#),
    );
    let (s, a) = step(s, Event::FileSaved(false));
    assert!(matches!(a, Action::Append { attachment_error: None, .. }));
    let (_, a) = step(s, Event::RecordSaved(true));
    assert!(matches!(a, Action::Broadcast(_)));
}

#[test]
fn bad_attachment_skips_the_write() {
    let (s, a) = step(
        Stage::Idle,
        frame(r#"{"chat_id":1,"user_id":2,"content":"f","file_data":"nocomma","file_path":"p","message_type":"file"}"#),
    );
    assert!(matches!(s, Stage::SavingRecord(_)));
    assert!(matches!(a, Action::Append { attachment_error: Some(AttachmentError::MalformedDataUri), .. }));
}

#[test]
fn attachment_of_a_text_message_is_ignored() {
    let (s, a) = step(
        Stage::Idle,
        frame(r#"{"chat_id":1,"user_id":2,"content":"f","file_data":"x,aGk=","file_path":"p","message_type":"text"}"#),
    );
    assert!(matches!(s, Stage::SavingRecord(_)));
    assert!(matches!(a, Action::Append { attachment_error: None, .. }));
}

#[test]
fn failed_store_still_reaches_all_peers() {
    let mut reg = Registry::new();
    let ids: Vec<u64> = (0..4).map(|_| reg.register()).collect();
    let (s, _) = step(Stage::Idle, frame(r#"{"chat_id":7,"user_id":8,"content":"x","message_type":"text"}"#));
    let (s, a) = step(s, Event::RecordSaved(false));
    assert!(matches!(s, Stage::Idle));
    let f = match a {
        Action::Broadcast(f) => f,
        other => panic!("unexpected {:?}", other),
    };
    let out = reg.broadcast(&f);
    assert_eq!(out.iter().map(|d| d.peer).collect::<Vec<_>>(), ids);
    assert!(out.iter().all(|d| d.frame == f));
}

#[test]
fn out_of_order_events_wait() {
    let (s, a) = step(Stage::Idle, Event::RecordSaved(true));
    assert!(matches!(s, Stage::Idle));
    assert!(matches!(a, Action::Wait));
}

#[test]
fn file_kind_is_exact() {
    assert!(is_file_kind("file"));
    assert!(!is_file_kind("File"));
    assert!(!is_file_kind("files"));
    assert!(!is_file_kind(""));
}
