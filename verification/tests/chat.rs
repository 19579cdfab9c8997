use async_patterns::chat::{
    join_message, leave_message, relay_text, session_start, session_step, shutdown_message,
    ClientEvent, Message, MessageKind, SessionAction, UserManager,
};

#[test]
fn user_manager_counts_from_one() {
    let mut m = UserManager::new();
    assert_eq!(m.next_id(), 1);
    assert_eq!(m.create(), "User1");
    assert_eq!(m.create(), "User2");
    assert_eq!(m.create(), "User3");
    assert_eq!(m.next_id(), 4);
}

#[test]
fn usernames_are_distinct() {
    let mut m = UserManager::new();
    let names: Vec<String> = (0..200).map(|_| m.create()).collect();
    let set: std::collections::BTreeSet<&String> = names.iter().collect();
    assert_eq!(set.len(), names.len());
    assert_eq!(names[9], "User10");
    assert_eq!(names[99], "User100");
}

#[test]
fn message_new_keeps_fields() {
    let m = Message::new("User3".to_string(), "hello everyone".to_string());
    assert_eq!(m.sender, "User3");
    assert_eq!(m.message, "hello everyone");
    assert_eq!(m.kind, MessageKind::Chat);
}

#[test]
fn announcements() {
    let j = join_message("User3".to_string());
    assert_eq!((j.sender.as_str(), j.message.as_str()), ("User3", "has joined the chat"));
    assert_eq!(relay_text(&j), "User3 has joined the chat\r\n");
    let l = leave_message("User3".to_string());
    assert_eq!((l.sender.as_str(), l.message.as_str()), ("User3", "has left the chat"));
    assert_eq!(relay_text(&l), "User3 has left the chat\r\n");
    let s = shutdown_message();
    assert_eq!((s.sender.as_str(), s.message.as_str()), ("Server", "is shutting down..."));
    assert_eq!(relay_text(&s), "Server is shutting down...\r\n");
    assert_eq!(s.kind, MessageKind::Notice);
}

#[test]
fn relay_line_format() {
    let m = Message::new("User3".to_string(), "hello everyone".to_string());
    assert_eq!(relay_text(&m), "User3: hello everyone\r\n");
}

#[test]
fn line_is_trimmed_and_published() {
    let name = "User1".to_string();
    match session_step(&name, ClientEvent::LineRead("  hi there \r\n".to_string())) {
        SessionAction::Publish(m) => {
            assert_eq!(m.sender, "User1");
            assert_eq!(m.message, "hi there");
        }
        _ => panic!("expected a publish"),
    }
}

#[test]
fn unicode_whitespace_is_trimmed() {
    let name = "User1".to_string();
    match session_step(&name, ClientEvent::LineRead("\u{3000}\u{a0}héllo wörld\u{2003}\n".to_string())) {
        SessionAction::Publish(m) => assert_eq!(m.message, "héllo wörld"),
        _ => panic!("expected a publish"),
    }
    match session_step(&name, ClientEvent::LineRead(" \t\r\n".to_string())) {
        SessionAction::Publish(m) => assert_eq!(m.message, ""),
        _ => panic!("a blank line is still a line"),
    }
}

#[test]
fn empty_read_means_leaving() {
    let name = "User2".to_string();
    match session_step(&name, ClientEvent::LineRead(String::new())) {
        SessionAction::Leave(m) => {
            assert_eq!(m.sender, "User2");
            assert_eq!(m.message, "has left the chat");
        }
        _ => panic!("expected a leave"),
    }
}

#[test]
fn own_messages_are_not_echoed() {
    let name = "User2".to_string();
    let own = Message::new("User2".to_string(), "mine".to_string());
    assert!(matches!(session_step(&name, ClientEvent::Broadcast(own)), SessionAction::Ignore));
    let other = Message::new("User1".to_string(), "yours".to_string());
    match session_step(&name, ClientEvent::Broadcast(other)) {
        SessionAction::Deliver(text) => assert_eq!(text, "User1: yours\r\n"),
        _ => panic!("expected a delivery"),
    }
}

#[test]
fn shutdown_reaches_every_user() {
    let mut m = UserManager::new();
    for _ in 0..5 {
        let name = m.create();
        match session_step(&name, ClientEvent::Broadcast(shutdown_message())) {
            SessionAction::Deliver(text) => assert_eq!(text, "Server is shutting down...\r\n"),
            _ => panic!("the shutdown notice must be delivered"),
        }
    }
}

#[test]
fn cancellation_drains_then_closes() {
    let name = "User1".to_string();
    assert!(matches!(session_step(&name, ClientEvent::Cancelled), SessionAction::Drain));
}

#[test]
fn failures_close() {
    let name = "User1".to_string();
    assert!(matches!(session_step(&name, ClientEvent::PublishFailed), SessionAction::Close));
    assert!(matches!(session_step(&name, ClientEvent::WriteFailed), SessionAction::Close));
}

#[test]
fn session_opens_with_join_notice() {
    let name = "User3".to_string();
    match session_start(&name) {
        SessionAction::Publish(m) => {
            assert_eq!(m.kind, MessageKind::Notice);
            assert_eq!(m.sender, "User3");
            assert_eq!(m.message, "has joined the chat");
        }
        _ => panic!("a session opens by announcing the client"),
    }
}

#[test]
fn others_see_join_and_leave_notices() {
    let me = "User1".to_string();
    match session_step(&me, ClientEvent::Broadcast(join_message("User3".to_string()))) {
        SessionAction::Deliver(text) => assert_eq!(text, "User3 has joined the chat\r\n"),
        _ => panic!("the join notice must be delivered"),
    }
    match session_step(&me, ClientEvent::Broadcast(leave_message("User3".to_string()))) {
        SessionAction::Deliver(text) => assert_eq!(text, "User3 has left the chat\r\n"),
        _ => panic!("the leave notice must be delivered"),
    }
    let own = join_message("User1".to_string());
    assert!(matches!(session_step(&me, ClientEvent::Broadcast(own)), SessionAction::Ignore));
}
