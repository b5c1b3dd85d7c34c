use screen_relay::chat::{
    notification_notice, reaches, route_chat, violation_notice, ChatCommand, ChatSession,
    TEACHER_ID,
};
use screen_relay::message::Inbound;

const NOW: &str = "2024-05-06T07:08:09+00:00";

fn text(s: &str) -> Inbound {
    Inbound::Text(s.to_string())
}

fn some(s: &str) -> Option<String> {
    Some(s.to_string())
}

#[test]
fn new_connection_has_no_id() {
    let session = ChatSession::new();
    assert_eq!(session.client_id(), "");
    assert_eq!(session.farewell(NOW), None);
}

#[test]
fn identify_names_the_client_and_announces_it() {
    let mut session = ChatSession::new();
    let command = session.on_message(&text(r#"{"type":"identify","id":"anna"}"#), NOW);
    assert_eq!(
        command,
        ChatCommand::Identify {
            id: "anna".to_string(),
            announcement: format!(
                "{{\"content\":\"anna joined the chat\",\"timestamp\":\"{NOW}\",\"type\":\"system\"}}"
            ),
        }
    );
    assert_eq!(session.client_id(), "anna");
}

#[test]
fn identify_without_id_uses_the_placeholder() {
    let mut session = ChatSession::new();
    let command = session.on_message(&text(r#"{"type":"identify"}"#), NOW);
    match command {
        ChatCommand::Identify { id, announcement } => {
            assert_eq!(id, "unknown");
            assert!(announcement.contains("\"content\":\"unknown joined the chat\""));
        }
        other => panic!("{other:?}"),
    }
    assert_eq!(session.client_id(), "unknown");
    let command = session.on_message(&text(r#"{"type":"identify","id":5}"#), NOW);
    assert!(matches!(command, ChatCommand::Identify { ref id, .. } if id == "unknown"));
}

#[test]
fn identify_again_changes_the_id() {
    let mut session = ChatSession::new();
    let _ = session.on_message(&text(r#"{"type":"identify","id":"a"}"#), NOW);
    let _ = session.on_message(&text(r#"{"type":"identify","id":"b"}"#), NOW);
    assert_eq!(session.client_id(), "b");
    let _ = session.on_message(&text(r#"{"type":"identify","id":""}"#), NOW);
    assert_eq!(session.client_id(), "");
    assert_eq!(session.farewell(NOW), None);
}

#[test]
fn chat_to_all_is_broadcast() {
    let mut session = ChatSession::new();
    let _ = session.on_message(&text(r#"{"type":"identify","id":"anna"}"#), NOW);
    let expected = ChatCommand::Broadcast {
        text: format!(
            "{{\"content\":\"hi\",\"from\":\"anna\",\"timestamp\":\"{NOW}\",\"to\":\"all\",\"type\":\"chat\"}}"
        ),
        except: String::new(),
    };
    assert_eq!(
        session.on_message(&text(r#"{"type":"chat","to":"all","content":"hi"}"#), NOW),
        expected
    );
    assert_eq!(session.on_message(&text(r#"{"type":"chat","content":"hi"}"#), NOW), expected);
    assert_eq!(session.client_id(), "anna");
}

#[test]
fn chat_to_one_is_direct() {
    let mut session = ChatSession::new();
    let _ = session.on_message(&text(r#"{"type":"identify","id":"anna"}"#), NOW);
    assert_eq!(
        session.on_message(&text(r#"{"type":"chat","to":"teacher","content":"help"}"#), NOW),
        ChatCommand::Direct {
            to: "teacher".to_string(),
            text: format!(
                "{{\"content\":\"help\",\"from\":\"anna\",\"timestamp\":\"{NOW}\",\"to\":\"teacher\",\"type\":\"chat\"}}"
            ),
        }
    );
}

#[test]
fn chat_without_content_is_empty() {
    let mut session = ChatSession::new();
    assert_eq!(
        session.on_message(&text(r#"{"type":"chat","to":"bob"}"#), NOW),
        ChatCommand::Direct {
            to: "bob".to_string(),
            text: format!(
                "{{\"content\":\"\",\"from\":\"\",\"timestamp\":\"{NOW}\",\"to\":\"bob\",\"type\":\"chat\"}}"
            ),
        }
    );
}

#[test]
fn other_messages_mean_nothing() {
    let mut session = ChatSession::new();
    for message in [
        text("not json"),
        text(""),
        text(r#"{"type":"system","content":"x"}"#),
        text(r#"{"type":7}"#),
        text(r#"{"id":"anna"}"#),
        text(r#"["identify"]"#),
        text(r#"{"type":"Identify","id":"anna"}"#),
        Inbound::Binary(br#"{"type":"identify","id":"anna"}"#.to_vec()),
        Inbound::Other,
    ] {
        assert_eq!(session.on_message(&message, NOW), ChatCommand::Ignore);
    }
    assert_eq!(session.client_id(), "");
}

#[test]
fn end_of_connection_means_leave() {
    let mut session = ChatSession::new();
    assert_eq!(session.on_message(&Inbound::Close, NOW), ChatCommand::Leave);
    assert_eq!(session.on_message(&Inbound::Lost, NOW), ChatCommand::Leave);
}

#[test]
fn farewell_names_the_client() {
    let mut session = ChatSession::new();
    let _ = session.on_message(&text(r#"{"type":"identify","id":"anna"}"#), NOW);
    assert_eq!(
        session.farewell(NOW),
        Some(format!(
            "{{\"content\":\"anna left the chat\",\"timestamp\":\"{NOW}\",\"type\":\"system\"}}"
        ))
    );
}

#[test]
fn route_chat_decides_from_members() {
    assert_eq!(route_chat("a", None, None, NOW), ChatCommand::Ignore);
    assert_eq!(route_chat("a", Some((None, some("x"))), Some((None, None)), NOW), ChatCommand::Ignore);
    assert_eq!(route_chat("a", Some((some("chat"), None)), None, NOW), ChatCommand::Ignore);
    assert!(matches!(
        route_chat("a", Some((some("identify"), some("x"))), Some((None, None)), NOW),
        ChatCommand::Identify { ref id, .. } if id == "x"
    ));
    assert!(matches!(
        route_chat("a", Some((some("chat"), None)), Some((some("all"), some("m"))), NOW),
        ChatCommand::Broadcast { ref except, .. } if except.is_empty()
    ));
    assert!(matches!(
        route_chat("a", Some((some("chat"), None)), Some((some("All"), some("m"))), NOW),
        ChatCommand::Direct { ref to, .. } if to == "All"
    ));
}

#[test]
fn broadcast_skips_the_excepted_client_only() {
    assert!(reaches("bob", "anna"));
    assert!(!reaches("anna", "anna"));
    assert!(reaches("anna", ""));
    assert!(!reaches("", ""));
    assert!(reaches("Anna", "anna"));
}

#[test]
fn notices_for_the_teacher() {
    assert_eq!(TEACHER_ID, "teacher");
    assert_eq!(
        notification_notice("pc-1", "Low battery", "5% left", "warning", NOW),
        format!(
            "{{\"hostname\":\"pc-1\",\"level\":\"warning\",\"message\":\"5% left\",\"timestamp\":\"{NOW}\",\"title\":\"Low battery\",\"type\":\"notification\"}}"
        )
    );
    assert_eq!(
        violation_notice("pc-1", "banned_app", "game.exe \"x\"", "high", NOW),
        format!(
            "{{\"detail\":\"game.exe \\\"x\\\"\",\"hostname\":\"pc-1\",\"rule\":\"banned_app\",\"severity\":\"high\",\"timestamp\":\"{NOW}\",\"type\":\"violation\"}}"
        )
    );
}
