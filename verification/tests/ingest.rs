use screen_relay::ingest::{accept_handshake, StudentPhase, StudentSession};
use screen_relay::message::Inbound;
use screen_relay::relay::Relay;
use tokio::sync::mpsc::error::TryRecvError;
use tokio::sync::mpsc::{unbounded_channel, UnboundedReceiver};

fn relay_with_viewer() -> (Relay, UnboundedReceiver<Vec<u8>>) {
    let mut relay = Relay::new();
    let (tx, rx) = unbounded_channel::<Vec<u8>>();
    relay.viewers.register(tx);
    (relay, rx)
}

fn text(s: &str) -> Inbound {
    Inbound::Text(s.to_string())
}

fn event(kind: &str, hostname: &str) -> Vec<u8> {
    let mut bytes = vec![0u8];
    bytes.extend_from_slice(format!("{{\"hostname\":\"{hostname}\",\"type\":\"{kind}\"}}").as_bytes());
    bytes
}

fn streaming(relay: &mut Relay, hostname: &str) -> StudentSession {
    let mut session = StudentSession::new();
    let _ = session.on_message(
        relay,
        text(&format!("{{\"role\":\"student\",\"hostname\":\"{hostname}\"}}")),
    );
    assert_eq!(session.phase(), StudentPhase::Streaming);
    session
}

#[test]
fn new_session_awaits_handshake() {
    let session = StudentSession::new();
    assert_eq!(session.phase(), StudentPhase::AwaitingHandshake);
    assert_eq!(session.hostname(), "");
    assert!(!session.is_closed());
}

#[test]
fn handshake_starts_the_stream_and_announces_the_student() {
    let (mut relay, mut rx) = relay_with_viewer();
    let mut session = StudentSession::new();
    let _ = session.on_message(&mut relay, text(r#"{"role":"student","hostname":"pc-1"}"#));
    assert_eq!(session.phase(), StudentPhase::Streaming);
    assert_eq!(session.hostname(), "pc-1");
    assert_eq!(rx.try_recv(), Ok(event("student_connected", "pc-1")));
    assert_eq!(rx.try_recv(), Err(TryRecvError::Empty));
    assert!(relay.list_active_hostnames().is_empty());
}

#[test]
fn handshake_without_hostname_uses_the_placeholder() {
    let (mut relay, mut rx) = relay_with_viewer();
    let mut session = StudentSession::new();
    let _ = session.on_message(&mut relay, text(r#"{"role":"student"}"#));
    assert_eq!(session.phase(), StudentPhase::Streaming);
    assert_eq!(session.hostname(), "unknown");
    assert_eq!(rx.try_recv(), Ok(event("student_connected", "unknown")));
}

#[test]
fn handshake_with_hostname_that_is_no_text_uses_the_placeholder() {
    let (mut relay, _rx) = relay_with_viewer();
    let mut session = StudentSession::new();
    let _ = session.on_message(&mut relay, text(r#"{"role":"student","hostname":42}"#));
    assert_eq!(session.phase(), StudentPhase::Streaming);
    assert_eq!(session.hostname(), "unknown");
}

#[test]
fn handshake_with_empty_hostname_uses_the_placeholder() {
    let (mut relay, mut rx) = relay_with_viewer();
    let mut session = StudentSession::new();
    let _ = session.on_message(&mut relay, text(r#"{"role":"student","hostname":""}"#));
    assert_eq!(session.phase(), StudentPhase::Streaming);
    assert_eq!(session.hostname(), "unknown");
    assert_eq!(rx.try_recv(), Ok(event("student_connected", "unknown")));
    let _ = session.on_message(&mut relay, Inbound::Binary(vec![1]));
    assert_eq!(rx.try_recv(), Ok(vec![7, b'u', b'n', b'k', b'n', b'o', b'w', b'n', 1]));
}

#[test]
fn handshake_with_extra_members_is_accepted() {
    let (mut relay, _rx) = relay_with_viewer();
    let mut session = StudentSession::new();
    let _ = session.on_message(
        &mut relay,
        text(r#"{"version":3,"hostname":"pc-2","role":"student","tags":["a"]}"#),
    );
    assert_eq!(session.phase(), StudentPhase::Streaming);
    assert_eq!(session.hostname(), "pc-2");
}

fn assert_rejected(first: Inbound) {
    let (mut relay, mut rx) = relay_with_viewer();
    relay.cache.put("other".to_string(), vec![1, 2]);
    let mut session = StudentSession::new();
    let _ = session.on_message(&mut relay, first);
    assert_eq!(session.phase(), StudentPhase::Closed);
    assert!(session.is_closed());
    assert_eq!(rx.try_recv(), Err(TryRecvError::Empty));
    assert_eq!(relay.cache.snapshot(), vec![("other".to_string(), vec![1, 2])]);
    assert_eq!(relay.viewers.len(), 1);
    let _ = session.on_message(&mut relay, Inbound::Binary(vec![9]));
    let _ = session.on_message(&mut relay, Inbound::Close);
    assert_eq!(rx.try_recv(), Err(TryRecvError::Empty));
    assert_eq!(relay.cache.snapshot(), vec![("other".to_string(), vec![1, 2])]);
}

#[test]
fn binary_first_message_is_rejected_without_trace() {
    assert_rejected(Inbound::Binary(vec![0xFF, 0xD8]));
    assert_rejected(Inbound::Binary(br#"{"role":"student","hostname":"pc-1"}"#.to_vec()));
}

#[test]
fn wrong_role_is_rejected_without_trace() {
    assert_rejected(text(r#"{"role":"teacher","hostname":"pc-1"}"#));
    assert_rejected(text(r#"{"role":"Student","hostname":"pc-1"}"#));
    assert_rejected(text(r#"{"role":7,"hostname":"pc-1"}"#));
    assert_rejected(text(r#"{"role":["student"],"hostname":"pc-1"}"#));
}

#[test]
fn missing_role_is_rejected_without_trace() {
    assert_rejected(text(r#"{"hostname":"pc-1"}"#));
    assert_rejected(text(r#"{}"#));
    assert_rejected(text(r#""student""#));
    assert_rejected(text(r#"["role","student"]"#));
}

#[test]
fn invalid_json_is_rejected_without_trace() {
    assert_rejected(text("role=student"));
    assert_rejected(text(""));
    assert_rejected(text(r#"{"role":"student","hostname":"pc-1""#));
    assert_rejected(text(r#"{"role":"student"} trailing"#));
}

#[test]
fn connection_that_ends_before_the_handshake_leaves_no_trace() {
    assert_rejected(Inbound::Close);
    assert_rejected(Inbound::Lost);
    assert_rejected(Inbound::Other);
}

#[test]
fn frame_is_cached_and_relayed_with_its_tag() {
    let (mut relay, mut rx) = relay_with_viewer();
    let mut session = streaming(&mut relay, "pc-1");
    let _ = rx.try_recv();
    let _ = session.on_message(&mut relay, Inbound::Binary(vec![0xFF, 0xD8, 0xFF]));
    assert_eq!(relay.cache.get("pc-1"), Some(vec![0xFF, 0xD8, 0xFF]));
    assert_eq!(rx.try_recv(), Ok(vec![4, b'p', b'c', b'-', b'1', 0xFF, 0xD8, 0xFF]));
    assert_eq!(rx.try_recv(), Err(TryRecvError::Empty));
    assert_eq!(relay.list_active_hostnames(), vec!["pc-1".to_string()]);
}

#[test]
fn cache_holds_the_last_of_many_frames() {
    let (mut relay, mut rx) = relay_with_viewer();
    relay.cache.put("other".to_string(), vec![42]);
    let mut session = streaming(&mut relay, "pc-1");
    let _ = rx.try_recv();
    for n in 1..=50u8 {
        let _ = session.on_message(&mut relay, Inbound::Binary(vec![n; n as usize]));
        assert_eq!(relay.cache.get("pc-1"), Some(vec![n; n as usize]));
    }
    assert_eq!(relay.cache.get("pc-1"), Some(vec![50; 50]));
    assert_eq!(relay.cache.get("other"), Some(vec![42]));
    let mut names = relay.list_active_hostnames();
    names.sort();
    assert_eq!(names, vec!["other".to_string(), "pc-1".to_string()]);
}

#[test]
fn frames_reach_a_viewer_in_sending_order() {
    let (mut relay, mut rx) = relay_with_viewer();
    let mut session = streaming(&mut relay, "s");
    let _ = rx.try_recv();
    let _ = session.on_message(&mut relay, Inbound::Binary(b"F1".to_vec()));
    let _ = session.on_message(&mut relay, Inbound::Binary(b"F2".to_vec()));
    let _ = session.on_message(&mut relay, Inbound::Binary(b"F3".to_vec()));
    assert_eq!(rx.try_recv(), Ok(b"\x01sF1".to_vec()));
    assert_eq!(rx.try_recv(), Ok(b"\x01sF2".to_vec()));
    assert_eq!(rx.try_recv(), Ok(b"\x01sF3".to_vec()));
    assert_eq!(rx.try_recv(), Err(TryRecvError::Empty));
}

#[test]
fn empty_frame_is_a_frame() {
    let (mut relay, mut rx) = relay_with_viewer();
    let mut session = streaming(&mut relay, "pc-1");
    let _ = rx.try_recv();
    let _ = session.on_message(&mut relay, Inbound::Binary(vec![]));
    assert_eq!(relay.cache.get("pc-1"), Some(vec![]));
    assert_eq!(rx.try_recv(), Ok(vec![4, b'p', b'c', b'-', b'1']));
}

#[test]
fn text_and_other_messages_are_ignored_while_streaming() {
    let (mut relay, mut rx) = relay_with_viewer();
    let mut session = streaming(&mut relay, "pc-1");
    let _ = rx.try_recv();
    let _ = session.on_message(&mut relay, text(r#"{"role":"student","hostname":"pc-2"}"#));
    let _ = session.on_message(&mut relay, text("hello"));
    let _ = session.on_message(&mut relay, Inbound::Other);
    assert_eq!(session.phase(), StudentPhase::Streaming);
    assert_eq!(session.hostname(), "pc-1");
    assert_eq!(rx.try_recv(), Err(TryRecvError::Empty));
    assert!(relay.list_active_hostnames().is_empty());
}

fn assert_departure(ending: Inbound) {
    let mut relay = Relay::new();
    let (tx1, mut rx1) = unbounded_channel::<Vec<u8>>();
    let (tx2, mut rx2) = unbounded_channel::<Vec<u8>>();
    relay.viewers.register(tx1);
    relay.viewers.register(tx2);
    relay.cache.put("other".to_string(), vec![42]);
    let mut session = streaming(&mut relay, "pc-1");
    let _ = session.on_message(&mut relay, Inbound::Binary(vec![1, 2, 3]));
    while rx1.try_recv().is_ok() {}
    while rx2.try_recv().is_ok() {}
    let _ = session.on_message(&mut relay, ending);
    assert!(session.is_closed());
    assert_eq!(relay.cache.get("pc-1"), None);
    assert_eq!(relay.cache.get("other"), Some(vec![42]));
    assert_eq!(relay.list_active_hostnames(), vec!["other".to_string()]);
    assert_eq!(rx1.try_recv(), Ok(event("student_disconnected", "pc-1")));
    assert_eq!(rx2.try_recv(), Ok(event("student_disconnected", "pc-1")));
    let _ = session.on_message(&mut relay, Inbound::Close);
    let _ = session.on_message(&mut relay, Inbound::Lost);
    let _ = session.on_message(&mut relay, Inbound::Binary(vec![4]));
    assert_eq!(rx1.try_recv(), Err(TryRecvError::Empty));
    assert_eq!(rx2.try_recv(), Err(TryRecvError::Empty));
    assert_eq!(relay.cache.get("pc-1"), None);
    assert_eq!(relay.viewers.len(), 2);
}

#[test]
fn close_drops_the_slot_and_announces_the_departure_once() {
    assert_departure(Inbound::Close);
}

#[test]
fn lost_connection_is_handled_like_close() {
    assert_departure(Inbound::Lost);
}

#[test]
fn departure_without_frames_still_announces() {
    let (mut relay, mut rx) = relay_with_viewer();
    let mut session = streaming(&mut relay, "pc-1");
    let _ = rx.try_recv();
    let _ = session.on_message(&mut relay, Inbound::Close);
    assert_eq!(rx.try_recv(), Ok(event("student_disconnected", "pc-1")));
    assert!(relay.list_active_hostnames().is_empty());
}

#[test]
fn two_students_do_not_disturb_each_other() {
    let (mut relay, mut rx) = relay_with_viewer();
    let mut a = streaming(&mut relay, "a");
    let mut b = streaming(&mut relay, "b");
    let _ = a.on_message(&mut relay, Inbound::Binary(vec![1]));
    let _ = b.on_message(&mut relay, Inbound::Binary(vec![2]));
    let _ = a.on_message(&mut relay, Inbound::Close);
    assert_eq!(relay.cache.get("a"), None);
    assert_eq!(relay.cache.get("b"), Some(vec![2]));
    assert_eq!(b.phase(), StudentPhase::Streaming);
    let mut seen = Vec::new();
    while let Ok(message) = rx.try_recv() {
        seen.push(message);
    }
    assert_eq!(
        seen,
        vec![
            event("student_connected", "a"),
            event("student_connected", "b"),
            vec![1, b'a', 1],
            vec![1, b'b', 2],
            event("student_disconnected", "a"),
        ]
    );
}

#[test]
fn stalled_or_gone_viewer_does_not_stop_ingest() {
    let mut relay = Relay::new();
    let (tx, rx) = unbounded_channel::<Vec<u8>>();
    relay.viewers.register(tx);
    drop(rx);
    let mut session = streaming(&mut relay, "pc-1");
    let _ = session.on_message(&mut relay, Inbound::Binary(vec![1]));
    let _ = session.on_message(&mut relay, Inbound::Binary(vec![2]));
    assert_eq!(relay.cache.get("pc-1"), Some(vec![2]));
    assert_eq!(session.phase(), StudentPhase::Streaming);
}

#[test]
fn accept_handshake_decides_by_role() {
    let some = |s: &str| Some(s.to_string());
    assert_eq!(accept_handshake(Some((some("student"), some("pc-1")))), some("pc-1"));
    assert_eq!(accept_handshake(Some((some("student"), some("")))), some("unknown"));
    assert_eq!(accept_handshake(Some((some("student"), None))), some("unknown"));
    assert_eq!(accept_handshake(Some((some("teacher"), some("pc-1")))), None);
    assert_eq!(accept_handshake(Some((some(""), some("pc-1")))), None);
    assert_eq!(accept_handshake(Some((None, some("pc-1")))), None);
    assert_eq!(accept_handshake(Some((None, None))), None);
    assert_eq!(accept_handshake(None), None);
}
