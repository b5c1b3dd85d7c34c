use screen_relay::wire::{
    build_tagged_event, build_tagged_frame, decode, event_from_members, DecodeError, EventKind,
    TaggedMessage, MAX_TAG_LEN,
};

#[test]
fn frame_is_length_then_hostname_then_payload() {
    let frame = build_tagged_frame("pc-1", &[0xFF, 0xD8, 0x00]);
    assert_eq!(frame, vec![4, b'p', b'c', b'-', b'1', 0xFF, 0xD8, 0x00]);
}

#[test]
fn frame_with_empty_payload_is_only_the_tag() {
    let frame = build_tagged_frame("lab", &[]);
    assert_eq!(frame, vec![3, b'l', b'a', b'b']);
}

#[test]
fn frame_counts_hostname_bytes_not_characters() {
    let frame = build_tagged_frame("é", &[7]);
    assert_eq!(frame, vec![2, 0xC3, 0xA9, 7]);
}

#[test]
fn frame_with_longest_hostname_keeps_all_of_it() {
    let hostname = "h".repeat(255);
    let frame = build_tagged_frame(&hostname, &[1, 2]);
    assert_eq!(frame.len(), 1 + 255 + 2);
    assert_eq!(frame[0], 255);
    assert_eq!(&frame[1..256], hostname.as_bytes());
    assert_eq!(&frame[256..], &[1, 2]);
}

#[test]
fn frame_caps_the_tag_at_255_bytes() {
    assert_eq!(MAX_TAG_LEN, 255);
    let hostname = format!("{}{}", "a".repeat(255), "bcd");
    let frame = build_tagged_frame(&hostname, &[9]);
    assert_eq!(frame.len(), 1 + 255 + 1);
    assert_eq!(frame[0], 255);
    assert_eq!(&frame[1..256], "a".repeat(255).as_bytes());
    assert_eq!(frame[256], 9);
}

#[test]
fn event_is_zero_byte_then_json() {
    let event = build_tagged_event("student_connected", "pc-1");
    let mut expected = vec![0u8];
    expected.extend_from_slice(br#"{"hostname":"pc-1","type":"student_connected"}"#);
    assert_eq!(event, expected);
}

#[test]
fn event_carries_no_hostname_bytes_outside_the_json() {
    let event = build_tagged_event("student_disconnected", "lab-07");
    assert_eq!(event[0], 0);
    assert_eq!(event[1], b'{');
    assert_eq!(
        &event[1..],
        br#"{"hostname":"lab-07","type":"student_disconnected"}"#
    );
}

#[test]
fn event_escapes_what_json_must_escape() {
    let event = build_tagged_event("student_connected", "a\"b\\c\n");
    assert_eq!(
        &event[1..],
        br#"{"hostname":"a\"b\\c\n","type":"student_connected"}"#
    );
}

#[test]
fn round_trip_for_every_hostname_length() {
    for length in 1..=255usize {
        let hostname = "x".repeat(length);
        for payload in [vec![], vec![0u8], vec![1, 2, 3, 0, 255]] {
            let bytes = build_tagged_frame(&hostname, &payload);
            assert_eq!(
                decode(&bytes),
                Ok(TaggedMessage::Frame { hostname: hostname.clone(), payload })
            );
        }
    }
}

#[test]
fn round_trip_with_multibyte_hostname() {
    let hostname = "küche-π-教室";
    let payload = vec![0u8, 0, 7];
    let bytes = build_tagged_frame(hostname, &payload);
    assert_eq!(
        decode(&bytes),
        Ok(TaggedMessage::Frame { hostname: hostname.to_string(), payload })
    );
}

#[test]
fn empty_hostname_does_not_round_trip() {
    let bytes = build_tagged_frame("", &[]);
    assert_eq!(bytes, vec![0]);
    assert_eq!(decode(&bytes), Err(DecodeError::BadEvent));
    let bytes = build_tagged_frame("", &[1, 2, 3]);
    assert_eq!(bytes, vec![0, 1, 2, 3]);
    assert_eq!(decode(&bytes), Err(DecodeError::BadEvent));
}

#[test]
fn message_encode_then_decode_gives_the_message() {
    let frame = TaggedMessage::Frame { hostname: "pc-9".to_string(), payload: vec![5, 6] };
    assert_eq!(frame.encode(), vec![4, b'p', b'c', b'-', b'9', 5, 6]);
    assert_eq!(decode(&frame.encode()), Ok(frame));
    let joined = TaggedMessage::Event {
        kind: EventKind::StudentConnected,
        hostname: "pc-9".to_string(),
    };
    assert_eq!(decode(&joined.encode()), Ok(joined));
    let left = TaggedMessage::Event {
        kind: EventKind::StudentDisconnected,
        hostname: "quote\"d".to_string(),
    };
    assert_eq!(decode(&left.encode()), Ok(left));
}

#[test]
fn decode_branches_on_the_first_byte() {
    let mut bytes = vec![0u8];
    bytes.extend_from_slice(br#"{"type":"student_connected","hostname":"pc-1"}"#);
    assert_eq!(
        decode(&bytes),
        Ok(TaggedMessage::Event {
            kind: EventKind::StudentConnected,
            hostname: "pc-1".to_string()
        })
    );
    let mut bytes = vec![1u8];
    bytes.extend_from_slice(br#"{"type":"student_connected","hostname":"pc-1"}"#);
    assert_eq!(
        decode(&bytes),
        Ok(TaggedMessage::Frame {
            hostname: "{".to_string(),
            payload: br#""type":"student_connected","hostname":"pc-1"}"#.to_vec()
        })
    );
}

#[test]
fn decode_rejects_empty_input() {
    assert_eq!(decode(&[]), Err(DecodeError::Empty));
}

#[test]
fn decode_rejects_short_hostname() {
    assert_eq!(decode(&[3, b'a', b'b']), Err(DecodeError::Truncated));
    assert_eq!(decode(&[1]), Err(DecodeError::Truncated));
    assert_eq!(decode(&[255, 0, 0]), Err(DecodeError::Truncated));
}

#[test]
fn decode_accepts_hostname_that_ends_the_input() {
    assert_eq!(
        decode(&[2, b'a', b'b']),
        Ok(TaggedMessage::Frame { hostname: "ab".to_string(), payload: vec![] })
    );
}

#[test]
fn decode_rejects_hostname_that_is_not_utf8() {
    assert_eq!(decode(&[2, 0xC3, 0x28, 1]), Err(DecodeError::BadHostname));
    assert_eq!(decode(&[1, 0xFF]), Err(DecodeError::BadHostname));
}

#[test]
fn decode_rejects_bad_event_bodies() {
    assert_eq!(decode(&[0]), Err(DecodeError::BadEvent));
    assert_eq!(decode(&[0, 0xFF, 0xFE]), Err(DecodeError::BadEvent));
    assert_eq!(decode(b"\0not json"), Err(DecodeError::BadEvent));
    assert_eq!(decode(b"\0{\"type\":\"student_connected\"}"), Err(DecodeError::BadEvent));
    assert_eq!(decode(b"\0{\"hostname\":\"pc-1\"}"), Err(DecodeError::BadEvent));
    assert_eq!(
        decode(b"\0{\"type\":\"student_promoted\",\"hostname\":\"pc-1\"}"),
        Err(DecodeError::BadEvent)
    );
    assert_eq!(
        decode(b"\0{\"type\":\"student_connected\",\"hostname\":17}"),
        Err(DecodeError::BadEvent)
    );
    assert_eq!(decode(b"\0[\"student_connected\",\"pc-1\"]"), Err(DecodeError::BadEvent));
}

#[test]
fn event_from_members_needs_both_members_and_a_known_name() {
    let text = |s: &str| Some(s.to_string());
    assert_eq!(
        event_from_members(Some((text("student_disconnected"), text("pc-3")))),
        Ok(TaggedMessage::Event {
            kind: EventKind::StudentDisconnected,
            hostname: "pc-3".to_string()
        })
    );
    assert_eq!(event_from_members(None), Err(DecodeError::BadEvent));
    assert_eq!(event_from_members(Some((None, text("pc-3")))), Err(DecodeError::BadEvent));
    assert_eq!(
        event_from_members(Some((text("student_connected"), None))),
        Err(DecodeError::BadEvent)
    );
    assert_eq!(
        event_from_members(Some((text("Student_Connected"), text("pc-3")))),
        Err(DecodeError::BadEvent)
    );
}

#[test]
fn event_names_are_read_back() {
    assert_eq!(EventKind::StudentConnected.as_str(), "student_connected");
    assert_eq!(EventKind::StudentDisconnected.as_str(), "student_disconnected");
    assert_eq!(EventKind::parse("student_connected"), Some(EventKind::StudentConnected));
    assert_eq!(EventKind::parse("student_disconnected"), Some(EventKind::StudentDisconnected));
    assert_eq!(EventKind::parse("student_list"), None);
    assert_eq!(EventKind::parse(""), None);
}
