//! The tagged binary format that multiplexes all student streams over one
//! viewer connection.
//!
//! A message starts with one byte `N`. For `N > 0` the next `N` bytes are the
//! hostname in UTF-8 and the rest is the raw frame. `N = 0` marks a lifecycle
//! event: the rest is a JSON object with the members `type` and `hostname`.
//! A decoder looks at the first byte before it reads anything else.

use crate::json::{
    json_members, json_object, json_object_text, members_view, read_json_members, texts_view,
    Members,
};
use crate::text::same_text;
use vstd::prelude::*;
use vstd::slice::{slice_subrange, slice_to_vec};
use vstd::utf8::{decode_utf8, encode_utf8, valid_utf8};

verus! {

/// Largest hostname length, in bytes, that the one-byte tag can announce.
pub const MAX_TAG_LEN: usize = 255;

/// The number of hostname bytes that a tagged frame carries: the whole
/// hostname, capped at [`MAX_TAG_LEN`].
pub open spec fn tag_len(hostname: Seq<u8>) -> int {
    if hostname.len() <= MAX_TAG_LEN {
        hostname.len() as int
    } else {
        MAX_TAG_LEN as int
    }
}

/// The wire form of one frame: the tag length, the tag, then the payload as
/// it came.
pub open spec fn frame_wire(hostname: Seq<u8>, payload: Seq<u8>) -> Seq<u8> {
    seq![tag_len(hostname) as u8] + hostname.take(tag_len(hostname)) + payload
}

/// The wire form of one lifecycle event: the zero byte, then the JSON object
/// that names the event and the hostname. The hostname travels inside the
/// JSON body only.
pub open spec fn event_wire(event_type: Seq<char>, hostname: Seq<char>) -> Seq<u8> {
    seq![0u8] + encode_utf8(
        json_object_text(seq![("type"@, event_type), ("hostname"@, hostname)], seq![]),
    )
}

/// The two lifecycle events of a student stream.
#[derive(Clone, Copy, Debug, PartialEq, Eq)]
pub enum EventKind {
    StudentConnected,
    StudentDisconnected,
}

impl EventKind {
    /// The name of the event on the wire.
    pub open spec fn text(self) -> Seq<char> {
        match self {
            EventKind::StudentConnected => "student_connected"@,
            EventKind::StudentDisconnected => "student_disconnected"@,
        }
    }

    /// The event that `text` names, if any.
    pub open spec fn named(text: Seq<char>) -> Option<EventKind> {
        if text == "student_connected"@ {
            Some(EventKind::StudentConnected)
        } else if text == "student_disconnected"@ {
            Some(EventKind::StudentDisconnected)
        } else {
            None
        }
    }

    /// The name of the event on the wire.
    pub fn as_str(&self) -> (name: &'static str)
        ensures
            name@ == self.text(),
    {
        match self {
            EventKind::StudentConnected => "student_connected",
            EventKind::StudentDisconnected => "student_disconnected",
        }
    }

    /// Reads an event name.
    pub fn parse(text: &str) -> (kind: Option<EventKind>)
        ensures
            kind == EventKind::named(text@),
    {
        if same_text(text, "student_connected") {
            Some(EventKind::StudentConnected)
        } else if same_text(text, "student_disconnected") {
            Some(EventKind::StudentDisconnected)
        } else {
            None
        }
    }
}

/// Every event name is read back as its event.
pub proof fn lemma_event_names_round_trip(kind: EventKind)
    ensures
        EventKind::named(kind.text()) == Some(kind),
{
    reveal_strlit("student_connected");
    reveal_strlit("student_disconnected");
    assert("student_connected"@.len() != "student_disconnected"@.len());
}

/// One message of the viewer stream.
#[derive(Debug, PartialEq, Eq)]
pub enum TaggedMessage {
    /// The latest image of one student.
    Frame { hostname: String, payload: Vec<u8> },
    /// A student came or went.
    Event { kind: EventKind, hostname: String },
}

/// A message as the contracts see it.
pub enum TaggedView {
    Frame { hostname: Seq<char>, payload: Seq<u8> },
    Event { kind: EventKind, hostname: Seq<char> },
}

impl View for TaggedMessage {
    type V = TaggedView;

    open spec fn view(&self) -> TaggedView {
        match self {
            TaggedMessage::Frame { hostname, payload } => TaggedView::Frame {
                hostname: hostname@,
                payload: payload@,
            },
            TaggedMessage::Event { kind, hostname } => TaggedView::Event {
                kind: *kind,
                hostname: hostname@,
            },
        }
    }
}

/// Why a byte string is no tagged message.
#[derive(Clone, Copy, Debug, PartialEq, Eq)]
pub enum DecodeError {
    /// There is no first byte.
    Empty,
    /// The first byte announces more hostname bytes than follow.
    Truncated,
    /// The hostname bytes are not UTF-8.
    BadHostname,
    /// The body of an event is not UTF-8, not JSON, lacks the text member
    /// `type` or `hostname`, or names an event that does not exist.
    BadEvent,
}

/// The wire form of a message.
pub open spec fn encoded(message: TaggedView) -> Seq<u8> {
    match message {
        TaggedView::Frame { hostname, payload } => frame_wire(encode_utf8(hostname), payload),
        TaggedView::Event { kind, hostname } => event_wire(kind.text(), hostname),
    }
}

/// The event that the members of an event body describe.
pub open spec fn event_of(members: Option<(Option<Seq<char>>, Option<Seq<char>>)>) -> Result<
    TaggedView,
    DecodeError,
> {
    match members {
        Some((Some(event_type), Some(hostname))) => match EventKind::named(event_type) {
            Some(kind) => Ok(TaggedView::Event { kind, hostname }),
            None => Err(DecodeError::BadEvent),
        },
        _ => Err(DecodeError::BadEvent),
    }
}

/// What a byte string means as a tagged message.
pub open spec fn decoded(bytes: Seq<u8>) -> Result<TaggedView, DecodeError> {
    if bytes.len() == 0 {
        Err(DecodeError::Empty)
    } else if bytes[0] == 0 {
        let body = bytes.skip(1);
        if valid_utf8(body) {
            event_of(json_members(decode_utf8(body), "type"@, "hostname"@))
        } else {
            Err(DecodeError::BadEvent)
        }
    } else if bytes.len() < 1 + bytes[0] {
        Err(DecodeError::Truncated)
    } else {
        let tag = bytes.subrange(1, 1 + bytes[0]);
        if valid_utf8(tag) {
            Ok(TaggedView::Frame { hostname: decode_utf8(tag), payload: bytes.skip(1 + bytes[0]) })
        } else {
            Err(DecodeError::BadHostname)
        }
    }
}

/// `core::str::from_utf8`: the text that the bytes spell, exactly when they
/// are valid UTF-8.
#[verifier::external_body]
fn text_of_utf8(bytes: &[u8]) -> (text: Option<String>)
    ensures
        text is Some <==> valid_utf8(bytes@),
        text matches Some(t) ==> encode_utf8(t@) == bytes@,
{
    match core::str::from_utf8(bytes) {
        Ok(text) => Some(text.to_owned()),
        Err(_) => None,
    }
}

/// Builds a tagged binary frame: one byte of hostname length, the hostname
/// bytes, then the payload.
pub fn build_tagged_frame(hostname: &str, jpeg_bytes: &[u8]) -> (frame: Vec<u8>)
    ensures
        frame@ == frame_wire(encode_utf8(hostname@), jpeg_bytes@),
{
    let hn_bytes = hostname.as_bytes();
    let n: usize = if hn_bytes.len() <= MAX_TAG_LEN {
        hn_bytes.len()
    } else {
        MAX_TAG_LEN
    };
    let mut frame: Vec<u8> = Vec::new();
    frame.push(n as u8);
    frame.extend_from_slice(slice_subrange(hn_bytes, 0, n));
    frame.extend_from_slice(jpeg_bytes);
    frame
}

/// Builds a tagged lifecycle event: the zero byte, then the JSON object
/// `{"type": event_type, "hostname": hostname}`.
pub fn build_tagged_event(event_type: &str, hostname: &str) -> (frame: Vec<u8>)
    ensures
        frame@ == event_wire(event_type@, hostname@),
{
    let texts = [("type", event_type), ("hostname", hostname)];
    let lists: [(&str, &Vec<String>); 0] = [];
    assert(texts_view(texts@) =~= seq![("type"@, event_type@), ("hostname"@, hostname@)]);
    assert(crate::json::lists_view(lists@) =~= seq![]);
    let json = json_object(&texts, &lists);
    let mut frame: Vec<u8> = Vec::new();
    frame.push(0u8);
    frame.extend_from_slice(json.as_str().as_bytes());
    frame
}

/// The event that the members read from an event body describe: both
/// members must be there, and `type` must name an event.
pub fn event_from_members(members: Members) -> (message: Result<TaggedMessage, DecodeError>)
    ensures
        match message {
            Ok(m) => event_of(members_view(members)) == Ok::<TaggedView, DecodeError>(m@),
            Err(e) => event_of(members_view(members)) == Err::<TaggedView, DecodeError>(e),
        },
{
    match members {
        Some((Some(event_type), Some(hostname))) => match EventKind::parse(event_type.as_str()) {
            Some(kind) => Ok(TaggedMessage::Event { kind, hostname }),
            None => Err(DecodeError::BadEvent),
        },
        _ => Err(DecodeError::BadEvent),
    }
}

impl TaggedMessage {
    /// The wire form of this message.
    pub fn encode(&self) -> (bytes: Vec<u8>)
        ensures
            bytes@ == encoded(self@),
    {
        match self {
            TaggedMessage::Frame { hostname, payload } => build_tagged_frame(
                hostname.as_str(),
                payload.as_slice(),
            ),
            TaggedMessage::Event { kind, hostname } => build_tagged_event(
                kind.as_str(),
                hostname.as_str(),
            ),
        }
    }
}

/// Reads one tagged message. The first byte decides between event and frame
/// before anything else is read.
pub fn decode(bytes: &[u8]) -> (message: Result<TaggedMessage, DecodeError>)
    ensures
        match message {
            Ok(m) => decoded(bytes@) == Ok::<TaggedView, DecodeError>(m@),
            Err(e) => decoded(bytes@) == Err::<TaggedView, DecodeError>(e),
        },
{
    if bytes.len() == 0 {
        return Err(DecodeError::Empty);
    }
    let n: usize = bytes[0] as usize;
    if n == 0 {
        let body = slice_subrange(bytes, 1, bytes.len());
        assert(body@ == bytes@.skip(1));
        match text_of_utf8(body) {
            Some(text) => {
                proof {
                    vstd::utf8::encode_utf8_decode_utf8(text@);
                }
                event_from_members(read_json_members(text.as_str(), "type", "hostname"))
            },
            None => Err(DecodeError::BadEvent),
        }
    } else if bytes.len() - 1 < n {
        Err(DecodeError::Truncated)
    } else {
        let tag = slice_subrange(bytes, 1, 1 + n);
        match text_of_utf8(tag) {
            Some(hostname) => {
                proof {
                    vstd::utf8::encode_utf8_decode_utf8(hostname@);
                }
                let payload = slice_to_vec(slice_subrange(bytes, 1 + n, bytes.len()));
                assert(payload@ == bytes@.skip(1 + n));
                Ok(TaggedMessage::Frame { hostname, payload })
            },
            None => Err(DecodeError::BadHostname),
        }
    }
}

/// Decoding is the inverse of encoding a frame: a hostname of 1 to 255 bytes
/// and any payload, the empty one too, come back as they went in.
pub proof fn lemma_frame_round_trip(hostname: Seq<char>, payload: Seq<u8>)
    requires
        1 <= encode_utf8(hostname).len() <= MAX_TAG_LEN,
    ensures
        decoded(encoded(TaggedView::Frame { hostname, payload })) == Ok::<TaggedView, DecodeError>(
            TaggedView::Frame { hostname, payload },
        ),
{
    let tag = encode_utf8(hostname);
    let bytes = frame_wire(tag, payload);
    vstd::utf8::encode_utf8_valid_utf8(hostname);
    vstd::utf8::encode_utf8_decode_utf8(hostname);
    assert(tag.take(tag.len() as int) =~= tag);
    assert(bytes[0] == tag.len());
    assert(bytes.subrange(1, 1 + bytes[0]) =~= tag);
    assert(bytes.skip(1 + bytes[0]) =~= payload);
}

} // verus!
