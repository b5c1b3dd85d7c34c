//! The session of one student connection.
//!
//! A session waits for one handshake message, then streams: every binary
//! message is one complete frame that replaces the student's cache slot and
//! goes out to all viewers. When the connection ends, the slot is dropped
//! and the viewers are told. A connection that fails the handshake leaves no
//! trace in the relay.
//!
//! The session decides; the caller owns the connection, reads it, and hands
//! each message to [`StudentSession::on_message`].

use crate::json::{json_members, members_view, read_json_members, text_view, Members};
use crate::message::{Inbound, InboundView};
use crate::registry::fan_out;
use crate::relay::{Relay, RelayView};
use crate::text::same_text;
use crate::wire::{build_tagged_event, build_tagged_frame, event_wire, frame_wire, EventKind};
use vstd::prelude::*;
use vstd::utf8::encode_utf8;

verus! {

/// Where a student session stands.
#[derive(Clone, Copy, Debug, PartialEq, Eq)]
pub enum StudentPhase {
    /// No message has come yet.
    AwaitingHandshake,
    /// The handshake was accepted; frames are relayed.
    Streaming,
    /// The session is over.
    Closed,
}

/// A student session as the contracts see it.
pub struct StudentView {
    pub phase: StudentPhase,
    /// The student's hostname; empty until the handshake is accepted.
    pub hostname: Seq<char>,
}

/// The hostname that stands in when a handshake names none.
pub open spec fn placeholder_hostname() -> Seq<char> {
    "unknown"@
}

/// The hostname under which a handshake is accepted, if it is: the role must
/// be the text `student`. A hostname is never empty: one that is missing, is
/// no text or is the empty text is replaced by the placeholder.
pub open spec fn handshake_hostname(
    members: Option<(Option<Seq<char>>, Option<Seq<char>>)>,
) -> Option<Seq<char>> {
    match members {
        Some((role, hostname)) => if role == Some("student"@) {
            match hostname {
                Some(name) => if name.len() > 0 {
                    Some(name)
                } else {
                    Some(placeholder_hostname())
                },
                None => Some(placeholder_hostname()),
            }
        } else {
            None
        },
        None => None,
    }
}

/// The hostname that the first message of a connection is accepted under,
/// if it is: only a text message can be a handshake.
pub open spec fn offered_hostname(message: InboundView) -> Option<Seq<char>> {
    match message {
        InboundView::Text(text) => handshake_hostname(json_members(text, "role"@, "hostname"@)),
        _ => None,
    }
}

/// One step of a student session: the session and the relay after `message`
/// has been handled. Where the step publishes, `taken` says which viewers'
/// lanes took the message.
pub open spec fn student_step(
    session: StudentView,
    relay: RelayView,
    message: InboundView,
    taken: Seq<bool>,
) -> (StudentView, RelayView) {
    match session.phase {
        StudentPhase::AwaitingHandshake => match offered_hostname(message) {
            Some(hostname) => (
                StudentView { phase: StudentPhase::Streaming, hostname },
                RelayView {
                    frames: relay.frames,
                    viewers: fan_out(
                        relay.viewers,
                        event_wire(EventKind::StudentConnected.text(), hostname),
                        taken,
                    ),
                },
            ),
            None => (
                StudentView { phase: StudentPhase::Closed, hostname: session.hostname },
                relay,
            ),
        },
        StudentPhase::Streaming => match message {
            InboundView::Binary(frame) => (
                session,
                RelayView {
                    frames: relay.frames.insert(session.hostname, frame),
                    viewers: fan_out(
                        relay.viewers,
                        frame_wire(encode_utf8(session.hostname), frame),
                        taken,
                    ),
                },
            ),
            InboundView::Close | InboundView::Lost => (
                StudentView { phase: StudentPhase::Closed, hostname: session.hostname },
                RelayView {
                    frames: relay.frames.remove(session.hostname),
                    viewers: fan_out(
                        relay.viewers,
                        event_wire(EventKind::StudentDisconnected.text(), session.hostname),
                        taken,
                    ),
                },
            ),
            _ => (session, relay),
        },
        StudentPhase::Closed => (session, relay),
    }
}

/// The session and the relay after `messages` have been handled in order;
/// `taken[k]` belongs to the step that handles `messages[k]`.
pub open spec fn student_run(
    session: StudentView,
    relay: RelayView,
    messages: Seq<InboundView>,
    taken: Seq<Seq<bool>>,
) -> (StudentView, RelayView)
    recommends
        taken.len() == messages.len(),
    decreases messages.len(),
{
    if messages.len() == 0 {
        (session, relay)
    } else {
        let before = student_run(session, relay, messages.drop_last(), taken.drop_last());
        student_step(before.0, before.1, messages.last(), taken.last())
    }
}

/// Decides on a handshake from the members that were read in it.
pub fn accept_handshake(members: Members) -> (hostname: Option<String>)
    ensures
        text_view(hostname) == handshake_hostname(members_view(members)),
{
    match members {
        Some((Some(role), hostname)) => {
            if same_text(role.as_str(), "student") {
                match hostname {
                    Some(name) => if name.as_str().is_empty() {
                        Some("unknown".to_owned())
                    } else {
                        Some(name)
                    },
                    None => Some("unknown".to_owned()),
                }
            } else {
                None
            }
        },
        _ => None,
    }
}

/// The session of one student connection.
pub struct StudentSession {
    phase: StudentPhase,
    hostname: String,
}

impl View for StudentSession {
    type V = StudentView;

    closed spec fn view(&self) -> StudentView {
        StudentView { phase: self.phase, hostname: self.hostname@ }
    }
}

impl StudentSession {
    /// A session that waits for its handshake.
    pub fn new() -> (session: StudentSession)
        ensures
            session@ == (StudentView {
                phase: StudentPhase::AwaitingHandshake,
                hostname: Seq::<char>::empty(),
            }),
    {
        StudentSession { phase: StudentPhase::AwaitingHandshake, hostname: String::new() }
    }

    /// Where the session stands.
    pub fn phase(&self) -> (phase: StudentPhase)
        ensures
            phase == self@.phase,
    {
        self.phase
    }

    /// The student's hostname; empty until the handshake is accepted.
    pub fn hostname(&self) -> (hostname: &str)
        ensures
            hostname@ == self@.hostname,
    {
        self.hostname.as_str()
    }

    /// Whether the session is over, so that the caller stops reading.
    pub fn is_closed(&self) -> (closed: bool)
        ensures
            closed == (self@.phase == StudentPhase::Closed),
    {
        match self.phase {
            StudentPhase::Closed => true,
            _ => false,
        }
    }

    /// Handles one message of the connection.
    ///
    /// Before the handshake, a text message that `serde_json` reads as an
    /// object with the role `student` starts the stream and announces the
    /// student to all viewers; anything else closes the session and leaves
    /// the relay as it was. While streaming, a binary message replaces the
    /// student's cache slot and goes to all viewers as a tagged frame; the end
    /// of the connection drops the slot and announces the departure; other
    /// messages are ignored. A closed session ignores everything.
    ///
    /// The returned ghost value says, viewer by viewer, whether the lane took
    /// the message that this step published.
    pub fn on_message(&mut self, relay: &mut Relay, message: Inbound) -> (taken: Ghost<Seq<bool>>)
        requires
            old(relay).wf(),
        ensures
            final(relay).wf(),
            final(relay).viewers.issued() == old(relay).viewers.issued(),
            taken@.len() == old(relay)@.viewers.len(),
            (final(self)@, final(relay)@) == student_step(
                old(self)@,
                old(relay)@,
                message@,
                taken@,
            ),
    {
        let ghost idle = Seq::new(relay@.viewers.len(), |i: int| false);
        match self.phase {
            StudentPhase::AwaitingHandshake => {
                let accepted = match message {
                    Inbound::Text(text) => accept_handshake(
                        read_json_members(text.as_str(), "role", "hostname"),
                    ),
                    _ => None,
                };
                match accepted {
                    Some(hostname) => {
                        let event = build_tagged_event(
                            EventKind::StudentConnected.as_str(),
                            hostname.as_str(),
                        );
                        let taken = relay.viewers.publish(event.as_slice());
                        self.phase = StudentPhase::Streaming;
                        self.hostname = hostname;
                        taken
                    },
                    None => {
                        self.phase = StudentPhase::Closed;
                        Ghost(idle)
                    },
                }
            },
            StudentPhase::Streaming => match message {
                Inbound::Binary(frame) => {
                    let tagged = build_tagged_frame(self.hostname.as_str(), frame.as_slice());
                    relay.cache.put(self.hostname.clone(), frame);
                    relay.viewers.publish(tagged.as_slice())
                },
                Inbound::Close | Inbound::Lost => {
                    self.phase = StudentPhase::Closed;
                    relay.cache.remove(self.hostname.as_str());
                    let event = build_tagged_event(
                        EventKind::StudentDisconnected.as_str(),
                        self.hostname.as_str(),
                    );
                    relay.viewers.publish(event.as_slice())
                },
                _ => Ghost(idle),
            },
            StudentPhase::Closed => Ghost(idle),
        }
    }
}

} // verus!
