//! The session of one viewer connection.
//!
//! Opening a session registers the viewer's lane and prepares the greeting:
//! the list of students that are streaming, then one tagged frame for each of
//! them, so that a viewer sees the last known state at once. After that the
//! caller runs the connection: it takes what the lane yields, reads the
//! connection only to notice its end, and hands each event to
//! [`ViewerSession::on_event`], which says what to write and tears the session
//! down when either side ends. The session keeps the greeting until it is
//! handed out, and hands it out before anything that the lane yielded.

use crate::cache::{entries_view, hostnames_of, lists_entries, lists_hostnames};
use crate::json::{json_object, json_object_text, lists_view, texts_view};
use crate::message::{outbound_view, Inbound, InboundView, Outbound, OutboundView};
use crate::registry::{ids_of, lane_taken, lanes_without, without, ViewerId, ViewerView};
use crate::relay::{Relay, RelayView};
use crate::text::names_view;
use crate::wire::{build_tagged_frame, frame_wire};
use tokio::sync::mpsc::UnboundedSender;
use vstd::prelude::*;
use vstd::utf8::encode_utf8;

verus! {

/// The text of the student list message for the given hostnames.
pub open spec fn student_list_text(students: Seq<Seq<char>>) -> Seq<char> {
    json_object_text(seq![("type"@, "student_list"@)], seq![("students"@, students)])
}

/// What a viewer is sent before any live message: first `student_list` as a
/// text message, then each of `frames` as a binary message, in order.
pub struct Greeting {
    /// The students that are streaming, each once.
    pub students: Vec<String>,
    /// The student list message.
    pub student_list: String,
    /// The latest frame of each student, tagged; `frames[i]` belongs to
    /// `students[i]`.
    pub frames: Vec<Vec<u8>>,
}

impl Greeting {
    /// The tagged frames of the greeting as the contracts see them.
    pub open spec fn frames_view(&self) -> Seq<Seq<u8>> {
        self.frames@.map_values(|frame: Vec<u8>| frame@)
    }

    /// The messages of the greeting in the order in which they are written:
    /// the student list, then the tagged frames.
    pub open spec fn messages(&self) -> Seq<OutboundView> {
        seq![OutboundView::Text(self.student_list@)] + self.frames_view().map_values(
            |frame: Seq<u8>| OutboundView::Binary(frame),
        )
    }

    /// The greeting is made from the snapshot `entries`: it lists the
    /// hostnames of the entries in their order and holds one tagged frame for
    /// each entry.
    pub open spec fn made_from(&self, entries: Seq<(Seq<char>, Seq<u8>)>) -> bool {
        &&& names_view(self.students@) == hostnames_of(entries)
        &&& self.student_list@ == student_list_text(names_view(self.students@))
        &&& self.frames_view() == entries.map_values(
            |entry: (Seq<char>, Seq<u8>)| frame_wire(encode_utf8(entry.0), entry.1),
        )
    }

    /// The greeting shows the cache contents `frames`: the list names
    /// exactly the students that are streaming, each once, and there is
    /// exactly one tagged frame for each, equal to its latest frame.
    pub open spec fn shows(&self, frames: Map<Seq<char>, Seq<u8>>) -> bool {
        &&& lists_hostnames(names_view(self.students@), frames)
        &&& self.student_list@ == student_list_text(names_view(self.students@))
        &&& self.frames@.len() == self.students@.len()
        &&& forall|i: int|
            0 <= i < self.students@.len() ==> (#[trigger] self.frames@[i])@ == frame_wire(
                encode_utf8(self.students@[i]@),
                frames[self.students@[i]@],
            )
    }

    /// Makes the greeting for a snapshot of the cache.
    pub fn for_snapshot(entries: &Vec<(String, Vec<u8>)>) -> (greeting: Greeting)
        ensures
            greeting.made_from(entries_view(entries@)),
    {
        let mut students: Vec<String> = Vec::new();
        let mut frames: Vec<Vec<u8>> = Vec::new();
        let mut i: usize = 0;
        while i < entries.len()
            invariant
                i <= entries@.len(),
                students@.len() == i,
                frames@.len() == i,
                forall|k: int| 0 <= k < i ==> (#[trigger] students@[k])@ == entries@[k].0@,
                forall|k: int|
                    0 <= k < i ==> (#[trigger] frames@[k])@ == frame_wire(
                        encode_utf8(entries@[k].0@),
                        entries@[k].1@,
                    ),
            decreases entries@.len() - i,
        {
            let hostname = entries[i].0.as_str();
            students.push(hostname.to_owned());
            frames.push(build_tagged_frame(hostname, entries[i].1.as_slice()));
            i += 1;
        }
        let texts = [("type", "student_list")];
        let lists = [("students", &students)];
        assert(texts_view(texts@) =~= seq![("type"@, "student_list"@)]);
        assert(lists_view(lists@) =~= seq![("students"@, names_view(students@))]);
        let student_list = json_object(&texts, &lists);
        let greeting = Greeting { students, student_list, frames };
        proof {
            let seen = entries_view(entries@);
            assert(names_view(greeting.students@) =~= hostnames_of(seen));
            assert(greeting.frames_view() =~= seen.map_values(
                |entry: (Seq<char>, Seq<u8>)| frame_wire(encode_utf8(entry.0), entry.1),
            ));
        }
        greeting
    }
}

impl Greeting {
    /// Turns the greeting into the messages to write, in their order.
    pub fn into_messages(self) -> (messages: Vec<Outbound>)
        ensures
            outbound_view(messages@) == self.messages(),
    {
        let mut frames = self.frames;
        let mut messages: Vec<Outbound> = Vec::new();
        messages.push(Outbound::Text(self.student_list));
        let ghost shown = frames@.map_values(|frame: Vec<u8>| frame@);
        let mut i: usize = 0;
        while i < frames.len()
            invariant
                i <= frames@.len(),
                frames@.len() == shown.len(),
                shown == self.frames_view(),
                messages@.len() == 1 + i,
                messages@[0]@ == OutboundView::Text(self.student_list@),
                forall|k: int|
                    0 <= k < i ==> (#[trigger] messages@[1 + k])@ == OutboundView::Binary(shown[k]),
                forall|k: int| i <= k < frames@.len() ==> (#[trigger] frames@[k])@ == shown[k],
            decreases frames@.len() - i,
        {
            let mut frame: Vec<u8> = Vec::new();
            core::mem::swap(&mut frames[i], &mut frame);
            messages.push(Outbound::Binary(frame));
            i += 1;
        }
        assert forall|k: int| 0 <= k < messages@.len() implies outbound_view(messages@)[k]
            == self.messages()[k] by {
            if k > 0 {
                assert(messages@[1 + (k - 1)]@ == OutboundView::Binary(shown[k - 1]));
            }
        }
        assert(outbound_view(messages@) =~= self.messages());
        messages
    }
}

/// A greeting made from a snapshot that lists the cache shows the cache.
pub proof fn lemma_greeting_shows_cache(
    greeting: Greeting,
    entries: Seq<(Seq<char>, Seq<u8>)>,
    frames: Map<Seq<char>, Seq<u8>>,
)
    requires
        greeting.made_from(entries),
        lists_entries(entries, frames),
    ensures
        greeting.shows(frames),
{
    let shown = greeting.frames_view();
    assert(shown.len() == entries.len());
    assert(names_view(greeting.students@).len() == entries.len());
    assert forall|i: int| 0 <= i < greeting.students@.len() implies (
    #[trigger] greeting.frames@[i])@ == frame_wire(
        encode_utf8(greeting.students@[i]@),
        frames[greeting.students@[i]@],
    ) by {
        assert(shown[i] == greeting.frames@[i]@);
        assert(names_view(greeting.students@)[i] == greeting.students@[i]@);
        assert(hostnames_of(entries)[i] == entries[i].0);
        assert(entries[i].1 == frames[entries[i].0]);
    }
}

/// Where a viewer session stands.
#[derive(Clone, Copy, Debug, PartialEq, Eq)]
pub enum ViewerPhase {
    /// The viewer is registered; its lane is being forwarded.
    Forwarding,
    /// The session is over and the viewer is unregistered.
    Closed,
}

/// What happened on a viewer connection.
#[derive(Debug, PartialEq, Eq)]
pub enum ViewerEvent {
    /// The connection is ready to be written to.
    Ready,
    /// The connection yielded a message.
    Inbound(Inbound),
    /// The viewer's lane yielded a message to forward.
    Dequeued(Vec<u8>),
    /// The viewer's lane is closed and empty.
    LaneClosed,
    /// Writing to the connection failed.
    WriteFailed,
}

/// A viewer event as the contracts see it.
pub enum ViewerEventView {
    Ready,
    Inbound(InboundView),
    Dequeued(Seq<u8>),
    LaneClosed,
    WriteFailed,
}

impl View for ViewerEvent {
    type V = ViewerEventView;

    open spec fn view(&self) -> ViewerEventView {
        match self {
            ViewerEvent::Ready => ViewerEventView::Ready,
            ViewerEvent::Inbound(message) => ViewerEventView::Inbound(message@),
            ViewerEvent::Dequeued(bytes) => ViewerEventView::Dequeued(bytes@),
            ViewerEvent::LaneClosed => ViewerEventView::LaneClosed,
            ViewerEvent::WriteFailed => ViewerEventView::WriteFailed,
        }
    }
}

/// What the caller does next on a viewer connection.
#[derive(Debug, PartialEq, Eq)]
pub enum ViewerAction {
    /// Write these messages to the connection, in this order.
    Write(Vec<Outbound>),
    /// Nothing to do; wait for the next event.
    Wait,
    /// The session is over; stop both loops.
    Stop,
}

/// A viewer action as the contracts see it.
pub enum ViewerActionView {
    Write(Seq<OutboundView>),
    Wait,
    Stop,
}

impl View for ViewerAction {
    type V = ViewerActionView;

    open spec fn view(&self) -> ViewerActionView {
        match self {
            ViewerAction::Write(messages) => ViewerActionView::Write(outbound_view(messages@)),
            ViewerAction::Wait => ViewerActionView::Wait,
            ViewerAction::Stop => ViewerActionView::Stop,
        }
    }
}

/// A viewer session as the contracts see it.
pub struct ViewerSessionView {
    pub id: ViewerId,
    pub phase: ViewerPhase,
    /// The messages of the greeting that have not been handed out yet.
    pub pending: Seq<OutboundView>,
}

/// Whether an event ends a viewer session: the end of the connection, the
/// end of the lane, or a failed write. What a viewer sends is discarded.
pub open spec fn ends_viewer(event: ViewerEventView) -> bool {
    match event {
        ViewerEventView::Ready => false,
        ViewerEventView::Inbound(message) => message.ends_connection(),
        ViewerEventView::Dequeued(_) => false,
        ViewerEventView::LaneClosed => true,
        ViewerEventView::WriteFailed => true,
    }
}

/// What an event asks to be written, given the greeting messages that are
/// still pending: a ready connection gets the pending greeting, a message
/// from the lane goes out behind the pending greeting. `None` where the
/// event asks for no write.
pub open spec fn writes_for(pending: Seq<OutboundView>, event: ViewerEventView) -> Option<
    Seq<OutboundView>,
> {
    match event {
        ViewerEventView::Ready => Some(pending),
        ViewerEventView::Dequeued(bytes) => Some(pending.push(OutboundView::Binary(bytes))),
        _ => None,
    }
}

/// One step of a viewer session: the session, the relay and the action after
/// `event` has been handled.
pub open spec fn viewer_step(session: ViewerSessionView, relay: RelayView, event: ViewerEventView)
    -> (ViewerSessionView, RelayView, ViewerActionView) {
    match session.phase {
        ViewerPhase::Closed => (session, relay, ViewerActionView::Stop),
        ViewerPhase::Forwarding => if ends_viewer(event) {
            (
                ViewerSessionView {
                    id: session.id,
                    phase: ViewerPhase::Closed,
                    pending: Seq::empty(),
                },
                RelayView { frames: relay.frames, viewers: without(relay.viewers, session.id) },
                ViewerActionView::Stop,
            )
        } else {
            match writes_for(session.pending, event) {
                Some(messages) => (
                    ViewerSessionView {
                        id: session.id,
                        phase: ViewerPhase::Forwarding,
                        pending: Seq::empty(),
                    },
                    relay,
                    ViewerActionView::Write(messages),
                ),
                None => (session, relay, ViewerActionView::Wait),
            }
        },
    }
}

/// The messages that an action asks to be written.
pub open spec fn written_by(action: ViewerActionView) -> Seq<OutboundView> {
    match action {
        ViewerActionView::Write(messages) => messages,
        _ => Seq::empty(),
    }
}

/// The session, the relay and all that was to be written, in order, after
/// `events` have been handled one after the other.
pub open spec fn viewer_run(
    session: ViewerSessionView,
    relay: RelayView,
    events: Seq<ViewerEventView>,
) -> (ViewerSessionView, RelayView, Seq<OutboundView>)
    decreases events.len(),
{
    if events.len() == 0 {
        (session, relay, Seq::empty())
    } else {
        let before = viewer_run(session, relay, events.drop_last());
        let next = viewer_step(before.0, before.1, events.last());
        (next.0, next.1, before.2 + written_by(next.2))
    }
}

/// The greeting messages that are pending while the session holds
/// `greeting`.
pub open spec fn pending_of(greeting: Option<Greeting>) -> Seq<OutboundView> {
    match greeting {
        Some(held) => held.messages(),
        None => Seq::empty(),
    }
}

/// The session of one viewer connection.
pub struct ViewerSession {
    id: ViewerId,
    phase: ViewerPhase,
    greeting: Option<Greeting>,
}

impl View for ViewerSession {
    type V = ViewerSessionView;

    closed spec fn view(&self) -> ViewerSessionView {
        ViewerSessionView { id: self.id, phase: self.phase, pending: pending_of(self.greeting) }
    }
}

impl ViewerSession {
    /// The greeting that the session still holds, if it has not been handed
    /// out.
    pub closed spec fn held(&self) -> Option<Greeting> {
        self.greeting
    }

    /// Registers the viewer's lane and prepares its greeting from the cache
    /// as it is now. The registry keeps the lane that is handed in, with what
    /// it has taken so far; the cache is not changed. The session holds the
    /// greeting until the first write; messages published from now on reach
    /// the lane and are written behind the greeting.
    pub fn open(relay: &mut Relay, lane: UnboundedSender<Vec<u8>>) -> (opened: ViewerSession)
        requires
            old(relay).wf(),
            old(relay).viewers.issued() < u64::MAX,
        ensures
            final(relay).wf(),
            final(relay).viewers.issued() == old(relay).viewers.issued() + 1,
            final(relay)@.frames == old(relay)@.frames,
            final(relay).viewers.ids() == old(relay).viewers.ids().push(opened@.id),
            final(relay).viewers.lanes() == old(relay).viewers.lanes().push(lane),
            final(relay)@.viewers == old(relay)@.viewers.push(
                ViewerView { id: opened@.id, accepted: lane_taken(lane) },
            ),
            !ids_of(old(relay)@.viewers).contains(opened@.id),
            opened@.phase == ViewerPhase::Forwarding,
            opened.held() matches Some(greeting) && greeting.shows(old(relay)@.frames)
                && opened@.pending == greeting.messages(),
    {
        let id = relay.viewers.register(lane);
        let entries = relay.cache.snapshot();
        let greeting = Greeting::for_snapshot(&entries);
        proof {
            lemma_greeting_shows_cache(greeting, entries_view(entries@), relay@.frames);
        }
        ViewerSession { id, phase: ViewerPhase::Forwarding, greeting: Some(greeting) }
    }

    /// The id under which the viewer is registered.
    pub fn id(&self) -> (id: ViewerId)
        ensures
            id == self@.id,
    {
        self.id
    }

    /// Where the session stands.
    pub fn phase(&self) -> (phase: ViewerPhase)
        ensures
            phase == self@.phase,
    {
        self.phase
    }

    /// Whether the session is over.
    pub fn is_closed(&self) -> (closed: bool)
        ensures
            closed == (self@.phase == ViewerPhase::Closed),
    {
        match self.phase {
            ViewerPhase::Closed => true,
            ViewerPhase::Forwarding => false,
        }
    }

    /// The greeting that the session still holds, if it has not been handed
    /// out.
    pub fn greeting(&self) -> (greeting: &Option<Greeting>)
        ensures
            *greeting == self.held(),
            self@.pending == pending_of(*greeting),
    {
        &self.greeting
    }

    /// Handles one event of the connection and says what to do next.
    ///
    /// When the connection is ready, the greeting is to be written. A
    /// message from the lane is to be written behind whatever of the greeting
    /// is still pending, so that no live message overtakes the greeting. The
    /// end of the connection, the end of the lane and a failed write each end
    /// the session: the viewer is unregistered, and no other viewer and no
    /// frame is touched. Anything else that the viewer sends is discarded.
    pub fn on_event(&mut self, relay: &mut Relay, event: ViewerEvent) -> (action: ViewerAction)
        requires
            old(relay).wf(),
        ensures
            final(relay).wf(),
            final(relay).viewers.issued() == old(relay).viewers.issued(),
            (final(self)@, final(relay)@, action@) == viewer_step(old(self)@, old(relay)@, event@),
            final(relay).viewers.lanes() == if old(self)@.phase == ViewerPhase::Forwarding
                && ends_viewer(event@) {
                lanes_without(old(relay).viewers.ids(), old(relay).viewers.lanes(), old(self)@.id)
            } else {
                old(relay).viewers.lanes()
            },
    {
        match self.phase {
            ViewerPhase::Closed => ViewerAction::Stop,
            ViewerPhase::Forwarding => {
                let ends = match &event {
                    ViewerEvent::Ready => false,
                    ViewerEvent::Inbound(Inbound::Close) => true,
                    ViewerEvent::Inbound(Inbound::Lost) => true,
                    ViewerEvent::Inbound(_) => false,
                    ViewerEvent::Dequeued(_) => false,
                    ViewerEvent::LaneClosed => true,
                    ViewerEvent::WriteFailed => true,
                };
                if ends {
                    relay.viewers.unregister(self.id);
                    self.phase = ViewerPhase::Closed;
                    self.greeting = None;
                    ViewerAction::Stop
                } else {
                    match event {
                        ViewerEvent::Ready => ViewerAction::Write(self.take_pending()),
                        ViewerEvent::Dequeued(bytes) => {
                            let mut messages = self.take_pending();
                            messages.push(Outbound::Binary(bytes));
                            assert(outbound_view(messages@) =~= old(self)@.pending.push(
                                OutboundView::Binary(bytes@),
                            ));
                            ViewerAction::Write(messages)
                        },
                        _ => ViewerAction::Wait,
                    }
                }
            },
        }
    }

    /// Hands out what is pending of the greeting; nothing is pending after.
    fn take_pending(&mut self) -> (messages: Vec<Outbound>)
        ensures
            outbound_view(messages@) == old(self)@.pending,
            final(self)@ == (ViewerSessionView { pending: Seq::empty(), ..old(self)@ }),
    {
        match self.greeting.take() {
            Some(greeting) => greeting.into_messages(),
            None => {
                let messages: Vec<Outbound> = Vec::new();
                assert(outbound_view(messages@) =~= Seq::<OutboundView>::empty());
                messages
            },
        }
    }
}

} // verus!
