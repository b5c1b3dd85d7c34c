//! What holds of the relay across several steps.
//!
//! The laws speak of the models that the contracts of the sessions use: a
//! student session advances by [`student_step`], a viewer session by
//! [`viewer_step`], and every viewer's record holds the messages that its lane
//! has taken, oldest first.

use crate::ingest::{offered_hostname, student_run, student_step, StudentPhase, StudentView};
use crate::json::json_members;
use crate::message::{InboundView, OutboundView};
use crate::registry::{
    accepted_of, fan_out, ids_of, lemma_accepted_at, lemma_without_keeps_others, ViewerId,
    ViewerView,
};
use crate::relay::RelayView;
use crate::text::names_view;
use crate::viewer::{
    ends_viewer, viewer_run, viewer_step, writes_for, Greeting, ViewerEventView, ViewerPhase,
    ViewerSessionView,
};
use crate::wire::{
    decoded, event_wire, frame_wire, lemma_frame_round_trip, DecodeError, EventKind, TaggedView,
    MAX_TAG_LEN,
};
use vstd::prelude::*;
use vstd::utf8::encode_utf8;

verus! {

/// The frames as binary messages of a connection.
pub open spec fn binaries(frames: Seq<Seq<u8>>) -> Seq<InboundView> {
    frames.map_values(|frame: Seq<u8>| InboundView::Binary(frame))
}

/// The frames as they go out to viewers, tagged with the hostname.
pub open spec fn tagged_frames(hostname: Seq<char>, frames: Seq<Seq<u8>>) -> Seq<Seq<u8>> {
    frames.map_values(|frame: Seq<u8>| frame_wire(encode_utf8(hostname), frame))
}

/// What the lane of the viewer at position `at` answered, step by step.
pub open spec fn answers_of(taken: Seq<Seq<bool>>, at: int) -> Seq<bool> {
    taken.map_values(|row: Seq<bool>| row[at])
}

/// The items whose flag is set, in their order.
pub open spec fn selected<A>(items: Seq<A>, flags: Seq<bool>) -> Seq<A>
    recommends
        flags.len() == items.len(),
    decreases items.len(),
{
    if items.len() == 0 {
        Seq::empty()
    } else if flags.last() {
        selected(items.drop_last(), flags.drop_last()).push(items.last())
    } else {
        selected(items.drop_last(), flags.drop_last())
    }
}

/// Where every flag is set, every item is selected.
pub proof fn lemma_selected_all<A>(items: Seq<A>, flags: Seq<bool>)
    requires
        flags.len() == items.len(),
        forall|k: int| 0 <= k < flags.len() ==> flags[k],
    ensures
        selected(items, flags) == items,
    decreases items.len(),
{
    if items.len() > 0 {
        lemma_selected_all(items.drop_last(), flags.drop_last());
        assert(items.drop_last().push(items.last()) =~= items);
    }
}

/// The viewers after `messages` were published one after the other;
/// `taken[k]` belongs to the publishing of `messages[k]`.
pub open spec fn fan_out_all(
    viewers: Seq<ViewerView>,
    messages: Seq<Seq<u8>>,
    taken: Seq<Seq<bool>>,
) -> Seq<ViewerView>
    recommends
        taken.len() == messages.len(),
    decreases messages.len(),
{
    if messages.len() == 0 {
        viewers
    } else {
        fan_out(
            fan_out_all(viewers, messages.drop_last(), taken.drop_last()),
            messages.last(),
            taken.last(),
        )
    }
}

/// Whatever is published, by whomever, reaches every viewer in publishing
/// order: no viewer comes or goes, and the record of each viewer grows by
/// exactly the messages that its lane took, none of them out of place.
pub proof fn lemma_publishes_arrive_in_order(
    viewers: Seq<ViewerView>,
    messages: Seq<Seq<u8>>,
    taken: Seq<Seq<bool>>,
)
    requires
        taken.len() == messages.len(),
    ensures
        ids_of(fan_out_all(viewers, messages, taken)) == ids_of(viewers),
        forall|at: int|
            0 <= at < viewers.len() ==> (#[trigger] fan_out_all(
                viewers,
                messages,
                taken,
            )[at]).accepted == viewers[at].accepted + selected(messages, answers_of(taken, at)),
    decreases messages.len(),
{
    let end = fan_out_all(viewers, messages, taken);
    if messages.len() == 0 {
        assert forall|at: int| 0 <= at < viewers.len() implies (#[trigger] end[at]).accepted
            == viewers[at].accepted + selected(messages, answers_of(taken, at)) by {
            assert(viewers[at].accepted + Seq::<Seq<u8>>::empty() =~= viewers[at].accepted);
        }
    } else {
        let before = fan_out_all(viewers, messages.drop_last(), taken.drop_last());
        lemma_publishes_arrive_in_order(viewers, messages.drop_last(), taken.drop_last());
        assert(before.len() == ids_of(before).len());
        assert(ids_of(end) =~= ids_of(viewers)) by {
            assert forall|k: int| 0 <= k < viewers.len() implies ids_of(end)[k] == ids_of(
                viewers,
            )[k] by {
                assert(ids_of(before)[k] == before[k].id);
            }
        }
        assert forall|at: int| 0 <= at < viewers.len() implies (#[trigger] end[at]).accepted
            == viewers[at].accepted + selected(messages, answers_of(taken, at)) by {
            let answers = answers_of(taken, at);
            assert(answers.drop_last() =~= answers_of(taken.drop_last(), at));
            assert(answers.last() == taken.last()[at]);
            let grown = before[at].accepted;
            assert(grown == viewers[at].accepted + selected(
                messages.drop_last(),
                answers.drop_last(),
            ));
            if answers.last() {
                assert(end[at].accepted == grown.push(messages.last()));
                assert(grown.push(messages.last()) =~= viewers[at].accepted + selected(
                    messages,
                    answers,
                ));
            } else {
                assert(end[at].accepted == grown);
            }
        }
    }
}

/// A step of a student session publishes at most one message, and never
/// adds or removes a viewer: the viewers afterwards are those before, or
/// those before after one fan-out.
pub proof fn lemma_student_step_keeps_viewers(
    session: StudentView,
    relay: RelayView,
    message: InboundView,
    taken: Seq<bool>,
)
    ensures
        ({
            let next = student_step(session, relay, message, taken);
            &&& ids_of(next.1.viewers) == ids_of(relay.viewers)
            &&& next.1.viewers == relay.viewers || exists|published: Seq<u8>|
                next.1.viewers == fan_out(relay.viewers, published, taken)
        }),
{
    let next = student_step(session, relay, message, taken);
    assert(ids_of(next.1.viewers) =~= ids_of(relay.viewers));
}

/// A step of a student session touches no cache slot but the student's own:
/// the slot of every other hostname is there or not as before, and holds the
/// same frame. Students with different hostnames therefore never disturb
/// each other's slots, however their messages interleave.
pub proof fn lemma_student_step_touches_own_slot_only(
    session: StudentView,
    relay: RelayView,
    message: InboundView,
    taken: Seq<bool>,
    other: Seq<char>,
)
    requires
        other != student_step(session, relay, message, taken).0.hostname,
    ensures
        ({
            let next = student_step(session, relay, message, taken);
            &&& next.1.frames.dom().contains(other) == relay.frames.dom().contains(other)
            &&& next.1.frames[other] == relay.frames[other]
        }),
{
}

/// A step of a viewer session changes the membership of the registry only
/// by taking out its own viewer when the session ends, and never touches the
/// cache.
pub proof fn lemma_viewer_step_membership(
    session: ViewerSessionView,
    relay: RelayView,
    event: ViewerEventView,
)
    requires
        ids_of(relay.viewers).no_duplicates(),
    ensures
        ({
            let next = viewer_step(session, relay, event);
            &&& next.1.frames == relay.frames
            &&& !(session.phase == ViewerPhase::Forwarding && ends_viewer(event)) ==> next.1
                == relay
            &&& session.phase == ViewerPhase::Forwarding && ends_viewer(event) ==> {
                &&& !ids_of(next.1.viewers).contains(session.id)
                &&& next.1.viewers.len() == relay.viewers.len() - if ids_of(
                    relay.viewers,
                ).contains(session.id) {
                    1int
                } else {
                    0int
                }
            }
        }),
{
    lemma_without_keeps_others(relay.viewers, session.id);
}

/// While a student streams, its frames take effect in the order in which
/// they were sent: the session stays as it is, the cache slot of the student
/// holds the last frame and no other slot changes, no viewer comes or goes,
/// and the record of every viewer grows by exactly the tagged frames that its
/// lane took, in sending order.
pub proof fn lemma_streamed_frames(
    session: StudentView,
    relay: RelayView,
    frames: Seq<Seq<u8>>,
    taken: Seq<Seq<bool>>,
)
    requires
        session.phase == StudentPhase::Streaming,
        taken.len() == frames.len(),
    ensures
        ({
            let end = student_run(session, relay, binaries(frames), taken);
            &&& end.0 == session
            &&& end.1.frames == if frames.len() == 0 {
                relay.frames
            } else {
                relay.frames.insert(session.hostname, frames.last())
            }
            &&& ids_of(end.1.viewers) == ids_of(relay.viewers)
            &&& forall|at: int|
                0 <= at < relay.viewers.len() ==> (#[trigger] end.1.viewers[at]).accepted
                    == relay.viewers[at].accepted + selected(
                    tagged_frames(session.hostname, frames),
                    answers_of(taken, at),
                )
        }),
    decreases frames.len(),
{
    let end = student_run(session, relay, binaries(frames), taken);
    if frames.len() == 0 {
        assert(ids_of(end.1.viewers) =~= ids_of(relay.viewers));
        assert forall|at: int| 0 <= at < relay.viewers.len() implies (
        #[trigger] end.1.viewers[at]).accepted == relay.viewers[at].accepted + selected(
            tagged_frames(session.hostname, frames),
            answers_of(taken, at),
        ) by {
            assert(relay.viewers[at].accepted + Seq::<Seq<u8>>::empty()
                =~= relay.viewers[at].accepted);
        }
    } else {
        let earlier = frames.drop_last();
        let before = student_run(session, relay, binaries(earlier), taken.drop_last());
        lemma_streamed_frames(session, relay, earlier, taken.drop_last());
        assert(binaries(frames).drop_last() =~= binaries(earlier));
        assert(binaries(frames).last() == InboundView::Binary(frames.last()));
        assert(end == student_step(
            before.0,
            before.1,
            InboundView::Binary(frames.last()),
            taken.last(),
        ));
        assert(end.1.frames =~= relay.frames.insert(session.hostname, frames.last()));
        assert(ids_of(end.1.viewers) =~= ids_of(relay.viewers)) by {
            assert(ids_of(before.1.viewers) == ids_of(relay.viewers));
            assert(before.1.viewers.len() == ids_of(before.1.viewers).len());
            assert forall|k: int| 0 <= k < relay.viewers.len() implies ids_of(end.1.viewers)[k]
                == ids_of(relay.viewers)[k] by {
                assert(ids_of(before.1.viewers)[k] == before.1.viewers[k].id);
            }
        }
        assert forall|at: int| 0 <= at < relay.viewers.len() implies (
        #[trigger] end.1.viewers[at]).accepted == relay.viewers[at].accepted + selected(
            tagged_frames(session.hostname, frames),
            answers_of(taken, at),
        ) by {
            let sent = tagged_frames(session.hostname, frames);
            let answers = answers_of(taken, at);
            assert(before.1.viewers.len() == ids_of(before.1.viewers).len());
            assert(sent.drop_last() =~= tagged_frames(session.hostname, earlier));
            assert(answers.drop_last() =~= answers_of(taken.drop_last(), at));
            assert(answers.last() == taken.last()[at]);
            assert(sent.last() == frame_wire(encode_utf8(session.hostname), frames.last()));
            let grown = before.1.viewers[at].accepted;
            assert(grown == relay.viewers[at].accepted + selected(
                sent.drop_last(),
                answers.drop_last(),
            ));
            if answers.last() {
                assert(end.1.viewers[at].accepted == grown.push(sent.last()));
                assert(grown.push(sent.last()) =~= relay.viewers[at].accepted + selected(
                    sent,
                    answers,
                ));
            } else {
                assert(end.1.viewers[at].accepted == grown);
            }
        }
    }
}

/// After an accepted handshake and any number of frames, at least one, the
/// cache holds exactly the last frame under the student's hostname, and every
/// other slot is as it was.
pub proof fn lemma_cache_holds_last_frame(
    session: StudentView,
    relay: RelayView,
    handshake: InboundView,
    first_taken: Seq<bool>,
    frames: Seq<Seq<u8>>,
    taken: Seq<Seq<bool>>,
)
    requires
        session.phase == StudentPhase::AwaitingHandshake,
        offered_hostname(handshake) is Some,
        frames.len() >= 1,
        taken.len() == frames.len(),
    ensures
        ({
            let started = student_step(session, relay, handshake, first_taken);
            let end = student_run(started.0, started.1, binaries(frames), taken);
            &&& started.0.phase == StudentPhase::Streaming
            &&& started.0.hostname == offered_hostname(handshake)->0
            &&& started.1.frames == relay.frames
            &&& end.1.frames == relay.frames.insert(started.0.hostname, frames.last())
            &&& end.1.frames[started.0.hostname] == frames.last()
        }),
{
    let started = student_step(session, relay, handshake, first_taken);
    lemma_streamed_frames(started.0, started.1, frames, taken);
}

/// Frames that one student sends reach every viewer in the order in which
/// they were sent: the record of a viewer grows by the tagged frames that its
/// lane took, none of them out of place, and by nothing else.
pub proof fn lemma_frames_arrive_in_order(
    session: StudentView,
    relay: RelayView,
    frames: Seq<Seq<u8>>,
    taken: Seq<Seq<bool>>,
    viewer: ViewerId,
)
    requires
        session.phase == StudentPhase::Streaming,
        taken.len() == frames.len(),
        ids_of(relay.viewers).no_duplicates(),
        ids_of(relay.viewers).contains(viewer),
    ensures
        ({
            let end = student_run(session, relay, binaries(frames), taken);
            let at = ids_of(relay.viewers).index_of(viewer);
            &&& ids_of(end.1.viewers) == ids_of(relay.viewers)
            &&& accepted_of(end.1.viewers, viewer) == accepted_of(relay.viewers, viewer)
                + selected(tagged_frames(session.hostname, frames), answers_of(taken, at))
        }),
{
    let end = student_run(session, relay, binaries(frames), taken);
    let at = ids_of(relay.viewers).index_of(viewer);
    lemma_streamed_frames(session, relay, frames, taken);
    assert(end.1.viewers.len() == ids_of(end.1.viewers).len());
    assert(relay.viewers.len() == ids_of(relay.viewers).len());
    assert(ids_of(relay.viewers)[at] == relay.viewers[at].id);
    assert(ids_of(end.1.viewers)[at] == end.1.viewers[at].id);
    lemma_accepted_at(relay.viewers, at);
    lemma_accepted_at(end.1.viewers, at);
}

/// A viewer that leaves does not keep frames from another viewer: after one
/// viewer's session has ended, every frame that a student sends and that the
/// lane of a viewer who stays takes is in that viewer's record, in sending
/// order, behind what the record held before.
pub proof fn lemma_leaving_viewer_is_isolated(
    relay: RelayView,
    leaving: ViewerSessionView,
    event: ViewerEventView,
    staying: ViewerId,
    session: StudentView,
    frames: Seq<Seq<u8>>,
    taken: Seq<Seq<bool>>,
)
    requires
        ids_of(relay.viewers).no_duplicates(),
        ids_of(relay.viewers).contains(staying),
        staying != leaving.id,
        leaving.phase == ViewerPhase::Forwarding,
        ends_viewer(event),
        session.phase == StudentPhase::Streaming,
        taken.len() == frames.len(),
        ({
            let left = viewer_step(leaving, relay, event);
            let at = ids_of(left.1.viewers).index_of(staying);
            forall|k: int| 0 <= k < taken.len() ==> (#[trigger] taken[k])[at]
        }),
    ensures
        ({
            let left = viewer_step(leaving, relay, event);
            let end = student_run(session, left.1, binaries(frames), taken);
            &&& left.0.phase == ViewerPhase::Closed
            &&& left.1.frames == relay.frames
            &&& !ids_of(left.1.viewers).contains(leaving.id)
            &&& ids_of(end.1.viewers).contains(staying)
            &&& accepted_of(end.1.viewers, staying) == accepted_of(relay.viewers, staying)
                + tagged_frames(session.hostname, frames)
        }),
{
    let left = viewer_step(leaving, relay, event);
    let at = ids_of(left.1.viewers).index_of(staying);
    lemma_without_keeps_others(relay.viewers, leaving.id);
    assert(ids_of(left.1.viewers).contains(staying));
    assert(accepted_of(left.1.viewers, staying) == accepted_of(relay.viewers, staying));
    lemma_frames_arrive_in_order(session, left.1, frames, taken, staying);
    let answers = answers_of(taken, at);
    assert forall|k: int| 0 <= k < answers.len() implies answers[k] by {
        assert(taken[k][at]);
    }
    lemma_selected_all(tagged_frames(session.hostname, frames), answers);
}

/// When the connection of a streaming student ends, the student's cache slot
/// is dropped and no other slot changes; every viewer whose lane takes it gets
/// the departure event once, and no viewer gets anything else; the session is
/// closed, and a closed session changes nothing, whatever it is handed.
pub proof fn lemma_student_departure(
    session: StudentView,
    relay: RelayView,
    ending: InboundView,
    taken: Seq<bool>,
    later: InboundView,
    later_taken: Seq<bool>,
)
    requires
        session.phase == StudentPhase::Streaming,
        ending.ends_connection(),
        taken.len() == relay.viewers.len(),
    ensures
        ({
            let gone = student_step(session, relay, ending, taken);
            let event = event_wire(EventKind::StudentDisconnected.text(), session.hostname);
            &&& gone.0.phase == StudentPhase::Closed
            &&& gone.1.frames == relay.frames.remove(session.hostname)
            &&& !gone.1.frames.dom().contains(session.hostname)
            &&& ids_of(gone.1.viewers) == ids_of(relay.viewers)
            &&& forall|at: int|
                0 <= at < relay.viewers.len() ==> (#[trigger] gone.1.viewers[at]).accepted
                    == if taken[at] {
                    relay.viewers[at].accepted.push(event)
                } else {
                    relay.viewers[at].accepted
                }
            &&& student_step(gone.0, gone.1, later, later_taken) == gone
        }),
{
    let gone = student_step(session, relay, ending, taken);
    assert(ids_of(gone.1.viewers) =~= ids_of(relay.viewers));
}

/// A viewer that connects after a student has left is not told of that
/// student: the student list of its greeting leaves the hostname out.
pub proof fn lemma_departed_student_is_not_listed(
    session: StudentView,
    relay: RelayView,
    ending: InboundView,
    taken: Seq<bool>,
    greeting: Greeting,
)
    requires
        session.phase == StudentPhase::Streaming,
        ending.ends_connection(),
        greeting.shows(student_step(session, relay, ending, taken).1.frames),
    ensures
        !names_view(greeting.students@).contains(session.hostname),
{
    let frames = student_step(session, relay, ending, taken).1.frames;
    let names = names_view(greeting.students@);
    assert(!frames.dom().contains(session.hostname));
    if names.contains(session.hostname) {
        assert(names.to_set().contains(session.hostname));
    }
}

/// What the lane yielded among the events, in order, as the binary messages
/// that go to the connection.
pub open spec fn forwarded(events: Seq<ViewerEventView>) -> Seq<OutboundView>
    decreases events.len(),
{
    if events.len() == 0 {
        Seq::empty()
    } else {
        match events.last() {
            ViewerEventView::Dequeued(bytes) => forwarded(events.drop_last()).push(
                OutboundView::Binary(bytes),
            ),
            _ => forwarded(events.drop_last()),
        }
    }
}

/// Whether one of the events asks for a write: the connection is ready, or
/// the lane yielded a message.
pub open spec fn asks_to_write(events: Seq<ViewerEventView>) -> bool
    decreases events.len(),
{
    events.len() > 0 && (asks_to_write(events.drop_last()) || writes_for(
        Seq::empty(),
        events.last(),
    ) is Some)
}

/// The greeting goes first: whatever a viewer's connection and lane yield,
/// and in whatever order, as long as the session lasts all that is written
/// is the whole greeting and then what the lane yielded, in the order in
/// which the lane yielded it. No live message is written before or between
/// the messages of the greeting, and none is lost, doubled or out of place.
pub proof fn lemma_greeting_goes_first(
    session: ViewerSessionView,
    relay: RelayView,
    events: Seq<ViewerEventView>,
)
    requires
        session.phase == ViewerPhase::Forwarding,
        forall|k: int| 0 <= k < events.len() ==> !ends_viewer(#[trigger] events[k]),
    ensures
        ({
            let end = viewer_run(session, relay, events);
            &&& end.0.phase == ViewerPhase::Forwarding
            &&& end.0.id == session.id
            &&& end.1 == relay
            &&& end.2 == if asks_to_write(events) {
                session.pending + forwarded(events)
            } else {
                Seq::<OutboundView>::empty()
            }
            &&& end.0.pending == if asks_to_write(events) {
                Seq::<OutboundView>::empty()
            } else {
                session.pending
            }
        }),
    decreases events.len(),
{
    if events.len() > 0 {
        let earlier = events.drop_last();
        lemma_greeting_goes_first(session, relay, earlier);
        let before = viewer_run(session, relay, earlier);
        let next = viewer_step(before.0, before.1, events.last());
        assert(!ends_viewer(events.last()));
        assert(forall|k: int| 0 <= k < earlier.len() ==> earlier[k] == events[k]);
        match events.last() {
            ViewerEventView::Ready => {
                if asks_to_write(earlier) {
                    assert(before.2 + Seq::<OutboundView>::empty() =~= before.2);
                } else {
                    assert(Seq::<OutboundView>::empty() + session.pending =~= session.pending
                        + forwarded(events)) by {
                        lemma_nothing_forwarded(earlier);
                    }
                }
            },
            ViewerEventView::Dequeued(bytes) => {
                let live = OutboundView::Binary(bytes);
                if asks_to_write(earlier) {
                    assert(before.2 + Seq::<OutboundView>::empty().push(live) =~= session.pending
                        + forwarded(events));
                } else {
                    lemma_nothing_forwarded(earlier);
                    assert(Seq::<OutboundView>::empty() + session.pending.push(live)
                        =~= session.pending + forwarded(events));
                }
            },
            _ => {
                assert(before.2 + Seq::<OutboundView>::empty() =~= before.2);
            },
        }
    } else {
        assert(session.pending + forwarded(events) =~= session.pending);
    }
}

/// Events that ask for no write hold nothing that the lane yielded.
proof fn lemma_nothing_forwarded(events: Seq<ViewerEventView>)
    requires
        !asks_to_write(events),
    ensures
        forwarded(events) == Seq::<OutboundView>::empty(),
    decreases events.len(),
{
    if events.len() > 0 {
        lemma_nothing_forwarded(events.drop_last());
    }
}

/// A whole session arrives in order: on the lane of a viewer that takes all
/// that is offered, a student's session leaves the announcement of its
/// arrival, then every frame as it was sent, tagged, each once and in sending
/// order, then the announcement of its departure as the last, and nothing
/// else.
pub proof fn lemma_whole_session_arrives_in_order(
    session: StudentView,
    relay: RelayView,
    handshake: InboundView,
    first_taken: Seq<bool>,
    frames: Seq<Seq<u8>>,
    taken: Seq<Seq<bool>>,
    ending: InboundView,
    last_taken: Seq<bool>,
    at: int,
)
    requires
        session.phase == StudentPhase::AwaitingHandshake,
        offered_hostname(handshake) is Some,
        ending.ends_connection(),
        taken.len() == frames.len(),
        0 <= at < relay.viewers.len(),
        first_taken[at],
        forall|k: int| 0 <= k < taken.len() ==> (#[trigger] taken[k])[at],
        last_taken[at],
    ensures
        ({
            let hostname = offered_hostname(handshake)->0;
            let started = student_step(session, relay, handshake, first_taken);
            let streamed = student_run(started.0, started.1, binaries(frames), taken);
            let gone = student_step(streamed.0, streamed.1, ending, last_taken);
            &&& gone.0.phase == StudentPhase::Closed
            &&& ids_of(gone.1.viewers) == ids_of(relay.viewers)
            &&& gone.1.viewers[at].accepted == relay.viewers[at].accepted.push(
                event_wire(EventKind::StudentConnected.text(), hostname),
            ) + tagged_frames(hostname, frames) + seq![
                event_wire(EventKind::StudentDisconnected.text(), hostname),
            ]
        }),
{
    let hostname = offered_hostname(handshake)->0;
    let started = student_step(session, relay, handshake, first_taken);
    let streamed = student_run(started.0, started.1, binaries(frames), taken);
    let gone = student_step(streamed.0, streamed.1, ending, last_taken);
    lemma_streamed_frames(started.0, started.1, frames, taken);
    let answers = answers_of(taken, at);
    assert forall|k: int| 0 <= k < answers.len() implies answers[k] by {
        assert(taken[k][at]);
    }
    lemma_selected_all(tagged_frames(hostname, frames), answers);
    assert(ids_of(started.1.viewers) =~= ids_of(relay.viewers));
    assert(streamed.1.viewers.len() == ids_of(streamed.1.viewers).len());
    assert(ids_of(gone.1.viewers) =~= ids_of(relay.viewers));
    let grown = streamed.1.viewers[at].accepted;
    assert(gone.1.viewers[at].accepted == grown.push(
        event_wire(EventKind::StudentDisconnected.text(), hostname),
    ));
    assert(grown.push(event_wire(EventKind::StudentDisconnected.text(), hostname))
        =~= relay.viewers[at].accepted.push(
        event_wire(EventKind::StudentConnected.text(), hostname),
    ) + tagged_frames(hostname, frames) + seq![
        event_wire(EventKind::StudentDisconnected.text(), hostname),
    ]);
}

/// A text has bytes exactly when it has characters.
pub proof fn lemma_text_has_bytes(text: Seq<char>)
    ensures
        encode_utf8(text).len() == 0 <==> text.len() == 0,
{
    vstd::utf8::encode_utf8_decode_utf8(text);
    if encode_utf8(text).len() == 0 {
        assert(vstd::utf8::decode_utf8(encode_utf8(text)).len() == 0);
    }
    if text.len() == 0 {
        assert(text =~= Seq::<char>::empty());
    }
}

/// No student streams under an empty hostname: a handshake is accepted under
/// a hostname that has characters, and a session keeps its hostname.
pub proof fn lemma_streaming_hostname_is_not_empty(
    session: StudentView,
    relay: RelayView,
    message: InboundView,
    taken: Seq<bool>,
)
    requires
        session.phase == StudentPhase::Streaming ==> session.hostname.len() > 0,
    ensures
        ({
            let next = student_step(session, relay, message, taken);
            next.0.phase == StudentPhase::Streaming ==> next.0.hostname.len() > 0
        }),
{
    reveal_strlit("unknown");
}

/// What a student relays can be read back: a viewer that decodes the tagged
/// frame of a student whose hostname has 1 to 255 bytes gets the hostname
/// and the frame as the student sent it.
pub proof fn lemma_relayed_frame_is_read_back(hostname: Seq<char>, frame: Seq<u8>)
    requires
        hostname.len() > 0,
        encode_utf8(hostname).len() <= MAX_TAG_LEN,
    ensures
        decoded(frame_wire(encode_utf8(hostname), frame)) == Ok::<TaggedView, DecodeError>(
            TaggedView::Frame { hostname, payload: frame },
        ),
{
    lemma_text_has_bytes(hostname);
    lemma_frame_round_trip(hostname, frame);
}

/// A first message that is no accepted handshake closes the session and
/// leaves the relay exactly as it was: no cache slot and no viewer's record
/// changes. A binary first message is never a handshake, and neither is a
/// text in which `serde_json` reads no role `student`.
pub proof fn lemma_rejected_handshake_leaves_no_trace(
    session: StudentView,
    relay: RelayView,
    message: InboundView,
    taken: Seq<bool>,
)
    requires
        session.phase == StudentPhase::AwaitingHandshake,
        message is Binary || (message matches InboundView::Text(text) && (json_members(
            text,
            "role"@,
            "hostname"@,
        ) matches Some((role, _)) ==> role != Some("student"@))),
    ensures
        offered_hostname(message) is None,
        student_step(session, relay, message, taken).0.phase == StudentPhase::Closed,
        student_step(session, relay, message, taken).1 == relay,
{
}

/// A viewer that connects while a student streams is shown that student: the
/// greeting of a cache that the student's frames have reached names the
/// student once, and the tagged frame that belongs to the name is the last
/// frame that the student sent.
pub proof fn lemma_streaming_student_is_greeted(
    session: StudentView,
    relay: RelayView,
    frames: Seq<Seq<u8>>,
    taken: Seq<Seq<bool>>,
    greeting: Greeting,
)
    requires
        session.phase == StudentPhase::Streaming,
        frames.len() >= 1,
        taken.len() == frames.len(),
        greeting.shows(student_run(session, relay, binaries(frames), taken).1.frames),
    ensures
        names_view(greeting.students@).contains(session.hostname),
        ({
            let at = names_view(greeting.students@).index_of(session.hostname);
            &&& 0 <= at < greeting.frames@.len()
            &&& greeting.students@[at]@ == session.hostname
            &&& greeting.frames@[at]@ == frame_wire(encode_utf8(session.hostname), frames.last())
        }),
{
    lemma_streamed_frames(session, relay, frames, taken);
    let cache = student_run(session, relay, binaries(frames), taken).1.frames;
    let names = names_view(greeting.students@);
    assert(cache.dom().contains(session.hostname));
    assert(names.to_set().contains(session.hostname));
    let at = names.index_of(session.hostname);
    assert(names[at] == greeting.students@[at]@);
}

/// A greeting that shows the cache has one entry for each streaming student
/// and no other: the listed hostnames are exactly the keys of the cache, none
/// twice, and there are as many tagged frames as students.
pub proof fn lemma_greeting_covers_students(greeting: Greeting, frames: Map<Seq<char>, Seq<u8>>)
    requires
        greeting.shows(frames),
    ensures
        frames.dom().finite(),
        greeting.students@.len() == frames.dom().len(),
        greeting.frames@.len() == frames.dom().len(),
        forall|hostname: Seq<char>|
            frames.dom().contains(hostname) <==> names_view(greeting.students@).contains(hostname),
{
    let names = names_view(greeting.students@);
    names.unique_seq_to_set();
    vstd::seq_lib::seq_to_set_is_finite(names);
    assert forall|hostname: Seq<char>| frames.dom().contains(hostname) <==> names.contains(
        hostname,
    ) by {
        assert(names.to_set().contains(hostname) <==> names.contains(hostname));
    }
}

} // verus!
