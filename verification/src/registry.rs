//! The registry of connected viewers and the fan-out of one message to all
//! of them.
//!
//! Every viewer owns a private outbound lane; the registry keeps the sending
//! ends. Publishing offers a copy of the message to each lane in turn and
//! never waits: a lane whose receiving end is gone declines, and the message
//! is dropped for that viewer alone. What a lane has taken is read from the
//! lane itself: the record of a viewer is that of the lane that the registry
//! keeps for it.

use tokio::sync::mpsc::UnboundedSender;
use vstd::prelude::*;
use vstd::slice::slice_to_vec;

verus! {

/// `tokio::sync::mpsc::UnboundedSender`, the sending end of a lane. Nothing
/// of what is inside is known here.
#[verifier::external_type_specification]
#[verifier::external_body]
#[verifier::reject_recursive_types(T)]
pub struct ExUnboundedSender<T>(UnboundedSender<T>);

/// The sending end of a viewer's private lane.
pub type Lane = UnboundedSender<Vec<u8>>;

/// The messages that the channel has taken through this sending end, oldest
/// first: each is one that `send` wrote to the next slot of the channel.
pub uninterp spec fn lane_taken(lane: UnboundedSender<Vec<u8>>) -> Seq<Seq<u8>>;

/// `UnboundedSender::send`: hands the message to the lane without waiting.
/// Where the answer is `true`, the channel has written the message to its
/// next slot, behind all that it took before. Where it is `false`, the
/// receiving end is closed or gone, nothing was written and the message is
/// dropped. Which of the two happens depends on the receiving end alone.
#[verifier::external_body]
fn offer(lane: &mut UnboundedSender<Vec<u8>>, message: Vec<u8>) -> (taken: bool)
    ensures
        lane_taken(*final(lane)) == if taken {
            lane_taken(*old(lane)).push(message@)
        } else {
            lane_taken(*old(lane))
        },
{
    lane.send(message).is_ok()
}

/// Names one registered viewer for the time of its connection.
#[derive(Clone, Copy, Debug, PartialEq, Eq)]
pub struct ViewerId {
    serial: u64,
}

/// One registered viewer as the contracts see it.
pub struct ViewerView {
    pub id: ViewerId,
    /// The messages that the viewer's lane has taken, oldest first: what
    /// [`lane_taken`] says of the lane that the registry keeps for it.
    pub accepted: Seq<Seq<u8>>,
}

/// The viewers that a registry with these ids and lanes holds: viewer `i` has
/// the id `ids[i]` and the record of the lane `lanes[i]`.
pub open spec fn viewers_of(ids: Seq<ViewerId>, lanes: Seq<UnboundedSender<Vec<u8>>>) -> Seq<
    ViewerView,
> {
    Seq::new(ids.len(), |i: int| ViewerView { id: ids[i], accepted: lane_taken(lanes[i]) })
}

/// The lanes without that of the viewer named `id`.
pub open spec fn lanes_without(
    ids: Seq<ViewerId>,
    lanes: Seq<UnboundedSender<Vec<u8>>>,
    id: ViewerId,
) -> Seq<UnboundedSender<Vec<u8>>> {
    if ids.contains(id) {
        lanes.remove(ids.index_of(id))
    } else {
        lanes
    }
}

/// The viewers after one message was offered to each: `taken[i]` says whether
/// the lane of viewer `i` took it.
pub open spec fn fan_out(viewers: Seq<ViewerView>, message: Seq<u8>, taken: Seq<bool>) -> Seq<
    ViewerView,
>
    recommends
        taken.len() == viewers.len(),
{
    Seq::new(
        viewers.len(),
        |i: int|
            ViewerView {
                id: viewers[i].id,
                accepted: if taken[i] {
                    viewers[i].accepted.push(message)
                } else {
                    viewers[i].accepted
                },
            },
    )
}

/// The ids of the viewers, in registration order.
pub open spec fn ids_of(viewers: Seq<ViewerView>) -> Seq<ViewerId> {
    viewers.map_values(|viewer: ViewerView| viewer.id)
}

/// The viewers without the one named `id`.
pub open spec fn without(viewers: Seq<ViewerView>, id: ViewerId) -> Seq<ViewerView> {
    viewers.filter(|viewer: ViewerView| viewer.id != id)
}

/// The record of the viewer named `id`: the messages that its lane has taken.
pub open spec fn accepted_of(viewers: Seq<ViewerView>, id: ViewerId) -> Seq<Seq<u8>>
    recommends
        ids_of(viewers).contains(id),
{
    viewers[ids_of(viewers).index_of(id)].accepted
}

/// Filtering keeps a sequence whole when every element passes.
proof fn lemma_filter_keeps_all<A>(s: Seq<A>, pred: spec_fn(A) -> bool)
    requires
        forall|i: int| 0 <= i < s.len() ==> pred(#[trigger] s[i]),
    ensures
        s.filter(pred) == s,
    decreases s.len(),
{
    reveal(Seq::filter);
    if s.len() > 0 {
        lemma_filter_keeps_all(s.drop_last(), pred);
        assert(s.drop_last().push(s.last()) =~= s);
    }
}

/// Filtering removes exactly the element at `k` when it alone fails.
proof fn lemma_filter_drops_one<A>(s: Seq<A>, pred: spec_fn(A) -> bool, k: int)
    requires
        0 <= k < s.len(),
        !pred(s[k]),
        forall|i: int| 0 <= i < s.len() && i != k ==> pred(#[trigger] s[i]),
    ensures
        s.filter(pred) == s.remove(k),
{
    let head = s.subrange(0, k);
    let one = seq![s[k]];
    let tail = s.subrange(k + 1, s.len() as int);
    assert(s =~= (head + one) + tail);
    Seq::filter_distributes_over_add(head + one, tail, pred);
    Seq::filter_distributes_over_add(head, one, pred);
    lemma_filter_keeps_all(head, pred);
    lemma_filter_keeps_all(tail, pred);
    assert(one.filter(pred) =~= Seq::<A>::empty()) by {
        reveal_with_fuel(Seq::filter, 2);
        assert(one.drop_last() =~= Seq::<A>::empty());
    }
    assert(s.filter(pred) =~= s.remove(k));
}

/// Where no id occurs twice, the viewer at position `at` is the one that its
/// id names.
pub proof fn lemma_accepted_at(viewers: Seq<ViewerView>, at: int)
    requires
        ids_of(viewers).no_duplicates(),
        0 <= at < viewers.len(),
    ensures
        ids_of(viewers).contains(viewers[at].id),
        ids_of(viewers).index_of(viewers[at].id) == at,
        accepted_of(viewers, viewers[at].id) == viewers[at].accepted,
{
    let ids = ids_of(viewers);
    assert(ids[at] == viewers[at].id);
    let found = ids.index_of(viewers[at].id);
    assert(0 <= found < ids.len() && ids[found] == viewers[at].id);
}

/// Taking one viewer out leaves every other viewer registered, in the same
/// order and with the same record, and leaves no trace of the one taken out.
pub proof fn lemma_without_keeps_others(viewers: Seq<ViewerView>, id: ViewerId)
    requires
        ids_of(viewers).no_duplicates(),
    ensures
        ids_of(without(viewers, id)).no_duplicates(),
        !ids_of(without(viewers, id)).contains(id),
        without(viewers, id).len() == viewers.len() - if ids_of(viewers).contains(id) {
            1int
        } else {
            0int
        },
        forall|other: ViewerId|
            other != id ==> (#[trigger] ids_of(without(viewers, id)).contains(other) <==> ids_of(
                viewers,
            ).contains(other)),
        forall|other: ViewerId|
            other != id && ids_of(viewers).contains(other) ==> #[trigger] accepted_of(
                without(viewers, id),
                other,
            ) == accepted_of(viewers, other),
{
    let keep = |viewer: ViewerView| viewer.id != id;
    let rest = without(viewers, id);
    let ids = ids_of(viewers);
    if ids.contains(id) {
        let gone = ids.index_of(id);
        assert(viewers[gone].id == id) by {
            assert(ids[gone] == id);
        }
        assert forall|i: int| 0 <= i < viewers.len() && i != gone implies keep(
            #[trigger] viewers[i],
        ) by {
            assert(ids[i] != ids[gone]);
        }
        lemma_filter_drops_one(viewers, keep, gone);
        assert(rest == viewers.remove(gone));
        assert forall|i: int| 0 <= i < rest.len() implies #[trigger] rest[i] == viewers[if i
            < gone {
            i
        } else {
            i + 1
        }] by {}
        let rest_ids = ids_of(rest);
        assert forall|i: int, j: int|
            0 <= i < rest_ids.len() && 0 <= j < rest_ids.len() && i != j implies rest_ids[i]
            != rest_ids[j] by {
            let a = if i < gone { i } else { i + 1 };
            let b = if j < gone { j } else { j + 1 };
            assert(rest_ids[i] == ids[a]);
            assert(rest_ids[j] == ids[b]);
        }
        assert forall|k: int| 0 <= k < rest_ids.len() implies rest_ids[k] != id by {
            let a = if k < gone { k } else { k + 1 };
            assert(rest_ids[k] == ids[a]);
            assert(ids[a] != ids[gone]);
        }
        assert forall|other: ViewerId| other != id implies (#[trigger] rest_ids.contains(other)
            <==> ids.contains(other)) by {
            if rest_ids.contains(other) {
                let k = rest_ids.index_of(other);
                let a = if k < gone { k } else { k + 1 };
                assert(rest_ids[k] == ids[a]);
            }
            if ids.contains(other) {
                let a = ids.index_of(other);
                let k = if a < gone { a } else { a - 1 };
                assert(rest_ids[k] == ids[a]);
            }
        }
        assert forall|other: ViewerId|
            other != id && ids.contains(other) implies #[trigger] accepted_of(rest, other)
            == accepted_of(viewers, other) by {
            let a = ids.index_of(other);
            let k = if a < gone { a } else { a - 1 };
            assert(rest[k] == viewers[a]);
            assert(ids[a] == viewers[a].id);
            lemma_accepted_at(rest, k);
        }
    } else {
        assert forall|i: int| 0 <= i < viewers.len() implies keep(#[trigger] viewers[i]) by {
            assert(ids[i] == viewers[i].id);
        }
        lemma_filter_keeps_all(viewers, keep);
        assert(rest == viewers);
    }
}

/// The set of connected viewers.
pub struct ViewerRegistry {
    ids: Vec<ViewerId>,
    lanes: Vec<UnboundedSender<Vec<u8>>>,
    next_serial: u64,
}

impl View for ViewerRegistry {
    type V = Seq<ViewerView>;

    open spec fn view(&self) -> Seq<ViewerView> {
        viewers_of(self.ids(), self.lanes())
    }
}

impl ViewerRegistry {
    /// The ids of the registered viewers, in registration order.
    pub closed spec fn ids(&self) -> Seq<ViewerId> {
        self.ids@
    }

    /// The lanes that the registry keeps, in registration order: `lanes()[i]`
    /// is the lane of the viewer `ids()[i]`.
    pub closed spec fn lanes(&self) -> Seq<UnboundedSender<Vec<u8>>> {
        self.lanes@
    }

    /// The registry's invariant: every viewer has its lane, and ids rise with
    /// registration order, so none occurs twice.
    pub closed spec fn wf(&self) -> bool {
        &&& self.lanes@.len() == self.ids@.len()
        &&& forall|i: int| 0 <= i < self.ids@.len() ==> (#[trigger] self.ids@[i]).serial
            < self.next_serial
        &&& forall|i: int, j: int|
            0 <= i < j < self.ids@.len() ==> (#[trigger] self.ids@[i]).serial < (
            #[trigger] self.ids@[j]).serial
    }

    /// In a registry that meets its invariant every viewer has its lane and no
    /// id occurs twice.
    pub proof fn lemma_distinct_ids(&self)
        requires
            self.wf(),
        ensures
            self.lanes().len() == self.ids().len(),
            ids_of(self@) == self.ids(),
            ids_of(self@).no_duplicates(),
    {
        let ids = ids_of(self@);
        assert(ids =~= self.ids());
        assert forall|i: int, j: int|
            0 <= i < ids.len() && 0 <= j < ids.len() && i != j implies ids[i] != ids[j] by {
            if i < j {
                assert(self.ids@[i].serial < self.ids@[j].serial);
            } else {
                assert(self.ids@[j].serial < self.ids@[i].serial);
            }
        }
    }

    /// How many viewers have registered since the registry was made.
    pub closed spec fn issued(&self) -> nat {
        self.next_serial as nat
    }

    /// A registry without viewers.
    pub fn new() -> (registry: ViewerRegistry)
        ensures
            registry.wf(),
            registry@ == Seq::<ViewerView>::empty(),
            registry.ids() == Seq::<ViewerId>::empty(),
            registry.lanes() == Seq::<UnboundedSender<Vec<u8>>>::empty(),
            registry.issued() == 0,
    {
        let registry = ViewerRegistry { ids: Vec::new(), lanes: Vec::new(), next_serial: 0 };
        assert(registry@ =~= Seq::<ViewerView>::empty());
        registry
    }

    /// The number of registered viewers.
    pub fn len(&self) -> (count: usize)
        ensures
            count == self@.len(),
    {
        self.ids.len()
    }

    /// Whether another viewer can still be given an id.
    pub fn has_room(&self) -> (room: bool)
        ensures
            room == (self.issued() < u64::MAX),
    {
        self.next_serial < u64::MAX
    }

    /// Whether `id` names a registered viewer.
    pub fn is_registered(&self, id: ViewerId) -> (found: bool)
        ensures
            found == self.ids().contains(id),
            found == ids_of(self@).contains(id),
    {
        assert(ids_of(self@) =~= self.ids());
        let mut i: usize = 0;
        while i < self.ids.len()
            invariant
                i <= self.ids@.len(),
                ids_of(self@) == self.ids(),
                forall|k: int| 0 <= k < i ==> self.ids@[k] != id,
            decreases self.ids@.len() - i,
        {
            if self.ids[i].serial == id.serial {
                assert(self.ids@[i as int] == id);
                return true;
            }
            i += 1;
        }
        false
    }

    /// Adds a viewer whose lane is `lane`: the registry keeps this lane for
    /// the viewer. The viewer gets an id that no viewer had before, and comes
    /// last in registration order.
    pub fn register(&mut self, lane: UnboundedSender<Vec<u8>>) -> (id: ViewerId)
        requires
            old(self).wf(),
            old(self).issued() < u64::MAX,
        ensures
            final(self).wf(),
            final(self).ids() == old(self).ids().push(id),
            final(self).lanes() == old(self).lanes().push(lane),
            final(self)@ == old(self)@.push(ViewerView { id, accepted: lane_taken(lane) }),
            !old(self).ids().contains(id),
            !ids_of(old(self)@).contains(id),
            final(self).issued() == old(self).issued() + 1,
    {
        let id = ViewerId { serial: self.next_serial };
        self.ids.push(id);
        self.lanes.push(lane);
        self.next_serial = self.next_serial + 1;
        assert(final(self)@ =~= old(self)@.push(ViewerView { id, accepted: lane_taken(lane) }));
        assert(ids_of(old(self)@) =~= old(self).ids());
        assert(!old(self).ids().contains(id)) by {
            assert forall|k: int| 0 <= k < old(self).ids@.len() implies old(self).ids@[k]
                != id by {
                assert(old(self).ids@[k].serial < old(self).next_serial);
            }
        }
        id
    }

    /// Takes the viewer named `id` out of the registry and drops the sending
    /// end of its lane. The other viewers keep their order, their lanes and
    /// so their records. Says whether `id` was registered.
    pub fn unregister(&mut self, id: ViewerId) -> (removed: bool)
        requires
            old(self).wf(),
        ensures
            final(self).wf(),
            final(self).ids() == old(self).ids().filter(|other: ViewerId| other != id),
            final(self).lanes() == lanes_without(old(self).ids(), old(self).lanes(), id),
            final(self)@ == without(old(self)@, id),
            removed == old(self).ids().contains(id),
            removed == ids_of(old(self)@).contains(id),
            final(self).issued() == old(self).issued(),
    {
        assert(ids_of(self@) =~= self.ids());
        let mut i: usize = 0;
        while i < self.ids.len()
            invariant
                self.wf(),
                *self == *old(self),
                i <= self.ids@.len(),
                forall|k: int| 0 <= k < i ==> self.ids@[k] != id,
            decreases self.ids@.len() - i,
        {
            if self.ids[i].serial == id.serial {
                proof {
                    let keep = |viewer: ViewerView| viewer.id != id;
                    let keep_id = |other: ViewerId| other != id;
                    assert(self.ids@[i as int] == id);
                    assert(!keep(self@[i as int]));
                    assert forall|k: int| 0 <= k < self@.len() && k != i implies keep(
                        #[trigger] self@[k],
                    ) by {
                        if k < i {
                            assert(self.ids@[k].serial < self.ids@[i as int].serial);
                        } else {
                            assert(self.ids@[i as int].serial < self.ids@[k].serial);
                        }
                    }
                    assert forall|k: int| 0 <= k < self.ids@.len() && k != i implies keep_id(
                        #[trigger] self.ids@[k],
                    ) by {
                        assert(keep(self@[k]));
                    }
                    lemma_filter_drops_one(self@, keep, i as int);
                    lemma_filter_drops_one(self.ids@, keep_id, i as int);
                    self.lemma_distinct_ids();
                    let found = self.ids@.index_of(id);
                    assert(0 <= found < self.ids@.len() && self.ids@[found] == id);
                    assert(found == i);
                }
                self.ids.remove(i);
                self.lanes.remove(i);
                assert(self@ =~= old(self)@.remove(i as int));
                return true;
            }
            i += 1;
        }
        proof {
            let keep = |viewer: ViewerView| viewer.id != id;
            let keep_id = |other: ViewerId| other != id;
            lemma_filter_keeps_all(self@, keep);
            lemma_filter_keeps_all(self.ids@, keep_id);
        }
        false
    }

    /// Offers a copy of `message` to the lane of every registered viewer, in
    /// registration order, without waiting. The lane of each viewer that
    /// takes the copy has it behind all that it took before; a lane that
    /// declines loses this message and nothing else. No viewer is added or
    /// removed.
    ///
    /// The returned ghost value says, viewer by viewer, whether the lane took
    /// the message.
    pub fn publish(&mut self, message: &[u8]) -> (taken: Ghost<Seq<bool>>)
        requires
            old(self).wf(),
        ensures
            final(self).wf(),
            taken@.len() == old(self)@.len(),
            final(self).ids() == old(self).ids(),
            final(self).lanes().len() == old(self).lanes().len(),
            final(self)@ == fan_out(old(self)@, message@, taken@),
            final(self).issued() == old(self).issued(),
    {
        let ghost mut outcome: Seq<bool> = Seq::empty();
        let mut i: usize = 0;
        while i < self.lanes.len()
            invariant
                self.wf(),
                i <= self.lanes@.len(),
                self.ids == old(self).ids,
                self.next_serial == old(self).next_serial,
                self.lanes@.len() == old(self).lanes@.len(),
                outcome.len() == i,
                forall|k: int|
                    0 <= k < i ==> lane_taken(#[trigger] self.lanes@[k]) == if outcome[k] {
                        lane_taken(old(self).lanes@[k]).push(message@)
                    } else {
                        lane_taken(old(self).lanes@[k])
                    },
                forall|k: int|
                    i <= k < self.lanes@.len() ==> #[trigger] self.lanes@[k] == old(
                        self,
                    ).lanes@[k],
            decreases self.lanes@.len() - i,
        {
            let copy = slice_to_vec(message);
            let took = offer(&mut self.lanes[i], copy);
            proof {
                outcome = outcome.push(took);
            }
            i += 1;
        }
        assert(self@ =~= fan_out(old(self)@, message@, outcome));
        Ghost(outcome)
    }
}

} // verus!
