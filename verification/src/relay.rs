//! The shared state of the relay: the frame cache and the viewer registry.

use crate::cache::{lists_hostnames, FrameCache};
use crate::registry::{ViewerRegistry, ViewerView};
use crate::text::names_view;
use vstd::prelude::*;

verus! {

/// The relay as the contracts see it.
pub struct RelayView {
    /// The latest frame of each streaming student.
    pub frames: Map<Seq<char>, Seq<u8>>,
    /// The registered viewers, in registration order.
    pub viewers: Seq<ViewerView>,
}

/// The two structures that student and viewer sessions share.
pub struct Relay {
    pub cache: FrameCache,
    pub viewers: ViewerRegistry,
}

impl View for Relay {
    type V = RelayView;

    open spec fn view(&self) -> RelayView {
        RelayView { frames: self.cache@, viewers: self.viewers@ }
    }
}

impl Relay {
    /// The relay's invariant is that of its registry.
    pub open spec fn wf(&self) -> bool {
        self.viewers.wf()
    }

    /// A relay without students and without viewers.
    pub fn new() -> (relay: Relay)
        ensures
            relay.wf(),
            relay@.frames == crate::cache::no_frames(),
            relay@.viewers == Seq::<ViewerView>::empty(),
            relay.viewers.issued() == 0,
    {
        Relay { cache: FrameCache::new(), viewers: ViewerRegistry::new() }
    }

    /// The hostnames of the students that are streaming now, each once.
    pub fn list_active_hostnames(&self) -> (names: Vec<String>)
        ensures
            lists_hostnames(names_view(names@), self@.frames),
    {
        self.cache.keys()
    }
}

} // verus!
