//! The per-student latest-frame cache.
//!
//! One slot per hostname, latest wins: a new frame overwrites the slot, and
//! the slot exists only while the student is streaming. The cache is modelled
//! as a map from hostname to frame bytes.

use crate::text::names_view;
use dashmap::DashMap;
use vstd::prelude::*;

verus! {

/// `dashmap::DashMap`, the concurrent hash map. What it holds is known here
/// only through [`stored_frames`].
#[verifier::external_type_specification]
#[verifier::external_body]
#[verifier::reject_recursive_types(K)]
#[verifier::reject_recursive_types(V)]
#[verifier::reject_recursive_types(S)]
pub struct ExDashMap<K, V, S>(DashMap<K, V, S>);

/// The entries that a frame map holds: hostname to latest frame bytes.
pub uninterp spec fn stored_frames(map: DashMap<String, Vec<u8>>) -> Map<Seq<char>, Seq<u8>>;

/// The cache contents before any student has sent a frame.
pub open spec fn no_frames() -> Map<Seq<char>, Seq<u8>> {
    Map::empty()
}

/// `names` lists every hostname of `frames` exactly once, in some order.
pub open spec fn lists_hostnames(names: Seq<Seq<char>>, frames: Map<Seq<char>, Seq<u8>>) -> bool {
    &&& names.no_duplicates()
    &&& names.to_set() == frames.dom()
}

/// The hostnames of a sequence of entries, in the same order.
pub open spec fn hostnames_of(entries: Seq<(Seq<char>, Seq<u8>)>) -> Seq<Seq<char>> {
    entries.map_values(|entry: (Seq<char>, Seq<u8>)| entry.0)
}

/// `entries` lists every entry of `frames` exactly once, in some order.
pub open spec fn lists_entries(
    entries: Seq<(Seq<char>, Seq<u8>)>,
    frames: Map<Seq<char>, Seq<u8>>,
) -> bool {
    &&& lists_hostnames(hostnames_of(entries), frames)
    &&& forall|i: int| 0 <= i < entries.len() ==> #[trigger] entries[i].1 == frames[entries[i].0]
}

/// The entries of a snapshot as the contracts see them.
pub open spec fn entries_view(entries: Seq<(String, Vec<u8>)>) -> Seq<(Seq<char>, Seq<u8>)> {
    entries.map_values(|entry: (String, Vec<u8>)| (entry.0@, entry.1@))
}

/// The bytes of a frame that may be absent.
pub open spec fn frame_view(frame: Option<Vec<u8>>) -> Option<Seq<u8>> {
    match frame {
        Some(bytes) => Some(bytes@),
        None => None,
    }
}

/// What a lookup of `hostname` in `frames` finds.
pub open spec fn found_frame(frames: Map<Seq<char>, Seq<u8>>, hostname: Seq<char>) -> Option<
    Seq<u8>,
> {
    if frames.dom().contains(hostname) {
        Some(frames[hostname])
    } else {
        None
    }
}

/// `DashMap::new`: the new map holds nothing.
#[verifier::external_body]
fn new_frame_map() -> (fresh: DashMap<String, Vec<u8>>)
    ensures
        stored_frames(fresh) == no_frames(),
{
    DashMap::new()
}

/// `DashMap::insert`, called with exclusive access: afterwards the key maps to
/// the new value, whether or not it was present, and every other entry is as
/// before.
#[verifier::external_body]
fn insert_frame(map: &mut DashMap<String, Vec<u8>>, hostname: String, frame: Vec<u8>)
    ensures
        stored_frames(*final(map)) == stored_frames(*old(map)).insert(hostname@, frame@),
{
    map.insert(hostname, frame);
}

/// `DashMap::remove`, called with exclusive access: afterwards the key is
/// absent, and every other entry is as before.
#[verifier::external_body]
fn remove_frame(map: &mut DashMap<String, Vec<u8>>, hostname: &str)
    ensures
        stored_frames(*final(map)) == stored_frames(*old(map)).remove(hostname@),
{
    map.remove(hostname);
}

/// `DashMap::get`: a copy of the value under the key, if the key is present.
#[verifier::external_body]
fn get_frame(map: &DashMap<String, Vec<u8>>, hostname: &str) -> (frame: Option<Vec<u8>>)
    ensures
        frame_view(frame) == found_frame(stored_frames(*map), hostname@),
{
    map.get(hostname).map(|entry| entry.value().clone())
}

/// `DashMap::iter`, keeping a copy of each key: each key of the map comes
/// once. The order is that of the map's hash shards and is not specified.
#[verifier::external_body]
fn frame_map_keys(map: &DashMap<String, Vec<u8>>) -> (names: Vec<String>)
    ensures
        lists_hostnames(names_view(names@), stored_frames(*map)),
{
    map.iter().map(|entry| entry.key().clone()).collect()
}

/// The latest frame of every student that is streaming.
pub struct FrameCache {
    map: DashMap<String, Vec<u8>>,
}

impl View for FrameCache {
    type V = Map<Seq<char>, Seq<u8>>;

    closed spec fn view(&self) -> Map<Seq<char>, Seq<u8>> {
        stored_frames(self.map)
    }
}

impl FrameCache {
    /// An empty cache.
    pub fn new() -> (cache: FrameCache)
        ensures
            cache@ == no_frames(),
    {
        FrameCache { map: new_frame_map() }
    }

    /// Stores `frame` as the latest frame of `hostname`, replacing any earlier
    /// one.
    pub fn put(&mut self, hostname: String, frame: Vec<u8>)
        ensures
            final(self)@ == old(self)@.insert(hostname@, frame@),
    {
        insert_frame(&mut self.map, hostname, frame);
    }

    /// Drops the slot of `hostname`, if there is one.
    pub fn remove(&mut self, hostname: &str)
        ensures
            final(self)@ == old(self)@.remove(hostname@),
    {
        remove_frame(&mut self.map, hostname);
    }

    /// The latest frame of `hostname`, if it is streaming.
    pub fn get(&self, hostname: &str) -> (frame: Option<Vec<u8>>)
        ensures
            frame_view(frame) == found_frame(self@, hostname@),
    {
        get_frame(&self.map, hostname)
    }

    /// The hostnames that are streaming now, each once.
    pub fn keys(&self) -> (names: Vec<String>)
        ensures
            lists_hostnames(names_view(names@), self@),
    {
        frame_map_keys(&self.map)
    }

    /// The cache contents at this moment: each hostname once, with its latest
    /// frame.
    pub fn snapshot(&self) -> (entries: Vec<(String, Vec<u8>)>)
        ensures
            lists_entries(entries_view(entries@), self@),
    {
        let names = self.keys();
        let mut entries: Vec<(String, Vec<u8>)> = Vec::new();
        let mut i: usize = 0;
        while i < names.len()
            invariant
                i <= names@.len(),
                lists_hostnames(names_view(names@), self@),
                entries@.len() == i,
                forall|k: int|
                    0 <= k < i ==> (#[trigger] entries@[k]).0@ == names@[k]@ && entries@[k].1@
                        == self@[names@[k]@],
            decreases names@.len() - i,
        {
            let name = names[i].clone();
            proof {
                let listed = names_view(names@);
                assert(listed[i as int] == names@[i as int]@);
                assert(listed.to_set().contains(listed[i as int]));
            }
            let found = self.get(name.as_str());
            assert(found is Some);
            if let Some(frame) = found {
                entries.push((name, frame));
            }
            i += 1;
        }
        proof {
            let seen = entries_view(entries@);
            assert(hostnames_of(seen) =~= names_view(names@));
            assert forall|k: int| 0 <= k < seen.len() implies #[trigger] seen[k].1
                == self@[seen[k].0] by {
                assert(seen[k] == (entries@[k].0@, entries@[k].1@));
            }
        }
        entries
    }
}

} // verus!
