//! The shared texture cache.
//!
//! Every distinct image source gets exactly one record, created on the first
//! request and kept for the life of the manager. A record starts out showing
//! a one-pixel placeholder; when the image behind it has been decoded the
//! record is updated in place, and every holder of its handle sees the change.
//! Records are never evicted and a source is never fetched twice.

use vstd::prelude::*;
use vstd::hash_map::StringHashMap;

verus! {

/// The colour of the single pixel shown until an image has loaded (opaque
/// blue, as red, green, blue, alpha).
pub const PLACEHOLDER_PIXEL: [u8; 4] = [0, 0, 255, 255];

/// Handle to one record of a [`TextureManager`]. Two handles are the same
/// record exactly when they are equal.
#[derive(Clone, Copy, Debug, PartialEq, Eq, Structural)]
pub struct SharedTexture {
    pub id: usize,
}

/// What a record currently shows.
#[derive(Clone, Copy, Debug, PartialEq, Eq, Structural)]
pub enum TextureContent {
    /// The one-pixel placeholder: the image has not arrived (yet).
    Placeholder,
    /// The decoded image, with its natural size in pixels.
    Image { natural_width: u32, natural_height: u32 },
}

struct TextureRecord {
    key: String,
    content: TextureContent,
}

/// One record as the contracts see it.
pub struct RecordView {
    pub key: Seq<char>,
    pub content: TextureContent,
}

/// A manager as the contracts see it: which handle each source maps to, and
/// the records in the order of their creation.
pub struct CacheView {
    pub handles: Map<Seq<char>, SharedTexture>,
    pub records: Seq<RecordView>,
}

/// Something that happens to a manager: a request for a source, or the
/// completion of a load.
pub enum CacheEvent {
    Request { key: Seq<char> },
    Complete { texture: SharedTexture, natural_width: u32, natural_height: u32 },
}

/// Sources and records correspond one to one: each known source names a
/// record made for it, and each record is the one its source maps to.
pub open spec fn cache_wf(c: CacheView) -> bool {
    &&& c.records.len() <= usize::MAX
    &&& forall|k: Seq<char>| #[trigger]
        c.handles.contains_key(k) ==> c.handles[k].id < c.records.len()
            && c.records[c.handles[k].id as int].key == k
    &&& forall|i: int|
        0 <= i < c.records.len() ==> c.handles.contains_key((#[trigger] c.records[i]).key)
            && c.handles[c.records[i].key].id == i
}

/// The handle a request for `key` returns.
pub open spec fn handle_for(c: CacheView, key: Seq<char>) -> SharedTexture {
    if c.handles.contains_key(key) {
        c.handles[key]
    } else {
        SharedTexture { id: c.records.len() as usize }
    }
}

/// The manager after a request for `key`: unchanged if the source is known,
/// else extended by a fresh placeholder record.
pub open spec fn requested(c: CacheView, key: Seq<char>) -> CacheView {
    if c.handles.contains_key(key) {
        c
    } else {
        CacheView {
            handles: c.handles.insert(key, SharedTexture { id: c.records.len() as usize }),
            records: c.records.push(RecordView { key, content: TextureContent::Placeholder }),
        }
    }
}

/// The manager after the load behind `texture` has completed: that record,
/// if there is one, shows the image; nothing else changes.
pub open spec fn completed(
    c: CacheView,
    texture: SharedTexture,
    natural_width: u32,
    natural_height: u32,
) -> CacheView {
    if texture.id < c.records.len() {
        CacheView {
            handles: c.handles,
            records: c.records.update(
                texture.id as int,
                RecordView {
                    key: c.records[texture.id as int].key,
                    content: TextureContent::Image { natural_width, natural_height },
                },
            ),
        }
    } else {
        c
    }
}

/// The natural size of the image behind `texture`, once it has loaded.
pub open spec fn natural_size(c: CacheView, texture: Option<SharedTexture>) -> Option<(u32, u32)> {
    match texture {
        Some(t) => if t.id < c.records.len() {
            match c.records[t.id as int].content {
                TextureContent::Image { natural_width, natural_height } => Some(
                    (natural_width, natural_height),
                ),
                TextureContent::Placeholder => None,
            }
        } else {
            None
        },
        None => None,
    }
}

/// The manager after one event.
pub open spec fn applied(c: CacheView, event: CacheEvent) -> CacheView {
    match event {
        CacheEvent::Request { key } => requested(c, key),
        CacheEvent::Complete { texture, natural_width, natural_height } => completed(
            c,
            texture,
            natural_width,
            natural_height,
        ),
    }
}

/// The manager after a sequence of events, first to last.
pub open spec fn replayed(c: CacheView, events: Seq<CacheEvent>) -> CacheView
    decreases events.len(),
{
    if events.len() == 0 {
        c
    } else {
        applied(replayed(c, events.drop_last()), events.last())
    }
}

pub struct TextureManager {
    cache: StringHashMap<SharedTexture>,
    records: Vec<TextureRecord>,
}

impl View for TextureManager {
    type V = CacheView;

    closed spec fn view(&self) -> CacheView {
        CacheView {
            handles: self.cache@,
            records: Seq::new(
                self.records.len() as nat,
                |i: int| RecordView { key: self.records[i].key@, content: self.records[i].content },
            ),
        }
    }
}

impl TextureManager {
    pub open spec fn wf(&self) -> bool {
        cache_wf(self@)
    }

    /// An empty manager.
    pub fn new() -> (manager: Self)
        ensures
            manager.wf(),
            manager@.handles == Map::<Seq<char>, SharedTexture>::empty(),
            manager@.records == Seq::<RecordView>::empty(),
    {
        let manager = TextureManager { cache: StringHashMap::new(), records: Vec::new() };
        assert(manager@.records =~= Seq::<RecordView>::empty());
        manager
    }

    /// Returns the record for `src`. The first request for a source creates
    /// its record, showing the placeholder, and thereby asks for the image to
    /// be loaded; every later request returns that same record and asks for
    /// nothing.
    pub fn get_texture(&mut self, src: &str) -> (shared: SharedTexture)
        requires
            old(self).wf(),
        ensures
            final(self).wf(),
            final(self)@ == requested(old(self)@, src@),
            shared == handle_for(old(self)@, src@),
            final(self)@.handles.contains_key(src@),
            final(self)@.handles[src@] == shared,
    {
        let found: Option<SharedTexture> = match self.cache.get(src) {
            Some(shared) => Some(*shared),
            None => None,
        };
        match found {
            Some(shared) => shared,
            None => {
                let shared = SharedTexture { id: self.records.len() };
                let record = TextureRecord {
                    key: src.to_owned(),
                    content: TextureContent::Placeholder,
                };
                self.records.push(record);
                self.cache.insert(src.to_owned(), shared);
                proof {
                    let before = old(self)@;
                    let after = requested(before, src@);
                    assert(self@.records =~= after.records);
                    assert(self@.handles =~= after.handles);
                    lemma_request_keeps_wf(before, src@);
                }
                shared
            },
        }
    }

    /// Records that the image behind `texture` has been decoded, with its
    /// natural size. The record is updated in place; a handle that names no
    /// record of this manager changes nothing.
    pub fn complete_load(&mut self, texture: SharedTexture, natural_width: u32, natural_height: u32)
        requires
            old(self).wf(),
        ensures
            final(self).wf(),
            final(self)@ == completed(old(self)@, texture, natural_width, natural_height),
    {
        if texture.id < self.records.len() {
            self.records[texture.id].content = TextureContent::Image {
                natural_width,
                natural_height,
            };
            proof {
                let before = old(self)@;
                let after = completed(before, texture, natural_width, natural_height);
                assert(self@.records =~= after.records);
                lemma_completion_keeps_wf(before, texture, natural_width, natural_height);
            }
        }
    }

    /// The natural size of the image behind `texture`, or nothing while the
    /// record still shows the placeholder (or is not of this manager).
    pub fn natural_size(&self, texture: Option<SharedTexture>) -> (size: Option<(u32, u32)>)
        ensures
            size == natural_size(self@, texture),
    {
        match texture {
            Some(t) => {
                if t.id < self.records.len() {
                    match self.records[t.id].content {
                        TextureContent::Image { natural_width, natural_height } => Some(
                            (natural_width, natural_height),
                        ),
                        TextureContent::Placeholder => None,
                    }
                } else {
                    None
                }
            },
            None => None,
        }
    }

    /// What the record behind `texture` shows, if it is a record of this
    /// manager.
    pub fn content(&self, texture: SharedTexture) -> (content: Option<TextureContent>)
        ensures
            content == if texture.id < self@.records.len() {
                Some(self@.records[texture.id as int].content)
            } else {
                None
            },
    {
        if texture.id < self.records.len() {
            Some(self.records[texture.id].content)
        } else {
            None
        }
    }

    /// The source of the record behind `texture`, if it is a record of this
    /// manager.
    pub fn source(&self, texture: SharedTexture) -> (src: Option<String>)
        ensures
            texture.id < self@.records.len() ==> src.is_some() && src.unwrap()@
                == self@.records[texture.id as int].key,
            texture.id >= self@.records.len() ==> src.is_none(),
    {
        if texture.id < self.records.len() {
            Some(self.records[texture.id].key.clone())
        } else {
            None
        }
    }

    /// The number of records, which is the number of loads ever asked for.
    pub fn len(&self) -> (count: usize)
        ensures
            count == self@.records.len(),
    {
        self.records.len()
    }
}

/// A request leaves a well-formed manager well-formed.
pub proof fn lemma_request_keeps_wf(c: CacheView, key: Seq<char>)
    requires
        cache_wf(c),
        c.records.len() < usize::MAX,
    ensures
        cache_wf(requested(c, key)),
{
    let after = requested(c, key);
    if !c.handles.contains_key(key) {
        assert forall|k: Seq<char>| #[trigger] after.handles.contains_key(k) implies after.handles[k].id
            < after.records.len() && after.records[after.handles[k].id as int].key == k by {
            if k != key {
                assert(c.handles.contains_key(k));
            }
        }
        assert forall|i: int| 0 <= i < after.records.len() implies after.handles.contains_key(
            (#[trigger] after.records[i]).key,
        ) && after.handles[after.records[i].key].id == i by {
            if i < c.records.len() {
                assert(c.handles.contains_key(c.records[i].key));
            }
        }
    }
}

/// A completed load leaves a well-formed manager well-formed.
pub proof fn lemma_completion_keeps_wf(
    c: CacheView,
    texture: SharedTexture,
    natural_width: u32,
    natural_height: u32,
)
    requires
        cache_wf(c),
    ensures
        cache_wf(completed(c, texture, natural_width, natural_height)),
{
    let after = completed(c, texture, natural_width, natural_height);
    if texture.id < c.records.len() {
        assert forall|k: Seq<char>| #[trigger] after.handles.contains_key(k) implies after.handles[k].id
            < after.records.len() && after.records[after.handles[k].id as int].key == k by {
            assert(c.handles.contains_key(k));
        }
        assert forall|i: int| 0 <= i < after.records.len() implies after.handles.contains_key(
            (#[trigger] after.records[i]).key,
        ) && after.handles[after.records[i].key].id == i by {
            assert(c.handles.contains_key(c.records[i].key));
        }
    }
}

/// Once a source has been requested, every later request for it returns the
/// same handle and leaves the manager as it finds it, whatever requests and
/// completions came in between: one record, and one load, per source.
pub proof fn lemma_requests_share_one_record(c: CacheView, key: Seq<char>, events: Seq<CacheEvent>)
    ensures
        handle_for(replayed(requested(c, key), events), key) == handle_for(c, key),
        requested(replayed(requested(c, key), events), key) == replayed(
            requested(c, key),
            events,
        ),
    decreases events.len(),
{
    lemma_replay_keeps_handles(requested(c, key), key, events);
}

/// No event removes a source or changes the handle it maps to.
pub proof fn lemma_replay_keeps_handles(c: CacheView, key: Seq<char>, events: Seq<CacheEvent>)
    requires
        c.handles.contains_key(key),
    ensures
        replayed(c, events).handles.contains_key(key),
        replayed(c, events).handles[key] == c.handles[key],
    decreases events.len(),
{
    if events.len() > 0 {
        lemma_replay_keeps_handles(c, key, events.drop_last());
    }
}

/// Different sources never share a record.
pub proof fn lemma_sources_have_own_records(c: CacheView, first: Seq<char>, second: Seq<char>)
    requires
        cache_wf(c),
        c.handles.contains_key(first),
        c.handles.contains_key(second),
        first != second,
    ensures
        c.handles[first] != c.handles[second],
{
}

/// A completed load is seen through every handle to its record, and through
/// no other.
pub proof fn lemma_completion_is_shared(
    c: CacheView,
    texture: SharedTexture,
    natural_width: u32,
    natural_height: u32,
    holder: SharedTexture,
)
    requires
        texture.id < c.records.len(),
    ensures
        holder == texture ==> natural_size(
            completed(c, texture, natural_width, natural_height),
            Some(holder),
        ) == Some((natural_width, natural_height)),
        holder != texture ==> natural_size(
            completed(c, texture, natural_width, natural_height),
            Some(holder),
        ) == natural_size(c, Some(holder)),
{
}

} // verus!
