//! Finding the offset that aligns a track with its session's timeline: the
//! cache of offsets that were found before, and the strategies that find one.

use crate::path::{file_name, file_name_spec};
use crate::text::same_text;
use crate::timestamp::{parse_text, Timestamp};
use vstd::prelude::*;
use vstd::string::*;

verus! {

/// Why no offset was found for a track.
#[derive(Debug, Clone, Copy, PartialEq, Eq, Structural)]
pub enum SyncError {
    /// The path of the track ends in no file name.
    NoFileName,
    /// The track's file could not be opened or probed.
    Unreadable,
    /// The operator can no longer be asked.
    OperatorGone,
    /// The strategy read the file and came to no offset.
    Unresolved,
}

/// A strategy that finds the offset of a media file: what is added to the
/// file's own times so that they align with the session's timeline.
pub trait TrackSync {
    /// The offset of the media file at `path`.
    fn find_sync_offset(&mut self, path: &str) -> Result<Timestamp, SyncError>;
}

/// One offset of the cache: the base name of a track's file, and the offset
/// that was found for it.
#[derive(Debug)]
pub struct CacheEntry {
    name: String,
    offset: Timestamp,
}

/// The offsets that were found for tracks, by the base names of their files.
#[derive(Debug)]
pub struct SyncerCache {
    entries: Vec<CacheEntry>,
    changed: bool,
}

/// The names and offsets of `entries`, in order.
pub closed spec fn entry_views(entries: Seq<CacheEntry>) -> Seq<(Seq<char>, nat)> {
    entries.map_values(|e: CacheEntry| (e.name@, e.offset@))
}

/// The mapping that a list of names and offsets stands for; of two entries
/// with one name the later counts.
pub open spec fn to_map(entries: Seq<(Seq<char>, nat)>) -> Map<Seq<char>, nat>
    decreases entries.len(),
{
    if entries.len() == 0 {
        Map::empty()
    } else {
        to_map(entries.drop_last()).insert(entries.last().0, entries.last().1)
    }
}

/// A name that stands in no entry is no key of the mapping.
pub proof fn lemma_to_map_without(entries: Seq<(Seq<char>, nat)>, name: Seq<char>)
    requires
        forall|k: int| 0 <= k < entries.len() ==> (#[trigger] entries[k]).0 != name,
    ensures
        !to_map(entries).contains_key(name),
    decreases entries.len(),
{
    if entries.len() > 0 {
        let head = entries.drop_last();
        assert forall|k: int| 0 <= k < head.len() implies (#[trigger] head[k]).0 != name by {
            assert(head[k] == entries[k]);
        }
        lemma_to_map_without(head, name);
        assert(entries.last() == entries[entries.len() - 1]);
    }
}

/// The last entry with a name gives the offset that the mapping holds for it.
pub proof fn lemma_to_map_at(entries: Seq<(Seq<char>, nat)>, at: int)
    requires
        0 <= at < entries.len(),
        forall|k: int| at < k < entries.len() ==> (#[trigger] entries[k]).0 != entries[at].0,
    ensures
        to_map(entries).contains_key(entries[at].0),
        to_map(entries)[entries[at].0] == entries[at].1,
    decreases entries.len(),
{
    if at < entries.len() - 1 {
        let head = entries.drop_last();
        assert(head[at] == entries[at]);
        assert forall|k: int| at < k < head.len() implies (#[trigger] head[k]).0
            != head[at].0 by {
            assert(head[k] == entries[k]);
        }
        lemma_to_map_at(head, at);
        assert(entries.last() == entries[entries.len() - 1]);
    }
}

/// Replacing the offset of the last entry with a name stores the new offset
/// under that name.
pub proof fn lemma_to_map_update(entries: Seq<(Seq<char>, nat)>, at: int, offset: nat)
    requires
        0 <= at < entries.len(),
        forall|k: int| at < k < entries.len() ==> (#[trigger] entries[k]).0 != entries[at].0,
    ensures
        to_map(entries.update(at, (entries[at].0, offset))) == to_map(entries).insert(
            entries[at].0,
            offset,
        ),
    decreases entries.len(),
{
    let name = entries[at].0;
    let changed = entries.update(at, (name, offset));
    let head = entries.drop_last();
    if at == entries.len() - 1 {
        assert(changed.drop_last() =~= head);
        assert(to_map(changed) =~= to_map(entries).insert(name, offset));
    } else {
        assert(head[at] == entries[at]);
        assert forall|k: int| at < k < head.len() implies (#[trigger] head[k]).0
            != head[at].0 by {
            assert(head[k] == entries[k]);
        }
        lemma_to_map_update(head, at, offset);
        assert(changed.drop_last() =~= head.update(at, (name, offset)));
        assert(entries.last() == entries[entries.len() - 1]);
        assert(to_map(changed) =~= to_map(entries).insert(name, offset));
    }
}

/// The names and offset texts of `stored`, in order.
pub open spec fn stored_views(stored: Seq<(String, String)>) -> Seq<(Seq<char>, Seq<char>)> {
    stored.map_values(|p: (String, String)| (p.0@, p.1@))
}

/// The mapping that a stored list of names and offset texts stands for, or
/// `None` where one of the texts is no timestamp; of two entries with one
/// name the later counts.
pub open spec fn stored_map(stored: Seq<(Seq<char>, Seq<char>)>) -> Option<Map<Seq<char>, nat>>
    decreases stored.len(),
{
    if stored.len() == 0 {
        Some(Map::empty())
    } else {
        match (stored_map(stored.drop_last()), parse_text(stored.last().1)) {
            (Some(held), Ok(offset)) => Some(held.insert(stored.last().0, offset)),
            _ => None,
        }
    }
}

/// What loading a cache from `stored` gives: the mapping that was stored, or
/// `None` where nothing was stored or what was stored cannot be read.
pub open spec fn load_spec(stored: Option<Seq<(Seq<char>, Seq<char>)>>) -> Option<
    Map<Seq<char>, nat>,
> {
    match stored {
        None => None,
        Some(list) => stored_map(list),
    }
}

/// A stored list with an unreadable part cannot be read as a whole.
pub proof fn lemma_stored_map_prefix(stored: Seq<(Seq<char>, Seq<char>)>, len: int)
    requires
        0 <= len <= stored.len(),
        stored_map(stored.subrange(0, len)) is None,
    ensures
        stored_map(stored) is None,
    decreases stored.len() - len,
{
    if len < stored.len() {
        let next = stored.subrange(0, len + 1);
        assert(next.drop_last() =~= stored.subrange(0, len));
        lemma_stored_map_prefix(stored, len + 1);
    } else {
        assert(stored.subrange(0, len) =~= stored);
    }
}

impl View for SyncerCache {
    type V = Map<Seq<char>, nat>;

    closed spec fn view(&self) -> Map<Seq<char>, nat> {
        to_map(entry_views(self.entries@))
    }
}

impl SyncerCache {
    #[verifier::type_invariant]
    spec fn names_differ(&self) -> bool {
        forall|i: int, j: int|
            0 <= i < j < self.entries.len() ==> (#[trigger] self.entries[i]).name@ != (
            #[trigger] self.entries[j]).name@
    }

    /// Whether the cache was changed since it was made or loaded.
    pub closed spec fn is_changed(&self) -> bool {
        self.changed
    }

    /// A cache that holds no offset and counts as unchanged.
    pub fn new() -> (cache: SyncerCache)
        ensures
            cache@ == Map::<Seq<char>, nat>::empty(),
            !cache.is_changed(),
    {
        SyncerCache { entries: Vec::new(), changed: false }
    }

    /// Whether the cache was changed since it was made or loaded, and so is
    /// to be saved.
    pub fn changed(&self) -> (changed: bool)
        ensures
            changed == self.is_changed(),
    {
        self.changed
    }

    /// The position of the entry with the name `name`.
    fn find(&self, name: &str) -> (found: Option<usize>)
        ensures
            match found {
                Some(at) => at < self.entries.len() && self.entries[at as int].name@ == name@,
                None => forall|k: int|
                    0 <= k < self.entries.len() ==> (#[trigger] self.entries[k]).name@ != name@,
            },
    {
        let mut at: usize = 0;
        while at < self.entries.len()
            invariant
                at <= self.entries.len(),
                forall|k: int| 0 <= k < at ==> (#[trigger] self.entries[k]).name@ != name@,
            decreases self.entries.len() - at,
        {
            if same_text(self.entries[at].name.as_str(), name) {
                return Some(at);
            }
            at = at + 1;
        }
        None
    }

    /// The offset that the cache holds for the file name `file_name`.
    pub fn get(&self, file_name: &str) -> (offset: Option<Timestamp>)
        ensures
            match offset {
                Some(t) => self@.contains_key(file_name@) && self@[file_name@] == t@,
                None => !self@.contains_key(file_name@),
            },
    {
        proof {
            use_type_invariant(self);
        }
        let ghost views = entry_views(self.entries@);
        match self.find(file_name) {
            Some(at) => {
                proof {
                    assert(views[at as int].0 == file_name@);
                    assert forall|k: int| at < k < views.len() implies (#[trigger] views[k]).0
                        != views[at as int].0 by {
                        assert(self.entries[at as int].name@ != self.entries[k].name@);
                    }
                    lemma_to_map_at(views, at as int);
                }
                Some(self.entries[at].offset)
            },
            None => {
                proof {
                    assert forall|k: int| 0 <= k < views.len() implies (#[trigger] views[k]).0
                        != file_name@ by {
                        assert(self.entries[k].name@ != file_name@);
                    }
                    lemma_to_map_without(views, file_name@);
                }
                None
            },
        }
    }

    /// Stores `offset` for the file name `file_name`, in place of what the
    /// cache held for it, and marks the cache as changed.
    pub fn set(&mut self, file_name: &str, offset: Timestamp)
        ensures
            final(self)@ == old(self)@.insert(file_name@, offset@),
            final(self).is_changed(),
    {
        proof {
            use_type_invariant(&*self);
        }
        let ghost views = entry_views(self.entries@);
        let found = self.find(file_name);
        let mut held = SyncerCache::new();
        core::mem::swap(self, &mut held);
        let SyncerCache { entries, changed: _ } = held;
        let mut entries = entries;
        match found {
            Some(at) => {
                proof {
                    assert(views[at as int].0 == file_name@);
                    assert forall|k: int| at < k < views.len() implies (#[trigger] views[k]).0
                        != views[at as int].0 by {
                        assert(entries[at as int].name@ != entries[k].name@);
                    }
                    lemma_to_map_update(views, at as int, offset@);
                }
                entries[at].offset = offset;
                assert(entry_views(entries@) =~= views.update(at as int, (file_name@, offset@)));
            },
            None => {
                entries.push(CacheEntry { name: file_name.to_owned(), offset });
                assert(entry_views(entries@).drop_last() =~= views);
            },
        }
        *self = SyncerCache { entries, changed: true };
    }

    /// Loads the cache from the names and offset texts that were stored;
    /// `None` stands for a store that is missing or could not be read. Where
    /// the store cannot be used the cache is empty and counts as changed, and
    /// the second result is `false`.
    pub fn load(stored: Option<&Vec<(String, String)>>) -> (loaded: (SyncerCache, bool))
        ensures
            match load_spec(stored_option(stored)) {
                Some(held) => loaded.0@ == held && loaded.1 && !loaded.0.is_changed(),
                None => loaded.0@ == Map::<Seq<char>, nat>::empty() && !loaded.1
                    && loaded.0.is_changed(),
            },
    {
        let list = match stored {
            Some(list) => list,
            None => {
                return (SyncerCache { entries: Vec::new(), changed: true }, false);
            },
        };
        let ghost all = stored_views(list@);
        let mut cache = SyncerCache::new();
        let mut i: usize = 0;
        assert(all.subrange(0, 0) =~= Seq::<(Seq<char>, Seq<char>)>::empty());
        while i < list.len()
            invariant
                i <= list.len(),
                stored == Some(list),
                all == stored_views(list@),
                stored_map(all.subrange(0, i as int)) == Some(cache@),
            decreases list.len() - i,
        {
            let ghost next = all.subrange(0, i + 1);
            assert(next.drop_last() =~= all.subrange(0, i as int));
            assert(next.last() == (list[i as int].0@, list[i as int].1@));
            match Timestamp::parse(list[i].1.as_str()) {
                Ok(offset) => {
                    cache.set(list[i].0.as_str(), offset);
                },
                Err(_) => {
                    proof {
                        lemma_stored_map_prefix(all, i + 1);
                    }
                    return (SyncerCache { entries: Vec::new(), changed: true }, false);
                },
            }
            i = i + 1;
        }
        assert(all.subrange(0, i as int) =~= all);
        proof {
            use_type_invariant(&cache);
        }
        let SyncerCache { entries, changed: _ } = cache;
        (SyncerCache { entries, changed: false }, true)
    }

    /// The names and offset texts to store, from which `load` gives this
    /// cache back.
    pub fn entries(&self) -> (stored: Vec<(String, String)>)
        ensures
            load_spec(Some(stored_views(stored@))) == Some(self@),
            forall|i: int, j: int|
                0 <= i < j < stored.len() ==> (#[trigger] stored[i]).0@ != (#[trigger] stored[j]).0@,
    {
        proof {
            use_type_invariant(self);
        }
        let ghost views = entry_views(self.entries@);
        let mut stored: Vec<(String, String)> = Vec::new();
        let mut i: usize = 0;
        assert(views.subrange(0, 0) =~= Seq::<(Seq<char>, nat)>::empty());
        while i < self.entries.len()
            invariant
                i <= self.entries.len(),
                views == entry_views(self.entries@),
                stored.len() == i,
                forall|k: int| 0 <= k < i ==> (#[trigger] stored[k]).0@ == self.entries[k].name@,
                stored_map(stored_views(stored@)) == Some(to_map(views.subrange(0, i as int))),
            decreases self.entries.len() - i,
        {
            let ghost before = stored_views(stored@);
            let entry = &self.entries[i];
            stored.push((entry.name.clone(), entry.offset.format()));
            proof {
                let after = stored_views(stored@);
                assert(after.drop_last() =~= before);
                assert(after.last() == (entry.name@, after.last().1));
                let next = views.subrange(0, i + 1);
                assert(next.drop_last() =~= views.subrange(0, i as int));
                assert(next.last() == (entry.name@, entry.offset@));
            }
            i = i + 1;
        }
        assert(views.subrange(0, i as int) =~= views);
        stored
    }

    /// Takes in what a strategy found for the file name `file_name`: an offset
    /// is stored in the cache and handed on, a failure is handed on and
    /// leaves the cache as it is.
    pub fn resolve(&mut self, file_name: &str, found: Result<Timestamp, SyncError>) -> (result:
        Result<Timestamp, SyncError>)
        ensures
            result == found,
            match found {
                Ok(offset) => final(self)@ == old(self)@.insert(file_name@, offset@) && final(self).is_changed(),
                Err(_) => final(self)@ == old(self)@ && final(self).is_changed() == old(self).is_changed(),
            },
    {
        match found {
            Ok(offset) => {
                self.set(file_name, offset);
                Ok(offset)
            },
            Err(e) => Err(e),
        }
    }
}

/// The views of the names and offset texts that were stored.
pub open spec fn stored_option(stored: Option<&Vec<(String, String)>>) -> Option<
    Seq<(Seq<char>, Seq<char>)>,
> {
    match stored {
        Some(list) => Some(stored_views(list@)),
        None => None,
    }
}

/// The cache-backed strategy: it answers from the cache where the cache holds
/// the file's base name, and asks another strategy where it does not.
pub struct CachedSyncer<F: TrackSync> {
    cache: SyncerCache,
    fallback: F,
}

impl<F: TrackSync> CachedSyncer<F> {
    /// The offsets that the cache holds.
    pub closed spec fn held(&self) -> Map<Seq<char>, nat> {
        self.cache@
    }

    /// Whether the cache was changed since it was made or loaded.
    pub closed spec fn is_changed(&self) -> bool {
        self.cache.is_changed()
    }

    /// The strategy that is asked on a miss, as it stands.
    pub closed spec fn inner(&self) -> F {
        self.fallback
    }

    /// The strategy that answers from `cache` and asks `fallback` on a miss.
    pub fn new(cache: SyncerCache, fallback: F) -> (syncer: CachedSyncer<F>)
        ensures
            syncer.held() == cache@,
            syncer.is_changed() == cache.is_changed(),
            syncer.inner() == fallback,
    {
        CachedSyncer { cache, fallback }
    }

    /// The cache as it stands.
    pub fn cache(&self) -> (cache: &SyncerCache)
        ensures
            cache@ == self.held(),
            cache.is_changed() == self.is_changed(),
    {
        &self.cache
    }

    /// The strategy that is asked on a miss.
    pub fn fallback(&self) -> (fallback: &F)
        ensures
            *fallback == self.inner(),
    {
        &self.fallback
    }

    /// Gives the cache back, to be saved.
    pub fn into_cache(self) -> (cache: SyncerCache)
        ensures
            cache@ == self.held(),
            cache.is_changed() == self.is_changed(),
    {
        self.cache
    }
}

impl<F: TrackSync> TrackSync for CachedSyncer<F> {
    /// The offset of the media file at `path`: from the cache where it holds
    /// the file's base name, and then the other strategy is left as it is;
    /// else the other strategy is asked once, about `path`, and what it
    /// answers is handed on, an offset after it was stored in the cache.
    fn find_sync_offset(&mut self, path: &str) -> (result: Result<Timestamp, SyncError>)
        ensures
            match file_name_spec(path@) {
                None => {
                    &&& result == Err::<Timestamp, SyncError>(SyncError::NoFileName)
                    &&& final(self).held() == old(self).held()
                    &&& final(self).is_changed() == old(self).is_changed()
                    &&& final(self).inner() == old(self).inner()
                },
                Some(name) => if old(self).held().contains_key(name) {
                    &&& result matches Ok(offset) && offset@ == old(self).held()[name]
                    &&& final(self).held() == old(self).held()
                    &&& final(self).is_changed() == old(self).is_changed()
                    &&& final(self).inner() == old(self).inner()
                } else {
                    &&& exists|inner: &mut F|
                        #[trigger] call_ensures(F::find_sync_offset, (inner, path), result)
                            && mut_ref_current(inner) == old(self).inner() && mut_ref_future(
                            inner,
                        ) == final(self).inner()
                    &&& match result {
                        Ok(offset) => final(self).held() == old(self).held().insert(
                            name,
                            offset@,
                        ) && final(self).is_changed(),
                        Err(_) => final(self).held() == old(self).held() && final(
                            self).is_changed() == old(self).is_changed(),
                    }
                },
            },
    {
        let name = match file_name(path) {
            Some(name) => name,
            None => {
                return Err(SyncError::NoFileName);
            },
        };
        match self.cache.get(name.as_str()) {
            Some(offset) => Ok(offset),
            None => {
                let found = self.fallback.find_sync_offset(path);
                self.cache.resolve(name.as_str(), found)
            },
        }
    }
}

/// The interactive strategy: the operator is asked for the offset, and asked
/// again as long as the answer is no timestamp.
#[derive(Debug, Clone, Copy, PartialEq, Eq, Structural)]
pub struct AskUserSyncer;

/// What the interactive strategy does next.
#[derive(Debug, Clone, Copy, PartialEq, Eq, Structural)]
pub enum AskStep {
    /// The answer was a timestamp: this is the offset.
    Resolved(Timestamp),
    /// The answer was no timestamp: the operator is asked again.
    AskAgain,
    /// No answer can be had: the strategy fails.
    Failed(SyncError),
}

/// The text that asks the operator for the offset of a file, where `shown`
/// is the file's path as it is to be shown.
pub open spec fn prompt_text_spec(shown: Seq<char>) -> Seq<char> {
    "Enter sync timestamp for "@ + shown + ": [ format: HH:MM:SS.mmm eg. 01:02:03.123 ]"@
}

impl AskUserSyncer {
    /// The interactive strategy.
    pub fn new() -> (syncer: AskUserSyncer) {
        AskUserSyncer
    }

    /// The text that asks the operator for the offset of a file, where
    /// `shown` is the file's path as it is to be shown, quoted and escaped by
    /// the caller.
    pub fn prompt_text(&self, shown: &str) -> (text: String)
        ensures
            text@ == prompt_text_spec(shown@),
    {
        let mut text = "Enter sync timestamp for ".to_owned();
        text.append(shown);
        text.append(": [ format: HH:MM:SS.mmm eg. 01:02:03.123 ]");
        text
    }

    /// What follows the operator's `answer`, where `None` stands for an
    /// operator who can no longer be asked: an answer that is a timestamp
    /// resolves the offset, any other is asked for again.
    pub fn on_answer(&self, answer: Option<&str>) -> (step: AskStep)
        ensures
            match answer {
                None => step == AskStep::Failed(SyncError::OperatorGone),
                Some(text) => match parse_text(text@) {
                    Ok(millis) => step matches AskStep::Resolved(offset) && offset@ == millis,
                    Err(_) => step == AskStep::AskAgain,
                },
            },
    {
        match answer {
            None => AskStep::Failed(SyncError::OperatorGone),
            Some(text) => match Timestamp::parse(text) {
                Ok(offset) => AskStep::Resolved(offset),
                Err(_) => AskStep::AskAgain,
            },
        }
    }
}

/// An offset that was found on a miss and stored is found again by a cache
/// that is loaded from what was stored: `stored` stands for the names and
/// texts that went to the store after `offset` was set for `name`.
pub proof fn lemma_stored_offset_is_found(
    stored: Seq<(Seq<char>, Seq<char>)>,
    held: Map<Seq<char>, nat>,
    name: Seq<char>,
    offset: nat,
)
    requires
        load_spec(Some(stored)) == Some(held.insert(name, offset)),
    ensures
        load_spec(Some(stored)) is Some,
        load_spec(Some(stored))->Some_0.contains_key(name),
        load_spec(Some(stored))->Some_0[name] == offset,
{
}

/// What the reader or the decoder of a media file reported.
#[derive(Debug, Clone, Copy, PartialEq, Eq, Structural)]
pub enum DecodeEvent {
    /// The reader gave a packet of the track with this id.
    Packet(u32),
    /// The reader asks to be reset before it goes on.
    ResetRequired,
    /// The reader came to the end of the stream.
    EndOfStream,
    /// The reader failed for any other reason.
    ReadFailed,
    /// The decoder took the packet.
    Decoded,
    /// The decoder could not read what the packet needs.
    DecodeIoError,
    /// The packet is malformed.
    Malformed,
    /// The decoder failed for any other reason.
    DecodeFailed,
}

/// What the content strategy does next.
#[derive(Debug, Clone, Copy, PartialEq, Eq, Structural)]
pub enum DecodeStep {
    /// The next packet is read.
    ReadNext,
    /// The packet that was read is decoded.
    Decode,
    /// The strategy fails.
    Fail(SyncError),
}

/// The id of the first track at or after `from` that has a codec, where
/// `tracks` holds for each track its id and whether it has one.
pub open spec fn first_decodable(tracks: Seq<(u32, bool)>, from: int) -> Option<u32>
    decreases tracks.len() - from,
{
    if from < 0 || from >= tracks.len() {
        None
    } else if tracks[from].1 {
        Some(tracks[from].0)
    } else {
        first_decodable(tracks, from + 1)
    }
}

/// What follows `event` while the track with the id `track_id` is decoded: a
/// packet of that track is decoded and any other passed over; a packet that
/// cannot be decoded is passed over; the end of the stream ends the strategy
/// with no offset found, and any other failure with the file unreadable.
pub open spec fn decode_step(track_id: u32, event: DecodeEvent) -> DecodeStep {
    match event {
        DecodeEvent::Packet(id) => if id == track_id {
            DecodeStep::Decode
        } else {
            DecodeStep::ReadNext
        },
        DecodeEvent::ResetRequired => DecodeStep::ReadNext,
        DecodeEvent::EndOfStream => DecodeStep::Fail(SyncError::Unresolved),
        DecodeEvent::ReadFailed => DecodeStep::Fail(SyncError::Unreadable),
        DecodeEvent::Decoded => DecodeStep::ReadNext,
        DecodeEvent::DecodeIoError => DecodeStep::ReadNext,
        DecodeEvent::Malformed => DecodeStep::ReadNext,
        DecodeEvent::DecodeFailed => DecodeStep::Fail(SyncError::Unreadable),
    }
}

/// The content strategy: the audio of the media file is decoded packet by
/// packet. It decides which track is decoded and what follows each report of
/// the reader and the decoder; as it stands it comes to no offset.
#[derive(Debug, Clone, Copy, PartialEq, Eq, Structural)]
pub struct FileTrackSyncer;

impl FileTrackSyncer {
    /// The content strategy.
    pub fn new() -> (syncer: FileTrackSyncer) {
        FileTrackSyncer
    }

    /// The id of the track to decode: the first that has a codec, where
    /// `tracks` holds for each track its id and whether it has one.
    pub fn select_track(&self, tracks: &Vec<(u32, bool)>) -> (id: Option<u32>)
        ensures
            id == first_decodable(tracks@, 0),
    {
        let mut at: usize = 0;
        while at < tracks.len()
            invariant
                at <= tracks.len(),
                first_decodable(tracks@, 0) == first_decodable(tracks@, at as int),
            decreases tracks.len() - at,
        {
            if tracks[at].1 {
                return Some(tracks[at].0);
            }
            at = at + 1;
        }
        None
    }

    /// What follows `event` while the track with the id `track_id` is decoded.
    pub fn on_event(&self, track_id: u32, event: DecodeEvent) -> (step: DecodeStep)
        ensures
            step == decode_step(track_id, event),
    {
        match event {
            DecodeEvent::Packet(id) => {
                if id == track_id {
                    DecodeStep::Decode
                } else {
                    DecodeStep::ReadNext
                }
            },
            DecodeEvent::ResetRequired => DecodeStep::ReadNext,
            DecodeEvent::EndOfStream => DecodeStep::Fail(SyncError::Unresolved),
            DecodeEvent::ReadFailed => DecodeStep::Fail(SyncError::Unreadable),
            DecodeEvent::Decoded => DecodeStep::ReadNext,
            DecodeEvent::DecodeIoError => DecodeStep::ReadNext,
            DecodeEvent::Malformed => DecodeStep::ReadNext,
            DecodeEvent::DecodeFailed => DecodeStep::Fail(SyncError::Unreadable),
        }
    }
}

} // verus!
