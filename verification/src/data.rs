//! Sessions, their tracks and their takes.

use crate::timestamp::{ParseError, Timestamp};
use vstd::prelude::*;

verus! {

/// One media file of a session, and the offset that aligns it with the
/// session's timeline.
#[derive(Debug)]
pub struct Track {
    /// The path of the media file.
    pub file: String,
    /// What is added to every take boundary before extracting from this file.
    pub sync_offset: Timestamp,
}

/// What a `Track` holds, as plain values.
pub struct TrackView {
    pub file: Seq<char>,
    pub sync_offset: nat,
}

impl View for Track {
    type V = TrackView;

    open spec fn view(&self) -> TrackView {
        TrackView { file: self.file@, sync_offset: self.sync_offset@ }
    }
}

impl Clone for Track {
    fn clone(&self) -> (copy: Track)
        ensures
            copy@ == self@,
    {
        Track { file: self.file.clone(), sync_offset: self.sync_offset }
    }
}

/// A marked time range on a session's timeline.
#[derive(Debug)]
pub struct Take {
    /// The id of the session that the take belongs to.
    pub session_id: String,
    /// The id of the chunk that was performed.
    pub chunk_id: String,
    /// Where the take starts.
    pub start: Timestamp,
    /// Where the take ends.
    pub end: Timestamp,
    /// The mark that the take was given.
    pub mark: String,
}

/// What a `Take` holds, as plain values.
pub struct TakeView {
    pub session_id: Seq<char>,
    pub chunk_id: Seq<char>,
    pub start: nat,
    pub end: nat,
    pub mark: Seq<char>,
}

impl View for Take {
    type V = TakeView;

    open spec fn view(&self) -> TakeView {
        TakeView {
            session_id: self.session_id@,
            chunk_id: self.chunk_id@,
            start: self.start@,
            end: self.end@,
            mark: self.mark@,
        }
    }
}

impl Clone for Take {
    fn clone(&self) -> (copy: Take)
        ensures
            copy@ == self@,
    {
        Take {
            session_id: self.session_id.clone(),
            chunk_id: self.chunk_id.clone(),
            start: self.start,
            end: self.end,
            mark: self.mark.clone(),
        }
    }
}

/// A recording session: its id and its tracks, the audio master first.
#[derive(Debug)]
pub struct Session {
    /// The key of the session, unique within a run.
    pub session_id: String,
    /// The tracks in the order in which they were attached.
    pub tracks: Vec<Track>,
}

/// What a `Session` holds, as plain values.
pub struct SessionView {
    pub session_id: Seq<char>,
    pub tracks: Seq<TrackView>,
}

/// The views of `tracks`, in order.
pub open spec fn track_views(tracks: Seq<Track>) -> Seq<TrackView> {
    tracks.map_values(|t: Track| t@)
}

/// The views of `takes`, in order.
pub open spec fn take_views(takes: Seq<Take>) -> Seq<TakeView> {
    takes.map_values(|t: Take| t@)
}

impl View for Session {
    type V = SessionView;

    open spec fn view(&self) -> SessionView {
        SessionView { session_id: self.session_id@, tracks: track_views(self.tracks@) }
    }
}

/// Why a session could not be built from its records, or not be registered.
#[derive(Debug, Clone, Copy, PartialEq, Eq, Structural)]
pub enum LoadError {
    /// The session has no metadata record.
    MissingMetadata,
    /// The session has no list of take records.
    MissingTakes,
    /// The path of the session's directory ends in no name to call it by.
    NoSessionName,
    /// The synchronization offset of the metadata record is no timestamp.
    BadSyncOffset(ParseError),
    /// The start of the take record at this position is no timestamp.
    BadTakeStart(usize, ParseError),
    /// The end of the take record at this position is no timestamp.
    BadTakeEnd(usize, ParseError),
    /// The take at this position does not end after it starts.
    EmptyTake(usize),
    /// The take at this position names another session.
    ForeignTake(usize),
}

/// The fault of `take` as the take at position `row` of the session `id`,
/// where it has one: it names another session, or does not end after it
/// starts.
pub open spec fn take_error(take: TakeView, id: Seq<char>, row: int) -> Option<LoadError> {
    if take.session_id != id {
        Some(LoadError::ForeignTake(row as usize))
    } else if take.end <= take.start {
        Some(LoadError::EmptyTake(row as usize))
    } else {
        None
    }
}

/// The fault of the first take at or after `from` that has one.
pub open spec fn first_take_error(takes: Seq<TakeView>, id: Seq<char>, from: int) -> Option<
    LoadError,
>
    decreases takes.len() - from,
{
    if from < 0 || from >= takes.len() {
        None
    } else if take_error(takes[from], id, from) is Some {
        take_error(takes[from], id, from)
    } else {
        first_take_error(takes, id, from + 1)
    }
}

/// Where no take has a fault, every take belongs to the session and ends
/// after it starts.
pub proof fn lemma_no_take_error(takes: Seq<TakeView>, id: Seq<char>, from: int)
    requires
        0 <= from,
        first_take_error(takes, id, from) is None,
    ensures
        forall|k: int|
            from <= k < takes.len() ==> (#[trigger] takes[k]).session_id == id && takes[k].start
                < takes[k].end,
    decreases takes.len() - from,
{
    if from < takes.len() {
        lemma_no_take_error(takes, id, from + 1);
    }
}

/// A source of one session: what can be turned into a `Session` and hand out
/// the session's takes.
pub trait IntoSession {
    /// The session, with the tracks that the source knows of.
    fn into_session(self) -> Session;

    /// The takes of the session, in the order of the source.
    fn takes(&self) -> Vec<Take>;
}

} // verus!
