//! Recording sessions as a teleprompter studio writes them: one metadata
//! record and one list of take records for each session directory.

use crate::data::{
    take_views, IntoSession, LoadError, Session, SessionView, Take, TakeView, Track, TrackView,
};
use crate::path::{file_name, file_name_spec, join, join_spec};
use crate::text::{append_decimal, decimal};
use crate::timestamp::{parse_text, Timestamp};
use vstd::prelude::*;
use vstd::string::*;

verus! {

/// The name of a session's audio file inside its directory.
pub const AUDIO_WAV: &'static str = "audio.wav";

/// The name of the file that holds a session's take records.
pub const TAKES_CSV: &'static str = "takes.csv";

/// The name of the file that holds a session's metadata record.
pub const META_JSON: &'static str = "metadata.json";

/// The metadata record of a session, with its fields as text.
#[derive(Debug)]
pub struct MetaRecord {
    /// The offset of the session's audio, as `HH:MM:SS.mmm`.
    pub sync_offset: String,
}

/// One take record of a session, with its timestamps as text.
#[derive(Debug)]
pub struct TakeRecord {
    pub header: String,
    pub chunk_index: usize,
    pub chunk_text: String,
    pub take_index: usize,
    pub take_mark: String,
    /// The start of the take, as `HH:MM:SS.mmm`.
    pub take_start: String,
    /// The end of the take, as `HH:MM:SS.mmm`.
    pub take_end: String,
}

/// What a `TakeRecord` holds, as plain values.
pub struct TakeRecordView {
    pub header: Seq<char>,
    pub chunk_index: nat,
    pub chunk_text: Seq<char>,
    pub take_index: nat,
    pub take_mark: Seq<char>,
    pub take_start: Seq<char>,
    pub take_end: Seq<char>,
}

impl View for TakeRecord {
    type V = TakeRecordView;

    open spec fn view(&self) -> TakeRecordView {
        TakeRecordView {
            header: self.header@,
            chunk_index: self.chunk_index as nat,
            chunk_text: self.chunk_text@,
            take_index: self.take_index as nat,
            take_mark: self.take_mark@,
            take_start: self.take_start@,
            take_end: self.take_end@,
        }
    }
}

/// The views of `records`, in order.
pub open spec fn record_views(records: Seq<TakeRecord>) -> Seq<TakeRecordView> {
    records.map_values(|r: TakeRecord| r@)
}

/// The metadata of a session.
#[derive(Debug)]
pub struct SessionMeta {
    sync_offset: Timestamp,
}

impl View for SessionMeta {
    type V = nat;

    closed spec fn view(&self) -> nat {
        self.sync_offset@
    }
}

/// What reading the metadata record with the offset text `sync_offset` gives:
/// the offset in milliseconds, or the reason why it is no timestamp.
pub open spec fn meta_spec(sync_offset: Seq<char>) -> Result<nat, LoadError> {
    match parse_text(sync_offset) {
        Ok(offset) => Ok(offset),
        Err(e) => Err(LoadError::BadSyncOffset(e)),
    }
}

impl SessionMeta {
    /// Reads the metadata of a session from its record.
    pub fn from_record(record: &MetaRecord) -> (result: Result<SessionMeta, LoadError>)
        ensures
            match result {
                Ok(meta) => meta_spec(record.sync_offset@) == Ok::<nat, LoadError>(meta@),
                Err(e) => meta_spec(record.sync_offset@) == Err::<nat, LoadError>(e),
            },
    {
        match Timestamp::parse(record.sync_offset.as_str()) {
            Ok(sync_offset) => Ok(SessionMeta { sync_offset }),
            Err(e) => Err(LoadError::BadSyncOffset(e)),
        }
    }

    /// The offset of the session's audio.
    pub fn sync_offset(&self) -> (offset: Timestamp)
        ensures
            offset@ == self@,
    {
        self.sync_offset
    }
}

/// One take of a session: a take record whose timestamps were read, and which
/// ends after it starts.
#[derive(Debug)]
pub struct SessionTake {
    header: String,
    chunk_index: usize,
    chunk_text: String,
    take_index: usize,
    take_mark: String,
    take_start: Timestamp,
    take_end: Timestamp,
}

/// What a `SessionTake` holds, as plain values.
pub struct SessionTakeView {
    pub header: Seq<char>,
    pub chunk_index: nat,
    pub chunk_text: Seq<char>,
    pub take_index: nat,
    pub take_mark: Seq<char>,
    pub take_start: nat,
    pub take_end: nat,
}

impl View for SessionTake {
    type V = SessionTakeView;

    closed spec fn view(&self) -> SessionTakeView {
        SessionTakeView {
            header: self.header@,
            chunk_index: self.chunk_index as nat,
            chunk_text: self.chunk_text@,
            take_index: self.take_index as nat,
            take_mark: self.take_mark@,
            take_start: self.take_start@,
            take_end: self.take_end@,
        }
    }
}

/// The views of `takes`, in order.
pub open spec fn session_take_views(takes: Seq<SessionTake>) -> Seq<SessionTakeView> {
    takes.map_values(|t: SessionTake| t@)
}

/// What reading the take record at position `row` gives: the take, or the
/// first fault of the record. The start is read before the end, and a take
/// that does not end after it starts is refused.
pub open spec fn take_spec(record: TakeRecordView, row: int) -> Result<SessionTakeView, LoadError> {
    match parse_text(record.take_start) {
        Err(e) => Err(LoadError::BadTakeStart(row as usize, e)),
        Ok(start) => match parse_text(record.take_end) {
            Err(e) => Err(LoadError::BadTakeEnd(row as usize, e)),
            Ok(end) => {
                if end <= start {
                    Err(LoadError::EmptyTake(row as usize))
                } else {
                    Ok(
                        SessionTakeView {
                            header: record.header,
                            chunk_index: record.chunk_index,
                            chunk_text: record.chunk_text,
                            take_index: record.take_index,
                            take_mark: record.take_mark,
                            take_start: start,
                            take_end: end,
                        },
                    )
                }
            },
        },
    }
}

/// The name of the video slice of a take: `chunk-`, the chunk's index,
/// `-take-`, the take's index, `-`, the mark, and `.mp4`.
pub open spec fn slice_name(take: SessionTakeView) -> Seq<char> {
    "chunk-"@ + decimal(take.chunk_index) + "-take-"@ + decimal(take.take_index) + "-"@
        + take.take_mark + ".mp4"@
}

impl SessionTake {
    #[verifier::type_invariant]
    spec fn ends_after_start(&self) -> bool {
        self.take_start@ < self.take_end@
    }

    /// Reads one take from the record at position `row` of its list.
    pub fn from_record(record: &TakeRecord, row: usize) -> (result: Result<SessionTake, LoadError>)
        ensures
            match result {
                Ok(take) => take_spec(record@, row as int) == Ok::<SessionTakeView, LoadError>(
                    take@,
                ),
                Err(e) => take_spec(record@, row as int) == Err::<SessionTakeView, LoadError>(e),
            },
    {
        let take_start = match Timestamp::parse(record.take_start.as_str()) {
            Ok(start) => start,
            Err(e) => {
                return Err(LoadError::BadTakeStart(row, e));
            },
        };
        let take_end = match Timestamp::parse(record.take_end.as_str()) {
            Ok(end) => end,
            Err(e) => {
                return Err(LoadError::BadTakeEnd(row, e));
            },
        };
        if take_end.as_millis() <= take_start.as_millis() {
            return Err(LoadError::EmptyTake(row));
        }
        Ok(
            SessionTake {
                header: record.header.clone(),
                chunk_index: record.chunk_index,
                chunk_text: record.chunk_text.clone(),
                take_index: record.take_index,
                take_mark: record.take_mark.clone(),
                take_start,
                take_end,
            },
        )
    }

    /// Where the take starts.
    pub fn start(&self) -> (start: Timestamp)
        ensures
            start@ == self@.take_start,
            self@.take_start < self@.take_end,
    {
        proof {
            use_type_invariant(self);
        }
        self.take_start
    }

    /// Where the take ends.
    pub fn end(&self) -> (end: Timestamp)
        ensures
            end@ == self@.take_end,
            self@.take_start < self@.take_end,
    {
        proof {
            use_type_invariant(self);
        }
        self.take_end
    }

    /// How long the take lasts, in milliseconds.
    pub fn duration(&self) -> (millis: u64)
        ensures
            millis == self@.take_end - self@.take_start,
            millis > 0,
    {
        proof {
            use_type_invariant(self);
        }
        self.take_end.as_millis() - self.take_start.as_millis()
    }

    /// The mark that the take was given.
    pub fn mark(&self) -> (mark: &str)
        ensures
            mark@ == self@.take_mark,
    {
        self.take_mark.as_str()
    }

    /// The index of the chunk that was performed.
    pub fn chunk_index(&self) -> (index: usize)
        ensures
            index == self@.chunk_index,
    {
        self.chunk_index
    }

    /// The name of the video slice of the take.
    pub fn out_slice_file_name(&self) -> (name: String)
        ensures
            name@ == slice_name(self@),
    {
        let mut name = "chunk-".to_owned();
        append_decimal(&mut name, self.chunk_index as u64);
        name.append("-take-");
        append_decimal(&mut name, self.take_index as u64);
        name.append("-");
        name.append(self.take_mark.as_str());
        name.append(".mp4");
        name
    }
}

/// The fault of the first record at or after `from` that has one.
pub open spec fn first_record_error(records: Seq<TakeRecordView>, from: int) -> Option<LoadError>
    decreases records.len() - from,
{
    if from < 0 || from >= records.len() {
        None
    } else {
        match take_spec(records[from], from) {
            Err(e) => Some(e),
            Ok(_) => first_record_error(records, from + 1),
        }
    }
}

/// What reading a list of take records gives: the takes in the order of the
/// records, or the fault of the first record that has one.
pub open spec fn takes_spec(records: Seq<TakeRecordView>) -> Result<Seq<SessionTakeView>, LoadError> {
    match first_record_error(records, 0) {
        Some(e) => Err(e),
        None => Ok(Seq::new(records.len(), |i: int| take_spec(records[i], i)->Ok_0)),
    }
}

/// The takes of a session, in the order of their records.
#[derive(Debug)]
pub struct SessionTakes {
    takes: Vec<SessionTake>,
}

impl View for SessionTakes {
    type V = Seq<SessionTakeView>;

    closed spec fn view(&self) -> Seq<SessionTakeView> {
        session_take_views(self.takes@)
    }
}

impl SessionTakes {
    /// Reads the takes of a session from its take records. The first record
    /// with a fault ends the reading.
    pub fn from_records(records: &Vec<TakeRecord>) -> (result: Result<SessionTakes, LoadError>)
        ensures
            match result {
                Ok(takes) => takes_spec(record_views(records@)) == Ok::<
                    Seq<SessionTakeView>,
                    LoadError,
                >(takes@),
                Err(e) => takes_spec(record_views(records@)) == Err::<
                    Seq<SessionTakeView>,
                    LoadError,
                >(e),
            },
    {
        let ghost all = record_views(records@);
        let mut takes: Vec<SessionTake> = Vec::new();
        let mut row: usize = 0;
        while row < records.len()
            invariant
                row <= records.len(),
                all == record_views(records@),
                takes.len() == row,
                first_record_error(all, 0) == first_record_error(all, row as int),
                forall|k: int|
                    0 <= k < row ==> take_spec(all[k], k) == Ok::<SessionTakeView, LoadError>(
                        (#[trigger] takes[k])@,
                    ),
            decreases records.len() - row,
        {
            match SessionTake::from_record(&records[row], row) {
                Ok(take) => {
                    takes.push(take);
                },
                Err(e) => {
                    return Err(e);
                },
            }
            row = row + 1;
        }
        assert(session_take_views(takes@) =~= Seq::new(
            all.len(),
            |i: int| take_spec(all[i], i)->Ok_0,
        ));
        Ok(SessionTakes { takes })
    }

    /// The takes, in the order of their records.
    pub fn takes(&self) -> (takes: &[SessionTake])
        ensures
            session_take_views(takes@) == self@,
    {
        self.takes.as_slice()
    }
}

/// A session directory that was read: its metadata, its takes, and the path
/// of the directory, whose last component names the session.
#[derive(Debug)]
pub struct TelepromptStudioSession {
    meta: SessionMeta,
    takes: SessionTakes,
    path: String,
    name: String,
}

/// What a `TelepromptStudioSession` holds, as plain values.
pub struct StudioSessionView {
    pub sync_offset: nat,
    pub takes: Seq<SessionTakeView>,
    pub path: Seq<char>,
}

impl View for TelepromptStudioSession {
    type V = StudioSessionView;

    closed spec fn view(&self) -> StudioSessionView {
        StudioSessionView { sync_offset: self.meta@, takes: self.takes@, path: self.path@ }
    }
}

/// What reading the session directory at `path` gives, from the offset text
/// of its metadata record and from its take records, where each was found:
/// the session, or the first fault. The metadata come before the take
/// records, and these before the name of the directory.
pub open spec fn load_spec(
    path: Seq<char>,
    meta: Option<Seq<char>>,
    takes: Option<Seq<TakeRecordView>>,
) -> Result<StudioSessionView, LoadError> {
    match meta {
        None => Err(LoadError::MissingMetadata),
        Some(sync_offset) => match meta_spec(sync_offset) {
            Err(e) => Err(e),
            Ok(offset) => match takes {
                None => Err(LoadError::MissingTakes),
                Some(records) => match takes_spec(records) {
                    Err(e) => Err(e),
                    Ok(read) => {
                        if file_name_spec(path) is None {
                            Err(LoadError::NoSessionName)
                        } else {
                            Ok(StudioSessionView { sync_offset: offset, takes: read, path })
                        }
                    },
                },
            },
        },
    }
}

/// The id of the session whose directory is at `path`: the directory's name.
pub open spec fn session_id_spec(path: Seq<char>) -> Seq<char> {
    file_name_spec(path)->Some_0
}

/// The take of the session `id` that `take` stands for: the chunk's id is the
/// decimal numeral of the chunk's index.
pub open spec fn take_of(id: Seq<char>, take: SessionTakeView) -> TakeView {
    TakeView {
        session_id: id,
        chunk_id: decimal(take.chunk_index),
        start: take.take_start,
        end: take.take_end,
        mark: take.take_mark,
    }
}

/// The takes of a session that was read, as the registry holds them.
pub open spec fn studio_takes(v: StudioSessionView) -> Seq<TakeView> {
    v.takes.map_values(|t: SessionTakeView| take_of(session_id_spec(v.path), t))
}

/// The audio track of a session that was read: the audio file inside the
/// session's directory, with the offset of the metadata.
pub open spec fn studio_track(v: StudioSessionView) -> TrackView {
    TrackView { file: join_spec(v.path, AUDIO_WAV@), sync_offset: v.sync_offset }
}

/// The session that was read, as the registry holds it: its id and its audio
/// track.
pub open spec fn studio_session(v: StudioSessionView) -> SessionView {
    SessionView { session_id: session_id_spec(v.path), tracks: seq![studio_track(v)] }
}

impl TelepromptStudioSession {
    #[verifier::type_invariant]
    spec fn named_by_path(&self) -> bool {
        file_name_spec(self.path@) == Some(self.name@)
    }

    /// Builds the session of the directory at `path` from its metadata record
    /// and its take records; `None` stands for a record source that is
    /// missing or could not be read.
    pub fn from_path(path: &str, meta: Option<&MetaRecord>, takes: Option<&Vec<TakeRecord>>) -> (result:
        Result<TelepromptStudioSession, LoadError>)
        ensures
            match result {
                Ok(session) => load_spec(path@, meta_text(meta), takes_records(takes)) == Ok::<
                    StudioSessionView,
                    LoadError,
                >(session@),
                Err(e) => load_spec(path@, meta_text(meta), takes_records(takes)) == Err::<
                    StudioSessionView,
                    LoadError,
                >(e),
            },
    {
        let meta = match meta {
            None => {
                return Err(LoadError::MissingMetadata);
            },
            Some(record) => match SessionMeta::from_record(record) {
                Ok(meta) => meta,
                Err(e) => {
                    return Err(e);
                },
            },
        };
        let takes = match takes {
            None => {
                return Err(LoadError::MissingTakes);
            },
            Some(records) => match SessionTakes::from_records(records) {
                Ok(takes) => takes,
                Err(e) => {
                    return Err(e);
                },
            },
        };
        match file_name(path) {
            None => Err(LoadError::NoSessionName),
            Some(name) => Ok(TelepromptStudioSession { meta, takes, path: path.to_owned(), name }),
        }
    }

    /// The id of the session: the name of its directory.
    pub fn get_session_id(&self) -> (id: String)
        ensures
            id@ == session_id_spec(self@.path),
            file_name_spec(self@.path) is Some,
    {
        proof {
            use_type_invariant(self);
        }
        self.name.clone()
    }

    /// The takes of the session, as the registry holds them.
    pub fn takes(&self) -> (takes: Vec<Take>)
        ensures
            take_views(takes@) == studio_takes(self@),
    {
        let mut takes: Vec<Take> = Vec::new();
        let read = self.takes.takes();
        let mut i: usize = 0;
        while i < read.len()
            invariant
                i <= read.len(),
                session_take_views(read@) == self@.takes,
                takes.len() == i,
                forall|k: int|
                    0 <= k < i ==> (#[trigger] takes[k])@ == take_of(
                        session_id_spec(self@.path),
                        self@.takes[k],
                    ),
            decreases read.len() - i,
        {
            let take = &read[i];
            assert(self@.takes[i as int] == take@);
            let mut chunk_id = String::new();
            append_decimal(&mut chunk_id, take.chunk_index() as u64);
            assert(chunk_id@ =~= decimal(take@.chunk_index));
            takes.push(
                Take {
                    session_id: self.get_session_id(),
                    chunk_id,
                    start: take.start(),
                    end: take.end(),
                    mark: take.mark().to_owned(),
                },
            );
            i = i + 1;
        }
        assert(take_views(takes@) =~= studio_takes(self@));
        takes
    }

    /// The audio track of the session.
    pub fn track(&self) -> (track: Track)
        ensures
            track@ == studio_track(self@),
    {
        Track { file: join(self.path.as_str(), AUDIO_WAV), sync_offset: self.meta.sync_offset() }
    }
}

/// The offset text of a metadata record that was found.
pub open spec fn meta_text(meta: Option<&MetaRecord>) -> Option<Seq<char>> {
    match meta {
        Some(record) => Some(record.sync_offset@),
        None => None,
    }
}

/// The views of the take records that were found.
pub open spec fn takes_records(takes: Option<&Vec<TakeRecord>>) -> Option<Seq<TakeRecordView>> {
    match takes {
        Some(records) => Some(record_views(records@)),
        None => None,
    }
}

impl IntoSession for TelepromptStudioSession {
    /// The session as the registry holds it: its id and its audio track.
    fn into_session(self) -> (session: Session)
        ensures
            session@ == studio_session(self@),
    {
        let mut tracks: Vec<Track> = Vec::new();
        tracks.push(self.track());
        let session = Session { session_id: self.get_session_id(), tracks };
        assert(session@.tracks =~= seq![studio_track(self@)]);
        session
    }

    /// The takes of the session, as the registry holds them.
    fn takes(&self) -> (takes: Vec<Take>)
        ensures
            take_views(takes@) == studio_takes(self@),
    {
        TelepromptStudioSession::takes(self)
    }
}

} // verus!
