use take_slicer::data::{IntoSession, LoadError};
use take_slicer::session::{
    MetaRecord, SessionMeta, SessionTake, SessionTakes, TakeRecord, TelepromptStudioSession,
    AUDIO_WAV, META_JSON, TAKES_CSV,
};
use take_slicer::slicer::Slicer;
use take_slicer::timestamp::{ParseError, Timestamp};

fn record(chunk: usize, take: usize, mark: &str, start: &str, end: &str) -> TakeRecord {
    TakeRecord {
        header: "Intro".to_string(),
        chunk_index: chunk,
        chunk_text: "Hello there".to_string(),
        take_index: take,
        take_mark: mark.to_string(),
        take_start: start.to_string(),
        take_end: end.to_string(),
    }
}

fn meta(offset: &str) -> MetaRecord {
    MetaRecord { sync_offset: offset.to_string() }
}

#[test]
fn the_files_of_a_session_have_fixed_names() {
    assert_eq!(AUDIO_WAV, "audio.wav");
    assert_eq!(TAKES_CSV, "takes.csv");
    assert_eq!(META_JSON, "metadata.json");
}

#[test]
fn session_meta_reads_the_offset() {
    let read = SessionMeta::from_record(&meta("00:00:01.500")).unwrap();
    assert_eq!(read.sync_offset(), Timestamp::from_millis(1_500));
}

#[test]
fn session_meta_refuses_a_bad_offset() {
    assert_eq!(
        SessionMeta::from_record(&meta("1.5s")).unwrap_err(),
        LoadError::BadSyncOffset(ParseError::Hours)
    );
    assert_eq!(
        SessionMeta::from_record(&meta("00:00:01")).unwrap_err(),
        LoadError::BadSyncOffset(ParseError::Millis)
    );
}

#[test]
fn session_take_reads_a_record() {
    let take = SessionTake::from_record(&record(3, 2, "A", "00:00:10.000", "00:00:12.500"), 0).unwrap();
    assert_eq!(take.start(), Timestamp::from_millis(10_000));
    assert_eq!(take.end(), Timestamp::from_millis(12_500));
    assert_eq!(take.duration(), 2_500);
    assert_eq!(take.mark(), "A");
    assert_eq!(take.chunk_index(), 3);
    assert_eq!(take.out_slice_file_name(), "chunk-3-take-2-A.mp4");
}

#[test]
fn session_take_names_its_slice_by_chunk_take_and_mark() {
    let take = SessionTake::from_record(&record(12, 10, "good", "00:00:00.000", "00:00:00.001"), 0).unwrap();
    assert_eq!(take.out_slice_file_name(), "chunk-12-take-10-good.mp4");
    assert_eq!(take.duration(), 1);
}

#[test]
fn session_take_refuses_bad_timestamps() {
    assert_eq!(
        SessionTake::from_record(&record(1, 0, "A", "0:00:10.000", "xx"), 4).unwrap_err(),
        LoadError::BadTakeStart(4, ParseError::Hours)
    );
    assert_eq!(
        SessionTake::from_record(&record(1, 0, "A", "00:00:10.000", "00:61:00.000"), 5).unwrap_err(),
        LoadError::BadTakeEnd(5, ParseError::Minutes)
    );
}

#[test]
fn session_take_refuses_a_take_that_does_not_end_after_its_start() {
    assert_eq!(
        SessionTake::from_record(&record(1, 0, "A", "00:00:10.000", "00:00:10.000"), 2).unwrap_err(),
        LoadError::EmptyTake(2)
    );
    assert_eq!(
        SessionTake::from_record(&record(1, 0, "A", "00:00:10.000", "00:00:09.999"), 3).unwrap_err(),
        LoadError::EmptyTake(3)
    );
}

#[test]
fn session_takes_reads_records_in_order() {
    let records = vec![
        record(1, 0, "A", "00:00:01.000", "00:00:02.000"),
        record(1, 1, "B", "00:00:03.000", "00:00:04.000"),
        record(2, 0, "C", "00:00:05.000", "00:00:06.000"),
    ];
    let takes = SessionTakes::from_records(&records).unwrap();
    let marks: Vec<&str> = takes.takes().iter().map(|t| t.mark()).collect();
    assert_eq!(marks, vec!["A", "B", "C"]);
    assert!(SessionTakes::from_records(&Vec::new()).unwrap().takes().is_empty());
}

#[test]
fn session_takes_reports_the_first_bad_record() {
    let records = vec![
        record(1, 0, "A", "00:00:01.000", "00:00:02.000"),
        record(1, 1, "B", "00:00:04.000", "00:00:03.000"),
        record(2, 0, "C", "bad", "00:00:06.000"),
    ];
    assert_eq!(SessionTakes::from_records(&records).unwrap_err(), LoadError::EmptyTake(1));
}

#[test]
fn from_path_builds_the_session_of_a_directory() {
    let records = vec![
        record(3, 0, "A", "00:00:10.000", "00:00:12.500"),
        record(4, 0, "B", "00:00:13.000", "00:00:15.000"),
    ];
    let session =
        TelepromptStudioSession::from_path("project/sessions/S1", Some(&meta("00:00:00.250")), Some(&records))
            .unwrap();
    assert_eq!(session.get_session_id(), "S1");

    let track = session.track();
    assert_eq!(track.file, "project/sessions/S1/audio.wav");
    assert_eq!(track.sync_offset, Timestamp::from_millis(250));

    let takes = session.takes();
    assert_eq!(takes.len(), 2);
    assert_eq!(takes[0].session_id, "S1");
    assert_eq!(takes[0].chunk_id, "3");
    assert_eq!(takes[0].start, Timestamp::from_millis(10_000));
    assert_eq!(takes[0].end, Timestamp::from_millis(12_500));
    assert_eq!(takes[0].mark, "A");
    assert_eq!(takes[1].chunk_id, "4");
    assert_eq!(takes[1].mark, "B");

    let registered = session.into_session();
    assert_eq!(registered.session_id, "S1");
    assert_eq!(registered.tracks.len(), 1);
    assert_eq!(registered.tracks[0].file, "project/sessions/S1/audio.wav");
}

#[test]
fn from_path_reports_what_is_missing_or_malformed() {
    let records = vec![record(3, 0, "A", "00:00:10.000", "00:00:12.500")];
    let bad_records = vec![record(3, 0, "A", "00:00:10.000", "00:00:12.5")];
    let good = meta("00:00:00.000");
    let from = TelepromptStudioSession::from_path;
    assert_eq!(from("s/S1", None, Some(&records)).unwrap_err(), LoadError::MissingMetadata);
    assert_eq!(from("s/S1", None, None).unwrap_err(), LoadError::MissingMetadata);
    assert_eq!(
        from("s/S1", Some(&meta("soon")), None).unwrap_err(),
        LoadError::BadSyncOffset(ParseError::Hours)
    );
    assert_eq!(from("s/S1", Some(&good), None).unwrap_err(), LoadError::MissingTakes);
    assert_eq!(
        from("s/S1", Some(&good), Some(&bad_records)).unwrap_err(),
        LoadError::BadTakeEnd(0, ParseError::Millis)
    );
    assert_eq!(from("/", Some(&good), Some(&records)).unwrap_err(), LoadError::NoSessionName);
    assert_eq!(from("", Some(&good), Some(&records)).unwrap_err(), LoadError::NoSessionName);
    assert_eq!(from("s/..", Some(&good), Some(&records)).unwrap_err(), LoadError::NoSessionName);
}

#[test]
fn from_path_takes_the_id_of_a_directory_that_ends_in_a_separator() {
    let records = vec![record(3, 0, "A", "00:00:10.000", "00:00:12.500")];
    let session =
        TelepromptStudioSession::from_path("sessions/S1/", Some(&meta("00:00:00.000")), Some(&records))
            .unwrap();
    assert_eq!(session.get_session_id(), "S1");
    assert_eq!(session.track().file, "sessions/S1/audio.wav");
    assert_eq!(session.takes()[0].session_id, "S1");
}

#[test]
fn a_session_that_was_read_registers_with_its_takes() {
    let records = vec![record(3, 0, "A", "00:00:10.000", "00:00:12.500")];
    let session =
        TelepromptStudioSession::from_path("sessions/S1", Some(&meta("00:00:00.000")), Some(&records)).unwrap();
    let mut slicer = Slicer::new();
    assert_eq!(slicer.register_session(session), Ok(()));
    assert_eq!(slicer.sessions()[0].session_id, "S1");
    assert_eq!(slicer.takes()[0].len(), 1);
    let plan = slicer.perform_slicing("out");
    assert_eq!(plan[0].as_ref().unwrap().output, "out/chunk-3-take-0-track-0-A.wav");
    assert_eq!(plan[0].as_ref().unwrap().input, "sessions/S1/audio.wav");
}
