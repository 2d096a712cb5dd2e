use take_slicer::synchronizer::{
    AskStep, AskUserSyncer, CachedSyncer, DecodeEvent, DecodeStep, FileTrackSyncer, SyncError,
    SyncerCache, TrackSync,
};
use take_slicer::timestamp::Timestamp;

struct Scripted {
    answer: Result<Timestamp, SyncError>,
    asked: usize,
}

impl TrackSync for Scripted {
    fn find_sync_offset(&mut self, _path: &str) -> Result<Timestamp, SyncError> {
        self.asked += 1;
        self.answer
    }
}

fn scripted(answer: Result<Timestamp, SyncError>) -> Scripted {
    Scripted { answer, asked: 0 }
}

fn pair(name: &str, offset: &str) -> (String, String) {
    (name.to_string(), offset.to_string())
}

#[test]
fn a_new_cache_holds_nothing() {
    let cache = SyncerCache::new();
    assert_eq!(cache.get("video-session-42.mp4"), None);
    assert!(!cache.changed());
    assert!(cache.entries().is_empty());
}

#[test]
fn set_then_get_gives_the_offset() {
    let mut cache = SyncerCache::new();
    cache.set("a.mp4", Timestamp::from_millis(1_000));
    cache.set("b.mp4", Timestamp::from_millis(2_000));
    assert!(cache.changed());
    assert_eq!(cache.get("a.mp4"), Some(Timestamp::from_millis(1_000)));
    assert_eq!(cache.get("b.mp4"), Some(Timestamp::from_millis(2_000)));
    assert_eq!(cache.get("c.mp4"), None);
    assert_eq!(cache.get("A.mp4"), None);
}

#[test]
fn set_replaces_what_was_held() {
    let mut cache = SyncerCache::new();
    cache.set("a.mp4", Timestamp::from_millis(1_000));
    cache.set("b.mp4", Timestamp::from_millis(2_000));
    cache.set("a.mp4", Timestamp::from_millis(3_000));
    assert_eq!(cache.get("a.mp4"), Some(Timestamp::from_millis(3_000)));
    assert_eq!(cache.get("b.mp4"), Some(Timestamp::from_millis(2_000)));
    assert_eq!(
        cache.entries(),
        vec![pair("a.mp4", "00:00:03.000"), pair("b.mp4", "00:00:02.000")]
    );
}

#[test]
fn load_reads_what_was_stored() {
    let stored = vec![pair("a.mp4", "00:00:01.000"), pair("b.mp4", "01:00:00.000")];
    let (cache, usable) = SyncerCache::load(Some(&stored));
    assert!(usable);
    assert!(!cache.changed());
    assert_eq!(cache.get("a.mp4"), Some(Timestamp::from_millis(1_000)));
    assert_eq!(cache.get("b.mp4"), Some(Timestamp::from_millis(3_600_000)));
    assert_eq!(cache.entries(), stored);
}

#[test]
fn load_lets_the_later_of_two_entries_count() {
    let stored = vec![
        pair("a.mp4", "00:00:01.000"),
        pair("b.mp4", "00:00:02.000"),
        pair("a.mp4", "00:00:03.000"),
    ];
    let (cache, usable) = SyncerCache::load(Some(&stored));
    assert!(usable);
    assert_eq!(cache.get("a.mp4"), Some(Timestamp::from_millis(3_000)));
    assert_eq!(cache.entries().len(), 2);
}

#[test]
fn load_of_a_missing_store_gives_an_empty_cache_to_save() {
    let (cache, usable) = SyncerCache::load(None);
    assert!(!usable);
    assert!(cache.changed());
    assert!(cache.entries().is_empty());
}

#[test]
fn load_of_a_corrupt_store_gives_an_empty_cache_to_save() {
    let stored = vec![pair("a.mp4", "00:00:01.000"), pair("b.mp4", "soon"), pair("c.mp4", "00:00:01.000")];
    let (cache, usable) = SyncerCache::load(Some(&stored));
    assert!(!usable);
    assert!(cache.changed());
    assert_eq!(cache.get("a.mp4"), None);
    assert!(cache.entries().is_empty());
}

#[test]
fn load_of_an_empty_store_is_usable() {
    let (cache, usable) = SyncerCache::load(Some(&Vec::new()));
    assert!(usable);
    assert!(!cache.changed());
    assert!(cache.entries().is_empty());
}

#[test]
fn entries_then_load_gives_the_cache_back() {
    let mut cache = SyncerCache::new();
    cache.set("video-session-42.mp4", Timestamp::from_millis(1_234));
    cache.set("video-session-43.mp4", Timestamp::from_millis(u64::MAX));
    let stored = cache.entries();
    let (again, usable) = SyncerCache::load(Some(&stored));
    assert!(usable);
    assert_eq!(again.get("video-session-42.mp4"), Some(Timestamp::from_millis(1_234)));
    assert_eq!(again.get("video-session-43.mp4"), Some(Timestamp::from_millis(u64::MAX)));
    assert_eq!(again.entries(), stored);
}

#[test]
fn resolve_stores_an_offset_and_hands_a_failure_on() {
    let mut cache = SyncerCache::new();
    assert_eq!(cache.resolve("a.mp4", Err(SyncError::Unreadable)), Err(SyncError::Unreadable));
    assert!(!cache.changed());
    assert_eq!(cache.get("a.mp4"), None);
    assert_eq!(
        cache.resolve("a.mp4", Ok(Timestamp::from_millis(7))),
        Ok(Timestamp::from_millis(7))
    );
    assert!(cache.changed());
    assert_eq!(cache.get("a.mp4"), Some(Timestamp::from_millis(7)));
}

#[test]
fn a_miss_asks_the_fallback_once_and_a_fresh_run_asks_no_more() {
    let offset = Timestamp::parse("00:00:01.000").unwrap();
    let (cache, usable) = SyncerCache::load(None);
    assert!(!usable);
    let mut first = CachedSyncer::new(cache, scripted(Ok(offset)));
    assert_eq!(first.find_sync_offset("video/video-session-42.mp4"), Ok(offset));
    assert_eq!(first.fallback().asked, 1);
    assert_eq!(first.find_sync_offset("video/video-session-42.mp4"), Ok(offset));
    assert_eq!(first.fallback().asked, 1);
    let cache = first.into_cache();
    assert!(cache.changed());
    let stored = cache.entries();
    assert_eq!(stored, vec![pair("video-session-42.mp4", "00:00:01.000")]);

    let (cache, usable) = SyncerCache::load(Some(&stored));
    assert!(usable);
    let mut second = CachedSyncer::new(cache, scripted(Err(SyncError::OperatorGone)));
    assert_eq!(second.find_sync_offset("elsewhere/video-session-42.mp4"), Ok(offset));
    assert_eq!(second.fallback().asked, 0);
    assert!(!second.cache().changed());
}

#[test]
fn a_failing_fallback_leaves_the_cache_as_it_is() {
    let mut syncer = CachedSyncer::new(SyncerCache::new(), scripted(Err(SyncError::Unreadable)));
    assert_eq!(syncer.find_sync_offset("video/a.mp4"), Err(SyncError::Unreadable));
    assert_eq!(syncer.fallback().asked, 1);
    assert_eq!(syncer.find_sync_offset("video/a.mp4"), Err(SyncError::Unreadable));
    assert_eq!(syncer.fallback().asked, 2);
    assert!(!syncer.cache().changed());
    assert_eq!(syncer.cache().get("a.mp4"), None);
}

#[test]
fn a_path_without_a_file_name_is_refused_before_anything_is_asked() {
    let mut syncer = CachedSyncer::new(SyncerCache::new(), scripted(Ok(Timestamp::from_millis(1))));
    assert_eq!(syncer.find_sync_offset("video/.."), Err(SyncError::NoFileName));
    assert_eq!(syncer.find_sync_offset("/"), Err(SyncError::NoFileName));
    assert_eq!(syncer.find_sync_offset(""), Err(SyncError::NoFileName));
    assert_eq!(syncer.fallback().asked, 0);
    assert!(!syncer.cache().changed());
}

#[test]
fn the_operator_is_asked_again_until_the_answer_is_a_timestamp() {
    let syncer = AskUserSyncer::new();
    assert_eq!(syncer.on_answer(Some("")), AskStep::AskAgain);
    assert_eq!(syncer.on_answer(Some("1:02")), AskStep::AskAgain);
    assert_eq!(syncer.on_answer(Some("01:02:03.1234")), AskStep::AskAgain);
    assert_eq!(
        syncer.on_answer(Some("01:02:03.123")),
        AskStep::Resolved(Timestamp::from_millis(3_723_123))
    );
    assert_eq!(syncer.on_answer(None), AskStep::Failed(SyncError::OperatorGone));
}

#[test]
fn the_prompt_names_the_file_and_the_format() {
    assert_eq!(
        AskUserSyncer::new().prompt_text("\"video/video-session-42.mp4\""),
        "Enter sync timestamp for \"video/video-session-42.mp4\": [ format: HH:MM:SS.mmm eg. 01:02:03.123 ]"
    );
    assert_eq!(
        AskUserSyncer::new().prompt_text(&format!("{:?}", "a \"b\"\\c.mp4")),
        "Enter sync timestamp for \"a \\\"b\\\"\\\\c.mp4\": [ format: HH:MM:SS.mmm eg. 01:02:03.123 ]"
    );
}

#[test]
fn the_first_track_with_a_codec_is_decoded() {
    let syncer = FileTrackSyncer::new();
    assert_eq!(syncer.select_track(&vec![(7, false), (3, true), (1, true)]), Some(3));
    assert_eq!(syncer.select_track(&vec![(0, true)]), Some(0));
    assert_eq!(syncer.select_track(&vec![(0, false), (1, false)]), None);
    assert_eq!(syncer.select_track(&Vec::new()), None);
}

#[test]
fn packets_of_other_tracks_are_passed_over() {
    let syncer = FileTrackSyncer::new();
    assert_eq!(syncer.on_event(3, DecodeEvent::Packet(3)), DecodeStep::Decode);
    assert_eq!(syncer.on_event(3, DecodeEvent::Packet(4)), DecodeStep::ReadNext);
    assert_eq!(syncer.on_event(3, DecodeEvent::ResetRequired), DecodeStep::ReadNext);
    assert_eq!(syncer.on_event(3, DecodeEvent::Decoded), DecodeStep::ReadNext);
}

#[test]
fn packets_that_cannot_be_decoded_are_passed_over() {
    let syncer = FileTrackSyncer::new();
    assert_eq!(syncer.on_event(3, DecodeEvent::DecodeIoError), DecodeStep::ReadNext);
    assert_eq!(syncer.on_event(3, DecodeEvent::Malformed), DecodeStep::ReadNext);
    assert_eq!(
        syncer.on_event(3, DecodeEvent::DecodeFailed),
        DecodeStep::Fail(SyncError::Unreadable)
    );
}

#[test]
fn the_end_of_the_stream_ends_the_strategy() {
    let syncer = FileTrackSyncer::new();
    assert_eq!(
        syncer.on_event(3, DecodeEvent::EndOfStream),
        DecodeStep::Fail(SyncError::Unresolved)
    );
    assert_eq!(
        syncer.on_event(3, DecodeEvent::ReadFailed),
        DecodeStep::Fail(SyncError::Unreadable)
    );
}

struct Operator {
    asker: AskUserSyncer,
    lines: Vec<&'static str>,
    asked_about: Vec<String>,
}

impl TrackSync for Operator {
    fn find_sync_offset(&mut self, path: &str) -> Result<Timestamp, SyncError> {
        self.asked_about.push(path.to_string());
        loop {
            let line = if self.lines.is_empty() { None } else { Some(self.lines.remove(0)) };
            match self.asker.on_answer(line) {
                AskStep::Resolved(offset) => return Ok(offset),
                AskStep::AskAgain => continue,
                AskStep::Failed(e) => return Err(e),
            }
        }
    }
}

fn operator(lines: Vec<&'static str>) -> Operator {
    Operator { asker: AskUserSyncer::new(), lines, asked_about: Vec::new() }
}

#[test]
fn a_miss_asks_the_operator_once_about_the_file_and_stores_the_answer() {
    let mut syncer = CachedSyncer::new(SyncerCache::new(), operator(vec!["00:00:01.000"]));
    assert_eq!(
        syncer.find_sync_offset("video/video-session-42.mp4"),
        Ok(Timestamp::parse("00:00:01.000").unwrap())
    );
    assert_eq!(syncer.fallback().asked_about, vec!["video/video-session-42.mp4"]);
    let cache = syncer.into_cache();
    assert!(cache.changed());
    assert_eq!(cache.entries(), vec![pair("video-session-42.mp4", "00:00:01.000")]);
}

#[test]
fn a_miss_hands_on_what_the_operator_answers_after_bad_lines() {
    let mut syncer =
        CachedSyncer::new(SyncerCache::new(), operator(vec!["soon", "1:00", "00:01:00.000"]));
    assert_eq!(syncer.find_sync_offset("v/a.mp4"), Ok(Timestamp::from_millis(60_000)));
    assert_eq!(syncer.fallback().asked_about, vec!["v/a.mp4"]);
    assert_eq!(syncer.find_sync_offset("elsewhere/a.mp4"), Ok(Timestamp::from_millis(60_000)));
    assert_eq!(syncer.fallback().asked_about, vec!["v/a.mp4"]);
}

#[test]
fn a_miss_with_an_operator_who_is_gone_fails_and_stores_nothing() {
    let mut syncer = CachedSyncer::new(SyncerCache::new(), operator(vec!["soon"]));
    assert_eq!(syncer.find_sync_offset("v/a.mp4"), Err(SyncError::OperatorGone));
    assert_eq!(syncer.fallback().asked_about, vec!["v/a.mp4"]);
    assert!(!syncer.cache().changed());
    assert!(syncer.cache().entries().is_empty());
}
