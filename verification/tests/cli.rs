use take_slicer::cli::{video_file_name, Args, Verbosity};

fn args(project: Option<&str>) -> Args {
    Args {
        ffmpeg_path: None,
        sessions: None,
        video: None,
        output: None,
        project: project.map(|p| p.to_string()),
        verbosity: Verbosity::Info,
    }
}

#[test]
fn verbosity_words_round_trip() {
    for verbosity in [
        Verbosity::Error,
        Verbosity::Warn,
        Verbosity::Info,
        Verbosity::Debug,
        Verbosity::Trace,
    ] {
        assert_eq!(Verbosity::from_str(verbosity.name()), Some(verbosity));
    }
    assert_eq!(Verbosity::Error.name(), "error");
    assert_eq!(Verbosity::Warn.name(), "warn");
    assert_eq!(Verbosity::Info.name(), "info");
    assert_eq!(Verbosity::Debug.name(), "debug");
    assert_eq!(Verbosity::Trace.name(), "trace");
}

#[test]
fn verbosity_refuses_other_words() {
    assert_eq!(Verbosity::from_str(""), None);
    assert_eq!(Verbosity::from_str("Info"), None);
    assert_eq!(Verbosity::from_str("verbose"), None);
    assert_eq!(Verbosity::from_str("warn "), None);
}

#[test]
fn verbosity_levels_count_from_zero() {
    assert_eq!(Verbosity::Error.level(), 0);
    assert_eq!(Verbosity::Warn.level(), 1);
    assert_eq!(Verbosity::Info.level(), 2);
    assert_eq!(Verbosity::Debug.level(), 3);
    assert_eq!(Verbosity::Trace.level(), 4);
}

#[test]
fn directories_default_to_the_project() {
    let run = args(Some("proj"));
    assert_eq!(run.sessions_dir(), Some("proj/sessions".to_string()));
    assert_eq!(run.video_dir(), Some("proj/video".to_string()));
    assert_eq!(run.output_dir(), Some("proj/video/slicer_output/".to_string()));
}

#[test]
fn given_directories_come_first() {
    let mut run = args(Some("proj"));
    run.sessions = Some("s".to_string());
    run.video = Some("v".to_string());
    run.output = Some("o".to_string());
    assert_eq!(run.sessions_dir(), Some("s".to_string()));
    assert_eq!(run.video_dir(), Some("v".to_string()));
    assert_eq!(run.output_dir(), Some("o".to_string()));
}

#[test]
fn directories_are_missing_without_project() {
    let mut run = args(None);
    run.video = Some("v".to_string());
    assert_eq!(run.sessions_dir(), None);
    assert_eq!(run.video_dir(), Some("v".to_string()));
    assert_eq!(run.output_dir(), None);
}

#[test]
fn video_files_are_named_by_session() {
    assert_eq!(video_file_name("42"), "video-session-42.mp4");
    assert_eq!(video_file_name("S1"), "video-session-S1.mp4");
}
