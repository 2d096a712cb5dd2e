use take_slicer::path::{extension, file_name, join};

#[test]
fn file_name_is_the_last_component() {
    assert_eq!(file_name("sessions/S1"), Some("S1".to_string()));
    assert_eq!(file_name("/a/b/video-session-42.mp4"), Some("video-session-42.mp4".to_string()));
    assert_eq!(file_name("plain"), Some("plain".to_string()));
    assert_eq!(file_name(".hidden"), Some(".hidden".to_string()));
}

#[test]
fn file_name_is_missing_for_empty_and_dot_components() {
    assert_eq!(file_name(""), None);
    assert_eq!(file_name("/"), None);
    assert_eq!(file_name("///"), None);
    assert_eq!(file_name("sessions/../"), None);
    assert_eq!(file_name("sessions/.."), None);
    assert_eq!(file_name(".."), None);
    assert_eq!(file_name("sessions/."), None);
}

#[test]
fn file_name_passes_over_trailing_separators() {
    assert_eq!(file_name("sessions/S1/"), Some("S1".to_string()));
    assert_eq!(file_name("sessions/S1///"), Some("S1".to_string()));
    assert_eq!(file_name("S1/"), Some("S1".to_string()));
    assert_eq!(file_name("/S1/"), Some("S1".to_string()));
    assert_eq!(file_name("a//b"), Some("b".to_string()));
    assert_eq!(extension("a/audio.wav/"), Some("wav".to_string()));
}

#[test]
fn extension_follows_the_last_full_stop() {
    assert_eq!(extension("a/audio.wav"), Some("wav".to_string()));
    assert_eq!(extension("video-session-42.mp4"), Some("mp4".to_string()));
    assert_eq!(extension("archive.tar.gz"), Some("gz".to_string()));
    assert_eq!(extension("dir.d/file"), None);
    assert_eq!(extension("file."), Some("".to_string()));
}

#[test]
fn extension_is_missing_without_an_inner_full_stop() {
    assert_eq!(extension("audio"), None);
    assert_eq!(extension(".hidden"), None);
    assert_eq!(extension("dir/"), None);
    assert_eq!(extension(""), None);
    assert_eq!(extension(".hidden.txt"), Some("txt".to_string()));
}

#[test]
fn join_puts_one_separator_between() {
    assert_eq!(join("out", "a.wav"), "out/a.wav");
    assert_eq!(join("out/", "a.wav"), "out/a.wav");
    assert_eq!(join("", "a.wav"), "a.wav");
    assert_eq!(join("/", "a.wav"), "/a.wav");
    assert_eq!(join("p", "video/slicer_output/"), "p/video/slicer_output/");
}

#[test]
fn paths_keep_characters_outside_ascii() {
    assert_eq!(file_name("séance/prise-é.wav"), Some("prise-é.wav".to_string()));
    assert_eq!(extension("séance/prise.wavé"), Some("wavé".to_string()));
    assert_eq!(join("séance", "é.wav"), "séance/é.wav");
}
