use cosmic_scribe::paths::{extension_and_stem, file_name_str, join_path_str, parent_str, with_extension_str};
use cosmic_scribe::recording::{
    newest_first,
    duration_ms_from_stem, is_junk_recording, prune_junk_recordings, recording_sibling_paths, RecordingFile,
};

#[test]
fn path_helpers_follow_std_path() {
    assert_eq!(join_path_str("/a", "b"), "/a/b");
    assert_eq!(join_path_str("/a/", "b"), "/a/b");
    assert_eq!(join_path_str("/a", "/b"), "/b");
    assert_eq!(with_extension_str("/r/x.raw", "txt"), "/r/x.txt");
    assert_eq!(with_extension_str("/r/x.raw", ""), "/r/x");
    assert_eq!(with_extension_str("/r/.hidden", "txt"), "/r/.hidden.txt");
    assert_eq!(parent_str("/foo/bar").as_deref(), Some("/foo"));
    assert_eq!(parent_str("/foo").as_deref(), Some("/"));
    assert_eq!(parent_str("foo").as_deref(), Some(""));
    assert_eq!(parent_str("/"), None);
    assert_eq!(file_name_str("/usr/bin/").as_deref(), Some("bin"));
    assert_eq!(file_name_str("a/.."), None);
    let (ext, stem) = extension_and_stem("/r/2026_100ms.raw");
    assert_eq!(ext.as_deref(), Some("raw"));
    assert_eq!(stem.as_deref(), Some("2026_100ms"));
    for p in ["/r/x.raw", "/r/.hidden", "a/b.c.d", "noext"] {
        let std_path = std::path::Path::new(p);
        assert_eq!(with_extension_str(p, "txt"), std_path.with_extension("txt").to_string_lossy());
    }
}

#[test]
fn junk_detects_short_and_test_fixture() {
    assert!(is_junk_recording(Some("2026-06-06_12-00-00_100ms"), false));
    assert!(is_junk_recording(Some("2026-06-06_12-00-01_2000ms"), false));
    assert!(is_junk_recording(Some("2026-06-06_12-00-02_1053ms"), false));
    assert!(!is_junk_recording(Some("2026-06-06_12-00-03_12000ms"), false));
    assert!(!is_junk_recording(Some("2026-06-06_12-00-02_1053ms"), true));
    assert!(is_junk_recording(Some("2026-06-06_12-00-00_100ms"), true));
    assert!(is_junk_recording(None, true));
    assert!(is_junk_recording(Some("no-duration"), true));
}

#[test]
fn recording_files_and_pruning() {
    assert_eq!(duration_ms_from_stem("2026-06-06_22-11-27_2000ms"), Some(2000));
    assert_eq!(duration_ms_from_stem("2026-06-06_22-11-27"), None);
    let sib = recording_sibling_paths("/r/a_5000ms.raw");
    assert_eq!(sib, vec!["/r/a_5000ms.raw", "/r/a_5000ms.txt", "/r/a_5000ms.json", "/r/a_5000ms.stt.json"]);
    let files = vec![
        RecordingFile { path: "/r/a_100ms.raw".into(), has_transcript_artifacts: false },
        RecordingFile { path: "/r/a_100ms.txt".into(), has_transcript_artifacts: false },
        RecordingFile { path: "/r/b_12000ms.raw".into(), has_transcript_artifacts: false },
        RecordingFile { path: "/r/c_1500ms.raw".into(), has_transcript_artifacts: true },
    ];
    assert_eq!(prune_junk_recordings(&files), vec!["/r/a_100ms.raw".to_string()]);
}

#[test]
fn history_order_is_newest_first_with_later_listed_winning_ties() {
    assert_eq!(newest_first(&[]), Vec::<usize>::new());
    assert_eq!(newest_first(&[Some(10), Some(30), Some(20)]), vec![1, 2, 0]);
    // Equal times: the later-listed file first; unknown times last.
    assert_eq!(newest_first(&[Some(5), None, Some(5), None, Some(-1)]), vec![2, 0, 4, 3, 1]);
}

#[test]
fn recording_name_duration_round_trips() {
    for prefix in ["", "x", "2026-06-06_22-11-27", "a_b_c"] {
        for ms in [0u64, 7, 2000, u64::MAX] {
            assert_eq!(duration_ms_from_stem(&format!("{prefix}_{ms}ms")), Some(ms));
        }
    }
    assert_eq!(duration_ms_from_stem("x_abcms"), None);
}
