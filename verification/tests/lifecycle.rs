use cosmic_scribe::lifecycle::{
    daemon_binary, daemon_pids_from, data_dir, file_is_newer, lock_decision, lock_file_text,
    lock_holder, looks_like_debug_build, pick_binary_source, release_allowed,
    resolve_install_source, share_binary, sibling_release_binary, sibling_release_path,
    try_acquire_gui_debug_lock, wrapper_binary, BinarySource, SourceFacts,
};
use cosmic_scribe::APP_SLUG;

#[test]
fn share_and_wrapper_paths_under_home() {
    let path = share_binary(&data_dir(Some("/home/u/.local/share")));
    assert!(path.contains(APP_SLUG));
    assert_eq!(path, "/home/u/.local/share/cosmic-scribe/cosmic-scribe");
    assert_eq!(wrapper_binary(Some("/home/u")), "/home/u/.local/bin/cosmic-scribe");
    assert_eq!(wrapper_binary(None), "/tmp/.local/bin/cosmic-scribe");
    assert_eq!(daemon_binary(Some("/home/u"), "/d", false), "/d/cosmic-scribe");
    assert_eq!(daemon_binary(Some("/home/u"), "/d", true), "/home/u/.local/bin/cosmic-scribe");
}

#[test]
fn sibling_release_from_debug_path() {
    let debug = format!("/proj/target/debug/{APP_SLUG}");
    let release = sibling_release_path(&debug).unwrap();
    assert_eq!(release, format!("/proj/target/release/{APP_SLUG}"));
    assert!(sibling_release_path("/proj/target/release/x").is_none());
    assert_eq!(sibling_release_binary(&debug, false, true).unwrap(), "/proj/target/release/voice-input");
    assert!(sibling_release_binary(&debug, false, false).is_none());
}

#[test]
fn looks_like_debug_detects_target_debug() {
    assert!(looks_like_debug_build(&format!("/home/u/proj/target/debug/{APP_SLUG}")));
    assert!(!looks_like_debug_build(&format!("/home/u/proj/target/release/{APP_SLUG}")));
}

#[test]
fn lock_file_round_trip() {
    let text = lock_file_text(4242);
    assert_eq!(text, "4242\n");
    assert_eq!(lock_holder(&text), Some(4242));
    assert_eq!(lock_holder(" 17 \r\nother"), Some(17));
    assert_eq!(lock_holder("x"), None);
    assert!(release_allowed(Some(&text), 4242));
    assert!(!release_allowed(Some(&text), 1));
    assert!(!release_allowed(None, 4242));
    assert_eq!(lock_decision(Some(7), true, 9), Err(7));
    assert_eq!(lock_decision(Some(7), false, 9), Ok("9\n".to_string()));
    assert_eq!(try_acquire_gui_debug_lock(None, false, 3), Ok("3\n".to_string()));
}

#[test]
fn daemon_pid_list_is_sorted_unique_without_self() {
    let outs = vec!["12\n7\n 99 \n".to_string(), "7\nabc\n5".to_string()];
    assert_eq!(daemon_pids_from(&outs, 99), vec![5, 7, 12]);
    assert!(daemon_pids_from(&[], 1).is_empty());
}

#[test]
fn install_source_choice() {
    let facts = SourceFacts {
        current: "/proj/target/debug/cosmic-scribe".into(),
        release: None,
        cargo: Some("/h/.cargo/bin/cosmic-scribe".into()),
        cargo_newer: false,
        brew: None,
        brew_newer: false,
    };
    assert_eq!(pick_binary_source(&facts), BinarySource::Cargo("/h/.cargo/bin/cosmic-scribe".into()));
    let args = vec!["prog".to_string(), "--install-from=/x/bin".to_string()];
    assert_eq!(resolve_install_source(&args, &facts), BinarySource::Flag("/x/bin".into()));
    let plain = SourceFacts { current: "/usr/bin/cosmic-scribe".into(), release: None, cargo: None, cargo_newer: false, brew: None, brew_newer: false };
    assert_eq!(pick_binary_source(&plain), BinarySource::Current { path: "/usr/bin/cosmic-scribe".into(), debug_warning: false });
    assert!(file_is_newer(Some(2), Some(1)));
    assert!(!file_is_newer(None, Some(1)));
}
