use cosmic_scribe::api::RecordingVersion;
use cosmic_scribe::product_copy::{
    access_how_speech_works, active_auth_detail, active_auth_title, analytics_item_description,
    sign_in_item_description, sign_in_item_title,
};
use cosmic_scribe::ux::{
    base_transcript_label, format_duration, format_word_count, history_after_probe,
    history_has_more_after_page, history_preview, page_padding_tokens, parse_duration_secs,
    recording_time_labels, settings_description_ok, settings_is_dirty, settings_save_visible,
    should_save_edit, show_more_after_list, show_version_switcher, stored_api_key_status,
    tray_state_caption, tray_state_title, version_tab_label, HISTORY_PAGE_SIZE,
};

#[test]
fn save_edit_skips_identical() {
    assert!(!should_save_edit("hello", "hello"));
    assert!(!should_save_edit("hello", "hello\n"));
    assert!(!should_save_edit("hello\n", "hello"));
    assert!(should_save_edit("hello", "hello!"));
}

#[test]
fn description_budget() {
    assert!(settings_description_ok("Clipboard only — you paste."));
    assert!(!settings_description_ok(&"x".repeat(100)));
}

#[test]
fn page_padding_symmetric_sides() {
    let (t, r, b, l) = page_padding_tokens();
    assert_eq!(t, b);
    assert_eq!(r, l);
    assert!(r >= t);
}

#[test]
fn version_labels_are_human() {
    assert_eq!(base_transcript_label(), "Transcript");
    let v = RecordingVersion { version_type: "user_edit".into(), text: "x".into(), timestamp: None };
    assert_eq!(version_tab_label(&v, 1), "Your edit");
    assert_eq!(version_tab_label(&v, 2), "Your edit 2");
    let ai = RecordingVersion { version_type: "llm_correction".into(), text: "y".into(), timestamp: None };
    assert_eq!(version_tab_label(&ai, 1), "AI fix");
}

#[test]
fn other_version_kinds_read_as_ai_fix() {
    let custom = RecordingVersion { version_type: "custom".into(), text: "z".into(), timestamp: None };
    assert_eq!(version_tab_label(&custom, 1), "AI fix");
    assert_eq!(version_tab_label(&custom, 3), "AI fix 3");
    let empty = RecordingVersion { version_type: String::new(), text: "z".into(), timestamp: None };
    assert_eq!(version_tab_label(&empty, 1), "AI fix");
}

#[test]
fn version_switcher_hidden_without_edits() {
    assert!(!show_version_switcher(0));
    assert!(show_version_switcher(1));
}

#[test]
fn settings_dirty_detects_mode_change() {
    let ep = "https://api.x.ai/v1/stt";
    assert!(!settings_is_dirty("en", "clipboard", "relative", ep, "", "en", "clipboard", "relative", ep, true, false, false));
    assert!(settings_is_dirty("en", "wtype", "relative", ep, "", "en", "clipboard", "relative", ep, true, false, false));
    assert!(settings_is_dirty("en", "clipboard", "relative", ep, "sk-secret", "en", "clipboard", "relative", ep, true, false, false));
    assert!(settings_is_dirty(
        "en",
        "clipboard",
        "relative",
        "http://localhost:8080/v1/stt",
        "",
        "en",
        "clipboard",
        "relative",
        ep,
        true,
        false,
        false
    ));
    assert!(settings_is_dirty("en", "clipboard", "relative", ep, "", "en", "clipboard", "relative", ep, true, true, false));
}

#[test]
fn ux_sign_in_is_ordinary_path_not_optional_hero() {
    assert_eq!(sign_in_item_title(), "Sign in");
    assert!(!sign_in_item_title().to_ascii_lowercase().contains("optional"));
    assert!(sign_in_item_description().contains("SuperGrok"));
    assert!(settings_description_ok(sign_in_item_description()));
    let access = access_how_speech_works();
    assert!(access.starts_with("Sign in"));
    assert!(access.contains("API key"));
    assert!(settings_description_ok(access));
    let none = active_auth_detail("none").to_ascii_lowercase();
    let sign_at = none.find("sign in").expect("sign in first");
    let key_at = none.find("api key").expect("api key second");
    assert!(sign_at < key_at);
    assert!(settings_description_ok(analytics_item_description()));
    assert!(analytics_item_description().to_ascii_lowercase().contains("off by default"));
}

#[test]
fn settings_save_hidden_until_loaded_and_dirty() {
    assert!(!settings_save_visible(false, true));
    assert!(!settings_save_visible(false, false));
    assert!(!settings_save_visible(true, false));
    assert!(settings_save_visible(true, true));
}

#[test]
fn show_more_only_with_items_and_has_more() {
    assert!(show_more_after_list(true, 20));
    assert!(!show_more_after_list(true, 0));
    assert!(!show_more_after_list(false, 20));
}

#[test]
fn history_probe_preserves_exhausted_state() {
    let (keep, has_more) = history_after_probe(25, 25);
    assert_eq!(keep, 25);
    assert!(!has_more);
    assert!(!show_more_after_list(has_more, keep));
    let (keep, has_more) = history_after_probe(26, 25);
    assert_eq!(keep, 25);
    assert!(has_more);
    assert!(show_more_after_list(has_more, keep));
}

#[test]
fn history_probe_initial_page() {
    let (keep, has_more) = history_after_probe(21, HISTORY_PAGE_SIZE);
    assert_eq!(keep, 20);
    assert!(has_more);
    let (keep, has_more) = history_after_probe(7, HISTORY_PAGE_SIZE);
    assert_eq!(keep, 7);
    assert!(!has_more);
}

#[test]
fn history_page_append_has_more() {
    assert!(history_has_more_after_page(20, HISTORY_PAGE_SIZE));
    assert!(!history_has_more_after_page(5, HISTORY_PAGE_SIZE));
    assert!(!history_has_more_after_page(0, HISTORY_PAGE_SIZE));
}

#[test]
fn auth_labels_are_clear() {
    assert_eq!(active_auth_title("oauth"), "Signed in");
    assert!(active_auth_detail("none").to_lowercase().contains("api key"));
    assert_eq!(stored_api_key_status(true), "Saved on this computer");
    assert_eq!(stored_api_key_status(false), "None saved");
    let oauth = active_auth_detail("oauth").to_lowercase();
    assert!(!oauth.contains("fee"));
    assert!(!oauth.contains("extra"));
    assert!(!oauth.contains("free"));
    assert!(!oauth.contains("subscribe"));
    assert!(!oauth.contains("grok"));
    assert!(!oauth.contains("xai"));
}

#[test]
fn history_preview_end_ellipsis_and_stats() {
    let empty = history_preview(None, 40);
    assert_eq!(empty.text_line, "No transcript");
    assert!(empty.stats.is_empty());
    let short = history_preview(Some("hello world"), 40);
    assert_eq!(short.text_line, "hello world");
    assert_eq!(short.stats, "2 words");
    assert!(!short.stats.contains("character"));
    let long = "word ".repeat(30);
    let prev = history_preview(Some(&long), 20);
    assert!(prev.text_line.ends_with('…'), "got {}", prev.text_line);
    assert_eq!(prev.stats, "30 words");
}

#[test]
fn format_word_count_human() {
    assert_eq!(format_word_count(0), "");
    assert_eq!(format_word_count(1), "1 word");
    assert_eq!(format_word_count(44), "44 words");
    assert_eq!(format_word_count(250), "250 words");
    assert_eq!(format_word_count(1000), "1k words");
    assert_eq!(format_word_count(1200), "1.2k words");
    assert_eq!(format_word_count(15_000), "15k words");
}

#[test]
fn tray_titles_and_durations() {
    assert!(!tray_state_title("recording").is_empty());
    assert!(!tray_state_caption("idle").is_empty());
    assert_eq!(parse_duration_secs("12s"), 12);
    let labels = recording_time_labels("2026-06-01 15:13".into(), "2 hours ago".into(), true);
    assert_eq!(labels.primary, "2026-06-01 15:13");
    let _ = format_duration("75");
}

