use cosmic_scribe::api::{history_entry, ApiError, AppConfig};
use cosmic_scribe::browser::{BrowserTask, DetailText, HistoryBrowser, SettingsPanel};

fn entry(file: &str) -> cosmic_scribe::api::HistoryEntry {
    history_entry(file, Some(32_000), Some("hello".to_string()), vec![], false)
}

fn files(b: &HistoryBrowser) -> Vec<String> {
    b.entries.iter().map(|e| e.file.clone()).collect()
}

#[test]
fn browser_starts_loading_history_first_page() {
    let (b, tasks) = HistoryBrowser::new(false);
    assert!(b.loading && b.has_more && !b.on_settings);
    assert_eq!(
        tasks,
        vec![BrowserTask::LoadHistory { offset: 0, limit: 20 }, BrowserTask::LoadSettings, BrowserTask::UpdateTitle]
    );
    assert_eq!(b.page_title(), "History");
}

#[test]
fn browser_pages_and_stops_on_short_page() {
    let (mut b, _) = HistoryBrowser::new(false);
    b.history_loaded(vec![entry("a_1000ms"), entry("b_1000ms")], true);
    assert_eq!(b.offset, 2);
    assert_eq!(b.load_more(), vec![BrowserTask::LoadHistory { offset: 2, limit: 20 }]);
    assert!(b.loading_more);
    // A second press while loading does nothing.
    assert_eq!(b.load_more(), vec![]);
    b.history_more_loaded(vec![entry("c_1000ms")]);
    assert_eq!(files(&b), vec!["a_1000ms", "b_1000ms", "c_1000ms"]);
    assert_eq!(b.offset, 3);
    assert!(!b.has_more);
    assert_eq!(b.load_more(), vec![]);
    assert_eq!(b.history_refresh(), vec![BrowserTask::LoadHistory { offset: 0, limit: 20 }]);
}

#[test]
fn browser_delete_drops_row_and_closes_detail() {
    let (mut b, _) = HistoryBrowser::new(false);
    b.history_loaded(vec![entry("a_1000ms"), entry("b_1000ms"), entry("a_1000ms")], false);
    b.open_recording("a_1000ms".into());
    assert_eq!(b.page_title(), "Recording");
    assert_eq!(b.history_refresh(), vec![]);
    b.confirm_delete("a_1000ms".into());
    assert_eq!(b.delete_entry("a_1000ms".into()), vec![BrowserTask::DeleteRecording("a_1000ms".into())]);
    assert!(b.confirming_delete.is_none());
    assert_eq!(
        b.deleted("a_1000ms".into(), Err("disk full".into())),
        vec![BrowserTask::Toast("disk full".into())]
    );
    assert_eq!(files(&b).len(), 3);
    assert_eq!(
        b.deleted("a_1000ms".into(), Ok(())),
        vec![BrowserTask::ResetAudio, BrowserTask::Toast("Recording deleted".into()), BrowserTask::UpdateTitle]
    );
    assert_eq!(files(&b), vec!["b_1000ms"]);
    assert!(b.detail_id.is_none());
    assert_eq!(b.deleted("b_1000ms".into(), Ok(())), vec![BrowserTask::Toast("Recording deleted".into())]);
    assert!(b.entries.is_empty());
}

#[test]
fn browser_versions_and_edits() {
    let (mut b, _) = HistoryBrowser::new(false);
    b.open_recording("r_1000ms".into());
    let t = b.detail_loaded(DetailText { text: "base".into(), versions: vec!["v1".into(), "v2".into()] });
    assert_eq!(t, vec![BrowserTask::ShowText("base".into()), BrowserTask::UpdateTitle]);
    assert_eq!(b.set_version(2), vec![BrowserTask::ShowText("v2".into())]);
    assert_eq!(b.set_version(7), vec![BrowserTask::ShowText("base".into())]);
    b.set_version(1);
    assert_eq!(b.set_editing(true), vec![BrowserTask::ShowText("v1".into())]);
    // Only trailing blanks changed: nothing is stored.
    assert_eq!(b.save_edit("v1 \n".into()), vec![]);
    assert!(!b.editing);
    b.set_editing(true);
    assert_eq!(
        b.save_edit("v1 fixed".into()),
        vec![BrowserTask::SaveEdit { id: "r_1000ms".into(), text: "v1 fixed".into() }]
    );
    assert_eq!(
        b.edit_saved("r_1000ms".into(), Ok(())),
        vec![BrowserTask::Toast("Saved new version".into()), BrowserTask::LoadDetail("r_1000ms".into())]
    );
    assert!(!b.editing);
}

#[test]
fn browser_transcribe_and_copy_flash() {
    let (mut b, _) = HistoryBrowser::new(false);
    assert_eq!(b.transcribe(), vec![]);
    b.open_recording("r_1000ms".into());
    assert_eq!(b.transcribe(), vec![BrowserTask::Transcribe("r_1000ms".into())]);
    assert!(b.transcribing);
    assert_eq!(b.transcribe_done(Err("STT API error".into())), vec![]);
    assert_eq!(b.detail_error.as_deref(), Some("STT API error"));
    assert!(!b.transcribing);
    assert_eq!(b.transcribe_done(Ok("hi".into())), vec![BrowserTask::LoadDetail("r_1000ms".into())]);
    assert_eq!(b.copy_text("  ".into(), "detail".into()), vec![]);
    assert_eq!(
        b.copy_text("hi".into(), "detail".into()),
        vec![BrowserTask::CopyText("hi".into()), BrowserTask::ClearFlashLater("detail".into())]
    );
    b.clear_copied_flash("row-1");
    assert_eq!(b.copied_flash.as_deref(), Some("detail"));
    b.clear_copied_flash("detail");
    assert!(b.copied_flash.is_none());
}

fn config() -> AppConfig {
    AppConfig {
        lang: "de".into(),
        output_mode: "clipboard".into(),
        history_time_mode: "absolute".into(),
        stt_endpoint: "https://api.x.ai/v1/stt".into(),
        has_key: false,
        auth_mode: "none".into(),
        has_correction_key: false,
        correction_model: "deepseek/deepseek-chat-v4".into(),
    }
}

#[test]
fn settings_panel_dirty_and_save_flow() {
    let mut p = SettingsPanel::new();
    assert!(!p.dirty());
    p.form.lang = "fr".into();
    assert!(!p.dirty(), "nothing is dirty before the configuration loads");
    p.settings_loaded(config(), false);
    assert!(!p.dirty() && !p.save_visible());
    p.form.stt_endpoint = " https://api.x.ai/v1/stt ".into();
    assert!(!p.dirty(), "endpoint compared trimmed");
    p.form.api_key = "xai-new".into();
    assert!(p.save_visible());
    let u = p.save();
    assert!(p.saving);
    assert_eq!(u.lang.as_deref(), Some("de"));
    assert_eq!(u.key.as_deref(), Some("xai-new"));
    assert!(u.correction_key.is_none());
    let t = p.save_succeeded();
    assert_eq!(
        t,
        vec![BrowserTask::Toast("Settings saved".into()), BrowserTask::LoadSettings, BrowserTask::ClearSavedLater]
    );
    assert!(p.form.has_key && p.form.has_stored_api_key && p.form.api_key.is_empty() && p.saved);
    p.saved_clear();
    assert!(!p.saved);
    assert_eq!(p.save_failed("bad".into()), vec![BrowserTask::Toast("Save failed: bad".into())]);
    assert_eq!(p.error.as_deref(), Some("bad"));
}

#[test]
fn settings_panel_auth_actions() {
    let mut p = SettingsPanel::new();
    p.form.auth_mode = "oauth".into();
    assert_eq!(
        p.logout_done(Err("io".into())),
        vec![BrowserTask::Toast("Logout failed: io".into())]
    );
    assert_eq!(p.form.auth_mode, "oauth");
    assert_eq!(
        p.logout_done(Ok(())),
        vec![BrowserTask::Toast("Signed out".into()), BrowserTask::LoadSettings]
    );
    assert_eq!(p.form.auth_mode, "none");
    p.form.has_stored_api_key = true;
    assert_eq!(
        p.clear_key_done(Err(ApiError::Internal("denied".into()))),
        vec![BrowserTask::Toast("Could not remove API key: denied".into())]
    );
    assert_eq!(
        p.clear_key_done(Ok(())),
        vec![BrowserTask::Toast("API key removed".into()), BrowserTask::LoadSettings]
    );
    assert!(!p.form.has_stored_api_key);
    assert_eq!(
        p.login_started(Ok(())),
        vec![
            BrowserTask::Toast("Finish sign-in in the browser, then press Refresh".into()),
            BrowserTask::RefreshAuthLater
        ]
    );
}
