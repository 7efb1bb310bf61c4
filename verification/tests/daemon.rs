use cosmic_scribe::app::{
    announces_clipboard, notify_clipboard_ready, output_uses_wtype, recording_file_name,
    result_is_current, retry_delay_ms, stt_failure_message, stt_retries, stt_timeout_message,
    stt_timeout_ms, transcript_usable, AppCore,
};
use cosmic_scribe::app::{api_key_problem, AttemptResult, RetryAction, SttRetry};
use cosmic_scribe::injector::{clipboard_command, wtype_args, wtype_delay_ms};
use cosmic_scribe::ipc::{ipc_event, send_cancel, send_toggle, socket_path};
use cosmic_scribe::logging::{hex_string, LogCtx, LogLevel};
use cosmic_scribe::state::{AppState, Command, Event};

#[test]
fn toggle_without_credentials_stays_idle() {
    let mut core = AppCore::new();
    assert!(core.needs_credential_check(&Event::Toggle));
    let out = core.process_event(Event::Toggle, false);
    assert!(out.open_settings);
    assert_eq!(core.state, AppState::Idle);
    assert_eq!(out.commands.len(), 1);
    assert!(matches!(&out.commands[0], Command::ShowNotification { title, .. } if title == "API key required"));
}

#[test]
fn full_take_through_the_core() {
    let mut core = AppCore::new();
    let out = core.process_event(Event::Toggle, true);
    assert_eq!(core.state, AppState::Recording);
    assert!(!out.done);
    core.process_event(Event::Toggle, true);
    assert_eq!(core.state, AppState::Transcribing);
    assert!(core.awaiting_audio);
    let out = core.process_event(Event::AudioCaptured { bytes: vec![1, 2], duration_ms: 1500 }, true);
    assert_eq!(core.last_duration_ms, 1500);
    assert!(matches!(&out.commands[0], Command::Transcribe(b) if b == &vec![1u8, 2]));
    core.begin_transcription();
    assert!(!core.awaiting_audio);
    core.process_event(Event::TranscriptReady("hi".into()), true);
    assert_eq!(core.state, AppState::Inserting);
    let out = core.process_event(Event::TextInserted, true);
    assert_eq!(core.state, AppState::Idle);
    assert!(out.done);
}

#[test]
fn cancel_during_transcription_drops_results() {
    let mut core = AppCore::new();
    core.process_event(Event::Toggle, true);
    core.process_event(Event::Toggle, true);
    let started = core.generation;
    let out = core.process_event(Event::Cancel, true);
    assert_eq!(core.state, AppState::Idle);
    assert!(out.done);
    assert!(!result_is_current(started, core.generation));
    assert!(!core.awaiting_audio);
}

#[test]
fn late_audio_after_stray_cancel_is_transcribed() {
    let mut core = AppCore::new();
    core.process_event(Event::Toggle, true);
    core.process_event(Event::Toggle, true);
    core.awaiting_audio = true;
    core.state = AppState::Idle;
    let out = core.process_event(Event::AudioCaptured { bytes: vec![9], duration_ms: 700 }, true);
    assert_eq!(core.state, AppState::Transcribing);
    assert!(matches!(&out.commands[0], Command::Transcribe(_)));
}

#[test]
fn stt_policy_settings() {
    assert_eq!(stt_retries(None), 3);
    assert_eq!(stt_retries(Some("5")), 5);
    assert_eq!(stt_retries(Some("x")), 3);
    assert_eq!(retry_delay_ms(1), 1000);
    assert_eq!(retry_delay_ms(3), 4000);
    assert_eq!(retry_delay_ms(55), 500 * (1u64 << 55));
    assert_eq!(stt_timeout_ms(None), 60000);
    assert_eq!(stt_timeout_ms(Some("1500")), 1500);
    assert_eq!(stt_timeout_message(61500), "STT timed out after 61s");
    assert!(!transcript_usable(" \n "));
    assert!(transcript_usable(" a "));
    assert_eq!(stt_failure_message("empty transcript from STT", 3).as_deref(), Some("no speech detected"));
    assert_eq!(stt_failure_message("boom", 3).as_deref(), Some("STT failed after 4 attempts: boom"));
    assert_eq!(stt_failure_message("", 3), None);
    assert!(output_uses_wtype("wtype"));
    assert!(!output_uses_wtype("clipboard"));
    assert!(announces_clipboard("clipboard"));
    assert_eq!(notify_clipboard_ready().0, "Cosmic Scribe");
    assert_eq!(recording_file_name("2026-06-06_22-11-27", 2000), "2026-06-06_22-11-27_2000ms.raw");
}

#[test]
fn wtype_delay_defaults_to_zero() {
    assert_eq!(wtype_delay_ms(None), 0);
    assert_eq!(wtype_delay_ms(Some("12")), 12);
    assert_eq!(wtype_args(0, "hi"), vec!["--", "hi"]);
    assert_eq!(wtype_args(5, "hi"), vec!["-d", "5", "--", "hi"]);
    assert_eq!(clipboard_command(true).0, "wl-copy");
    assert_eq!(clipboard_command(false), ("xclip", vec!["-selection", "clipboard"]));
}

#[test]
fn ipc_protocol() {
    assert!(matches!(ipc_event(" TOGGLE\n"), Some(Event::Toggle)));
    assert!(matches!(ipc_event("CANCEL"), Some(Event::Cancel)));
    assert!(ipc_event("toggle").is_none());
    assert_eq!(send_toggle(), "TOGGLE\n");
    assert_eq!(send_cancel(), "CANCEL\n");
    assert_eq!(socket_path(None), "/tmp/cosmic-scribe.sock");
}

#[test]
fn log_records() {
    assert_eq!(hex_string(255), "ff");
    assert_eq!(hex_string(0), "0");
    let ctx = LogCtx::new(Some(0x1a2b));
    let r = ctx.transcription_received("héllo");
    assert_eq!(r.level, LogLevel::Info);
    assert_eq!(r.message, "transcript received");
    assert_eq!(r.fields[0], ("recording_id", "1a2b".to_string()));
    assert_eq!(r.fields[1], ("text_len", "6".to_string()));
    assert_eq!(r.fields[2], ("preview", "héllo".to_string()));
    let t = LogCtx::new(None).state_transition(&AppState::Idle, &AppState::Recording);
    assert_eq!(t.fields[0].1, "unknown");
    assert_eq!(t.fields[2], ("to", "Recording".to_string()));
    assert_eq!(ctx.stt_error("x").level, LogLevel::Error);
}

#[test]
fn stt_retry_runs_attempts_with_doubling_pauses_then_fails() {
    let mut r = SttRetry::new(2, 60000);
    assert_eq!(r.step(true, None), RetryAction::Attempt { delay_ms: 0 });
    assert_eq!(r.step(true, Some(AttemptResult::Failed("boom".into()))), RetryAction::Attempt { delay_ms: 1000 });
    assert_eq!(r.step(true, Some(AttemptResult::TimedOut)), RetryAction::Attempt { delay_ms: 2000 });
    assert_eq!(r.last_err, "STT timed out after 60s");
    assert_eq!(
        r.step(true, Some(AttemptResult::Failed("boom".into()))),
        RetryAction::Fail(Some("STT failed after 3 attempts: boom".into()))
    );
}

#[test]
fn stt_retry_delivers_usable_text_and_retries_blank_text() {
    let mut r = SttRetry::new(1, 1000);
    assert_eq!(r.step(true, None), RetryAction::Attempt { delay_ms: 0 });
    assert_eq!(r.step(true, Some(AttemptResult::Text("  ".into()))), RetryAction::Attempt { delay_ms: 1000 });
    assert_eq!(r.step(true, Some(AttemptResult::Text(" hi ".into()))), RetryAction::Deliver(" hi ".into()));
    let mut quiet = SttRetry::new(0, 1000);
    quiet.step(true, None);
    assert_eq!(
        quiet.step(true, Some(AttemptResult::Text("".into()))),
        RetryAction::Fail(Some("no speech detected".into()))
    );
}

#[test]
fn stt_retry_stops_once_cancelled() {
    let mut r = SttRetry::new(3, 1000);
    assert_eq!(r.step(false, None), RetryAction::Stop);
    assert_eq!(r.step(true, None), RetryAction::Attempt { delay_ms: 0 });
    assert_eq!(r.step(false, Some(AttemptResult::Text("late".into()))), RetryAction::Stop);
    assert_eq!(r.attempt, 0);
}

#[test]
fn missing_or_empty_api_key_stops_transcription() {
    let (l, e) = api_key_problem(&Err("no file".into())).unwrap();
    assert_eq!(l, "missing API key: no file");
    assert_eq!(e, "API key not configured");
    let (l, _) = api_key_problem(&Ok(String::new())).unwrap();
    assert_eq!(l, "API key is empty");
    assert!(api_key_problem(&Ok("xai-key".into())).is_none());
}
