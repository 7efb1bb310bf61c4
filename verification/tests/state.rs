use cosmic_scribe::state::{transition, AppState, Command, Event};

fn assert_same_variants(got: &[Command], expected: &[Command]) {
    assert_eq!(got.len(), expected.len(), "command count mismatch");
    for (g, e) in got.iter().zip(expected.iter()) {
        assert_eq!(
            std::mem::discriminant(g),
            std::mem::discriminant(e),
            "expected {e:?} variant, got {g:?}"
        );
    }
}

#[test]
fn test_idle_toggle_starts_recording() {
    let (s, cmds) = transition(&AppState::Idle, &Event::Toggle);
    assert_eq!(s, AppState::Recording);
    assert_same_variants(&cmds, &[Command::StartCapture, Command::SetTrayState("x".into())]);
}

#[test]
fn test_idle_cancel_is_noop() {
    let (s, cmds) = transition(&AppState::Idle, &Event::Cancel);
    assert_eq!(s, AppState::Idle);
    assert!(cmds.is_empty());
}

#[test]
fn test_idle_ignores_other_events() {
    for event in &[
        Event::AudioCaptured { bytes: vec![], duration_ms: 0 },
        Event::TranscriptReady("x".into()),
        Event::TextInserted,
        Event::Error("x".into()),
    ] {
        let (s, cmds) = transition(&AppState::Idle, event);
        assert_eq!(s, AppState::Idle, "unexpected transition on {event:?}");
        assert!(cmds.is_empty());
    }
}

#[test]
fn test_recording_toggle_starts_transcribing() {
    let (s, cmds) = transition(&AppState::Recording, &Event::Toggle);
    assert_eq!(s, AppState::Transcribing);
    assert_same_variants(&cmds, &[Command::StopCapture, Command::SetTrayState("x".into())]);
}

#[test]
fn test_recording_cancel_goes_idle() {
    let (s, cmds) = transition(&AppState::Recording, &Event::Cancel);
    assert_eq!(s, AppState::Idle);
    assert_same_variants(&cmds, &[Command::StopCapture, Command::SetTrayState("x".into())]);
}

#[test]
fn test_recording_error_returns_idle() {
    let (s, cmds) = transition(&AppState::Recording, &Event::Error("boom".into()));
    assert_eq!(s, AppState::Idle);
    assert!(cmds.len() >= 2);
}

#[test]
fn test_transcribing_toggle_is_ignored() {
    let (s, cmds) = transition(&AppState::Transcribing, &Event::Toggle);
    assert_eq!(s, AppState::Transcribing);
    assert!(cmds.is_empty());
}

#[test]
fn test_transcribing_cancel_goes_idle() {
    let (s, _) = transition(&AppState::Transcribing, &Event::Cancel);
    assert_eq!(s, AppState::Idle);
}

#[test]
fn test_transcribing_audio_triggers_stt() {
    let data = vec![0u8; 100];
    let (s, cmds) = transition(
        &AppState::Transcribing,
        &Event::AudioCaptured { bytes: data.clone(), duration_ms: 1000 },
    );
    assert_eq!(s, AppState::Transcribing);
    assert_same_variants(&cmds, &[Command::Transcribe(data)]);
}

#[test]
fn test_transcribing_transcript_starts_inserting() {
    let text = "hello world";
    let (s, cmds) = transition(&AppState::Transcribing, &Event::TranscriptReady(text.into()));
    assert_eq!(s, AppState::Inserting);
    assert_eq!(cmds.len(), 3);
    assert!(matches!(&cmds[0], Command::CopyToClipboard(t) if t == "hello world"));
    assert!(matches!(&cmds[1], Command::InjectText(t) if t == "hello world"));
    assert!(matches!(&cmds[2], Command::SetTrayState(t) if t == "inserting"));
}

#[test]
fn test_transcribing_error_returns_idle() {
    let (s, cmds) = transition(&AppState::Transcribing, &Event::Error("api fail".into()));
    assert_eq!(s, AppState::Idle);
    assert!(cmds.iter().any(|c| matches!(c, Command::SetTrayState(s) if s == "idle")));
}

#[test]
fn test_inserting_text_inserted_goes_idle() {
    let (s, cmds) = transition(&AppState::Inserting, &Event::TextInserted);
    assert_eq!(s, AppState::Idle);
    assert_same_variants(&cmds, &[Command::SetTrayState("x".into())]);
}

#[test]
fn test_inserting_toggle_aborts() {
    let (s, _) = transition(&AppState::Inserting, &Event::Toggle);
    assert_eq!(s, AppState::Idle);
}

#[test]
fn test_inserting_cancel_aborts() {
    let (s, _) = transition(&AppState::Inserting, &Event::Cancel);
    assert_eq!(s, AppState::Idle);
}

#[test]
fn test_inserting_error_returns_idle() {
    let (s, _) = transition(&AppState::Inserting, &Event::Error("inject fail".into()));
    assert_eq!(s, AppState::Idle);
}

#[test]
fn test_error_toggle_recovers() {
    let e = AppState::Error { message: "x".into(), recoverable: true };
    let (s, cmds) = transition(&e, &Event::Toggle);
    assert_eq!(s, AppState::Idle);
    assert_same_variants(&cmds, &[Command::SetTrayState("x".into())]);
}

#[test]
fn test_error_cancel_recovers() {
    let e = AppState::Error { message: "x".into(), recoverable: true };
    let (s, _) = transition(&e, &Event::Cancel);
    assert_eq!(s, AppState::Idle);
}

#[test]
fn test_full_cycle() {
    let state = AppState::Idle;
    let (state, _) = transition(&state, &Event::Toggle);
    assert_eq!(state, AppState::Recording);
    let (state, _) = transition(&state, &Event::Toggle);
    assert_eq!(state, AppState::Transcribing);
    let (state, _) = transition(
        &state,
        &Event::AudioCaptured { bytes: vec![0u8; 100], duration_ms: 1000 },
    );
    assert_eq!(state, AppState::Transcribing);
    let (state, _) = transition(&state, &Event::TranscriptReady("hello".into()));
    assert_eq!(state, AppState::Inserting);
    let (state, _) = transition(&state, &Event::TextInserted);
    assert_eq!(state, AppState::Idle);
}

#[test]
fn test_can_cancel_from_active_states() {
    assert!(!AppState::Idle.can_cancel());
    assert!(AppState::Recording.can_cancel());
    assert!(AppState::Transcribing.can_cancel());
    assert!(AppState::Inserting.can_cancel());
    assert!(!AppState::Error { message: "x".into(), recoverable: true }.can_cancel());
}

#[test]
fn test_idle_not_active() {
    assert!(!AppState::Idle.is_active());
    assert!(AppState::Recording.is_active());
    assert!(AppState::Transcribing.is_active());
    assert!(AppState::Inserting.is_active());
    assert!(AppState::Error { message: "x".into(), recoverable: true }.is_active());
}

#[test]
fn cancel_from_every_state_pastes_nothing() {
    for s in [
        AppState::Idle,
        AppState::Recording,
        AppState::Transcribing,
        AppState::Inserting,
        AppState::Error { message: "e".into(), recoverable: true },
    ] {
        let (next, cmds) = transition(&s, &Event::Cancel);
        assert_eq!(next, AppState::Idle);
        assert!(!cmds.iter().any(|c| matches!(c, Command::InjectText(_) | Command::CopyToClipboard(_))));
    }
}

#[test]
fn error_state_labels_and_errors() {
    assert_eq!(AppState::Recording.label(), "Recording");
    assert_eq!(AppState::Error { message: "x".into(), recoverable: false }.label(), "Error");
    let (s, cmds) = transition(&AppState::Inserting, &Event::Error("boom".into()));
    assert_eq!(s, AppState::Idle);
    assert!(cmds.iter().any(|c| matches!(c, Command::ShowNotification { body, .. } if body == "Text was copied but injection failed: boom")));
    let e = AppState::Error { message: "a".into(), recoverable: false };
    let (s, _) = transition(&e, &Event::Error("b".into()));
    assert_eq!(s, AppState::Error { message: "b".into(), recoverable: true });
}
