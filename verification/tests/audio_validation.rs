use cosmic_scribe::audio_validation::{
    duration_ms_from_pcm, format_duration_ms, is_silent, validate_audio, ValidationError,
    MAX_FILE_BYTES, MIN_DURATION_MS,
};

fn tone_pcm(len: usize) -> Vec<u8> {
    (0..len / 2)
        .flat_map(|i| {
            let s = (i as i32 * 7919 % 8000 + 500) as i16;
            s.to_le_bytes()
        })
        .collect()
}

#[test]
fn test_empty_audio() {
    let err = validate_audio(&[], 0).unwrap_err();
    assert_eq!(err, ValidationError::Empty);
    assert_eq!(err.to_string(), "no audio captured");
}

#[test]
fn test_too_short() {
    let err = validate_audio(&tone_pcm(3200), 100).unwrap_err();
    assert!(matches!(err, ValidationError::TooShort { .. }));
    assert!(err.to_string().contains("100ms"));
}

#[test]
fn test_valid_audio() {
    assert!(validate_audio(&tone_pcm(3200), 600).is_ok());
}

#[test]
fn test_boundary_short() {
    assert!(validate_audio(&tone_pcm(3200), MIN_DURATION_MS).is_ok());
    assert!(validate_audio(&tone_pcm(3200), MIN_DURATION_MS - 1).is_err());
}

#[test]
fn test_too_long() {
    let huge = vec![0u8; (MAX_FILE_BYTES + 1).try_into().unwrap()];
    let err = validate_audio(&huge, 1000000).unwrap_err();
    assert!(matches!(err, ValidationError::TooLong { .. }));
}

#[test]
fn test_quiet_pcm_not_rejected() {
    let quiet = vec![0u8; 64_000];
    assert!(validate_audio(&quiet, 2000).is_ok());
    assert!(is_silent(&quiet));
}

#[test]
fn pcm_duration_and_labels() {
    assert_eq!(duration_ms_from_pcm(&tone_pcm(64_000)), 2000);
    assert_eq!(duration_ms_from_pcm(&[0u8; 16]), 1);
    assert_eq!(duration_ms_from_pcm(&[0u8; 15]), 0);
    assert_eq!(format_duration_ms(6500), "7s");
    assert_eq!(format_duration_ms(6000), "6s");
    assert!(!is_silent(&tone_pcm(64_000)));
    assert!(!is_silent(&[0u8; 100]));
}

#[test]
fn pactl_outputs_give_mic_warnings() {
    assert_eq!(
        cosmic_scribe::audio_validation::mute_warning("Mute: yes\n").as_deref(),
        Some("Microphone is muted — unmute before dictating")
    );
    assert_eq!(cosmic_scribe::audio_validation::mute_warning("Mute: no\n"), None);
    let zero = "Volume: front-left: 0 /   0% / -inf dB,   front-right: 0 /   0% / -inf dB\n";
    assert_eq!(
        cosmic_scribe::audio_validation::volume_warning(zero).as_deref(),
        Some("Microphone input volume is 0% — raise it before dictating")
    );
    let loud = "Volume: front-left: 65536 / 100% / 0.00 dB\n";
    assert_eq!(cosmic_scribe::audio_validation::volume_warning(loud), None);
    assert_eq!(cosmic_scribe::audio_validation::volume_warning("x%"), None);
}
