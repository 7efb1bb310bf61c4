use cosmic_scribe::audio::{captured_duration_ms, keep_progressive, FileAudioCapture};
use cosmic_scribe::stt::{encode_for_upload, encode_wav, prefers_wav, retry_after_unauthorized, wants_opus_encode};
use cosmic_scribe::traits::{AudioData, PreEncodedAudio};

fn tone(samples: usize, freq: f32, amp: f32) -> Vec<u8> {
    let sample_rate = 16000f32;
    (0..samples)
        .map(|i| {
            let t = i as f32 / sample_rate;
            ((t * freq * 2.0 * std::f32::consts::PI).sin() * amp * 32767.0) as i16
        })
        .flat_map(|s| s.to_le_bytes())
        .collect()
}

#[test]
fn test_wav_encoding() {
    let audio = AudioData::pcm(tone(8000, 440.0, 0.5), 16000, 1, 500);
    let wav = encode_wav(&audio).unwrap();
    assert!(wav.len() > 44);
    assert_eq!(&wav[0..4], b"RIFF");
    assert_eq!(&wav[8..12], b"WAVE");
    assert_eq!(wav.len(), 44 + 16000);
}

#[test]
fn test_encode_for_upload_shrinks_with_ffmpeg() {
    let bytes = tone(16000, 440.0, 0.3);
    let audio = AudioData::pcm(bytes, 16000, 1, 1000);
    let upload = encode_for_upload(&audio, false, None).expect("encode");
    assert!(!upload.bytes.is_empty());
    if upload.codec == "opus" {
        assert!(upload.bytes.len() < audio.bytes.len());
        assert_eq!(upload.file_name, "recording.ogg");
    } else {
        assert_eq!(upload.codec, "wav");
    }
}

#[test]
fn test_opus_encode_does_not_deadlock_on_large_pcm() {
    let bytes = tone(16000 * 30, 220.0, 0.2);
    let audio = AudioData::pcm(bytes, 16000, 1, 30_000);
    let start = std::time::Instant::now();
    let upload = encode_for_upload(&audio, false, None).expect("encode large");
    let elapsed = start.elapsed();
    assert!(elapsed < std::time::Duration::from_secs(15), "encode took too long (possible deadlock): {elapsed:?}");
    assert!(!upload.bytes.is_empty());
    if upload.codec == "opus" {
        assert!(upload.bytes.len() < audio.bytes.len() / 2);
    }
}

#[test]
fn test_encode_uses_pre_encoded_progressive() {
    let pcm = vec![0u8; 32000];
    let pre = PreEncodedAudio {
        bytes: b"OggSfake-opus".to_vec(),
        file_name: "recording.ogg".into(),
        mime: "audio/ogg".into(),
        codec: "opus-progressive".into(),
    };
    let mut audio = AudioData::pcm(pcm, 16000, 1, 1000);
    audio.pre_encoded = Some(pre.clone());
    let upload = encode_for_upload(&audio, false, None).unwrap();
    assert_eq!(upload.codec, "opus-progressive");
    assert_eq!(upload.bytes, pre.bytes);
}

#[test]
fn upload_choice_between_opus_and_wav() {
    let audio = AudioData::pcm(vec![0u8; 2000], 16000, 1, 62);
    assert!(wants_opus_encode(&audio, false));
    assert!(!wants_opus_encode(&audio, true));
    let small = encode_for_upload(&audio, false, Some(vec![1u8; 100])).unwrap();
    assert_eq!(small.codec, "opus");
    assert_eq!(small.mime, "audio/ogg");
    assert_eq!(small.pcm_bytes, 2000);
    let not_smaller = encode_for_upload(&audio, false, Some(vec![1u8; 1800])).unwrap();
    assert_eq!(not_smaller.codec, "wav");
    let forced = encode_for_upload(&audio, true, Some(vec![1u8; 100])).unwrap();
    assert_eq!(forced.codec, "wav");
    assert!(prefers_wav(Some("WAV")));
    assert!(!prefers_wav(Some("opus")));
    assert!(!prefers_wav(None));
    assert!(retry_after_unauthorized(401, true, "aaa.bbb.ccc"));
    assert!(!retry_after_unauthorized(403, true, "aaa.bbb.ccc"));
    assert!(!retry_after_unauthorized(401, true, "xai-key"));
    let file = FileAudioCapture::captured(vec![0u8; 64000]);
    assert_eq!(file.duration_ms, 2000);
    assert_eq!(file.sample_rate, 16000);
    assert_eq!(FileAudioCapture::new("a.raw".into()).path, "a.raw");
}

#[test]
fn progressive_audio_kept_only_when_smaller() {
    assert!(keep_progressive(true, 1000, 64_000));
    assert!(!keep_progressive(false, 1000, 64_000));
    assert!(!keep_progressive(true, 0, 64_000));
    // Not 256 bytes smaller: the encode after stop is used instead.
    assert!(!keep_progressive(true, 63_800, 64_000));
    // Tiny takes keep whatever the encoder produced.
    assert!(keep_progressive(true, 5000, 4000));
}

#[test]
fn live_take_duration_is_the_longer_of_pcm_and_wall_clock() {
    assert_eq!(captured_duration_ms(32_000, 900), 1000);
    assert_eq!(captured_duration_ms(32_000, 1500), 1500);
    assert_eq!(captured_duration_ms(16, 0), 1);
    assert_eq!(captured_duration_ms(0, 0), 0);
}

#[test]
fn wav_bytes_follow_the_pcm_header() {
    let audio = AudioData::pcm(vec![1, 0, 0xff, 0xff, 7], 8000, 2, 1);
    let wav = encode_wav(&audio).unwrap();
    let mut want: Vec<u8> = Vec::new();
    want.extend_from_slice(b"RIFF");
    want.extend_from_slice(&40u32.to_le_bytes());
    want.extend_from_slice(b"WAVEfmt ");
    want.extend_from_slice(&16u32.to_le_bytes());
    want.extend_from_slice(&1u16.to_le_bytes());
    want.extend_from_slice(&2u16.to_le_bytes());
    want.extend_from_slice(&8000u32.to_le_bytes());
    want.extend_from_slice(&32000u32.to_le_bytes());
    want.extend_from_slice(&4u16.to_le_bytes());
    want.extend_from_slice(&16u16.to_le_bytes());
    want.extend_from_slice(b"data");
    want.extend_from_slice(&4u32.to_le_bytes());
    want.extend_from_slice(&[1, 0, 0xff, 0xff]);
    assert_eq!(wav, want);
}

#[test]
fn wav_refuses_unfinished_frames_and_bad_formats() {
    let odd = AudioData::pcm(vec![1, 0, 2, 0, 3, 0], 16000, 2, 1);
    assert_eq!(encode_wav(&odd).unwrap_err(), "WAV encoding failed");
    let no_rate = AudioData::pcm(vec![1, 0], 0, 1, 1);
    assert_eq!(encode_wav(&no_rate).unwrap_err(), "unsupported audio format for WAV");
    let no_channels = AudioData::pcm(vec![1, 0], 16000, 0, 1);
    assert_eq!(encode_for_upload(&no_channels, true, None).unwrap_err(), "unsupported audio format for WAV");
}

#[test]
fn wav_bytes_for_more_channels_use_the_extensible_header() {
    let audio = AudioData::pcm(vec![1, 0, 2, 0, 3, 0], 8000, 3, 1);
    let wav = encode_wav(&audio).unwrap();
    let mut want: Vec<u8> = Vec::new();
    want.extend_from_slice(b"RIFF");
    want.extend_from_slice(&66u32.to_le_bytes());
    want.extend_from_slice(b"WAVEfmt ");
    want.extend_from_slice(&40u32.to_le_bytes());
    want.extend_from_slice(&0xfffeu16.to_le_bytes());
    want.extend_from_slice(&3u16.to_le_bytes());
    want.extend_from_slice(&8000u32.to_le_bytes());
    want.extend_from_slice(&48000u32.to_le_bytes());
    want.extend_from_slice(&6u16.to_le_bytes());
    want.extend_from_slice(&16u16.to_le_bytes());
    want.extend_from_slice(&22u16.to_le_bytes());
    want.extend_from_slice(&16u16.to_le_bytes());
    want.extend_from_slice(&7u32.to_le_bytes());
    want.extend_from_slice(&[0x01, 0x00, 0x00, 0x00, 0x00, 0x00, 0x10, 0x00, 0x80, 0x00, 0x00, 0xaa, 0x00, 0x38, 0x9b, 0x71]);
    want.extend_from_slice(b"data");
    want.extend_from_slice(&6u32.to_le_bytes());
    want.extend_from_slice(&[1, 0, 2, 0, 3, 0]);
    assert_eq!(wav, want);
}
